//! The flat `key: value` subset that content files use parses the same
//! way a YAML reader parses it.

use yaml_rust::{Yaml, YamlLoader};
use yasg::meta::parse_line;

fn yaml_scalar_as_string(doc: &str, key: &str) -> Option<String> {
    let docs = YamlLoader::load_from_str(doc).unwrap();
    let hash = match docs.first() {
        Some(Yaml::Hash(h)) => h,
        _ => return None,
    };
    match hash.get(&Yaml::String(String::from(key))) {
        Some(Yaml::String(s)) => Some(s.clone()),
        Some(Yaml::Integer(i)) => Some(i.to_string()),
        Some(Yaml::Boolean(b)) => Some(b.to_string()),
        Some(Yaml::Real(r)) => Some(r.clone()),
        _ => None,
    }
}

fn flat_value(line: &str) -> Option<String> {
    match parse_line(line) {
        Some((_, v)) => v,
        None => None,
    }
}

#[test]
fn string_values_match_yaml() {
    for doc in ["title: Hello", "title: \"Quoted text\"", "title:   padded  "] {
        assert_eq!(
            flat_value(doc),
            yaml_scalar_as_string(doc, "title"),
            "for {:?}",
            doc
        );
    }
}

#[test]
fn scalar_coercions_match_yaml() {
    for doc in ["n: 42", "n: true", "n: 1.5"] {
        assert_eq!(flat_value(doc), yaml_scalar_as_string(doc, "n"), "for {:?}", doc);
    }
}

#[test]
fn null_values_match_yaml() {
    assert_eq!(flat_value("title:"), yaml_scalar_as_string("title:", "title"));
}

#[test]
fn nested_blocks_do_not_leak_keys() {
    // A `title` nested under another key is not a top-level `title`,
    // for the YAML reader and for the flat reader alike.
    let doc = "extra:\n  title: nested";
    assert_eq!(yaml_scalar_as_string(doc, "title"), None);
    assert_eq!(flat_value("  title: nested"), None);
}
