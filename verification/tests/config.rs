//! Compile-configuration tests: selecting the vertex layout.

use nexodia::config::{Config, ConfigError};
use nexodia::model::VertexType;

#[test]
fn empty_text_defaults_to_basic() {
    let c = Config::new(b"").expect("empty text parses");
    assert_eq!(c.vertex_type, VertexType::Basic);
}

#[test]
fn selects_the_named_layout() {
    let c = Config::new(b"VertexType = NUS\n").expect("well-formed text parses");
    assert_eq!(c.vertex_type, VertexType::NUS);
    let c = Config::new(b"VertexType=NU").expect("well-formed text parses");
    assert_eq!(c.vertex_type, VertexType::NU);
    let c = Config::new(b"  VertexType\t=  U  \r\n").expect("well-formed text parses");
    assert_eq!(c.vertex_type, VertexType::U);
}

#[test]
fn unknown_keys_and_values_are_ignored() {
    let c = Config::new(b"Quality = High\nVertexType = Wavy\n").expect("text parses");
    assert_eq!(c.vertex_type, VertexType::Basic);
}

#[test]
fn last_selection_wins() {
    let c = Config::new(b"VertexType = U\nVertexType = NUS\n").expect("text parses");
    assert_eq!(c.vertex_type, VertexType::NUS);
}

#[test]
fn key_without_value_is_malformed() {
    match Config::new(b"VertexType\n") {
        Err(ConfigError::MissingValue) => {},
        other => panic!("expected a missing-value error, got {:?}", other),
    }
}
