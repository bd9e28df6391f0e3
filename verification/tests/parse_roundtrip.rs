//! Exercises the shape of the implementations the from-string pass emits:
//! parse via the structured-data deserializer, wrap any failure in a local
//! error type, succeed on every valid encoding.
use std::str::FromStr;

#[derive(Debug, PartialEq)]
enum Mode {
    Alpha,
    FooBar,
}

struct ModeVisitor;

impl<'de> serde::de::Visitor<'de> for ModeVisitor {
    type Value = Mode;

    fn expecting(&self, f: &mut std::fmt::Formatter<'_>) -> std::fmt::Result {
        f.write_str("a mode name")
    }

    fn visit_str<E: serde::de::Error>(self, v: &str) -> Result<Mode, E> {
        match v {
            "Alpha" => Ok(Mode::Alpha),
            "foo-bar" => Ok(Mode::FooBar),
            _ => Err(E::custom("unknown mode")),
        }
    }
}

impl<'de> serde::Deserialize<'de> for Mode {
    fn deserialize<D: serde::Deserializer<'de>>(d: D) -> Result<Mode, D::Error> {
        d.deserialize_str(ModeVisitor)
    }
}

#[derive(Debug)]
struct Error(serde_yaml::Error);

impl Error {
    fn new(e: serde_yaml::Error) -> Error {
        Error(e)
    }
}

impl FromStr for Mode {
    type Err = Error;

    fn from_str(s: &str) -> Result<Self, Self::Err> {
        serde_yaml::from_str(s).map_err(Error::new)
    }
}

#[test]
fn from_str_parses_valid_text_and_wraps_failures() {
    assert_eq!(Mode::from_str("Alpha").unwrap(), Mode::Alpha);
    assert_eq!(Mode::from_str("foo-bar").unwrap(), Mode::FooBar);
    assert!(Mode::from_str("no such variant").is_err());
    assert!(Mode::from_str("{ unclosed").is_err());
}
