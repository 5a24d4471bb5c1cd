use konfigurator::error::{FileFormatError, FormatError, IOError};
use konfigurator::model::{
    BooleanType, ConfigDataType, ConfigType, DoubleType, EnumType, IntegerType, MemberType,
    StringType,
};

fn empty_config(key: &str) -> ConfigType {
    ConfigType {
        key: key.to_string(),
        boolean: None,
        integer: None,
        double: None,
        string: None,
        enumeration: None,
    }
}

#[test]
fn boolean_without_override_resolves_to_default() {
    let mut c = empty_config("Enabled");
    c.boolean = Some(BooleanType { default: false, value: None });
    match c.value() {
        Ok(ConfigDataType::Boolean(b)) => assert_eq!(b, false),
        other => panic!("unexpected resolution: {:?}", other.is_ok()),
    }
}

#[test]
fn boolean_with_override_resolves_to_override() {
    let mut c = empty_config("Enabled");
    c.boolean = Some(BooleanType { default: false, value: Some(true) });
    match c.value() {
        Ok(ConfigDataType::Boolean(b)) => assert_eq!(b, true),
        _ => panic!("expected a boolean"),
    }
}

#[test]
fn integer_without_override_resolves_to_default() {
    let mut c = empty_config("Size");
    c.integer = Some(IntegerType { default: 10, value: None, min: None, max: None });
    match c.value() {
        Ok(ConfigDataType::Integer(v)) => assert_eq!(v, 10),
        _ => panic!("expected an integer"),
    }
}

#[test]
fn integer_with_override_resolves_to_override() {
    let mut c = empty_config("Size");
    c.integer = Some(IntegerType { default: 10, value: Some(-3), min: Some(-10), max: Some(99) });
    match c.value() {
        Ok(ConfigDataType::Integer(v)) => assert_eq!(v, -3),
        _ => panic!("expected an integer"),
    }
}

#[test]
fn double_keeps_literal_text() {
    let mut c = empty_config("Ratio");
    c.double = Some(DoubleType {
        default: "2.5".to_string(),
        value: Some("1e-3".to_string()),
        min: None,
        max: None,
    });
    match c.value() {
        Ok(ConfigDataType::Double(t)) => assert_eq!(t, "1e-3"),
        _ => panic!("expected a double"),
    }
}

#[test]
fn string_without_override_resolves_to_default() {
    let mut c = empty_config("Host");
    c.string = Some(StringType {
        default: "localhost".to_string(),
        value: None,
        min_length: None,
        max_length: Some(64),
    });
    match c.value() {
        Ok(ConfigDataType::String(s)) => assert_eq!(s, "localhost"),
        _ => panic!("expected a string"),
    }
}

fn mode_enum(default: u32, value: Option<u32>) -> EnumType {
    EnumType {
        default,
        value,
        members: vec![
            MemberType { content: "off".to_string() },
            MemberType { content: "on".to_string() },
            MemberType { content: "auto".to_string() },
        ],
    }
}

#[test]
fn enum_resolves_to_member_at_default_index() {
    let mut c = empty_config("Mode");
    c.enumeration = Some(mode_enum(1, None));
    match c.value() {
        Ok(ConfigDataType::Enum(s)) => assert_eq!(s, "on"),
        _ => panic!("expected an enum payload"),
    }
}

#[test]
fn enum_resolves_to_member_at_override_index() {
    let mut c = empty_config("Mode");
    c.enumeration = Some(mode_enum(1, Some(2)));
    match c.value() {
        Ok(ConfigDataType::Enum(s)) => assert_eq!(s, "auto"),
        _ => panic!("expected an enum payload"),
    }
}

#[test]
fn enum_index_out_of_range_is_reported() {
    let mut c = empty_config("Mode");
    c.enumeration = Some(mode_enum(3, None));
    match c.value() {
        Err(FormatError::EnumIndexOutOfRange(key)) => assert_eq!(key, "Mode"),
        _ => panic!("expected an out-of-range failure"),
    }
}

#[test]
fn enum_override_out_of_range_is_reported() {
    let mut c = empty_config("Mode");
    c.enumeration = Some(mode_enum(0, Some(7)));
    match c.value() {
        Err(FormatError::EnumIndexOutOfRange(key)) => assert_eq!(key, "Mode"),
        _ => panic!("expected an out-of-range failure"),
    }
}

#[test]
fn config_without_value_kind_is_reported() {
    let c = empty_config("Ghostly");
    match c.value() {
        Err(FormatError::NoValueKind(key)) => assert_eq!(key, "Ghostly"),
        _ => panic!("expected a missing-value failure"),
    }
}

#[test]
fn error_messages_carry_their_context() {
    let e = FormatError::EnumIndexOutOfRange("Mode".to_string());
    assert_eq!(e.message(), "config `Mode` selects an enum member that does not exist");
    let e = FormatError::NoValueKind("K".to_string());
    assert_eq!(e.message(), "config `K` holds no value element");
    let e = FormatError::MissingAttribute("Boolean".to_string(), "default".to_string());
    assert_eq!(
        e.message(),
        "element `Boolean` is missing its mandatory attribute `default`"
    );
}

#[test]
fn io_error_messages_follow_their_stage() {
    let e = IOError::PathResolutionError("NotFound".to_string(), "no directory".to_string());
    assert_eq!(e.message(), "Could not resolve path: NotFound: no directory");
    let e = IOError::ReadError("NotFound".to_string(), "gone".to_string());
    assert_eq!(e.message(), "Error while reading: NotFound: gone");
    let e = IOError::WriteError("Denied".to_string(), "read-only".to_string());
    assert_eq!(e.message(), "Error while writing: Denied: read-only");
    let f = FileFormatError("a/b.xml".to_string(), "bad".to_string());
    assert_eq!(f.message(), "File format error: a/b.xml: bad");
}
