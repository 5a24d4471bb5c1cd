use konfigurator::error::FormatError;
use konfigurator::model::{ConfigDataType, Konfigurator};

const DOC: &str = r#"<?xml version="1.0"?>
<!-- sample tunables -->
<Konfigurator name="demo" arch="x64" profile="release">
    <Section name="Net">
        <Config key="Enabled">
            <Boolean default="false" value="true"/>
        </Config>
        <Config key="Port">
            <Integer default="8080" min="1" max="65535"/>
        </Config>
    </Section>
    <Section name="A">
        <Section name="B">
            <Config key="Size">
                <Integer default="10"/>
            </Config>
        </Section>
        <Config key="Mode">
            <Enum default="1">
                <Member>off</Member>
                <Member>on</Member>
                <Member>auto</Member>
            </Enum>
        </Config>
    </Section>
</Konfigurator>
"#;

#[test]
fn parses_a_whole_document() {
    let k = Konfigurator::from_text(DOC).expect("the document matches the schema");
    assert_eq!(k.name, "demo");
    assert_eq!(k.arch, "x64");
    assert_eq!(k.profile, "release");
    assert_eq!(k.sections.len(), 2);
    let net = &k.sections[0];
    assert_eq!(net.name, "Net");
    assert_eq!(net.configs.len(), 2);
    assert_eq!(net.configs[0].key, "Enabled");
    let a = &k.sections[1];
    assert_eq!(a.name, "A");
    assert_eq!(a.sections.len(), 1);
    assert_eq!(a.sections[0].name, "B");
    assert_eq!(a.sections[0].configs[0].key, "Size");
    match a.configs[0].value() {
        Ok(ConfigDataType::Enum(s)) => assert_eq!(s, "on"),
        _ => panic!("expected the enum to resolve"),
    }
}

#[test]
fn single_quoted_attributes_are_accepted() {
    let k = Konfigurator::from_text(
        "<Konfigurator name='d' arch='a' profile='p'><Section name='S'><Config key='K'><Integer default='1'/></Config></Section></Konfigurator>",
    )
    .expect("single quotes are part of the carrier syntax");
    assert_eq!(k.sections[0].name, "S");
}

#[test]
fn missing_mandatory_default_is_a_format_failure() {
    let text = r#"<Konfigurator name="d" arch="a" profile="p">
        <Section name="S">
            <Config key="Flag"><Boolean value="true"/></Config>
        </Section>
    </Konfigurator>"#;
    match Konfigurator::from_text(text) {
        Err(FormatError::MissingAttribute(tag, attr)) => {
            assert_eq!(tag, "Boolean");
            assert_eq!(attr, "default");
        },
        _ => panic!("expected a missing-attribute failure"),
    }
}

#[test]
fn broken_syntax_is_a_format_failure() {
    match Konfigurator::from_text("<Konfigurator name=\"d\"") {
        Err(FormatError::Syntax) => {},
        _ => panic!("expected a syntax failure"),
    }
    match Konfigurator::from_text("no markup at all") {
        Err(FormatError::Syntax) => {},
        _ => panic!("expected a syntax failure"),
    }
    match Konfigurator::from_text("<A><B></A></B>") {
        Err(FormatError::Syntax) => {},
        _ => panic!("mismatched tags break the carrier syntax"),
    }
}

#[test]
fn wrong_root_is_reported() {
    match Konfigurator::from_text("<Settings name=\"d\" arch=\"a\" profile=\"p\"></Settings>") {
        Err(FormatError::WrongRoot(tag)) => assert_eq!(tag, "Settings"),
        _ => panic!("expected a wrong-root failure"),
    }
}

#[test]
fn unknown_attribute_is_reported() {
    let text = "<Konfigurator name=\"d\" arch=\"a\" profile=\"p\" extra=\"x\"></Konfigurator>";
    match Konfigurator::from_text(text) {
        Err(FormatError::UnknownAttribute(tag, attr)) => {
            assert_eq!(tag, "Konfigurator");
            assert_eq!(attr, "extra");
        },
        _ => panic!("expected an unknown-attribute failure"),
    }
}

#[test]
fn unknown_child_is_reported() {
    let text = "<Konfigurator name=\"d\" arch=\"a\" profile=\"p\"><Para/></Konfigurator>";
    match Konfigurator::from_text(text) {
        Err(FormatError::UnknownChild(tag, child)) => {
            assert_eq!(tag, "Konfigurator");
            assert_eq!(child, "Para");
        },
        _ => panic!("expected an unknown-child failure"),
    }
}

#[test]
fn non_boolean_default_is_a_bad_value() {
    let text = "<Konfigurator name=\"d\" arch=\"a\" profile=\"p\"><Section name=\"S\"><Config key=\"K\"><Boolean default=\"yes\"/></Config></Section></Konfigurator>";
    match Konfigurator::from_text(text) {
        Err(FormatError::BadValue(attr, value)) => {
            assert_eq!(attr, "default");
            assert_eq!(value, "yes");
        },
        _ => panic!("expected a bad-value failure"),
    }
}

#[test]
fn integer_bounds_are_respected() {
    let ok = "<Konfigurator name=\"d\" arch=\"a\" profile=\"p\"><Section name=\"S\"><Config key=\"K\"><Integer default=\"-2147483648\" value=\"2147483647\"/></Config></Section></Konfigurator>";
    let k = Konfigurator::from_text(ok).expect("both extremes fit 32 bits");
    match k.sections[0].configs[0].value() {
        Ok(ConfigDataType::Integer(v)) => assert_eq!(v, 2147483647),
        _ => panic!("expected an integer"),
    }
    let too_big = "<Konfigurator name=\"d\" arch=\"a\" profile=\"p\"><Section name=\"S\"><Config key=\"K\"><Integer default=\"2147483648\"/></Config></Section></Konfigurator>";
    match Konfigurator::from_text(too_big) {
        Err(FormatError::BadValue(attr, value)) => {
            assert_eq!(attr, "default");
            assert_eq!(value, "2147483648");
        },
        _ => panic!("expected a bad-value failure"),
    }
}

#[test]
fn double_literals_are_shape_checked() {
    for good in ["1.5", "-2.", ".5", "1e9", "2.5E-3", "+0.25", "7"] {
        let text = format!(
            "<Konfigurator name=\"d\" arch=\"a\" profile=\"p\"><Section name=\"S\"><Config key=\"K\"><Double default=\"{}\"/></Config></Section></Konfigurator>",
            good
        );
        assert!(Konfigurator::from_text(&text).is_ok(), "rejected {}", good);
    }
    for bad in ["abc", "1.2.3", "e5", "-", ".", "1e", "--1"] {
        let text = format!(
            "<Konfigurator name=\"d\" arch=\"a\" profile=\"p\"><Section name=\"S\"><Config key=\"K\"><Double default=\"{}\"/></Config></Section></Konfigurator>",
            bad
        );
        match Konfigurator::from_text(&text) {
            Err(FormatError::BadValue(_, value)) => assert_eq!(value, bad),
            _ => panic!("accepted {}", bad),
        }
    }
}

#[test]
fn a_config_needs_exactly_one_value_kind() {
    let none = "<Konfigurator name=\"d\" arch=\"a\" profile=\"p\"><Section name=\"S\"><Config key=\"K\"></Config></Section></Konfigurator>";
    match Konfigurator::from_text(none) {
        Err(FormatError::NoValueKind(key)) => assert_eq!(key, "K"),
        _ => panic!("expected a missing-value failure"),
    }
    let two = "<Konfigurator name=\"d\" arch=\"a\" profile=\"p\"><Section name=\"S\"><Config key=\"K\"><Boolean default=\"true\"/><Integer default=\"1\"/></Config></Section></Konfigurator>";
    match Konfigurator::from_text(two) {
        Err(FormatError::ManyValueKinds(key)) => assert_eq!(key, "K"),
        _ => panic!("expected a many-kinds failure"),
    }
}

#[test]
fn enum_members_carry_their_text() {
    let text = "<Konfigurator name=\"d\" arch=\"a\" profile=\"p\"><Section name=\"S\"><Config key=\"K\"><Enum default=\"0\" value=\"1\"><Member>first</Member><Member>second</Member></Enum></Config></Section></Konfigurator>";
    let k = Konfigurator::from_text(text).unwrap();
    match k.sections[0].configs[0].value() {
        Ok(ConfigDataType::Enum(s)) => assert_eq!(s, "second"),
        _ => panic!("expected the enum to resolve"),
    }
}

#[test]
fn attribute_order_does_not_matter() {
    let k = Konfigurator::from_text(
        "<Konfigurator profile=\"p\" name=\"d\" arch=\"a\"></Konfigurator>",
    )
    .unwrap();
    assert_eq!(k.name, "d");
    assert_eq!(k.arch, "a");
    assert_eq!(k.profile, "p");
}

#[test]
fn comments_and_instructions_inside_content_are_skipped() {
    let text = "<Konfigurator name=\"d\" arch=\"a\" profile=\"p\">\n<!-- top --><Section name=\"S\"><?note ignore me?><Config key=\"K\"><Integer default=\"2\"/></Config><!-- tail --></Section></Konfigurator>";
    let k = Konfigurator::from_text(text).unwrap();
    assert_eq!(k.sections[0].configs[0].key, "K");
}

#[test]
fn trailing_garbage_is_a_syntax_failure() {
    let text = "<Konfigurator name=\"d\" arch=\"a\" profile=\"p\"></Konfigurator> junk";
    match Konfigurator::from_text(text) {
        Err(FormatError::Syntax) => {},
        _ => panic!("expected a syntax failure"),
    }
}
