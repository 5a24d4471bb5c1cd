use konfigurator::emit::Dump;
use konfigurator::error::FormatError;
use konfigurator::header::extract_identity;
use konfigurator::model::Konfigurator;

fn demo(body: &str) -> String {
    format!(
        "<Konfigurator name=\"demo\" arch=\"x64\" profile=\"release\">{}</Konfigurator>",
        body
    )
}

#[test]
fn header_banner_is_exact() {
    let k = Konfigurator::from_text(&demo("")).unwrap();
    let out = k.render().unwrap();
    assert_eq!(
        out,
        "//\n// This is an auto-generated file; Do not edit.\n// Konfigurator v0.1.0 | demo/x64/release\n//\n"
    );
}

#[test]
fn scenario_boolean_override_under_net() {
    let body = "<Section name=\"Net\"><Config key=\"Enabled\"><Boolean default=\"false\" value=\"true\"/></Config></Section>";
    let k = Konfigurator::from_text(&demo(body)).unwrap();
    let out = k.render().unwrap();
    let banner_at = out.find("//\n// Net\n//\n").expect("section banner present");
    let decl_at = out
        .find("#[no_mangle]\npub static NET_ENABLED: bool = true;\n")
        .expect("declaration present");
    assert!(banner_at < decl_at, "the banner precedes the declaration");
}

#[test]
fn scenario_nested_integer_default() {
    let body = "<Section name=\"A\"><Section name=\"B\"><Config key=\"Size\"><Integer default=\"10\"/></Config></Section></Section>";
    let k = Konfigurator::from_text(&demo(body)).unwrap();
    let out = k.render().unwrap();
    assert!(out.contains("//\n// A::B\n//\n"), "inner banner reads A::B");
    assert!(out.contains("#[no_mangle]\npub static A_B_SIZE: i32 = 10;\n"));
}

#[test]
fn scenario_enum_default_payload() {
    let body = "<Section name=\"Run\"><Config key=\"Mode\"><Enum default=\"1\"><Member>off</Member><Member>on</Member><Member>auto</Member></Enum></Config></Section>";
    let k = Konfigurator::from_text(&demo(body)).unwrap();
    let out = k.render().unwrap();
    assert!(out.contains("#[no_mangle]\npub static RUN_MODE: &'static str = \"on\";\n"));
}

#[test]
fn double_and_string_literals_are_emitted() {
    let body = "<Section name=\"S\"><Config key=\"Ratio\"><Double default=\"2.5e-1\"/></Config><Config key=\"Host\"><String default=\"localhost\"/></Config></Section>";
    let k = Konfigurator::from_text(&demo(body)).unwrap();
    let out = k.render().unwrap();
    assert!(out.contains("#[no_mangle]\npub static S_RATIO: f64 = 2.5e-1;\n"));
    assert!(out.contains("#[no_mangle]\npub static S_HOST: &'static str = \"localhost\";\n"));
}

#[test]
fn negative_extreme_integer_is_emitted_in_decimal() {
    let body = "<Section name=\"S\"><Config key=\"Low\"><Integer default=\"-2147483648\"/></Config></Section>";
    let k = Konfigurator::from_text(&demo(body)).unwrap();
    let out = k.render().unwrap();
    assert!(out.contains("pub static S_LOW: i32 = -2147483648;\n"));
}

#[test]
fn emission_is_idempotent() {
    let body = "<Section name=\"Net\"><Config key=\"Enabled\"><Boolean default=\"false\" value=\"true\"/></Config></Section><Section name=\"A\"><Section name=\"B\"><Config key=\"Size\"><Integer default=\"10\"/></Config></Section></Section>";
    let k = Konfigurator::from_text(&demo(body)).unwrap();
    let first = k.render().unwrap();
    let second = k.render().unwrap();
    assert_eq!(first, second);
}

#[test]
fn identity_survives_the_round_trip() {
    let body = "<Section name=\"Net\"><Config key=\"Enabled\"><Boolean default=\"true\"/></Config></Section>";
    let k = Konfigurator::from_text(&demo(body)).unwrap();
    let out = k.render().unwrap();
    let (name, arch, profile) = extract_identity(&out).expect("the header is extractable");
    assert_eq!(name, "demo");
    assert_eq!(arch, "x64");
    assert_eq!(profile, "release");
}

#[test]
fn out_of_range_enum_fails_rendering_with_a_diagnostic() {
    let body = "<Section name=\"Run\"><Config key=\"Mode\"><Enum default=\"9\"><Member>off</Member></Enum></Config></Section>";
    let k = Konfigurator::from_text(&demo(body)).unwrap();
    match k.render() {
        Err(FormatError::EnumIndexOutOfRange(key)) => {
            assert_eq!(key, "Mode");
            let e = FormatError::EnumIndexOutOfRange(key);
            assert!(e.message().contains("does not exist"));
        },
        _ => panic!("expected rendering to fail, loudly"),
    }
}

#[test]
fn path_stack_is_restored_around_a_section() {
    let body = "<Section name=\"A\"><Section name=\"B\"><Config key=\"Size\"><Integer default=\"10\"/></Config></Section><Section name=\"C\"><Config key=\"N\"><Integer default=\"1\"/></Config></Section></Section>";
    let k = Konfigurator::from_text(&demo(body)).unwrap();
    let mut buffer = String::new();
    let mut depth: Vec<String> = vec!["Outer".to_string()];
    k.sections[0].dump(&mut buffer, &mut depth);
    assert_eq!(depth, vec!["Outer".to_string()], "the path stack came back unchanged");
    assert!(buffer.contains("// Outer::A::B\n"));
    assert!(buffer.contains("// Outer::A::C\n"), "the sibling saw correct ancestry");
    assert!(buffer.contains("pub static OUTER_A_B_SIZE: i32 = 10;\n"));
}

#[test]
fn sections_emit_in_document_order_after_a_blank_line() {
    let body = "<Section name=\"One\"></Section><Section name=\"Two\"></Section>";
    let k = Konfigurator::from_text(&demo(body)).unwrap();
    let out = k.render().unwrap();
    let one = out.find("\n//\n// One\n//\n").expect("first banner");
    let two = out.find("\n//\n// Two\n//\n").expect("second banner");
    assert!(one < two);
}

#[test]
fn extraction_needs_a_separator() {
    assert!(extract_identity("no header here").is_none());
    assert!(extract_identity("x | one/slash only").is_none());
    assert!(extract_identity("x | a/b/c").is_some());
}

#[test]
fn extraction_splits_at_the_first_two_slashes() {
    let (name, arch, profile) = extract_identity("pre | a/b/c/d\nrest").unwrap();
    assert_eq!(name, "a");
    assert_eq!(arch, "b");
    assert_eq!(profile, "c/d");
}
