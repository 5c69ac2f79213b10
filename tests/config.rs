use rune_cfg::ast::{ObjectItem, Value};
use rune_cfg::eval::{resolve_value, MAX_REFERENCE_DEPTH};
use rune_cfg::host::{Host, SysInfo};
use rune_cfg::number::Number;
use rune_cfg::convert::FromValue;
use rune_cfg::{RuneConfig, RuneError};

#[test]
fn test_config_from_string() {
    let config_content = r#"
@description "Test config"
app_name "TestApp"

app:
  name app_name
  version "1.0.0"
  debug true
  
  server:
    host "localhost"
    port 8080
  end
  
  features [
    "auth"
    "logging"
  ]
end
"#;
    let config = RuneConfig::from_str(config_content, Host::empty()).expect("Failed to parse config");
    let app_name: String = config.get("app.name").expect("Failed to get app.name");
    assert_eq!(app_name, "TestApp");
    let host: String = config.get("app.server.host").expect("Failed to get host");
    assert_eq!(host, "localhost");
    let port: u16 = config.get("app.server.port").expect("Failed to get port");
    assert_eq!(port, 8080);
    let debug: bool = config.get("app.debug").expect("Failed to get debug");
    assert_eq!(debug, true);
    let features: Vec<String> = config.get("app.features").expect("Failed to get features");
    assert_eq!(features, vec!["auth", "logging"]);
    assert!(config.has("app.name"));
    assert!(!config.has("app.nonexistent"));
    let server_keys = config.get_keys("app.server").expect("Failed to get server keys");
    assert!(server_keys.contains(&"host".to_string()));
    assert!(server_keys.contains(&"port".to_string()));
}

#[test]
fn test_string_enum_validation() {
    let config_content = "\ntheme:\n  border \"rounded\"\n  invalid \"bad_value\"\nend\n";
    let config = RuneConfig::from_str(config_content, Host::empty()).expect("Failed to parse config");
    let border = config.get_string_enum("theme.border", &["plain", "rounded", "thick"]);
    assert!(border.is_ok());
    let invalid = config.get_string_enum("theme.invalid", &["good", "better"]);
    assert!(invalid.is_err());
}

#[test]
fn test_order_preservation() {
    let config_content = r#"
first "1"
second "2"
third "3"

nested:
    alpha "a"
    beta "b"
    gamma "c"
end
"#;
    let config = RuneConfig::from_str(config_content, Host::empty()).unwrap();
    let keys = config.get_keys("nested").unwrap();
    assert_eq!(keys, vec!["alpha", "beta", "gamma"]);
}

#[test]
fn conditional_block_selects_else_branch() {
    let config = RuneConfig::from_str(
        "app:\n  name \"A\"\n  if debug:\n    flag true\n  else:\n    flag false\n  endif\nend\n",
        Host::empty(),
    )
    .unwrap();
    let flag: bool = config.get("app.flag").unwrap();
    assert_eq!(flag, false);
    assert_eq!(config.get_keys("app").unwrap(), vec!["name", "flag"]);
}

#[test]
fn conditional_block_selects_then_branch() {
    let config = RuneConfig::from_str(
        "debug true\napp:\n  if debug = true:\n    flag 1\n  endif\nend\n",
        Host::empty(),
    )
    .unwrap();
    let flag: u8 = config.get("app.flag").unwrap();
    assert_eq!(flag, 1);
}

#[test]
fn condition_on_environment() {
    let host = Host::new(vec![("DEBUG".to_string(), "1".to_string())], SysInfo::unknown());
    let config = RuneConfig::from_str("mode if env.DEBUG \"debug\" else \"release\"\n", host).unwrap();
    let mode: String = config.get("mode").unwrap();
    assert_eq!(mode, "debug");
    let config = RuneConfig::from_str("mode if env.DEBUG \"debug\" else \"release\"\n", Host::empty()).unwrap();
    let mode: String = config.get("mode").unwrap();
    assert_eq!(mode, "release");
}

#[test]
fn import_alias_wins_over_field() {
    let mut config = RuneConfig::from_str("x:\n  y \"main\"\nend\nz x.y\n", Host::empty()).unwrap();
    let imported = RuneConfig::from_str("y \"imported\"\n", Host::empty()).unwrap();
    config.inject_import("x".to_string(), imported.main);
    let z: String = config.get("z").unwrap();
    assert_eq!(z, "imported");
    assert!(config.has_document("x"));
    assert!(config.has_document("main"));
    assert_eq!(config.import_aliases(), vec!["x".to_string()]);
}

#[test]
fn missing_env_reference_fails_only_at_resolution() {
    let config = RuneConfig::from_str("home $env.HOME\n", Host::empty()).unwrap();
    assert_eq!(config.main.globals.len(), 1);
    assert_eq!(config.main.globals[0].0, "home");
    let err = config.get_value("home").unwrap_err();
    assert!(matches!(err, RuneError::RuntimeError { code: Some(308), .. }));
    assert!(!config.has("home"));
    let host = Host::new(vec![("HOME".to_string(), "/root".to_string())], SysInfo::unknown());
    let config = RuneConfig::from_str("home $env.HOME\n", host).unwrap();
    assert_eq!(config.get_value("home").unwrap(), Value::String("/root".to_string()));
    let reference = Value::Reference(vec!["env".to_string(), "HOME".to_string()]);
    let err = resolve_value(&reference, &config.main, &config.imports, &Host::empty(), MAX_REFERENCE_DEPTH).unwrap_err();
    assert!(matches!(err, RuneError::RuntimeError { code: Some(308), .. }));
}

#[test]
fn get_or_falls_back_only_when_conversion_fails() {
    let config = RuneConfig::from_str("port 80\nname \"x\"\n", Host::empty()).unwrap();
    assert_eq!(config.get_or("port", 7u16), 80);
    assert_eq!(config.get_or("name", 7u16), 7);
}

#[test]
fn all_documents_lists_main_then_imports() {
    let mut config = RuneConfig::from_str("a 1\n", Host::empty()).unwrap();
    let other = RuneConfig::from_str("b 2\n", Host::empty()).unwrap();
    config.inject_import("other".to_string(), other.main);
    let docs = config.all_documents();
    assert_eq!(docs.len(), 2);
    assert_eq!(docs[0].0, "main");
    assert_eq!(docs[1].0, "other");
    assert_eq!(docs[1].1.globals[0].0, "b");
}

#[test]
fn u8_range_is_enforced() {
    let big = Value::Number(Number { whole: vec![2, 5, 6], fraction: vec![] });
    let err = u8::from_value(big).unwrap_err();
    assert!(matches!(err, RuneError::TypeError { code: Some(407), .. }));
    let max = Value::Number(Number { whole: vec![2, 5, 5], fraction: vec![] });
    assert_eq!(u8::from_value(max), Ok(255));
    let above = Value::Number(Number { whole: vec![2, 5, 5], fraction: vec![5] });
    assert!(u8::from_value(above).is_err());
    let u16_err = u16::from_value(Value::Number(Number { whole: vec![6, 5, 5, 3, 6], fraction: vec![] })).unwrap_err();
    assert!(matches!(u16_err, RuneError::TypeError { code: Some(403), .. }));
    assert_eq!(i32::from_value(Value::Number(Number { whole: vec![9; 12], fraction: vec![] })), Ok(i32::MAX));
    assert!(matches!(
        String::from_value(Value::Bool(true)).unwrap_err(),
        RuneError::TypeError { code: Some(401), .. }
    ));
    match bool::from_value(Value::Reference(vec!["Tru".to_string()])).unwrap_err() {
        RuneError::TypeError { code, message, .. } => {
            assert_eq!(code, Some(404));
            assert_eq!(message, "Invalid boolean value 'Tru'. Did you mean 'true' or 'false'?");
        }
        _ => panic!("expected a type error"),
    }
    match bool::from_value(Value::Reference(vec!["yes".to_string()])).unwrap_err() {
        RuneError::TypeError { code, message, .. } => {
            assert_eq!(code, Some(404));
            assert!(!message.contains("Did you mean"));
        }
        _ => panic!("expected a type error"),
    }
    let mixed = Value::Array(vec![Value::String("a".to_string()), Value::Bool(true)]);
    assert!(matches!(Vec::<String>::from_value(mixed), Err(RuneError::TypeError { code: Some(401), .. })));
}

#[test]
fn empty_array_round_trip() {
    let config = RuneConfig::from_str("plugins []\n", Host::empty()).unwrap();
    assert_eq!(config.main.globals[0].1, Value::Array(vec![]));
    let plugins: Vec<String> = config.get("plugins").unwrap();
    assert!(plugins.is_empty());
    assert_eq!(config.get_value("plugins").unwrap(), Value::Array(vec![]));
}

#[test]
fn flattening_keeps_field_order() {
    let config = RuneConfig::from_str("obj:\n  c 1\n  a 2\n  b 3\nend\n", Host::empty()).unwrap();
    assert_eq!(config.get_keys("obj").unwrap(), vec!["c", "a", "b"]);
}

#[test]
fn resolving_twice_changes_nothing() {
    let config = RuneConfig::from_str(
        "base 3\nobj:\n  a base\n  if base = 3:\n    b [base, \"x\"]\n  endif\n  c missing.ref\nend\n",
        Host::empty(),
    )
    .unwrap();
    let once = config.get_value("obj").unwrap();
    let twice = resolve_value(&once, &config.main, &config.imports, &config.host, MAX_REFERENCE_DEPTH).unwrap();
    assert_eq!(once, twice);
    if let Value::Object(items) = &once {
        assert!(items.iter().all(|it| matches!(it, ObjectItem::Assign(_, _))));
        assert_eq!(items.len(), 3);
    } else {
        panic!("expected an object");
    }
}

#[test]
fn circular_reference_is_reported() {
    let config = RuneConfig::from_str("a b\nb a\n", Host::empty()).unwrap();
    let err = config.get_value("a").unwrap_err();
    assert!(matches!(err, RuneError::RuntimeError { code: Some(309), .. }));
}

#[test]
fn missing_path_is_not_found() {
    let config = RuneConfig::from_str("a 1\n", Host::empty()).unwrap();
    let err = config.get_value("b.c").unwrap_err();
    assert!(matches!(err, RuneError::SyntaxError { code: Some(304), .. }));
    let opt: Option<u8> = config.get_optional("b").unwrap();
    assert_eq!(opt, None);
    assert_eq!(config.get_or("b", 7u8), 7);
    let err = config.get_keys("a").unwrap_err();
    assert!(matches!(err, RuneError::TypeError { code: Some(306), .. }));
}

#[test]
fn file_error_keeps_message_and_path() {
    let e = RuneError::file_error("missing".to_string(), "/x.rune".to_string());
    assert!(matches!(e, RuneError::FileError { code: Some(300), .. }));
    if let RuneError::FileError { hint, .. } = &e {
        assert_eq!(hint.as_deref(), Some("Check file path and permissions"));
    }
    assert_eq!(e.code(), Some(300));
}

#[test]
fn error_renders_with_hint_and_code() {
    let e = RuneError::syntax("Bad thing", 3, 7, Some("Fix it"), 201);
    assert_eq!(e.render(), "[RUNE] Syntax Error at 3:7: Bad thing Hint: Fix it Code: 201");
    let r = RuneError::RuntimeError { message: "gone".to_string(), hint: None, code: None };
    assert_eq!(r.render(), "[RUNE] Runtime Error: gone");
    let c = RuneError::UnexpectedCharacter { character: '%', line: 1, column: 2, hint: None, code: Some(104) };
    assert_eq!(c.render(), "[RUNE] Unexpected character '%' at 1:2 Code: 104");
}

#[test]
fn validated_value_is_checked() {
    let config = RuneConfig::from_str("port 80\n", Host::empty()).unwrap();
    let ok: Result<u16, RuneError> = config.get_validated("port", |p: &u16| *p < 1024, "below 1024");
    assert_eq!(ok, Ok(80));
    let bad: Result<u16, RuneError> = config.get_validated("port", |p: &u16| *p > 1024, "above 1024");
    assert!(matches!(bad, Err(RuneError::ValidationError { code: Some(450), .. })));
}

#[test]
fn namespace_reference_value_is_looked_up() {
    let host = Host::new(vec![("A".to_string(), "b".to_string())], SysInfo::unknown());
    let v = rune_cfg::resolver::resolve_reference_value(
        &Value::Reference(vec!["env".to_string(), "A".to_string()]),
        &host,
    )
    .unwrap();
    assert_eq!(v, Value::String("b".to_string()));
    let n = rune_cfg::resolver::resolve_reference_value(&Value::Bool(true), &host).unwrap();
    assert_eq!(n, Value::Bool(true));
}

#[test]
fn config_line_is_found_by_path() {
    let raw = "\n# comment\ntheme:\n  border \"rounded\"\n  width = 3\nend\n@meta \"x\"\n";
    assert_eq!(rune_cfg::lines::find_config_line("theme.border", raw), (4, "border \"rounded\"".to_string()));
    assert_eq!(rune_cfg::lines::find_config_line("theme.width", raw), (5, "width = 3".to_string()));
    assert_eq!(rune_cfg::lines::find_config_line("other.nope", raw), (0, "<key not found>".to_string()));
    assert!(rune_cfg::lines::path_exists_in_content("theme.border", raw));
    assert!(!rune_cfg::lines::path_exists_in_content("meta", raw));
}

#[test]
fn type_error_points_at_its_line() {
    let raw = "app:\n  port \"eighty\"\nend\n";
    let e = RuneError::type_error("Expected number".to_string(), 0, 0, None, 402);
    let enhanced = rune_cfg::lines::enhance_error_with_line_info(e, "app.port", raw);
    match enhanced {
        RuneError::TypeError { message, line, code, .. } => {
            assert_eq!(line, 2);
            assert_eq!(code, Some(402));
            assert_eq!(message, "Expected number\n  → port \"eighty\"");
        }
        _ => panic!("expected a type error"),
    }
    let config = RuneConfig::from_str(raw, Host::empty()).unwrap();
    assert!(config.path_exists_in_content("app.port"));
    let other = RuneError::RuntimeError { message: "x".to_string(), hint: None, code: Some(308) };
    assert_eq!(rune_cfg::lines::enhance_error_with_line_info(other.clone(), "app.port", raw), other);
}
