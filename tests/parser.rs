use rune_cfg::ast::{ObjectItem, Value};
use rune_cfg::host::Host;
use rune_cfg::parser::Parser;

fn field<'a>(items: &'a [ObjectItem], key: &str) -> Option<&'a Value> {
    items.iter().find_map(|it| match it {
        ObjectItem::Assign(k, v) if k == key => Some(v),
        _ => None,
    })
}


#[test]
fn parser_test_parser_basic_document() {
    let input = r#"
@meta "version1"
global_name "GlobalApp"

app:
  name global_name
  version "1.0.0"
end
"#;
    let mut parser = Parser::new(input, Host::empty()).expect("Failed to create parser");
    let doc = parser.parse_document().expect("Failed to parse document");
    println!("--- Parsed Document ---");
    println!("{:#?}", doc);
    assert_eq!(doc.metadata.len(), 1);
    assert_eq!(doc.globals.len(), 1);
    assert_eq!(doc.items.len(), 1);
    if let Value::Object(items) = &doc.items[0].1 {
        assert!(field(items, "name").is_some());
        assert!(field(items, "version").is_some());
    } else {
        panic!("Expected top-level 'app' to be an object");
    }
}

#[test]
fn parser_test_parser_with_array_and_reference() {
    let input = r#"
servers:
  hosts [
    "host1"
    "host2"
  ]
  default default_host
end
"#;
    let mut parser = Parser::new(input, Host::empty()).expect("Failed to create parser");
    let doc = parser.parse_document().expect("Failed to parse document");
    println!("--- Parsed Document with Array ---");
    println!("{:#?}", doc);
    if let Value::Object(items) = &doc.items[0].1 {
        match field(items, "hosts").unwrap() {
            Value::Array(arr) => {
                assert_eq!(arr.len(), 2);
            }
            _ => panic!("Expected 'hosts' to be an array"),
        }
    }
}

#[test]
fn parser_test_dot_notation_and_imported_variables() {
    let defaults_input = r#"
server:
  host "localhost"
  port 8000
end
"#;
    let mut defaults_parser = Parser::new(defaults_input, Host::empty()).expect("Failed to create parser");
    let defaults_doc = defaults_parser.parse_document().expect("Failed to parse defaults");
    let input = r#"
gather "defaults.rune" as defaults
@description "Simple app using RUNE config"
name "RuneApp"

app:
  name name
  version "1.0.0"
  debug true

  server:
    host defaults.server.host
    port 8080
    timeout "30s"
  end

  plugins [
    "auth"
    "logger"
  ]
end
"#;
    let mut parser = Parser::new(input, Host::empty()).expect("Failed to create parser");
    let doc = parser.parse_document().expect("Failed to parse main document");
    parser.inject_import("defaults".to_string(), defaults_doc);
    println!("--- Parsed Main Document ---");
    println!("{:#?}", doc);
    assert_eq!(doc.metadata.len(), 1);
    assert_eq!(doc.globals.len(), 1);
    if let Value::Object(items) = &doc.items[0].1 {
        match field(items, "name").unwrap() {
            Value::Reference(path) => {
                assert_eq!(path, &["name".to_string()]);
            }
            _ => panic!("Expected 'name' to be a Reference"),
        }
        if let Some(server_items) = field(items, "server").and_then(|v| v.as_object()) {
            if let Value::Reference(path) = field(server_items, "host").unwrap() {
                assert_eq!(path, &["defaults".to_string(), "server".to_string(), "host".to_string()]);
                let resolved = parser.resolve_reference(path, &doc).expect("Failed to resolve reference");
                if let Value::String(s) = resolved {
                    assert_eq!(s, "localhost");
                } else {
                    panic!("Expected resolved value to be a string");
                }
            } else {
                panic!("Expected 'server.host' to be a Reference");
            }
        } else {
            panic!("Expected 'server' to be an Object");
        }
    } else {
        panic!("Expected top-level 'app' to be an Object");
    }
}

#[test]
fn parser_test_empty_array() {
    let input = r#"
list []
nested:
  things []
end
"#;
    let mut parser = Parser::new(input, Host::empty()).expect("Failed to create parser");
    let doc = parser.parse_document().expect("Failed to parse document");
    println!("--- Parsed Document with Empty Arrays ---");
    println!("{:#?}", doc);
    assert!(matches!(doc.globals[0].1, Value::Array(ref v) if v.is_empty()));
    if let Value::Object(items) = &doc.items[0].1 {
        let arr = field(items, "things").unwrap();
        assert!(matches!(arr, Value::Array(ref v) if v.is_empty()));
    } else {
        panic!("Expected 'nested' to be an Object");
    }
}

#[test]
fn tests_test_parser_basic_document() {
    let input = r#"
@meta "version1"
global_name "GlobalApp"

app:
  name global_name
  version "1.0.0"
end
"#;
    let mut parser = Parser::new(input, Host::empty()).expect("Failed to create parser");
    let doc = parser.parse_document().expect("Failed to parse document");
    println!("--- Parsed Document ---");
    println!("{:#?}", doc);
    assert_eq!(doc.metadata.len(), 1);
    assert_eq!(doc.globals.len(), 1);
    assert_eq!(doc.items.len(), 1);
    if let Value::Object(items) = &doc.items[0].1 {
        assert!(field(items, "name").is_some());
        assert!(field(items, "version").is_some());
    } else {
        panic!("Expected top-level 'app' to be an object");
    }
}

#[test]
fn tests_test_parser_with_array_and_reference() {
    let input = r#"
servers:
  hosts [
    "host1"
    "host2"
  ]
  default default_host
end
"#;
    let mut parser = Parser::new(input, Host::empty()).expect("Failed to create parser");
    let doc = parser.parse_document().expect("Failed to parse document");
    println!("--- Parsed Document with Array ---");
    println!("{:#?}", doc);
    if let Value::Object(items) = &doc.items[0].1 {
        match field(items, "hosts").unwrap() {
            Value::Array(arr) => {
                assert_eq!(arr.len(), 2);
            }
            _ => panic!("Expected 'hosts' to be an array"),
        }
    }
}

#[test]
fn tests_test_dot_notation_and_imported_variables() {
    let defaults_input = r#"
server:
  host "localhost"
  port 8000
end
"#;
    let mut defaults_parser = Parser::new(defaults_input, Host::empty()).expect("Failed to create parser");
    let defaults_doc = defaults_parser.parse_document().expect("Failed to parse defaults");
    let input = r#"
gather "defaults.rune" as defaults
@description "Simple app using RUNE config"
name "RuneApp"

app:
  name name
  version "1.0.0"
  debug true

  server:
    host defaults.server.host
    port 8080
    timeout "30s"
  end

  plugins [
    "auth"
    "logger"
  ]
end
"#;
    let mut parser = Parser::new(input, Host::empty()).expect("Failed to create parser");
    let doc = parser.parse_document().expect("Failed to parse main document");
    parser.inject_import("defaults".to_string(), defaults_doc);
    println!("--- Parsed Main Document ---");
    println!("{:#?}", doc);
    assert_eq!(doc.metadata.len(), 1);
    assert_eq!(doc.globals.len(), 1);
    if let Value::Object(items) = &doc.items[0].1 {
        match field(items, "name").unwrap() {
            Value::Reference(path) => {
                assert_eq!(path, &["name".to_string()]);
            }
            _ => panic!("Expected 'name' to be a Reference"),
        }
        if let Some(server_items) = field(items, "server").and_then(|v| v.as_object()) {
            if let Value::Reference(path) = field(server_items, "host").unwrap() {
                assert_eq!(path, &["defaults".to_string(), "server".to_string(), "host".to_string()]);
                let resolved = parser.resolve_reference(path, &doc).expect("Failed to resolve reference");
                if let Value::String(s) = resolved {
                    assert_eq!(s, "localhost");
                } else {
                    panic!("Expected resolved value to be a string");
                }
            } else {
                panic!("Expected 'server.host' to be a Reference");
            }
        } else {
            panic!("Expected 'server' to be an Object");
        }
    } else {
        panic!("Expected top-level 'app' to be an Object");
    }
}


#[test]
fn tests_test_global_variable_references() {
    let input = r#"
app_name "MyApp"
port 8080

app:
  name app_name
  port port
  env_var $env.HOME
end
"#;
    let host = Host::new(vec![("HOME".to_string(), "/root".to_string())], rune_cfg::host::SysInfo::unknown());
    let mut parser = Parser::new(input, host).expect("Failed to create parser");
    let doc = parser.parse_document().expect("Failed to parse document");
    println!("--- Document with Global References ---");
    println!("{:#?}", doc);
    assert_eq!(doc.globals.len(), 2);
    if let Value::Object(items) = &doc.items[0].1 {
        if let Value::Reference(path) = field(items, "name").unwrap() {
            assert_eq!(path, &["app_name".to_string()]);
        } else {
            panic!("Expected 'name' to be a Reference");
        }
        if let Value::Reference(path) = field(items, "port").unwrap() {
            assert_eq!(path, &["port".to_string()]);
        } else {
            panic!("Expected 'port' to be a Reference");
        }
        if let Value::String(_) = field(items, "env_var").unwrap() {
            println!("env_var correctly resolved to a String");
        } else {
            panic!("Expected 'env_var' to be a String (resolved from $env.HOME)");
        }
    } else {
        panic!("Expected 'app' to be an Object");
    }
}

#[test]
fn test_parse_regex_literal() {
    let input = r#"
pattern r"^foo.*bar$"
"#;
    let mut parser = Parser::new(input, Host::empty()).expect("Failed to create parser");
    let doc = parser.parse_document().expect("Failed to parse doc");
    let val = &doc.globals[0].1;
    assert_eq!(val, &Value::Regex("^foo.*bar$".into()));
}

fn parse(input: &str) -> Result<rune_cfg::Document, rune_cfg::RuneError> {
    let mut parser = Parser::new(input, Host::empty())?;
    parser.parse_document()
}

#[test]
fn dollar_at_top_level_is_rejected() {
    let err = parse("$env.HOME").unwrap_err();
    assert!(matches!(err, rune_cfg::RuneError::SyntaxError { code: Some(213), .. }));
}

#[test]
fn stray_token_at_top_level_is_rejected() {
    let err = parse("]").unwrap_err();
    assert!(matches!(err, rune_cfg::RuneError::InvalidToken { code: Some(205), .. }));
}

#[test]
fn end_inside_if_block_asks_for_endif() {
    let err = parse("app:\n if debug:\n  x 1\n end\nend\n").unwrap_err();
    assert!(matches!(err, rune_cfg::RuneError::SyntaxError { code: Some(214), .. }));
}

#[test]
fn unknown_namespace_is_rejected() {
    let err = parse("x $home.dir").unwrap_err();
    assert!(matches!(err, rune_cfg::RuneError::SyntaxError { code: Some(209), .. }));
}

#[test]
fn if_block_and_inline_conditional_parse() {
    let doc = parse("app:\n  if mode = \"dev\":\n    level 1\n  else:\n    level 2\n  endif\n  color if dark \"black\" else \"white\"\nend\n").unwrap();
    if let Value::Object(items) = &doc.items[0].1 {
        assert_eq!(items.len(), 2);
        match &items[0] {
            ObjectItem::IfBlock(b) => {
                assert_eq!(b.then_items.len(), 1);
                assert_eq!(b.else_items.as_ref().map(|e| e.len()), Some(1));
            }
            _ => panic!("expected an if-block"),
        }
        assert!(matches!(field(items, "color"), Some(Value::Conditional(_))));
    } else {
        panic!("expected an object");
    }
}

#[test]
fn gather_records_alias_and_placeholder() {
    let mut parser = Parser::new("gather \"conf/base.rune\"\ngather \"x.rune\" as other\n", Host::empty()).unwrap();
    parser.parse_document().unwrap();
    assert_eq!(
        parser.gathers,
        vec![
            ("base".to_string(), "conf/base.rune".to_string()),
            ("other".to_string(), "x.rune".to_string())
        ]
    );
    assert_eq!(parser.imports.len(), 2);
    assert_eq!(parser.imports[0].0, "base");
    assert!(parser.imports[0].1.items.is_empty());
}

#[test]
fn env_in_string_is_expanded_at_parse_time() {
    let host = Host::new(vec![("USER".to_string(), "ann".to_string())], rune_cfg::host::SysInfo::unknown());
    let mut parser = Parser::new("greeting \"hi $env.USER!\"\nwho \"$env.USER\"\nlater \"$runtime.slot\"\n", host).unwrap();
    let doc = parser.parse_document().unwrap();
    assert_eq!(doc.globals[0].1, Value::String("hi ann!".to_string()));
    assert_eq!(doc.globals[1].1, Value::String("ann".to_string()));
    assert_eq!(doc.globals[2].1, Value::Reference(vec!["runtime".to_string(), "slot".to_string()]));
}

#[test]
fn gather_lines_are_found_without_parsing() {
    let content = "# gather \"no.rune\"\ngather \"conf/defaults.rune\"\n  gather 'x/y.rune' as extra trailing\ngather \"again.rune\" as extra\nname \"v\"\n";
    let found = rune_cfg::gathers::parse_gather_paths(content);
    assert_eq!(
        found,
        vec![
            ("defaults".to_string(), "conf/defaults.rune".to_string()),
            ("extra".to_string(), "again.rune".to_string())
        ]
    );
}

#[test]
fn quoted_string_is_extracted() {
    let q = rune_cfg::gathers::extract_quoted_string(&"  \"a/b.rune\" as c".chars().collect());
    assert_eq!(q, Some("a/b.rune".chars().collect()));
    assert_eq!(rune_cfg::gathers::extract_quoted_string(&"'x' rest".chars().collect()), Some(vec!['x']));
    assert_eq!(rune_cfg::gathers::extract_quoted_string(&"\"open".chars().collect()), None);
    assert_eq!(rune_cfg::gathers::extract_quoted_string(&"plain".chars().collect()), None);
}

#[test]
fn injected_import_replaces_placeholder() {
    let mut parser = Parser::new("gather \"defaults.rune\" as defaults\nx defaults.host\n", Host::empty()).unwrap();
    let doc = parser.parse_document().unwrap();
    assert_eq!(parser.imports.len(), 1);
    let mut other = Parser::new("host \"localhost\"\n", Host::empty()).unwrap();
    let injected = other.parse_document().unwrap();
    parser.inject_import("defaults".to_string(), injected);
    assert_eq!(parser.imports.len(), 1);
    let path = vec!["defaults".to_string(), "host".to_string()];
    assert_eq!(parser.resolve_reference(&path, &doc), Some(&Value::String("localhost".to_string())));
}

#[test]
fn end_in_if_block_hints_at_endif() {
    let err = parse("app:\n if debug:\n  x 1\n end\nend\n").unwrap_err();
    match err {
        rune_cfg::RuneError::SyntaxError { code, hint, .. } => {
            assert_eq!(code, Some(214));
            assert_eq!(hint, Some("Use 'endif' to close if-blocks".to_string()));
        }
        _ => panic!("expected a syntax error"),
    }
}

#[test]
fn parser_test_global_variable_references() {
    let input = r#"
app_name "MyApp"
port 8080

app:
  name app_name
  port port
  env_var $env.HOME
end
"#;
    let mut parser = Parser::new(input, Host::empty()).expect("Failed to create parser");
    let doc = parser.parse_document().expect("Failed to parse document");
    println!("--- Document with Global References ---");
    println!("{:#?}", doc);
    assert_eq!(doc.globals.len(), 2);
    if let Value::Object(items) = &doc.items[0].1 {
        if let Value::Reference(path) = field(items, "name").unwrap() {
            assert_eq!(path, &["app_name".to_string()]);
        } else {
            panic!("Expected 'name' to be a Reference");
        }
        if let Value::Reference(path) = field(items, "port").unwrap() {
            assert_eq!(path, &["port".to_string()]);
        } else {
            panic!("Expected 'port' to be a Reference");
        }
        if let Value::Reference(path) = field(items, "env_var").unwrap() {
            assert_eq!(path, &["env".to_string(), "HOME".to_string()]);
        } else {
            panic!("Expected 'env_var' to be a Reference");
        }
    } else {
        panic!("Expected 'app' to be an Object");
    }
}

#[test]
fn default_alias_is_the_file_stem() {
    let mut parser = Parser::new("gather \"conf/\"\ngather \"..\"\ngather \"a/b.tar.gz\"\n", Host::empty()).unwrap();
    parser.parse_document().unwrap();
    let aliases: Vec<&str> = parser.gathers.iter().map(|(a, _)| a.as_str()).collect();
    assert_eq!(aliases, vec!["conf", "imported", "b.tar"]);
}
