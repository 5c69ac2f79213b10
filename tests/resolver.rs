use rune_cfg::ast::Value;
use rune_cfg::host::{Host, SysInfo};
use rune_cfg::resolver::{expand_dollar_string, parse_dollar_reference};
use rune_cfg::utils::{format_bytes, format_uptime};
use rune_cfg::RuneError;

fn probed() -> Host {
    Host::new(Vec::new(), SysInfo::probe())
}

#[test]
fn sys_keys_expand() {
    let host = probed();
    let keys = [
        "os",
        "kernel_version",
        "os_version",
        "hostname",
        "cpu_arch",
        "cpu_count",
        "memory_total",
        "memory_free",
        "memory_used",
        "uptime",
        "cpu-count",
        "memory-total",
    ];
    for &key in &keys {
        let input = format!("$sys.{}", key);
        let result = expand_dollar_string(&input, &host).expect(&format!("Failed on key: {}", key));
        match result {
            Value::String(s) => {
                assert!(!s.is_empty(), "Value for $sys.{} should not be empty", key);
                println!("$sys.{} = {}", key, s);
            }
            _ => panic!("Expected Value::String for $sys.{}", key),
        }
    }
}

#[test]
fn test_sys_unknown_key() {
    let input = "$sys.unknown_key";
    let err = expand_dollar_string(input, &Host::empty()).unwrap_err();
    match err {
        RuneError::SyntaxError { code, .. } => {
            assert_eq!(code, Some(212));
        }
        _ => panic!("Expected SyntaxError for unknown $sys key"),
    }
}

#[test]
fn test_sys_missing_key() {
    let input = "$sys";
    let err = expand_dollar_string(input, &Host::empty()).unwrap_err();
    match err {
        RuneError::SyntaxError { code, .. } => {
            assert_eq!(code, Some(211));
        }
        _ => panic!("Expected SyntaxError for missing $sys key"),
    }
}

#[test]
fn test_env_expansion() {
    let host = Host::new(vec![("RUNE_TEST_ENV".to_string(), "hello_world".to_string())], SysInfo::unknown());
    let input = "$env.RUNE_TEST_ENV";
    let result = expand_dollar_string(input, &host).expect("Failed to expand env var");
    match result {
        Value::String(s) => assert_eq!(s, "hello_world"),
        _ => panic!("Expected Value::String for $env.RUNE_TEST_ENV"),
    }
}

#[test]
fn test_env_missing_key() {
    let input = "$env";
    let err = expand_dollar_string(input, &Host::empty()).unwrap_err();
    match err {
        RuneError::SyntaxError { code, .. } => {
            assert_eq!(code, Some(209));
        }
        _ => panic!("Expected SyntaxError for missing $env key"),
    }
}

#[test]
fn test_parse_dollar_reference_env() {
    let host = Host::new(vec![("TEST_VAR".to_string(), "test_value".to_string())], SysInfo::unknown());
    let path = vec!["env".to_string(), "TEST_VAR".to_string()];
    let result = parse_dollar_reference(path, &host).expect("Failed to parse $env reference");
    match result {
        Value::String(s) => assert_eq!(s, "test_value"),
        _ => panic!("Expected Value::String for $env.TEST_VAR"),
    }
}

#[test]
fn test_parse_dollar_reference_sys() {
    let path = vec!["sys".to_string(), "hostname".to_string()];
    let result = parse_dollar_reference(path, &probed()).expect("Failed to parse $sys reference");
    match result {
        Value::String(s) => assert!(!s.is_empty(), "Hostname should not be empty"),
        _ => panic!("Expected Value::String for $sys.hostname"),
    }
}

#[test]
fn sys_fact_missing_is_an_error() {
    let err = expand_dollar_string("$sys.hostname", &Host::empty()).unwrap_err();
    assert!(matches!(err, RuneError::SyntaxError { code: Some(213), .. }));
}

#[test]
fn unset_env_expands_to_empty_in_strings() {
    assert_eq!(expand_dollar_string("$env.NOPE", &Host::empty()).unwrap(), Value::String(String::new()));
    assert_eq!(
        expand_dollar_string("path: $env.NOPE/bin", &Host::empty()).unwrap(),
        Value::String("path: /bin".to_string())
    );
}

#[test]
fn other_namespaces_stay_in_longer_strings() {
    assert_eq!(
        expand_dollar_string("at $runtime.a.b now", &Host::empty()).unwrap(),
        Value::String("at $runtime.a.b now".to_string())
    );
}

#[test]
fn dangling_dot_is_an_error() {
    let err = expand_dollar_string("$env.", &Host::empty()).unwrap_err();
    assert!(matches!(err, RuneError::SyntaxError { code: Some(210), .. }));
}

#[test]
fn uptime_formats() {
    assert_eq!(format_uptime(0), "0 secs");
    assert_eq!(format_uptime(1), "1 sec");
    assert_eq!(format_uptime(59), "59 secs");
    assert_eq!(format_uptime(60), "1 min");
    assert_eq!(format_uptime(3599), "59 mins");
    assert_eq!(format_uptime(3600), "1 hr, 0 mins");
    assert_eq!(format_uptime(7260), "2 hrs, 1 min");
}

#[test]
fn byte_formats() {
    assert_eq!(format_bytes(0), "0 B");
    assert_eq!(format_bytes(1023), "1023 B");
    assert_eq!(format_bytes(1024), "1.00 KB");
    assert_eq!(format_bytes(1536), "1.50 KB");
    assert_eq!(format_bytes(1048576), "1.00 MB");
    assert_eq!(format_bytes(3 * 1073741824), "3.00 GB");
    assert_eq!(format_bytes(1099511627776), "1.00 TB");
    assert_eq!(format_bytes(1234567), "1.18 MB");
}

#[test]
fn product_name_is_a_string_or_unknown() {
    match expand_dollar_string("$sys.product-name", &probed()) {
        Ok(Value::String(s)) => assert!(!s.is_empty()),
        Err(RuneError::SyntaxError { code, .. }) => assert_eq!(code, Some(213)),
        other => panic!("unexpected result {:?}", other),
    }
}

#[test]
fn unset_env_in_value_position_stays_a_reference() {
    let path = vec!["env".to_string(), "NOPE".to_string()];
    let result = parse_dollar_reference(path.clone(), &Host::empty()).unwrap();
    assert_eq!(result, Value::Reference(path));
}
