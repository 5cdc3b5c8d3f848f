use ui_bridge::dispatch::{handle_message, Action};
use ui_bridge::inject::{build_injection, dialog_response_script, DialogOutcome};
use ui_bridge::protocol::{decode_command, encode_command, Command};
use ui_bridge::severity::{severity_for_kind, Severity};
use ui_bridge::window::{window_config, window_size};

#[test]
fn decode_select_basic() {
    let r = decode_command(r#"{"SelectInstallDir":{"callback_name":"myCallback"}}"#);
    match r {
        Ok(Command::SelectInstallDir { callback_name }) => {
            assert_eq!(callback_name, "myCallback");
        }
        _ => panic!("expected SelectInstallDir"),
    }
}

#[test]
fn decode_select_empty_name() {
    let r = decode_command(r#"{"SelectInstallDir":{"callback_name":""}}"#);
    match r {
        Ok(Command::SelectInstallDir { callback_name }) => {
            assert_eq!(callback_name, "");
        }
        _ => panic!("expected SelectInstallDir"),
    }
}

#[test]
fn decode_select_non_ascii_name() {
    let r = decode_command("{\"SelectInstallDir\":{\"callback_name\":\"rückruf✓\"}}");
    match r {
        Ok(Command::SelectInstallDir { callback_name }) => {
            assert_eq!(callback_name, "rückruf✓");
        }
        _ => panic!("expected SelectInstallDir"),
    }
}

#[test]
fn decode_log_basic() {
    let r = decode_command(r#"{"Log":{"msg":"hello","kind":"info"}}"#);
    match r {
        Ok(Command::Log { msg, kind }) => {
            assert_eq!(msg, "hello");
            assert_eq!(kind, "info");
        }
        _ => panic!("expected Log"),
    }
}

#[test]
fn decode_log_fields_swapped() {
    let r = decode_command(r#"{"Log":{"kind":"warn","msg":"watch out"}}"#);
    match r {
        Ok(Command::Log { msg, kind }) => {
            assert_eq!(msg, "watch out");
            assert_eq!(kind, "warn");
        }
        _ => panic!("expected Log"),
    }
}

#[test]
fn decode_with_whitespace() {
    let r = decode_command(
        " \t\r\n{ \"Log\" : { \"msg\" : \"a\" , \"kind\" : \"log\" } } \n",
    );
    match r {
        Ok(Command::Log { msg, kind }) => {
            assert_eq!(msg, "a");
            assert_eq!(kind, "log");
        }
        _ => panic!("expected Log"),
    }
}

#[test]
fn decode_string_escapes() {
    let r = decode_command(r#"{"Log":{"msg":"a\"b\\c\ndA\t\r\b\f\/","kind":"x"}}"#);
    match r {
        Ok(Command::Log { msg, .. }) => {
            assert_eq!(msg, "a\"b\\c\ndA\t\r\u{8}\u{c}/");
        }
        _ => panic!("expected Log"),
    }
}

#[test]
fn decode_unicode_escapes() {
    let r = decode_command("{\"Log\":{\"msg\":\"\\u0041\\u00e9\\u20Acz\",\"kind\":\"info\"}}");
    match r {
        Ok(Command::Log { msg, .. }) => {
            assert_eq!(msg, "Aé€z");
        }
        _ => panic!("expected Log"),
    }
}

#[test]
fn decode_control_escape() {
    let r = decode_command("{\"Log\":{\"msg\":\"a\\u001fb\",\"kind\":\"info\"}}");
    match r {
        Ok(Command::Log { msg, .. }) => {
            assert_eq!(msg, "a\u{1f}b");
        }
        _ => panic!("expected Log"),
    }
}

#[test]
fn decode_rejects_raw_control_char() {
    assert!(decode_command("{\"Log\":{\"msg\":\"a\tb\",\"kind\":\"info\"}}").is_err());
}

#[test]
fn decode_malformed_inputs() {
    assert!(decode_command("{not json").is_err());
    assert!(decode_command("").is_err());
    assert!(decode_command("null").is_err());
    assert!(decode_command(r#"{"Unknown":{"a":"b"}}"#).is_err());
    assert!(decode_command(r#"{"SelectInstallDir":{"wrong_field":"x"}}"#).is_err());
    assert!(decode_command(r#"{"SelectInstallDir":{}}"#).is_err());
    assert!(decode_command(r#"{"Log":{"msg":"a"}}"#).is_err());
    assert!(decode_command(r#"{"Log":{"msg":"a","kind":"b","extra":"c"}}"#).is_err());
    assert!(decode_command(r#"{"Log":{"msg":"a","kind":"b"}} trailing"#).is_err());
    assert!(decode_command(r#"{"Log":{"msg":"\uD800","kind":"b"}}"#).is_err());
}

#[test]
fn decoding_is_stateless_after_bad_input() {
    assert!(decode_command("{not json").is_err());
    let r = decode_command(r#"{"SelectInstallDir":{"callback_name":"cb"}}"#);
    match r {
        Ok(Command::SelectInstallDir { callback_name }) => {
            assert_eq!(callback_name, "cb");
        }
        _ => panic!("expected SelectInstallDir after a malformed message"),
    }
}

#[test]
fn severity_mapping_exact() {
    assert_eq!(severity_for_kind("info"), Severity::Info);
    assert_eq!(severity_for_kind("log"), Severity::Info);
    assert_eq!(severity_for_kind("warn"), Severity::Warn);
    assert_eq!(severity_for_kind("error"), Severity::Error);
    assert_eq!(severity_for_kind(""), Severity::Error);
    assert_eq!(severity_for_kind("WARN"), Severity::Error);
    assert_eq!(severity_for_kind("critical"), Severity::Error);
}

#[test]
fn injection_expression_exact() {
    let s = build_injection("myCallback", "/home/user/install");
    assert_eq!(s, r#"myCallback("/home/user/install");"#);
}

#[test]
fn injection_escapes_path() {
    let s = build_injection("cb", "/tmp/a\"b\\c");
    assert_eq!(s, "cb(\"/tmp/a\\\"b\\\\c\");");
}

#[test]
fn dialog_outcomes() {
    let selected = DialogOutcome::Selected {
        path: String::from("/home/user/install"),
    };
    let script = dialog_response_script("myCallback", &selected);
    assert_eq!(script.as_deref(), Some(r#"myCallback("/home/user/install");"#));
    assert!(dialog_response_script("myCallback", &DialogOutcome::Cancelled).is_none());
    assert!(dialog_response_script("myCallback", &DialogOutcome::Failed).is_none());
}

#[test]
fn encode_exact_forms() {
    let c = Command::Log {
        msg: String::from("hi"),
        kind: String::from("info"),
    };
    assert_eq!(encode_command(&c), r#"{"Log":{"msg":"hi","kind":"info"}}"#);
    let c = Command::SelectInstallDir {
        callback_name: String::from("cb"),
    };
    assert_eq!(
        encode_command(&c),
        r#"{"SelectInstallDir":{"callback_name":"cb"}}"#
    );
}

#[test]
fn encode_escapes_control_chars() {
    let c = Command::Log {
        msg: String::from("a\u{1}b\nc\"d"),
        kind: String::from("x"),
    };
    assert_eq!(encode_command(&c), "{\"Log\":{\"msg\":\"a\\u0001b\\nc\\\"d\",\"kind\":\"x\"}}");
}

#[test]
fn encode_decode_round_trip() {
    let c = Command::Log {
        msg: String::from("line1\nline2 \"quoted\" \\ back ✓"),
        kind: String::from("weird\u{3}kind"),
    };
    let wire = encode_command(&c);
    match decode_command(&wire) {
        Ok(Command::Log { msg, kind }) => {
            assert_eq!(msg, "line1\nline2 \"quoted\" \\ back ✓");
            assert_eq!(kind, "weird\u{3}kind");
        }
        _ => panic!("round trip failed"),
    }
    let c = Command::SelectInstallDir {
        callback_name: String::from("onDir\u{1f}x"),
    };
    let wire = encode_command(&c);
    match decode_command(&wire) {
        Ok(Command::SelectInstallDir { callback_name }) => {
            assert_eq!(callback_name, "onDir\u{1f}x");
        }
        _ => panic!("round trip failed"),
    }
}

#[test]
fn handle_message_routes() {
    match handle_message(r#"{"SelectInstallDir":{"callback_name":"cb"}}"#) {
        Ok(Action::OpenDialog { callback_name }) => assert_eq!(callback_name, "cb"),
        _ => panic!("expected OpenDialog"),
    }
    match handle_message(r#"{"Log":{"msg":"m","kind":"bogus"}}"#) {
        Ok(Action::EmitLog { severity, message }) => {
            assert_eq!(severity, Severity::Error);
            assert_eq!(message, "m");
        }
        _ => panic!("expected EmitLog"),
    }
    assert!(handle_message("{oops").is_err());
}

#[test]
fn window_presets() {
    assert_eq!(window_size(true), (600, 300));
    assert_eq!(window_size(false), (1024, 500));
    let c = window_config("MyApp", "http://localhost:1234/", true);
    assert_eq!(c.title, "MyApp Installer");
    assert_eq!(c.url, "http://localhost:1234/");
    assert_eq!((c.width, c.height), (600, 300));
    assert!(!c.resizable);
    assert!(!c.debug);
    let c = window_config("MyApp", "http://localhost:1234/", false);
    assert_eq!((c.width, c.height), (1024, 500));
}
