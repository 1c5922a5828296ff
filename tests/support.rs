use datascope::app_paths::{db_path, join_path, python_dir, python_examples_dir, python_user_dir};
use datascope::pdf_library::{copy_file_to_clipboard, sanitize_filename};
use datascope::keys::get_key_name;
use datascope::python::{PythonService, ScriptDir};
use datascope::text::{chars_of, is_float_chars, trim_bounds};

fn float(s: &str) -> bool {
    is_float_chars(&chars_of(s))
}

#[test]
fn float_syntax() {
    for ok in ["1", "-1", "+1", "1.", ".5", "1.5e10", "1E-3", "-2e+3", "inf", "-Infinity", "NaN", "nan", "INF", "007"] {
        assert!(float(ok), "{}", ok);
        assert!(ok.parse::<f64>().is_ok(), "{}", ok);
    }
    for bad in ["", ".", "e5", "1e", "1e+", "+", "abc", "1.2.3", " 1", "1 ", "infinit", "0x10", "1_000", "--1"] {
        assert!(!float(bad), "{}", bad);
        assert!(bad.parse::<f64>().is_err(), "{}", bad);
    }
}

#[test]
fn trimming() {
    let c = chars_of("\u{3000} a b\t\n");
    let (a, b) = trim_bounds(&c);
    assert_eq!(c[a..b].iter().collect::<String>(), "a b");
    let e = chars_of("   ");
    let (x, y) = trim_bounds(&e);
    assert_eq!(x, y);
}

#[test]
fn file_names_are_sanitized() {
    assert_eq!(sanitize_filename("a<b>:c\"d/e\\f|g?h*i"), "a_b__c_d_e_f_g_h_i");
    assert_eq!(sanitize_filename("Plain title"), "Plain title");
}

#[test]
fn clipboard_is_unavailable() {
    assert_eq!(copy_file_to_clipboard("/tmp/x.pdf"), Err("此功能仅支持 Windows".to_string()));
}

#[test]
fn data_paths() {
    assert_eq!(db_path("/data"), "/data/time_tracker.db");
    assert_eq!(db_path("/data/"), "/data/time_tracker.db");
    assert_eq!(python_dir("base"), "base/Python");
    assert_eq!(python_examples_dir("base"), "base/Python/examples");
    assert_eq!(python_user_dir("base"), "base/Python/user");
    assert_eq!(join_path("", "x"), "x");
}

#[test]
fn python_service_is_stateless() {
    assert_eq!(PythonService::new(), PythonService);
}

#[test]
fn test_key_name() {
    assert_eq!(get_key_name(0x41), "A");
    assert_eq!(get_key_name(0x70), "F1");
    assert_eq!(get_key_name(0x0D), "Enter");
}

#[test]
fn key_names_of_every_kind() {
    assert_eq!(get_key_name(0x5A), "Z");
    assert_eq!(get_key_name(0x30), "0");
    assert_eq!(get_key_name(0x39), "9");
    assert_eq!(get_key_name(0x87), "F24");
    assert_eq!(get_key_name(0x28), "ArrowDown");
    assert_eq!(get_key_name(0x20), "Space");
    assert_eq!(get_key_name(0xBA), "KeyBA");
    assert_eq!(get_key_name(0), "Key0");
    assert_eq!(get_key_name(-1), "KeyFFFFFFFF");
}

#[test]
fn script_locations_rules() {
    let svc = PythonService::new();
    assert!(svc.script_locations("../x.py").is_err());
    assert!(svc.script_locations("user/a..b.py").is_err());
    assert!(svc.script_locations("user/run.txt").is_err());
    assert!(svc.script_locations("py").is_err());
    assert_eq!(svc.script_locations("user/run.py").unwrap(), vec![(ScriptDir::User, "run.py".to_string())]);
    assert_eq!(svc.script_locations("user\\run.py").unwrap(), vec![(ScriptDir::User, "run.py".to_string())]);
    assert_eq!(svc.script_locations("examples/hello.py").unwrap(), vec![(ScriptDir::Examples, "hello.py".to_string())]);
    assert_eq!(
        svc.script_locations("hello.py").unwrap(),
        vec![(ScriptDir::User, "hello.py".to_string()), (ScriptDir::Examples, "hello.py".to_string())]
    );
    assert_eq!(svc.script_locations(".py").unwrap().len(), 2);
}
