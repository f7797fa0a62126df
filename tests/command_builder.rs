use derive_builder::command::Command;

fn strings(v: &[&str]) -> Vec<String> {
    v.iter().map(|s| s.to_string()).collect()
}

#[test]
fn command_without_current_dir_builds() {
    let cmd = Command::builder()
        .executable("sh".to_string())
        .args(strings(&["-c", "echo hi"]))
        .env(strings(&["A=1"]))
        .build()
        .unwrap();
    assert_eq!(cmd.executable, "sh");
    assert_eq!(cmd.args, strings(&["-c", "echo hi"]));
    assert_eq!(cmd.env, strings(&["A=1"]));
    assert_eq!(cmd.current_dir, None);
}

#[test]
fn command_missing_executable_names_it() {
    let err = Command::builder()
        .args(strings(&["-c"]))
        .env(strings(&[]))
        .build()
        .unwrap_err();
    assert_eq!(err, "Field executable was never set");
    assert!(err.contains("executable"));
}

#[test]
fn command_reports_first_missing_field_only() {
    let err = Command::builder().env(strings(&[])).build().unwrap_err();
    assert_eq!(err, "Field executable was never set");
    let err = Command::builder().executable("sh".to_string()).build().unwrap_err();
    assert_eq!(err, "Field args was never set");
    let err = Command::builder()
        .executable("sh".to_string())
        .args(strings(&[]))
        .build()
        .unwrap_err();
    assert_eq!(err, "Field env was never set");
}

#[test]
fn command_current_dir_is_wrapped_once() {
    let cmd = Command::builder()
        .executable("ls".to_string())
        .args(strings(&[]))
        .env(strings(&[]))
        .current_dir("/tmp".to_string())
        .build()
        .unwrap();
    assert_eq!(cmd.current_dir, Some("/tmp".to_string()));
}

#[test]
fn command_setter_order_does_not_matter() {
    let a = Command::builder()
        .current_dir("/".to_string())
        .env(strings(&["X=2"]))
        .args(strings(&["a", "b"]))
        .executable("cat".to_string())
        .build()
        .unwrap();
    let b = Command::builder()
        .executable("cat".to_string())
        .args(strings(&["a", "b"]))
        .env(strings(&["X=2"]))
        .current_dir("/".to_string())
        .build()
        .unwrap();
    assert_eq!(a, b);
    assert_eq!(a.executable, "cat");
    assert_eq!(a.args, strings(&["a", "b"]));
}

#[test]
fn command_build_can_be_repeated() {
    let mut b = Command::builder();
    b.args(strings(&[])).env(strings(&[]));
    assert!(b.build().is_err());
    b.executable("sh".to_string());
    let first = b.build().unwrap();
    let second = b.build().unwrap();
    assert_eq!(first, second);
}

#[test]
fn command_last_setter_call_wins() {
    let cmd = Command::builder()
        .executable("sh".to_string())
        .executable("bash".to_string())
        .args(strings(&[]))
        .env(strings(&[]))
        .build()
        .unwrap();
    assert_eq!(cmd.executable, "bash");
}
