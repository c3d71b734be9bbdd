use shell_core::builtin::{cd_needs_home, cd_target, run_echo, run_type, Builtin};

fn strings(v: &[&str]) -> Vec<String> {
    v.iter().map(|s| s.to_string()).collect()
}

#[test]
fn type_reports_builtin() {
    assert_eq!(run_type(&strings(&["echo"]), &None), "echo is a shell builtin");
    let found = Some("/usr/bin/cd".to_string());
    assert_eq!(run_type(&strings(&["cd"]), &found), "cd is a shell builtin");
}

#[test]
fn type_reports_not_found() {
    assert_eq!(run_type(&strings(&["nonexistent_xyz"]), &None), "nonexistent_xyz: not found");
}

#[test]
fn type_reports_resolved_path() {
    let found = Some("/usr/bin/ls".to_string());
    assert_eq!(run_type(&strings(&["ls"]), &found), "ls is /usr/bin/ls");
}

#[test]
fn echo_joins_with_single_spaces() {
    assert_eq!(run_echo(&strings(&["a", "b c", "d"])), "a b c d");
    assert_eq!(run_echo(&strings(&[])), "");
    assert_eq!(run_echo(&strings(&["x"])), "x");
    assert_eq!(run_echo(&strings(&["", ""])), " ");
}

#[test]
fn builtin_names_match_exactly() {
    assert_eq!(Builtin::from_name("exit"), Some(Builtin::Exit));
    assert_eq!(Builtin::from_name("echo"), Some(Builtin::Echo));
    assert_eq!(Builtin::from_name("type"), Some(Builtin::Type));
    assert_eq!(Builtin::from_name("pwd"), Some(Builtin::Pwd));
    assert_eq!(Builtin::from_name("cd"), Some(Builtin::Cd));
    assert_eq!(Builtin::from_name("ech"), None);
    assert_eq!(Builtin::from_name("echo "), None);
    assert_eq!(Builtin::from_name("history"), None);
    for b in [Builtin::Exit, Builtin::Echo, Builtin::Type, Builtin::Pwd, Builtin::Cd] {
        assert_eq!(Builtin::from_name(b.name()), Some(b));
    }
}

#[test]
fn cd_goes_home_without_argument() {
    assert!(cd_needs_home(&strings(&[])));
    assert_eq!(cd_target(&strings(&[]), "/home/u"), "/home/u");
}

#[test]
fn cd_expands_leading_tilde() {
    assert!(cd_needs_home(&strings(&["~"])));
    assert_eq!(cd_target(&strings(&["~"]), "/home/u"), "/home/u");
    assert_eq!(cd_target(&strings(&["~/src"]), "/home/u"), "/home/u/src");
    assert_eq!(cd_target(&strings(&["~bob"]), "/home/u"), "/home/ubob");
}

#[test]
fn cd_takes_other_paths_literally() {
    assert!(!cd_needs_home(&strings(&["/tmp"])));
    assert_eq!(cd_target(&strings(&["/tmp"]), "/home/u"), "/tmp");
    assert_eq!(cd_target(&strings(&["a/~"]), "/home/u"), "a/~");
}

#[test]
fn builtin_parses_from_str() {
    assert_eq!("pwd".parse::<Builtin>(), Ok(Builtin::Pwd));
    assert_eq!("ls".parse::<Builtin>(), Err("Not a builtin command"));
}

#[test]
fn non_builtins_do_not_parse() {
    for s in ["history", "ech", "Echo", "echo ", ""] {
        assert_eq!(s.parse::<Builtin>(), Err("Not a builtin command"));
    }
    assert_eq!("cd".parse::<Builtin>(), Ok(Builtin::Cd));
}
