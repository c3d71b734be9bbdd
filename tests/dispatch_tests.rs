use shell_core::dispatch::{
    after_command_lookup, after_home, after_type_lookup, cd_failure, cd_success, dispatch, external_result,
    pwd_result, spawn_failure, Outcome,
};
use shell_core::redirect::{is_redirect_token, route, split_redirect};

fn strings(v: &[&str]) -> Vec<String> {
    v.iter().map(|s| s.to_string()).collect()
}

#[test]
fn echo_replies_with_joined_arguments() {
    match dispatch("echo", &strings(&["a", "b c", "d"])) {
        Outcome::Reply(r) => {
            assert_eq!(r.status, 0);
            assert_eq!(r.stdout_text, "a b c d");
            assert_eq!(r.stderr_text, "");
        }
        _ => panic!("expected a reply"),
    }
}

#[test]
fn builtins_lead_to_their_steps() {
    assert!(matches!(dispatch("exit", &[]), Outcome::Exit));
    assert!(matches!(dispatch("pwd", &[]), Outcome::ReportDir));
    assert!(matches!(dispatch("cd", &[]), Outcome::NeedHome));
    assert!(matches!(dispatch("cd", &strings(&["~/x"])), Outcome::NeedHome));
    match dispatch("cd", &strings(&["/tmp"])) {
        Outcome::ChangeDir(p) => assert_eq!(p, "/tmp"),
        _ => panic!("expected a directory change"),
    }
    match dispatch("type", &strings(&["ls"])) {
        Outcome::ResolveForType(n) => assert_eq!(n, "ls"),
        _ => panic!("expected a lookup for type"),
    }
    match dispatch("ls", &strings(&["-l"])) {
        Outcome::ResolveCommand(n) => assert_eq!(n, "ls"),
        _ => panic!("expected a command lookup"),
    }
}

#[test]
fn type_after_lookup() {
    match after_type_lookup(&strings(&["nonexistent_xyz"]), &None) {
        Outcome::Reply(r) => assert_eq!(r.stdout_text, "nonexistent_xyz: not found"),
        _ => panic!("expected a reply"),
    }
}

#[test]
fn cd_tilde_goes_home() {
    match after_home(&strings(&["~"]), "/home/u") {
        Outcome::ChangeDir(p) => assert_eq!(p, "/home/u"),
        _ => panic!("expected a directory change"),
    }
    match after_home(&strings(&[]), "/home/u") {
        Outcome::ChangeDir(p) => assert_eq!(p, "/home/u"),
        _ => panic!("expected a directory change"),
    }
}

#[test]
fn unknown_command_is_not_found() {
    match after_command_lookup("nosuch", None) {
        Outcome::Reply(r) => {
            assert_eq!(r.status, 1);
            assert_eq!(r.stderr_text, "nosuch: command not found");
            assert_eq!(r.stdout_text, "");
        }
        _ => panic!("expected a reply"),
    }
    match after_command_lookup("ls", Some("/bin/ls".to_string())) {
        Outcome::Launch(p) => assert_eq!(p, "/bin/ls"),
        _ => panic!("expected a launch"),
    }
}

#[test]
fn external_output_is_trimmed_and_status_follows_stderr() {
    let r = external_result("hi\n".to_string(), String::new());
    assert_eq!((r.status, r.stdout_text.as_str(), r.stderr_text.as_str()), (0, "hi", ""));
    let r = external_result(String::new(), "err\n".to_string());
    assert_eq!((r.status, r.stdout_text.as_str(), r.stderr_text.as_str()), (1, "", "err"));
    let r = external_result("a\n\n".to_string(), "\n".to_string());
    assert_eq!((r.status, r.stdout_text.as_str(), r.stderr_text.as_str()), (0, "a\n", ""));
}

#[test]
fn spawn_errors_fail() {
    let r = spawn_failure("No such file or directory (os error 2)".to_string());
    assert_eq!(r.status, 1);
    assert_eq!(r.stderr_text, "No such file or directory (os error 2)");
}

#[test]
fn cd_to_missing_directory_reports() {
    let r = cd_failure("/nonexistent_path_xyz");
    assert_eq!(r.status, 1);
    assert_eq!(r.stderr_text, "/nonexistent_path_xyz: No such file or directory");
    assert_eq!(r.stdout_text, "");
}

#[test]
fn pwd_is_the_same_twice() {
    let a = pwd_result("/home/u".to_string());
    let b = pwd_result("/home/u".to_string());
    assert_eq!(a.stdout_text, "/home/u");
    assert_eq!(a.stdout_text, b.stdout_text);
    assert_eq!(a.status, 0);
}

#[test]
fn redirection_is_stripped() {
    let r = split_redirect(&strings(&["hello", ">", "/tmp/out.txt"])).unwrap();
    assert_eq!(r.args, strings(&["hello"]));
    assert_eq!(r.target, "/tmp/out.txt");
    let r = split_redirect(&strings(&["a", "1>", "f", "b"])).unwrap();
    assert_eq!(r.args, strings(&["a", "b"]));
    assert_eq!(r.target, "f");
}

#[test]
fn redirection_needs_a_target() {
    assert!(split_redirect(&strings(&["hello", ">"])).is_none());
    assert!(split_redirect(&strings(&["hello", "2>", "f"])).is_none());
    assert!(split_redirect(&strings(&[])).is_none());
    assert!(is_redirect_token(">"));
    assert!(is_redirect_token("1>"));
    assert!(!is_redirect_token(">>"));
}

#[test]
fn redirected_output_goes_to_file() {
    let out = match dispatch("echo", &strings(&["hello"])) {
        Outcome::Reply(r) => r,
        _ => panic!("expected a reply"),
    };
    let routing = route(out, true);
    assert!(routing.to_stdout.is_none());
    assert_eq!(routing.to_file, Some("hello".to_string()));
    assert!(routing.to_stderr.is_none());
}

#[test]
fn terminal_routing() {
    let r = external_result("out\n".to_string(), "bad\n".to_string());
    let routing = route(r, false);
    assert_eq!(routing.to_stdout, Some("out".to_string()));
    assert!(routing.to_file.is_none());
    assert_eq!(routing.to_stderr, Some("bad".to_string()));
    let quiet = route(pwd_result(String::new()), false);
    assert!(quiet.to_stdout.is_none() && quiet.to_file.is_none() && quiet.to_stderr.is_none());
}

#[test]
fn cd_success_is_silent() {
    let r = cd_success();
    assert_eq!((r.status, r.stdout_text.as_str(), r.stderr_text.as_str()), (0, "", ""));
}
