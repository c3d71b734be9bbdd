use shell_core::resolver::{find_excutable, is_executable_mode, join_path, split_search_path};

fn strings(v: &[&str]) -> Vec<String> {
    v.iter().map(|s| s.to_string()).collect()
}

#[test]
fn first_directory_wins() {
    let dirs = strings(&["/a", "/b"]);
    let r = find_excutable("foo", &dirs, &[Some(0o755), Some(0o755)]);
    assert_eq!(r, Some("/a/foo".to_string()));
}

#[test]
fn files_without_execute_bit_are_skipped() {
    let dirs = strings(&["/a", "/b"]);
    assert_eq!(find_excutable("foo", &dirs, &[Some(0o644), Some(0o700)]), Some("/b/foo".to_string()));
    assert_eq!(find_excutable("foo", &dirs, &[Some(0o644), None]), None);
    assert_eq!(find_excutable("foo", &dirs, &[None, Some(0o001)]), Some("/b/foo".to_string()));
    assert_eq!(find_excutable("foo", &[], &[]), None);
}

#[test]
fn execute_bits() {
    assert!(is_executable_mode(0o100));
    assert!(is_executable_mode(0o010));
    assert!(is_executable_mode(0o001));
    assert!(is_executable_mode(0o100755));
    assert!(!is_executable_mode(0o644));
    assert!(!is_executable_mode(0));
}

#[test]
fn search_path_splits_on_colons() {
    assert_eq!(split_search_path("/usr/bin:/bin"), strings(&["/usr/bin", "/bin"]));
    assert_eq!(split_search_path(""), strings(&[""]));
    assert_eq!(split_search_path("a:"), strings(&["a", ""]));
    assert_eq!(split_search_path("::x"), strings(&["", "", "x"]));
}

#[test]
fn paths_are_joined_with_a_slash() {
    assert_eq!(join_path("/usr/bin", "ls"), "/usr/bin/ls");
}
