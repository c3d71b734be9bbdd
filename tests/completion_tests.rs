use shell_core::completion::{
    directory_to_list, longest_common_prefix, plan_completion, split_blank_words, CompletionPlan,
    DirEntry, InputHelper,
};

fn strings(v: &[&str]) -> Vec<String> {
    v.iter().map(|s| s.to_string()).collect()
}

fn entry(name: &str, is_dir: bool) -> DirEntry {
    DirEntry { name: name.to_string(), is_dir }
}

fn commands(prefix: &str, names: &[&str]) -> Vec<String> {
    InputHelper::sort_candidates(InputHelper::get_cmd_candidates(prefix, &strings(names)))
}

#[test]
fn ambiguous_command_prefix_lists_all() {
    assert_eq!(commands("e", &[]), strings(&["echo", "exit"]));
}

#[test]
fn unique_command_prefix_gets_a_space() {
    assert_eq!(commands("ech", &[]), strings(&["echo "]));
    assert_eq!(commands("ec", &[]), strings(&["echo "]));
}

#[test]
fn history_is_offered() {
    assert_eq!(commands("hi", &[]), strings(&["history "]));
}

#[test]
fn search_path_names_join_builtins_once() {
    assert_eq!(commands("ec", &["echo", "ecstatic", "ls"]), strings(&["echo", "ecstatic"]));
    assert_eq!(commands("l", &["ls", "less", "ls"]), strings(&["less", "ls"]));
    assert_eq!(commands("zz", &["ls"]), strings(&[]));
}

#[test]
fn unsorted_candidates_keep_first_occurrence_order() {
    assert_eq!(InputHelper::get_cmd_candidates("", &strings(&["zz", "aa", "echo"])),
        strings(&["echo", "exit", "cd", "pwd", "type", "history", "zz", "aa"]));
}

#[test]
fn plan_command_position() {
    match plan_completion("ec", 2) {
        CompletionPlan::Command { prefix } => assert_eq!(prefix, "ec"),
        _ => panic!("expected a command completion"),
    }
}

#[test]
fn plan_path_position() {
    match plan_completion("cat  a  sr", 10) {
        CompletionPlan::Path { before, last } => {
            assert_eq!(before, "cat a");
            assert_eq!(last, "sr");
        }
        _ => panic!("expected a path completion"),
    }
    match plan_completion("cd ", 3) {
        CompletionPlan::Path { before, last } => {
            assert_eq!(before, "cd");
            assert_eq!(last, "");
        }
        _ => panic!("expected a path completion"),
    }
}

#[test]
fn plan_other_cases() {
    assert!(matches!(plan_completion("ls -l", 5), CompletionPlan::Nothing));
    assert!(matches!(plan_completion("", 0), CompletionPlan::Nothing));
    assert!(matches!(plan_completion("echo", 2), CompletionPlan::Unchanged));
    assert!(matches!(plan_completion("é", 1), CompletionPlan::Unchanged));
}

#[test]
fn blank_word_split() {
    assert_eq!(split_blank_words("  a bc\t d "), strings(&["a", "bc", "d"]));
    assert_eq!(split_blank_words(""), strings(&[]));
}

#[test]
fn directory_for_fragment() {
    assert_eq!(directory_to_list("src/ma"), "src");
    assert_eq!(directory_to_list("a/b/c"), "a/b");
    assert_eq!(directory_to_list("ma"), ".");
    assert_eq!(directory_to_list("/us"), "");
}

#[test]
fn single_directory_match_keeps_slash() {
    let es = vec![entry("src", true), entry("Cargo.toml", false)];
    assert_eq!(InputHelper::get_directory_completions("cd", "s", &es), strings(&["cd src/"]));
}

#[test]
fn single_file_match_gets_a_space() {
    let es = vec![entry("main.rs", false), entry("lib.rs", false)];
    assert_eq!(InputHelper::get_directory_completions("cat", "src/ma", &es), strings(&["cat src/main.rs "]));
}

#[test]
fn common_prefix_widens_fragment() {
    let es = vec![entry("Cargo.toml", false), entry("Cargo.lock", false), entry("src", true)];
    assert_eq!(InputHelper::get_directory_completions("cat", "C", &es), strings(&["cat Cargo."]));
}

#[test]
fn ambiguous_fragment_lists_candidates() {
    let es = vec![entry("ac", false), entry("ab", true)];
    let r = InputHelper::get_directory_completions("ls x", "a", &es);
    assert_eq!(r, strings(&["ac", "ab/"]));
    assert_eq!(InputHelper::sort_candidates(r), strings(&["ab/", "ac"]));
}

#[test]
fn no_match_gives_nothing() {
    let es = vec![entry("ac", false)];
    assert_eq!(InputHelper::get_directory_completions("ls", "z", &es), strings(&[]));
    assert_eq!(InputHelper::get_directory_completions("ls", "z", &[]), strings(&[]));
}

#[test]
fn longest_prefix_of_candidates() {
    assert_eq!(longest_common_prefix(&strings(&["interstellar", "internet", "interval"])), "inter");
    assert_eq!(longest_common_prefix(&strings(&["abc"])), "abc");
    assert_eq!(longest_common_prefix(&strings(&["abc", "xyz"])), "");
    assert_eq!(longest_common_prefix(&strings(&[])), "");
}

#[test]
fn sorting_candidates() {
    assert_eq!(InputHelper::sort_candidates(strings(&["b", "a", "ab", "B"])), strings(&["B", "a", "ab", "b"]));
    assert_eq!(InputHelper::sort_candidates(strings(&["only "])), strings(&["only "]));
}

#[test]
fn helper_builds() {
    let _h: InputHelper = InputHelper::default();
}
