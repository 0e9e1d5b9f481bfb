use shellcore::resolve::builtin_of;
use shellcore::resolve::is_builtin;
use shellcore::resolve::is_executable_file;
use shellcore::resolve::join_path;
use shellcore::resolve::resolve_command;
use shellcore::resolve::BuiltinKind;
use shellcore::resolve::ResolvedCommand;
use shellcore::strutil::split_char;

fn path_list(words: &[&str]) -> Vec<String> {
    words.iter().map(|w| w.to_string()).collect()
}

#[test]
fn every_builtin_is_recognized() {
    for name in ["exit", "echo", "cd", "pwd", "type"] {
        assert!(is_builtin(name), "{name} should be a builtin");
    }
}

#[test]
fn non_builtins_are_rejected() {
    assert!(!is_builtin("ls"));
    assert!(!is_builtin(""));
    assert!(!is_builtin("exitt"));
    assert!(!is_builtin("ech"));
}

#[test]
fn builtin_kinds() {
    assert_eq!(builtin_of("exit"), Some(BuiltinKind::Exit));
    assert_eq!(builtin_of("echo"), Some(BuiltinKind::Echo));
    assert_eq!(builtin_of("cd"), Some(BuiltinKind::Cd));
    assert_eq!(builtin_of("pwd"), Some(BuiltinKind::Pwd));
    assert_eq!(builtin_of("type"), Some(BuiltinKind::Type));
    assert_eq!(builtin_of("grep"), None);
}

#[test]
fn resolve_prefers_builtin() {
    let dirs = path_list(&["/bin"]);
    let hits = vec![true];
    match resolve_command("cd", &dirs, &hits) {
        ResolvedCommand::Builtin(k) => assert_eq!(k, BuiltinKind::Cd),
        other => panic!("expected builtin, got {other:?}"),
    }
}

#[test]
fn resolve_first_hit_wins() {
    let dirs = path_list(&["/a", "/b", "/c"]);
    let hits = vec![false, true, true];
    match resolve_command("ls", &dirs, &hits) {
        ResolvedCommand::External(p) => assert_eq!(p, "/b/ls"),
        other => panic!("expected external, got {other:?}"),
    }
}

#[test]
fn resolve_no_hit_is_not_found() {
    let dirs = path_list(&["/a", "/b"]);
    let hits = vec![false, false];
    assert!(matches!(
        resolve_command("nosuch", &dirs, &hits),
        ResolvedCommand::NotFound
    ));
}

#[test]
fn resolve_empty_search_path_is_not_found() {
    let dirs: Vec<String> = Vec::new();
    let hits: Vec<bool> = Vec::new();
    assert!(matches!(
        resolve_command("nosuch", &dirs, &hits),
        ResolvedCommand::NotFound
    ));
}

#[test]
fn join_path_inserts_slash() {
    assert_eq!(join_path("/usr/bin", "ls"), "/usr/bin/ls");
}

#[test]
fn executable_needs_all_three() {
    assert!(is_executable_file(true, true, 0o755));
    assert!(is_executable_file(true, true, 0o100));
    assert!(!is_executable_file(true, true, 0o644));
    assert!(!is_executable_file(false, true, 0o755));
    assert!(!is_executable_file(true, false, 0o755));
}

#[test]
fn search_path_splits_on_colon() {
    assert_eq!(split_char("/a:/b::c", ':'), path_list(&["/a", "/b", "", "c"]));
}

#[test]
fn search_path_single_entry() {
    assert_eq!(split_char("/bin", ':'), path_list(&["/bin"]));
}
