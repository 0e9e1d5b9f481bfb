use shellcore::redirect::parse_redirections;
use shellcore::redirect::parse_stderr_redirection;

fn toks(words: &[&str]) -> Vec<String> {
    words.iter().map(|w| w.to_string()).collect()
}

#[test]
fn stdout_truncate() {
    let plan = parse_redirections(&toks(&["echo", "hi", ">", "f.txt"]));
    assert_eq!(plan.args, toks(&["echo", "hi"]));
    let out = plan.stdout_to.unwrap();
    assert_eq!(out.path, "f.txt");
    assert!(!out.append);
    assert!(plan.stderr_to.is_none());
    assert!(!plan.malformed);
}

#[test]
fn stdout_truncate_spelled_one() {
    let plan = parse_redirections(&toks(&["echo", "hi", "1>", "f.txt"]));
    let out = plan.stdout_to.unwrap();
    assert_eq!(out.path, "f.txt");
    assert!(!out.append);
}

#[test]
fn stdout_append() {
    let plan = parse_redirections(&toks(&["echo", "hi", ">>", "f.txt"]));
    let out = plan.stdout_to.unwrap();
    assert_eq!(out.path, "f.txt");
    assert!(out.append);
}

#[test]
fn stdout_append_spelled_one() {
    let plan = parse_redirections(&toks(&["echo", "hi", "1>>", "f.txt"]));
    let out = plan.stdout_to.unwrap();
    assert_eq!(out.path, "f.txt");
    assert!(out.append);
}

#[test]
fn stderr_truncate() {
    let plan = parse_redirections(&toks(&["cmd", "2>", "err.txt"]));
    assert_eq!(plan.args, toks(&["cmd"]));
    assert!(plan.stdout_to.is_none());
    let err = plan.stderr_to.unwrap();
    assert_eq!(err.path, "err.txt");
    assert!(!err.append);
}

#[test]
fn stderr_append() {
    let plan = parse_redirections(&toks(&["cmd", "2>>", "err.txt"]));
    let err = plan.stderr_to.unwrap();
    assert_eq!(err.path, "err.txt");
    assert!(err.append);
}

#[test]
fn later_stdout_overrides_earlier() {
    let plan = parse_redirections(&toks(&["c", ">", "a", ">", "b"]));
    assert_eq!(plan.args, toks(&["c"]));
    assert_eq!(plan.stdout_to.unwrap().path, "b");
}

#[test]
fn both_streams_redirected() {
    let plan = parse_redirections(&toks(&["c", ">", "o", "2>", "e"]));
    assert_eq!(plan.args, toks(&["c"]));
    assert_eq!(plan.stdout_to.unwrap().path, "o");
    assert_eq!(plan.stderr_to.unwrap().path, "e");
}

#[test]
fn trailing_operator_is_malformed() {
    let plan = parse_redirections(&toks(&["echo", ">"]));
    assert_eq!(plan.args, toks(&["echo", ">"]));
    assert!(plan.stdout_to.is_none());
    assert!(plan.malformed);
}

#[test]
fn trailing_operator_keeps_earlier_redirection() {
    let plan = parse_redirections(&toks(&["echo", ">", "f", ">>"]));
    assert_eq!(plan.args, toks(&["echo", ">>"]));
    let out = plan.stdout_to.unwrap();
    assert_eq!(out.path, "f");
    assert!(!out.append);
    assert!(plan.malformed);
}

#[test]
fn no_operators_leaves_args_alone() {
    let plan = parse_redirections(&toks(&["ls", "-l", "dir"]));
    assert_eq!(plan.args, toks(&["ls", "-l", "dir"]));
    assert!(plan.stdout_to.is_none());
    assert!(plan.stderr_to.is_none());
    assert!(!plan.malformed);
}

#[test]
fn stderr_pass_removes_operator_and_operand() {
    let mut tokens = toks(&["a", "2>", "e", "b"]);
    let (path, append) = parse_stderr_redirection(&mut tokens);
    assert_eq!(tokens, toks(&["a", "b"]));
    assert_eq!(path.unwrap(), "e");
    assert!(!append);
}

#[test]
fn stderr_pass_append() {
    let mut tokens = toks(&["a", "2>>", "e"]);
    let (path, append) = parse_stderr_redirection(&mut tokens);
    assert_eq!(tokens, toks(&["a"]));
    assert_eq!(path.unwrap(), "e");
    assert!(append);
}

#[test]
fn stderr_pass_last_wins() {
    let mut tokens = toks(&["a", "2>", "e1", "2>>", "e2"]);
    let (path, append) = parse_stderr_redirection(&mut tokens);
    assert_eq!(tokens, toks(&["a"]));
    assert_eq!(path.unwrap(), "e2");
    assert!(append);
}

#[test]
fn stderr_pass_without_operator() {
    let mut tokens = toks(&["a", "b"]);
    let (path, append) = parse_stderr_redirection(&mut tokens);
    assert_eq!(tokens, toks(&["a", "b"]));
    assert!(path.is_none());
    assert!(!append);
}

#[test]
fn stderr_pass_keeps_trailing_operator() {
    let mut tokens = toks(&["a", "2>"]);
    let (path, _) = parse_stderr_redirection(&mut tokens);
    assert_eq!(tokens, toks(&["a", "2>"]));
    assert!(path.is_none());
}

#[test]
fn echo_redirection_line_parses_end_to_end() {
    // `echo hello > /tmp/x.txt`: the engine's parse of the stage that the
    // shell then carries out by opening the file and writing the line.
    let tokens = shellcore::tokenize::tokenize("echo hello > /tmp/x.txt");
    let plan = parse_redirections(&tokens);
    assert_eq!(plan.args, toks(&["echo", "hello"]));
    let out = plan.stdout_to.unwrap();
    assert_eq!(out.path, "/tmp/x.txt");
    assert!(!out.append);
    assert!(!plan.malformed);
    assert_eq!(shellcore::builtins::echo_line(&plan.args[1..].to_vec()), "hello");
}

#[test]
fn echo_append_line_parses_end_to_end() {
    let tokens = shellcore::tokenize::tokenize("echo hello >> /tmp/x.txt");
    let plan = parse_redirections(&tokens);
    assert_eq!(plan.args, toks(&["echo", "hello"]));
    let out = plan.stdout_to.unwrap();
    assert_eq!(out.path, "/tmp/x.txt");
    assert!(out.append);
}
