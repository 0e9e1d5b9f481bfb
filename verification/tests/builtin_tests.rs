use shellcore::builtins::cd_error_line;
use shellcore::builtins::cd_target;
use shellcore::builtins::command_not_found_line;
use shellcore::builtins::echo_line;
use shellcore::builtins::exit_code;
use shellcore::builtins::type_line;
use shellcore::resolve::BuiltinKind;
use shellcore::resolve::ResolvedCommand;
use shellcore::state::ShellState;

fn arg_list(words: &[&str]) -> Vec<String> {
    words.iter().map(|w| w.to_string()).collect()
}

#[test]
fn echo_joins_with_single_spaces() {
    assert_eq!(echo_line(&arg_list(&["hello", "world"])), "hello world");
}

#[test]
fn echo_single_argument() {
    assert_eq!(echo_line(&arg_list(&["hello"])), "hello");
}

#[test]
fn echo_no_arguments() {
    assert_eq!(echo_line(&arg_list(&[])), "");
}

#[test]
fn echo_keeps_argument_content() {
    assert_eq!(echo_line(&arg_list(&["a b", "c"])), "a b c");
}

#[test]
fn type_reports_builtin() {
    let line = type_line("cd", &ResolvedCommand::Builtin(BuiltinKind::Cd));
    assert_eq!(line, "cd is a shell builtin");
}

#[test]
fn type_reports_external_path() {
    let line = type_line("ls", &ResolvedCommand::External("/bin/ls".to_string()));
    assert_eq!(line, "ls is /bin/ls");
}

#[test]
fn type_reports_not_found() {
    let line = type_line("doesnotexist123", &ResolvedCommand::NotFound);
    assert_eq!(line, "doesnotexist123: not found");
}

#[test]
fn driver_reports_command_not_found() {
    assert_eq!(command_not_found_line("nosuch"), "nosuch: command not found");
}

#[test]
fn cd_tilde_substitutes_home() {
    assert_eq!(cd_target("~", "/home/user"), "/home/user");
}

#[test]
fn cd_plain_path_stays() {
    assert_eq!(cd_target("/tmp", "/home/user"), "/tmp");
}

#[test]
fn cd_error_names_path() {
    assert_eq!(
        cd_error_line("/nope"),
        "cd: /nope: No such file or directory"
    );
}

#[test]
fn exit_code_defaults_to_zero() {
    assert_eq!(exit_code(&arg_list(&[])), 0);
}

#[test]
fn exit_code_parses_decimal() {
    assert_eq!(exit_code(&arg_list(&["7"])), 7);
    assert_eq!(exit_code(&arg_list(&["0"])), 0);
    assert_eq!(exit_code(&arg_list(&["42"])), 42);
}

#[test]
fn exit_code_at_limit() {
    assert_eq!(exit_code(&arg_list(&["2147483647"])), i32::MAX);
}

#[test]
fn exit_code_rejects_non_numeric() {
    assert_eq!(exit_code(&arg_list(&["abc"])), 0);
    assert_eq!(exit_code(&arg_list(&["-1"])), 0);
    assert_eq!(exit_code(&arg_list(&[""])), 0);
}

#[test]
fn exit_code_rejects_overflow() {
    assert_eq!(exit_code(&arg_list(&["2147483648"])), 0);
    assert_eq!(exit_code(&arg_list(&["99999999999999999999"])), 0);
}

#[test]
fn failed_cd_leaves_directory_unchanged() {
    let mut state = ShellState::new("/start".to_string());
    state.apply_cd(&"/nope".to_string(), false);
    assert_eq!(state.pwd_line(), "/start");
}

#[test]
fn successful_cd_moves() {
    let mut state = ShellState::new("/start".to_string());
    state.apply_cd(&"/tmp".to_string(), true);
    assert_eq!(state.pwd_line(), "/tmp");
}

#[test]
fn failed_cd_then_pwd_reflects_prior_directory() {
    let mut state = ShellState::new("/home/user".to_string());
    state.apply_cd(&"/etc".to_string(), true);
    state.apply_cd(&"/missing".to_string(), false);
    assert_eq!(state.pwd_line(), "/etc");
}

#[test]
fn status_is_recorded() {
    let mut state = ShellState::new("/".to_string());
    assert_eq!(state.last_status, 0);
    state.set_status(3);
    assert_eq!(state.last_status, 3);
    assert_eq!(state.pwd_line(), "/");
}
