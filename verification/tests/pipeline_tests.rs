use shellcore::complete::builtin_completions;
use shellcore::complete::word_start;
use shellcore::pipeline::parse_line;
use shellcore::pipeline::plan_pipeline;
use shellcore::pipeline::stages_wellformed;
use shellcore::pipeline::ParsedLine;
use shellcore::pipeline::StageInput;
use shellcore::pipeline::StageOutput;
use shellcore::strutil::str_eq;
use shellcore::strutil::string_of;

fn words(words: &[&str]) -> Vec<String> {
    words.iter().map(|w| w.to_string()).collect()
}

#[test]
fn line_without_pipe_is_single() {
    match parse_line("echo hi") {
        ParsedLine::Single(toks) => assert_eq!(toks, words(&["echo", "hi"])),
        other => panic!("expected single command, got a different parse: {}", kind(&other)),
    }
}

#[test]
fn blank_line_is_empty() {
    assert!(matches!(parse_line("   \t "), ParsedLine::Empty));
}

#[test]
fn three_stage_pipeline_parses_in_order() {
    match parse_line("producer | filter -x | consumer") {
        ParsedLine::Pipeline(stages) => {
            assert_eq!(stages.len(), 3);
            assert_eq!(stages[0], words(&["producer"]));
            assert_eq!(stages[1], words(&["filter", "-x"]));
            assert_eq!(stages[2], words(&["consumer"]));
        },
        other => panic!("expected pipeline, got a different parse: {}", kind(&other)),
    }
}

#[test]
fn quoted_stage_arguments_survive() {
    match parse_line("echo 'a b' | cat") {
        ParsedLine::Pipeline(stages) => {
            assert_eq!(stages[0], words(&["echo", "a b"]));
            assert_eq!(stages[1], words(&["cat"]));
        },
        other => panic!("expected pipeline, got a different parse: {}", kind(&other)),
    }
}

fn kind(p: &ParsedLine) -> &'static str {
    match p {
        ParsedLine::Empty => "empty",
        ParsedLine::Single(_) => "single",
        ParsedLine::Pipeline(_) => "pipeline",
    }
}

#[test]
fn wellformed_accepts_non_empty_stages() {
    let stages = vec![words(&["a"]), words(&["b", "c"])];
    assert!(stages_wellformed(&stages));
}

#[test]
fn wellformed_rejects_empty_stage() {
    let stages = vec![words(&["a"]), words(&[])];
    assert!(!stages_wellformed(&stages));
}

#[test]
fn dangling_pipe_gives_empty_stage() {
    match parse_line("a |") {
        ParsedLine::Pipeline(stages) => {
            assert_eq!(stages.len(), 2);
            assert!(!stages_wellformed(&stages));
        },
        other => panic!("expected pipeline, got a different parse: {}", kind(&other)),
    }
}

#[test]
fn three_stage_plan_chains_pipes() {
    let plan = plan_pipeline(3);
    assert_eq!(plan.len(), 3);
    assert_eq!(plan[0].input, StageInput::Console);
    assert_eq!(plan[0].output, StageOutput::ToPipe(0));
    assert_eq!(plan[1].input, StageInput::FromPipe(0));
    assert_eq!(plan[1].output, StageOutput::ToPipe(1));
    assert_eq!(plan[2].input, StageInput::FromPipe(1));
    assert_eq!(plan[2].output, StageOutput::Console);
}

#[test]
fn single_stage_plan_uses_console_only() {
    let plan = plan_pipeline(1);
    assert_eq!(plan.len(), 1);
    assert_eq!(plan[0].input, StageInput::Console);
    assert_eq!(plan[0].output, StageOutput::Console);
}

#[test]
fn completions_for_e_prefix() {
    assert_eq!(builtin_completions("e"), words(&["exit", "echo"]));
}

#[test]
fn completions_for_empty_prefix() {
    assert_eq!(
        builtin_completions(""),
        words(&["exit", "echo", "cd", "pwd", "type"])
    );
}

#[test]
fn completions_exact_name() {
    assert_eq!(builtin_completions("cd"), words(&["cd"]));
}

#[test]
fn completions_no_match() {
    assert_eq!(builtin_completions("x"), Vec::<String>::new());
}

#[test]
fn word_starts_after_last_space() {
    assert_eq!(word_start("echo h"), 5);
    assert_eq!(word_start("a "), 2);
}

#[test]
fn word_starts_at_line_start() {
    assert_eq!(word_start("abc"), 0);
    assert_eq!(word_start(""), 0);
}

#[test]
fn string_helpers_behave() {
    assert!(str_eq("abc", "abc"));
    assert!(!str_eq("abc", "abd"));
    assert!(!str_eq("abc", "ab"));
    assert_eq!(string_of(&vec!['h', 'i']), "hi");
}
