use slush::digits::{i32_to_string, parse_i32_or_zero, parse_u64_capped, u64_to_string};
use slush::expr::{
    and_combine, builtin_lookup, classify_command, clear_fg, collapse_empty, define_function,
    exit_code_arg, expand_argument, expansion_outcome, finalize_mode, help_text, jobs_output,
    lookup_function, need_right_and, need_right_or, not_status, or_combine, plain_wait_status,
    prune_bg, push_frame, pop_frame, push_job, resolve_special, spawn_error_message,
    subshell_sources, trim_captured, variable_names, wants_stdout_pipe, Argument, BuiltIn,
    CommandClass, CommandExpr, CommandStr, ExpansionExpr, FunctionExpr, Job, MergeExpr,
    PipeLineExpr, RedirectExpr, RedirectType, State, SubShellExpr, VariableLookup,
};
use slush::expr::FinalizeMode;
use slush::runtime::Environment;
use slush::status_from_code;
use std::rc::Rc;

fn name(s: &str) -> Argument {
    Argument::Name(s.to_string())
}

// --- statuses and short-circuit evaluation ---------------------------------

#[test]
fn status_translation() {
    assert_eq!(status_from_code(Some(0)), 0);
    assert_eq!(status_from_code(Some(42)), 42);
    assert_eq!(status_from_code(None), 130);
}

#[test]
fn short_circuit_decisions() {
    // "false && echo hi": the right side must not run and the left status is kept.
    assert!(!need_right_and(1));
    assert_eq!(and_combine(1, None), 1);
    // "true || echo hi": the right side must not run and the result is 0.
    assert!(!need_right_or(0));
    assert_eq!(or_combine(0, None), 0);
    // The evaluated cases.
    assert!(need_right_and(0));
    assert_eq!(and_combine(0, Some(7)), 7);
    assert!(need_right_or(3));
    assert_eq!(or_combine(3, Some(0)), 0);
}

#[test]
fn negation_status() {
    assert_eq!(not_status(0), 1);
    assert_eq!(not_status(5), 0);
}

// --- capture trimming -------------------------------------------------------

#[test]
fn capture_trims_exactly_one_newline() {
    assert_eq!(trim_captured("hi\n".to_string()), "hi");
    assert_eq!(trim_captured("hi\n\n".to_string()), "hi\n");
    assert_eq!(trim_captured("hi".to_string()), "hi");
    assert_eq!(trim_captured("".to_string()), "");
}

// --- parameter expansion family ---------------------------------------------

#[test]
fn substitute_uses_default_only_when_unset() {
    let e = ExpansionExpr::ParameterSubstitute("X".to_string(), "d".to_string());
    let unset = expansion_outcome(&e, None);
    assert_eq!(unset.value, "d");
    assert!(unset.assign.is_none());
    let set = expansion_outcome(&e, Some("v".to_string()));
    assert_eq!(set.value, "v");
    assert!(set.assign.is_none());
}

#[test]
fn assign_form_records_the_default() {
    let e = ExpansionExpr::ParameterAssign("X".to_string(), "d".to_string());
    let unset = expansion_outcome(&e, None);
    assert_eq!(unset.value, "d");
    assert_eq!(unset.assign, Some("d".to_string()));
    let set = expansion_outcome(&e, Some("v".to_string()));
    assert_eq!(set.value, "v");
    assert!(set.assign.is_none());
}

#[test]
fn empty_value_counts_as_unset() {
    assert_eq!(collapse_empty(Some("".to_string())), None);
    assert_eq!(collapse_empty(Some("x".to_string())), Some("x".to_string()));
    assert_eq!(collapse_empty(None), None);
}

#[test]
fn length_expansion_counts_characters() {
    let e = ExpansionExpr::StringLengthExpansion("X".to_string());
    assert_eq!(expansion_outcome(&e, Some("hello".to_string())).value, "5");
    assert_eq!(expansion_outcome(&e, None).value, "0");
}

#[test]
fn error_form_is_fatal_when_unset() {
    let e = ExpansionExpr::ParameterError("X".to_string(), "gone".to_string());
    let out = expansion_outcome(&e, None);
    assert_eq!(out.fatal, Some("slush: X: gone".to_string()));
}

// --- argument expansion ------------------------------------------------------

#[test]
fn merged_subshell_and_literal_concatenate() {
    // `echo a`b expands to the captured output followed by the literal: "ab".
    let arg = Argument::Merge(MergeExpr {
        left: Box::new(Argument::SubShell(SubShellExpr { shell: "echo a".to_string() })),
        right: Box::new(name("b")),
    });
    assert_eq!(subshell_sources(&arg), vec!["echo a".to_string()]);
    let state = State::new();
    let env: Vec<(String, Option<String>)> = Vec::new();
    let outs = vec!["a".to_string()];
    let (value, k, assigns, fatal) = expand_argument(&arg, &state, 1, &env, &outs, 0, Vec::new());
    assert_eq!(value, "ab");
    assert_eq!(k, 1);
    assert!(assigns.is_empty());
    assert!(fatal.is_none());
}

#[test]
fn variables_resolve_from_the_snapshot() {
    let arg = Argument::Merge(MergeExpr {
        left: Box::new(Argument::Variable(VariableLookup { name: "X".to_string() })),
        right: Box::new(name("!")),
    });
    assert_eq!(variable_names(&arg), vec!["X".to_string()]);
    let state = State::new();
    let env = vec![("X".to_string(), Some("hi".to_string()))];
    let outs: Vec<String> = Vec::new();
    let (value, _, _, _) = expand_argument(&arg, &state, 1, &env, &outs, 0, Vec::new());
    assert_eq!(value, "hi!");
}

#[test]
fn assign_default_is_seen_later_in_the_same_argument() {
    // ${X:=d}$X gives "dd": the assignment is visible to the later use.
    let arg = Argument::Merge(MergeExpr {
        left: Box::new(Argument::Expansion(ExpansionExpr::ParameterAssign(
            "X".to_string(),
            "d".to_string(),
        ))),
        right: Box::new(Argument::Variable(VariableLookup { name: "X".to_string() })),
    });
    let state = State::new();
    let env: Vec<(String, Option<String>)> = Vec::new();
    let outs: Vec<String> = Vec::new();
    let (value, _, assigns, _) = expand_argument(&arg, &state, 1, &env, &outs, 0, Vec::new());
    assert_eq!(value, "dd");
    assert_eq!(assigns, vec![("X".to_string(), "d".to_string())]);
}

#[test]
fn special_variables_come_from_the_state() {
    let mut state = State::new();
    state.prev_status = 42;
    assert_eq!(resolve_special(&state, "?", 7), Some(Some("42".to_string())));
    assert_eq!(resolve_special(&state, "$", 7), Some(Some("7".to_string())));
    assert_eq!(resolve_special(&state, "0", 7), Some(Some("slush".to_string())));
    assert_eq!(resolve_special(&state, "!", 7), Some(Some("0".to_string())));
    assert_eq!(resolve_special(&state, "HOME", 7), None);

    push_frame(&mut state, vec!["a".to_string(), "b".to_string()]);
    assert_eq!(resolve_special(&state, "@", 7), Some(Some("a b".to_string())));
    assert_eq!(resolve_special(&state, "#", 7), Some(Some("2".to_string())));
    assert_eq!(resolve_special(&state, "1", 7), Some(Some("a".to_string())));
    assert_eq!(resolve_special(&state, "2", 7), Some(Some("b".to_string())));
    assert_eq!(resolve_special(&state, "3", 7), Some(Some("".to_string())));
    pop_frame(&mut state);
    assert_eq!(resolve_special(&state, "1", 7), Some(None));
}

#[test]
fn build_command_str_assembles_the_argv() {
    let cmd = CommandExpr {
        command: name("echo"),
        arguments: vec![
            Argument::Variable(VariableLookup { name: "X".to_string() }),
            Argument::SubShell(SubShellExpr { shell: "pwd".to_string() }),
        ],
        assignment: None,
    };
    let state = State::new();
    let env = vec![("X".to_string(), Some("one".to_string()))];
    let outs = vec!["/here".to_string()];
    let (cs, k, assigns, fatal) = cmd.build_command_str(&state, 1, &env, &outs, 0);
    assert_eq!(cs.parts, vec!["echo".to_string(), "one".to_string(), "/here".to_string()]);
    assert_eq!(k, 1);
    assert!(assigns.is_empty());
    assert!(fatal.is_none());
}

// --- command resolution ------------------------------------------------------

#[test]
fn builtins_resolve_before_functions() {
    let mut state = State::new();
    assert_eq!(builtin_lookup("true"), Some(BuiltIn::True));
    assert_eq!(builtin_lookup("ls"), None);
    let f = FunctionExpr { fname: "true".to_string(), commands: Rc::new(Vec::new()) };
    assert_eq!(define_function(&mut state, &f), 0);
    // a builtin keeps precedence over the function of the same name
    assert!(matches!(classify_command(&state, "true"), CommandClass::Builtin(BuiltIn::True)));
    let g = FunctionExpr { fname: "greet".to_string(), commands: Rc::new(Vec::new()) };
    define_function(&mut state, &g);
    assert!(matches!(classify_command(&state, "greet"), CommandClass::Function));
    assert!(matches!(classify_command(&state, "nonexistent"), CommandClass::External));
    assert!(matches!(classify_command(&state, ""), CommandClass::Skip));
    assert!(lookup_function(&state, "greet").is_some());
    assert!(lookup_function(&state, "missing").is_none());
}

// --- pipeline wiring and finalization ---------------------------------------

#[test]
fn stdout_piping_rule() {
    // every stage but the last pipes; the last pipes for capture or output redirects
    assert!(wants_stdout_pipe(0, 2, false, &None));
    assert!(!wants_stdout_pipe(1, 2, false, &None));
    assert!(wants_stdout_pipe(1, 2, true, &None));
    let out = Some(RedirectExpr {
        file: name("f"),
        mode: RedirectType::Out,
        file_descriptor: 1,
    });
    assert!(wants_stdout_pipe(1, 2, false, &out));
    let input = Some(RedirectExpr {
        file: name("f"),
        mode: RedirectType::In,
        file_descriptor: 0,
    });
    assert!(!wants_stdout_pipe(1, 2, false, &input));
}

#[test]
fn finalization_precedence() {
    let out = Some(RedirectExpr {
        file: name("f"),
        mode: RedirectType::Out,
        file_descriptor: 1,
    });
    assert!(matches!(finalize_mode(true, &out, false), FinalizeMode::CaptureWait));
    assert!(matches!(finalize_mode(true, &out, true), FinalizeMode::CaptureSkip));
    assert!(matches!(finalize_mode(false, &out, false), FinalizeMode::FileOut));
    assert!(matches!(finalize_mode(false, &None, true), FinalizeMode::BackgroundReturn));
    assert!(matches!(finalize_mode(false, &None, false), FinalizeMode::ForegroundWait));
}

#[test]
fn background_returns_zero_immediately() {
    assert_eq!(plain_wait_status(true, Some(9)), 0);
    assert_eq!(plain_wait_status(true, None), 0);
    assert_eq!(plain_wait_status(false, Some(9)), 9);
    assert_eq!(plain_wait_status(false, None), 130);
}

// --- job bookkeeping ---------------------------------------------------------

fn job(pid: u32, word: &str) -> Job {
    Job { pid, cmd: CommandStr { parts: vec![word.to_string()] } }
}

#[test]
fn background_jobs_stay_until_confirmed_exited() {
    let mut state = State::new();
    push_job(&mut state, job(10, "sleep"), true);
    push_job(&mut state, job(11, "cat"), true);
    push_job(&mut state, job(12, "ls"), false);
    assert_eq!(state.bg_jobs.len(), 2);
    assert_eq!(state.fg_jobs.len(), 1);
    // only the job confirmed exited leaves the list
    prune_bg(&mut state, &vec![false, true]);
    assert_eq!(state.bg_jobs.len(), 1);
    assert_eq!(state.bg_jobs[0].pid, 10);
    // a run with nothing exited removes nothing
    prune_bg(&mut state, &vec![false]);
    assert_eq!(state.bg_jobs.len(), 1);
    clear_fg(&mut state);
    assert_eq!(state.fg_jobs.len(), 0);
}

#[test]
fn jobs_listing_lines() {
    let jobs = vec![job(10, "sleep"), job(11, "cat")];
    let statuses = vec!["Running".to_string(), "Running".to_string()];
    let lines = jobs_output(&None, &jobs, &statuses);
    assert_eq!(lines, vec!["[1] Running sleep".to_string(), "[2] Running cat".to_string()]);
    let pids = jobs_output(&Some("-p".to_string()), &jobs, &statuses);
    assert_eq!(pids, vec!["10".to_string(), "11".to_string()]);
    let stub = jobs_output(&Some("-l".to_string()), &jobs, &statuses);
    assert_eq!(stub, vec!["The option `-l` is not supported at the moment".to_string()]);
    let bad = jobs_output(&Some("-x".to_string()), &jobs, &statuses);
    assert_eq!(bad, vec!["invalid option `-x`".to_string()]);
}

// --- built-in helpers --------------------------------------------------------

#[test]
fn exit_codes_parse_with_zero_fallback() {
    assert_eq!(exit_code_arg(&vec![]), 0);
    assert_eq!(exit_code_arg(&vec!["3".to_string()]), 3);
    assert_eq!(exit_code_arg(&vec!["-2".to_string()]), -2);
    assert_eq!(exit_code_arg(&vec!["junk".to_string()]), 0);
    assert_eq!(exit_code_arg(&vec!["99999999999".to_string()]), 0);
}

#[test]
fn spawn_error_text() {
    assert_eq!(
        spawn_error_message("nonexistent", "No such file or directory"),
        "Error spawning nonexistent: No such file or directory"
    );
}

#[test]
fn help_text_mentions_builtins() {
    let h = help_text();
    assert!(h.contains("cd <dir>"));
    assert!(h.contains("exit [code]"));
}

// --- decimal helpers ---------------------------------------------------------

#[test]
fn decimal_printing() {
    assert_eq!(u64_to_string(0), "0");
    assert_eq!(u64_to_string(12034), "12034");
    assert_eq!(i32_to_string(-45), "-45");
    assert_eq!(i32_to_string(2147483647), "2147483647");
    assert_eq!(i32_to_string(-2147483648), "-2147483648");
}

#[test]
fn decimal_parsing() {
    assert_eq!(parse_u64_capped("123", 1000), Some(123));
    assert_eq!(parse_u64_capped("1001", 1000), None);
    assert_eq!(parse_u64_capped("", 1000), None);
    assert_eq!(parse_u64_capped("12a", 1000), None);
    assert_eq!(parse_i32_or_zero("17"), 17);
    assert_eq!(parse_i32_or_zero("-17"), -17);
    assert_eq!(parse_i32_or_zero("+17"), 17);
    assert_eq!(parse_i32_or_zero("2147483648"), 0);
    assert_eq!(parse_i32_or_zero("-2147483648"), -2147483648);
    assert_eq!(parse_i32_or_zero("x"), 0);
}

// --- the interpreter-level variable store ------------------------------------

#[test]
fn environment_starts_with_zero_status() {
    let mut e = Environment::new();
    let f = Environment::new();
    assert_eq!(e, f);
    e.update("A".to_string(), "1".to_string());
    assert_ne!(e, f);
}

// --- pipelines as data --------------------------------------------------------

#[test]
fn pipeline_fields_carry_the_flags() {
    let p = PipeLineExpr {
        pipeline: vec![],
        capture_out: false,
        file_redirect: None,
        background: true,
    };
    assert!(p.background);
    assert!(!p.capture_out);
}
