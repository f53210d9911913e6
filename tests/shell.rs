use jomsole::{
    split_vec, BuiltinCommand, BuiltinCommandRepository, ExecuteCommand, PipeCommand, Command, CommandError, CommandParser, CommandParserError,
    CommandScope, CwdSetting, DefaultContextGenerator, Ecma48CommandInterface,
    FileUserSettingProvider, JshCommandParser, JshCommandRepository, PipelineAction, PipelineRun,
    UserSettingProvider, WindowsCwdHandling, WindowsPathResolver,
};
use std::cell::RefCell;
use std::rc::Rc;

type Handler = fn(&[String], &[u8]) -> (i32, Vec<u8>);

fn echo(arguments: &[String], _input: &[u8]) -> (i32, Vec<u8>) {
    let mut out = Vec::new();
    for arg in arguments {
        out.extend_from_slice(arg.as_bytes());
        out.extend_from_slice(b" ");
    }
    out.extend_from_slice(b"\n");
    (0, out)
}

fn fail(_arguments: &[String], _input: &[u8]) -> (i32, Vec<u8>) {
    (1, Vec::new())
}

fn registry() -> Rc<JshCommandRepository<Handler>> {
    let mut repo: JshCommandRepository<Handler> = JshCommandRepository::new();
    repo.add_command("echo".to_string(), Rc::new(echo as Handler));
    Rc::new(repo)
}

fn resolver() -> Rc<WindowsPathResolver> {
    Rc::new(WindowsPathResolver::new("d1;d2", ".EXE;.COM"))
}

fn parser() -> JshCommandParser<Handler> {
    JshCommandParser::new(resolver(), registry())
}

fn no_files(_dir: &str, _file: &str) -> Option<String> {
    None
}

fn words(v: &[String]) -> Vec<&str> {
    v.iter().map(|s| s.as_str()).collect()
}

/// Runs every stage of a command through `run_stage`, as the shell does.
fn drive<F>(
    cmd: &Command<Handler>,
    input: Option<Vec<u8>>,
    capture: bool,
    mut run_stage: F,
) -> Result<(i32, Vec<u8>), CommandError>
where
    F: FnMut(usize, &Command<Handler>, Option<Vec<u8>>, bool) -> Result<(i32, Vec<u8>), CommandError>,
{
    let stages = cmd.stage_list();
    let (mut run, mut action) = PipelineRun::start(stages.len(), input, capture);
    loop {
        match action {
            PipelineAction::RunStage { index, input, capture_output } => {
                let outcome = run_stage(index, stages[index], input, capture_output);
                action = run.step(outcome);
            }
            PipelineAction::Finish(r) => {
                assert!(run.is_done());
                return r;
            }
        }
    }
}

#[test]
fn split_vec_drops_empty_pieces() {
    assert_eq!(split_vec("a;;b;", ';'), vec!["a".to_string(), "b".to_string()]);
    assert_eq!(split_vec(";;", ';'), Vec::<String>::new());
    assert_eq!(split_vec("", ';'), Vec::<String>::new());
    assert_eq!(split_vec("C:\\bin", ';'), vec!["C:\\bin".to_string()]);
}

#[test]
fn directory_priority_beats_suffix_priority() {
    let r = WindowsPathResolver::new("d1;d2", ".EXE;.COM");
    let existing = ["d1/foo.COM", "d2/foo.EXE"];
    let probe = |d: &str, f: &str| {
        let p = format!("{}/{}", d, f);
        if existing.contains(&p.as_str()) {
            Some(p)
        } else {
            None
        }
    };
    assert_eq!(r.resolve_command_global("foo", &probe), Ok("d1/foo.COM".to_string()));
}

#[test]
fn suffix_priority_within_a_directory() {
    let r = WindowsPathResolver::new("d1;d2", ".EXE;.COM");
    let existing = ["d1/foo.COM", "d1/foo.EXE", "d1/foo"];
    let probe = |d: &str, f: &str| {
        let p = format!("{}/{}", d, f);
        if existing.contains(&p.as_str()) {
            Some(p)
        } else {
            None
        }
    };
    assert_eq!(r.resolve_command_global("foo", &probe), Ok("d1/foo.EXE".to_string()));
}

#[test]
fn bare_name_is_tried_last() {
    let r = WindowsPathResolver::new("d1", ".EXE");
    let asked = RefCell::new(Vec::new());
    let probe = |d: &str, f: &str| {
        asked.borrow_mut().push(format!("{}/{}", d, f));
        if f == "tool" {
            Some(format!("{}/{}", d, f))
        } else {
            None
        }
    };
    assert_eq!(r.resolve_command_global("tool", &probe), Ok("d1/tool".to_string()));
    assert_eq!(*asked.borrow(), vec!["d1/tool.EXE".to_string(), "d1/tool".to_string()]);
}

#[test]
fn unknown_program_is_not_found() {
    let p = parser();
    let cmd = p.parse("badprogram x").unwrap();
    let ext = match &cmd {
        Command::External(e) => e,
        _ => panic!("expected a process command"),
    };
    assert_eq!(ext.command_scope, CommandScope::Global);
    let r = ext.create_command("/home", &no_files);
    assert_eq!(
        r.err(),
        Some(CommandError::CouldNotExecute { reason: "Command could not be found".to_string() })
    );
}

#[test]
fn local_path_joins_current_directory() {
    let r = WindowsPathResolver::new("", "");
    assert_eq!(r.resolve_command_local("/tmp", "./x"), Ok("/tmp/./x".to_string()));
    let p = parser();
    let cmd = p.parse("./run a").unwrap();
    match &cmd {
        Command::External(e) => {
            let launch = e.create_command("/tmp", &no_files).ok().unwrap();
            assert_eq!(launch.program, "/tmp/./run");
            assert_eq!(words(&launch.arguments), vec!["a"]);
        }
        _ => panic!("expected a process command"),
    }
}

#[test]
fn quoted_argument_keeps_blanks() {
    let p = parser();
    let cmd = p.parse("run \"a b\" c").unwrap();
    match &cmd {
        Command::External(e) => {
            assert_eq!(e.command_executable, "run");
            assert_eq!(words(&e.arguments), vec!["a b", "c"]);
        }
        _ => panic!("expected a process command"),
    }
}

#[test]
fn local_scope_ignores_builtins() {
    let p = parser();
    let cmd = p.parse("./echo hi").unwrap();
    match &cmd {
        Command::External(e) => {
            assert_eq!(e.command_scope, CommandScope::Local);
            assert_eq!(e.command_executable, "./echo");
        }
        _ => panic!("a local program must run as a process"),
    }
    let cmd = p.parse("bin\\echo hi").unwrap();
    assert!(matches!(cmd, Command::External(_)));
}

#[test]
fn empty_line_is_skipped() {
    let p = parser();
    assert!(p.interpret_line("").is_none());
    assert!(p.interpret_line("echo").is_some());
}

#[test]
fn builtin_echo_runs_in_process() {
    let p = parser();
    let cmd = p.parse("echo hi there").unwrap();
    let b = match &cmd {
        Command::Builtin(b) => b,
        _ => panic!("echo is a builtin"),
    };
    assert_eq!(words(&b.arguments), vec!["hi", "there"]);
    let r = drive(&cmd, None, true, |_, stage, input, _| match stage {
        Command::Builtin(b) => Ok((b.handler)(&b.arguments, &input.unwrap_or_default())),
        _ => panic!("no process may start"),
    });
    assert_eq!(r, Ok((0, b"hi there \n".to_vec())));
}

#[test]
fn syntax_errors_are_described() {
    let p = parser();
    let describe = |line: &str| p.parse(line).err().unwrap().describe();
    assert_eq!(describe("a \"b"), "Syntax error");
    assert_eq!(describe("a\"b\""), "Syntax error");
    assert_eq!(describe("\"a\"b"), "Syntax error");
    assert_eq!(describe("   "), "No command");
    assert_eq!(describe("a |"), "Expected execute command");
    assert_eq!(describe("| a"), "Expected execute command");
    assert_eq!(describe("a || b"), "Expected execute command");
    assert_eq!(p.parse_command("\t").err().unwrap().describe(), "No command");
}

#[test]
fn pipe_stages_keep_written_order() {
    let p = parser();
    let cmd = p.parse("a 1 | echo x|\"c d\" \"|\"").unwrap();
    let stages = cmd.stage_list();
    assert_eq!(stages.len(), 3);
    match stages[0] {
        Command::External(e) => {
            assert_eq!(e.command_executable, "a");
            assert_eq!(words(&e.arguments), vec!["1"]);
        }
        _ => panic!("first stage is a process"),
    }
    assert!(matches!(stages[1], Command::Builtin(_)));
    match stages[2] {
        Command::External(e) => {
            assert_eq!(e.command_executable, "c d");
            assert_eq!(words(&e.arguments), vec!["|"]);
        }
        _ => panic!("last stage is a process"),
    }
    match &cmd {
        Command::Pipe(pipe) => assert!(matches!(*pipe.first, Command::External(_))),
        _ => panic!("three stages make a pipe"),
    }
}

#[test]
fn pipeline_applies_stages_left_to_right() {
    let p = parser();
    let cmd = p.parse("upper | reverse | double").unwrap();
    let r = drive(&cmd, Some(b"abc".to_vec()), true, |_, stage, input, capture| {
        assert!(capture);
        let input = input.unwrap();
        let out = match stage {
            Command::External(e) if e.command_executable == "upper" => input.to_ascii_uppercase(),
            Command::External(e) if e.command_executable == "reverse" => {
                input.iter().rev().cloned().collect()
            }
            Command::External(e) if e.command_executable == "double" => [input.clone(), input].concat(),
            _ => panic!("unexpected stage"),
        };
        Ok((0, out))
    });
    assert_eq!(r, Ok((0, b"CBACBA".to_vec())));
}

#[test]
fn failed_stage_stops_the_pipeline() {
    let mut repo: JshCommandRepository<Handler> = JshCommandRepository::new();
    repo.add_command("fail".to_string(), Rc::new(fail as Handler));
    repo.add_command("echo".to_string(), Rc::new(echo as Handler));
    let p = JshCommandParser::new(resolver(), Rc::new(repo));
    let cmd = p.parse("echo a | fail | echo b").unwrap();
    let mut invoked = Vec::new();
    let r = drive(&cmd, None, false, |index, stage, input, _| {
        invoked.push(index);
        match stage {
            Command::Builtin(b) => Ok((b.handler)(&b.arguments, &input.unwrap_or_default())),
            _ => panic!("no process may start"),
        }
    });
    assert_eq!(invoked, vec![0, 1]);
    assert_eq!(
        r,
        Err(CommandError::CouldNotExecute {
            reason: "Exit code from chained process was not 0".to_string()
        })
    );
}

#[test]
fn last_stage_exit_code_is_the_result() {
    let mut repo: JshCommandRepository<Handler> = JshCommandRepository::new();
    repo.add_command("fail".to_string(), Rc::new(fail as Handler));
    let p = JshCommandParser::new(resolver(), Rc::new(repo));
    let cmd = p.parse("fail").unwrap();
    let r = drive(&cmd, None, false, |_, stage, input, capture| {
        assert!(!capture);
        assert!(input.is_none());
        match stage {
            Command::Builtin(b) => Ok((b.handler)(&b.arguments, &[])),
            _ => panic!("no process may start"),
        }
    });
    assert_eq!(r, Ok((1, Vec::new())));
}

#[test]
fn stage_error_ends_the_pipeline() {
    let p = parser();
    let cmd = p.parse("x | y").unwrap();
    let r = drive(&cmd, None, false, |index, _, _, _| {
        assert_eq!(index, 0);
        Err(CommandError::CouldNotExecute { reason: "spawn failed".to_string() })
    });
    assert_eq!(r, Err(CommandError::CouldNotExecute { reason: "spawn failed".to_string() }));
}

#[test]
fn registry_overwrites_and_looks_up() {
    let mut repo: JshCommandRepository<Handler> = JshCommandRepository::new();
    assert!(repo.lookup_command("echo").is_none());
    repo.add_command("echo".to_string(), Rc::new(fail as Handler));
    repo.add_command("echo".to_string(), Rc::new(echo as Handler));
    let h = repo.lookup_command("echo").unwrap();
    assert_eq!(h(&["x".to_string()], &[]), (0, b"x \n".to_vec()));
    assert!(repo.lookup_command("ech").is_none());
}

#[test]
fn settings_from_toml() {
    let h = |text: &str| FileUserSettingProvider::from_toml_text(text).map(|p| p.windows_cwd_handling());
    assert_eq!(h("").ok(), Some(WindowsCwdHandling::LaunchWithoutUNC));
    assert_eq!(h("[windows]\ncwd_handling = \"FullUNC\"\n").ok(), Some(WindowsCwdHandling::FullUNC));
    assert_eq!(h("[windows]\ncwd_handling = \"NeverUNC\"\n").ok(), Some(WindowsCwdHandling::NeverUNC));
    assert_eq!(h("[windows]\n").ok(), Some(WindowsCwdHandling::LaunchWithoutUNC));
    let details = |text: &str| FileUserSettingProvider::from_toml_text(text).err().unwrap().details();
    assert_eq!(details("windows = 3\n"), "Expected windows to be a table");
    assert_eq!(details("[windows]\ncwd_handling = 1\n"), "cwd_handling needs to be a string");
    assert_eq!(details("[windows]\ncwd_handling = \"Other\"\n"), "Unknown cwd_handling value");
    assert!(!details("[windows").is_empty());
}

#[test]
fn settings_from_plain_values() {
    let r = FileUserSettingProvider::from_cwd_setting(CwdSetting::Text("LaunchWithoutUNC".to_string()));
    assert_eq!(r.ok().map(|p| p.windows_cwd_handling()), Some(WindowsCwdHandling::LaunchWithoutUNC));
    let r = FileUserSettingProvider::from_cwd_setting(CwdSetting::Absent);
    assert_eq!(r.ok().map(|p| p.windows_cwd_handling()), Some(WindowsCwdHandling::LaunchWithoutUNC));
    let r = FileUserSettingProvider::from_cwd_setting(CwdSetting::NotAString);
    assert_eq!(r.err().unwrap().details(), "cwd_handling needs to be a string");
    let r = FileUserSettingProvider::from_cwd_setting(CwdSetting::SectionNotATable);
    assert_eq!(r.err().unwrap().details(), "Expected windows to be a table");
}

#[test]
fn console_line_endings_are_dropped() {
    let c = Ecma48CommandInterface::new();
    assert_eq!(c.command_from_line("ls\r\n"), "ls");
    assert_eq!(c.command_from_line("ls\n"), "ls");
    assert_eq!(c.command_from_line("ls"), "ls");
    assert_eq!(c.command_from_line("\n"), "");
    assert_eq!(c.command_from_line("a\r"), "a\r");
}

#[test]
fn context_text_is_colored() {
    let g: DefaultContextGenerator = jomsole::console::new();
    assert_eq!(g.identity_fragment("me", "box"), "me@box");
    assert_eq!(g.current_dir_fragment(None), "<Directory unavailable>");
    assert_eq!(g.current_dir_fragment(Some("/x")), "/x");
    assert_eq!(g.context_text("me@box", "/x"), "\x1B[32mme@box\x1B[0m \x1B[34m/x\x1B[0m");
}

#[test]
fn empty_search_path_finds_nothing() {
    let r = WindowsPathResolver::new("", "");
    let any = |d: &str, f: &str| Some(format!("{}/{}", d, f));
    assert_eq!(
        r.resolve_command_global("foo", &any),
        Err(CommandError::CouldNotExecute { reason: "Command could not be found".to_string() })
    );
    let r = WindowsPathResolver::new(";d;", "");
    assert_eq!(r.resolve_command_global("foo", &any), Ok("d/foo".to_string()));
}

#[test]
fn trees_built_by_hand_list_their_stages() {
    let leaf = |name: &str| {
        Command::External(ExecuteCommand::new(
            name.to_string(),
            CommandScope::Global,
            vec![],
            resolver(),
        ))
    };
    let builtin: Command<Handler> =
        Command::Builtin(BuiltinCommand::new(Rc::new(echo as Handler), vec!["z".to_string()]));
    let inner = Command::Pipe(PipeCommand::new(Box::new(leaf("a")), Box::new(leaf("b"))));
    let tree = Command::Pipe(PipeCommand::new(Box::new(inner), Box::new(builtin)));
    let names: Vec<String> = tree
        .stage_list()
        .iter()
        .map(|s| match s {
            Command::External(e) => e.command_executable.clone(),
            Command::Builtin(b) => format!("builtin {}", b.arguments[0]),
            Command::Pipe(_) => panic!("a stage is never a pipe"),
        })
        .collect();
    assert_eq!(names, vec!["a", "b", "builtin z"]);
}

#[test]
fn trait_parse_keeps_quoted_arguments() {
    let p = parser();
    let cmd = p.parse_command("run \"a b\" c").ok().unwrap();
    match &cmd {
        Command::External(e) => {
            assert_eq!(e.command_scope, CommandScope::Global);
            assert_eq!(words(&e.arguments), vec!["a b", "c"]);
        }
        _ => panic!("expected a process command"),
    }
}

#[test]
fn pipeline_ends_with_last_stage_code() {
    let p = parser();
    let cmd = p.parse("upper | count").unwrap();
    let r = drive(&cmd, None, true, |index, _, input, _| {
        if index == 0 {
            assert!(input.is_none());
            Ok((0, b"xyz".to_vec()))
        } else {
            let n = input.unwrap().len();
            Ok((7, n.to_string().into_bytes()))
        }
    });
    assert_eq!(r, Ok((7, b"3".to_vec())));
}
