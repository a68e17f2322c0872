use slush::expr::{
    AndIf, AndOrNode, Argument, AssignmentExpr, CommandExpr, CompoundList, ExpansionExpr,
    ForExpr, FunctionExpr, IfBranch, IfExpr, MergeExpr, NotExpr, PipeLineExpr, RedirectExpr,
    RedirectType, SubShellExpr, VariableLookup, WhileExpr,
};
use slush::parser::Parser;
use std::rc::Rc;

fn name(s: &str) -> Argument {
    Argument::Name(s.to_string())
}

fn subshell(s: &str) -> Argument {
    Argument::SubShell(SubShellExpr { shell: s.to_string() })
}

fn variable(s: &str) -> Argument {
    Argument::Variable(VariableLookup { name: s.to_string() })
}

fn merge(left: Argument, right: Argument) -> Argument {
    Argument::Merge(MergeExpr { left: Box::new(left), right: Box::new(right) })
}

fn command(cmd: &str, arguments: Vec<Argument>) -> CompoundList {
    CompoundList::Commandexpr(CommandExpr { command: name(cmd), arguments, assignment: None })
}

fn plain(stages: Vec<CompoundList>) -> PipeLineExpr {
    PipeLineExpr { pipeline: stages, capture_out: false, file_redirect: None, background: false }
}

fn stmt(stages: Vec<CompoundList>) -> AndOrNode {
    AndOrNode::Pipeline(Box::new(plain(stages)))
}

#[test]
fn basic_command() {
    let line = "ls /var /tmp";
    let mut parser = Parser::new();
    let golden_set = Vec::from([stmt(vec![command("ls", vec![name("/var"), name("/tmp")])])]);
    parser.parse(&line);
    for (i, expr) in golden_set.into_iter().enumerate() {
        assert!(parser.exprs[i].eq(&expr));
    }
}

#[test]
fn test_only_ls() {
    let line = "ls";
    let mut parser = Parser::new();
    let golden_set = Vec::from([stmt(vec![command("ls", vec![])])]);
    parser.parse(&line);
    for (i, expr) in golden_set.into_iter().enumerate() {
        assert!(parser.exprs[i].eq(&expr));
    }
}

#[test]
fn test_ls_pipe_wc() {
    let line = "ls | wc";
    let mut parser = Parser::new();
    let golden_set =
        Vec::from([stmt(vec![command("ls", vec![]), command("wc", vec![])])]);
    parser.parse(&line);
    for (i, expr) in golden_set.into_iter().enumerate() {
        assert!(parser.exprs[i].eq(&expr));
    }
}

#[test]
fn unexpected_eof() {
    let line = "ls |";
    let mut parser = Parser::new();
    parser.parse(&line);
    // We don't care what the error is just that there is one
    assert!(!parser.err.is_empty());
    assert_eq!(parser.exprs.len(), 0);
}

#[test]
fn unterminated_string() {
    let line = "ls '";
    let mut parser = Parser::new();
    parser.parse(&line);
    // We don't care what the error is just that there is one
    assert!(!parser.err.is_empty());
    assert_eq!(parser.exprs.len(), 0);
}

#[test]
fn happy_path_subshell() {
    let line = "echo `which ls`";
    let mut parser = Parser::new();
    let golden_set = Vec::from([stmt(vec![command("echo", vec![subshell("which ls")])])]);
    parser.parse(&line);
    for (i, expr) in golden_set.into_iter().enumerate() {
        assert!(parser.exprs[i].eq(&expr));
    }
}

#[test]
fn undelimited_subshell() {
    let line = "ls `";
    let mut parser = Parser::new();
    parser.parse(&line);
    // We don't care what the error is just that there is one
    assert!(!parser.err.is_empty());
    assert_eq!(parser.exprs.len(), 0);
}

#[test]
fn multi_line_command() {
    let line = "echo 'hello world' \n echo 'goodbye world'";
    let mut parser = Parser::new();
    let golden_set = Vec::from([
        stmt(vec![command("echo", vec![name("hello world")])]),
        stmt(vec![command("echo", vec![name("goodbye world")])]),
    ]);
    parser.parse(&line);
    assert!(parser.err.is_empty());
    for (i, expr) in golden_set.into_iter().enumerate() {
        assert!(parser.exprs[i].eq(&expr));
    }
}

#[test]
fn test_ls_and_pwd() {
    let line = "ls && pwd";
    let mut parser = Parser::new();
    let golden_set = Vec::from([AndOrNode::Andif(Box::new(AndIf {
        left: stmt(vec![command("ls", vec![])]),
        right: stmt(vec![command("pwd", vec![])]),
    }))]);
    parser.parse(&line);
    assert!(parser.err.is_empty());
    for (i, expr) in golden_set.into_iter().enumerate() {
        assert!(parser.exprs[i].eq(&expr));
    }
}

#[test]
fn subshell_subshell() {
    let line = "echo $(echo $(echo 'hello world'))";
    let mut parser = Parser::new();
    let golden_set =
        Vec::from([stmt(vec![command("echo", vec![subshell("echo $(echo hello world)")])])]);
    parser.parse(&line);
    println!("{:?}", parser.exprs);
    assert!(parser.err.is_empty());
    for (i, expr) in golden_set.into_iter().enumerate() {
        assert!(parser.exprs[i].eq(&expr));
    }
}

#[test]
fn test_if_statement() {
    let line = "if true; then echo 'hello world'\nfi";
    let mut parser = Parser::new();
    let golden_set = Vec::from([stmt(vec![CompoundList::Ifexpr(IfExpr {
        condition: plain(vec![command("true", vec![])]),
        if_branch: Vec::from([plain(vec![command("echo", vec![name("hello world")])])]),
        else_branch: None,
    })])]);
    parser.parse(&line);
    assert!(parser.err.is_empty());
    for (i, expr) in golden_set.into_iter().enumerate() {
        assert!(parser.exprs[i].eq(&expr));
    }
}

#[test]
fn test_mergeable_line_with_backtick() {
    let line = "echo hello`world`";
    let mut parser = Parser::new();
    let golden_set =
        Vec::from([stmt(vec![command("echo", vec![merge(name("hello"), subshell("world"))])])]);
    parser.parse(&line);
    assert!(parser.err.is_empty());
    for (i, expr) in golden_set.into_iter().enumerate() {
        assert!(parser.exprs[i].eq(&expr));
    }
}

#[test]
fn test_mergeable_line_with_variable() {
    let line = "echo hello$PWD";
    let mut parser = Parser::new();
    let golden_set =
        Vec::from([stmt(vec![command("echo", vec![merge(name("hello"), variable("PWD"))])])]);
    parser.parse(&line);
    assert!(parser.err.is_empty());
    for (i, expr) in golden_set.into_iter().enumerate() {
        assert!(parser.exprs[i].eq(&expr));
    }
}

#[test]
fn test_mergeable_line_shell_first() {
    let line = "echo $(pwd)file";
    let mut parser = Parser::new();
    let golden_set =
        Vec::from([stmt(vec![command("echo", vec![merge(subshell("pwd"), name("file"))])])]);
    parser.parse(&line);
    println!("{:?}", parser.exprs);
    assert!(parser.err.is_empty());
    for (i, expr) in golden_set.into_iter().enumerate() {
        assert!(parser.exprs[i].eq(&expr));
    }
}

#[test]
fn test_dangling_dollar_sign() {
    let line = "echo $";
    let mut parser = Parser::new();
    parser.parse(&line);
    assert!(!parser.err.is_empty());
}

#[test]
fn test_dangling_dollar_sign_in_dangling_and_if() {
    let line = "echo $ &&";
    let mut parser = Parser::new();
    parser.parse(&line);
    assert!(!parser.err.is_empty());
}

#[test]
fn test_if_else_statement() {
    let line = "if true; then\necho 'hello world'\nelse echo 'goodbye world'\nfi";
    let mut parser = Parser::new();
    let golden_set = Vec::from([stmt(vec![CompoundList::Ifexpr(IfExpr {
        condition: plain(vec![command("true", vec![])]),
        if_branch: Vec::from([plain(vec![command("echo", vec![name("hello world")])])]),
        else_branch: Some(IfBranch::Else(Vec::from([plain(vec![command(
            "echo",
            vec![name("goodbye world")],
        )])]))),
    })])]);
    parser.parse(&line);
    println!("{:#?}", parser.exprs);
    assert!(parser.err.is_empty());
    for (i, expr) in golden_set.into_iter().enumerate() {
        assert!(parser.exprs[i].eq(&expr));
    }
}

#[test]
fn test_valid_lexeme_as_argument_after_command() {
    let line = "echo if else";
    let mut parser = Parser::new();
    let golden_set = Vec::from([stmt(vec![command("echo", vec![name("if"), name("else")])])]);
    parser.parse(&line);
    println!("{:#?}", parser.exprs);
    assert!(parser.err.is_empty());
    for (i, expr) in golden_set.into_iter().enumerate() {
        assert!(parser.exprs[i].eq(&expr));
    }
}

#[test]
fn test_if_elif_else() {
    let line = "if true; then\n exit 1\nelif false; then\n exit 2\nelse\n exit 3\nfi";
    let mut parser = Parser::new();
    let golden_set = Vec::from([stmt(vec![CompoundList::Ifexpr(IfExpr {
        condition: plain(vec![command("true", vec![])]),
        if_branch: Vec::from([plain(vec![command("exit", vec![name("1")])])]),
        else_branch: Some(IfBranch::Elif(Box::new(IfExpr {
            condition: plain(vec![command("false", vec![])]),
            if_branch: Vec::from([plain(vec![command("exit", vec![name("2")])])]),
            else_branch: Some(IfBranch::Else(Vec::from([plain(vec![command(
                "exit",
                vec![name("3")],
            )])]))),
        }))),
    })])]);
    parser.parse(&line);
    println!("---- Parser Tree ----");
    println!("{:#?}", parser.exprs);
    assert!(parser.err.is_empty());
    for (i, expr) in golden_set.into_iter().enumerate() {
        assert!(parser.exprs[i].eq(&expr));
    }
}

#[test]
fn test_if_elif() {
    let line = "if true; then\n exit 1\nelif false; then\n exit 2\nfi";
    let mut parser = Parser::new();
    let golden_set = Vec::from([stmt(vec![CompoundList::Ifexpr(IfExpr {
        condition: plain(vec![command("true", vec![])]),
        if_branch: Vec::from([plain(vec![command("exit", vec![name("1")])])]),
        else_branch: Some(IfBranch::Elif(Box::new(IfExpr {
            condition: plain(vec![command("false", vec![])]),
            if_branch: Vec::from([plain(vec![command("exit", vec![name("2")])])]),
            else_branch: None,
        }))),
    })])]);
    parser.parse(&line);
    println!("---- Parser Tree ----");
    println!("{:#?}", parser.exprs);
    assert!(parser.err.is_empty());
    for (i, expr) in golden_set.into_iter().enumerate() {
        assert!(parser.exprs[i].eq(&expr));
    }
}

#[test]
fn test_while_loop_do_line() {
    let line = "while true; do\necho 'hello world'\ndone";
    let mut parser = Parser::new();
    let golden_set = Vec::from([stmt(vec![CompoundList::Whileexpr(WhileExpr {
        condition: stmt(vec![command("true", vec![])]),
        body: Vec::from([plain(vec![command("echo", vec![name("hello world")])])]),
    })])]);
    parser.parse(&line);
    println!("{:#?}", parser.exprs);
    assert!(parser.err.is_empty());
    for (i, expr) in golden_set.into_iter().enumerate() {
        assert!(parser.exprs[i].eq(&expr));
    }
}

#[test]
fn test_while_loop_do_new_line() {
    let line = "while true;\ndo\necho 'hello world'\ndone";
    let mut parser = Parser::new();
    let golden_set = Vec::from([stmt(vec![CompoundList::Whileexpr(WhileExpr {
        condition: stmt(vec![command("true", vec![])]),
        body: Vec::from([plain(vec![command("echo", vec![name("hello world")])])]),
    })])]);
    parser.parse(&line);
    println!("{:#?}", parser.exprs);
    assert!(parser.err.is_empty());
    for (i, expr) in golden_set.into_iter().enumerate() {
        assert!(parser.exprs[i].eq(&expr));
    }
}

#[test]
fn test_semicolon_seperated() {
    let line = "echo 'hello world'; echo 'goodbye world'";
    let mut parser = Parser::new();
    let golden_set = Vec::from([
        stmt(vec![command("echo", vec![name("hello world")])]),
        stmt(vec![command("echo", vec![name("goodbye world")])]),
    ]);
    parser.parse(&line);
    println!("{:#?}", parser.exprs);
    assert!(parser.err.is_empty());
    if !parser.err.is_empty() {
        println!("Error: {}", parser.err);
    }
    for (i, expr) in golden_set.into_iter().enumerate() {
        assert!(parser.exprs[i].eq(&expr));
    }
}

#[test]
fn test_parameter_expansion() {
    let line = "echo ${PWD}";
    let mut parser = Parser::new();
    let golden_set = Vec::from([stmt(vec![command(
        "echo",
        vec![Argument::Expansion(ExpansionExpr::ParameterExpansion("PWD".to_string()))],
    )])]);
    parser.parse(&line);
    println!("{:#?}", parser.exprs);
    assert!(parser.err.is_empty());
    for (i, expr) in golden_set.into_iter().enumerate() {
        assert!(parser.exprs[i].eq(&expr));
    }
}

#[test]
fn test_var_and_expansion() {
    let line = "echo $X${PWD}";
    let mut parser = Parser::new();
    let golden_set = Vec::from([stmt(vec![command(
        "echo",
        vec![merge(
            variable("X"),
            Argument::Expansion(ExpansionExpr::ParameterExpansion("PWD".to_string())),
        )],
    )])]);
    parser.parse(&line);
    println!("{:#?}", parser.exprs);
    assert!(parser.err.is_empty());
    for (i, expr) in golden_set.into_iter().enumerate() {
        assert!(parser.exprs[i].eq(&expr));
    }
}

#[test]
fn test_var_and_expansion_with_subshell() {
    let line = "echo $X$(pwd)";
    let mut parser = Parser::new();
    let golden_set =
        Vec::from([stmt(vec![command("echo", vec![merge(variable("X"), subshell("pwd"))])])]);
    parser.parse(&line);
    println!("{:#?}", parser.exprs);
    assert!(parser.err.is_empty());
    for (i, expr) in golden_set.into_iter().enumerate() {
        assert!(parser.exprs[i].eq(&expr));
    }
}

#[test]
fn test_assignment_statement() {
    let line = "X=1 echo $X";
    let mut parser = Parser::new();
    let golden_set = Vec::from([stmt(vec![CompoundList::Commandexpr(CommandExpr {
        command: name("echo"),
        arguments: vec![variable("X")],
        assignment: Some(AssignmentExpr { key: "X".to_string(), val: name("1") }),
    })])]);
    parser.parse(&line);
    println!("{:#?}", parser.exprs);
    assert!(parser.err.is_empty());
    for (i, expr) in golden_set.into_iter().enumerate() {
        assert!(parser.exprs[i].eq(&expr));
    }
}

#[test]
fn test_file_redirect() {
    let line = "ls > /tmp/file";
    let mut parser = Parser::new();
    let golden_set = Vec::from([AndOrNode::Pipeline(Box::new(PipeLineExpr {
        pipeline: vec![command("ls", vec![])],
        capture_out: false,
        file_redirect: Some(RedirectExpr {
            file: name("/tmp/file"),
            mode: RedirectType::Out,
            file_descriptor: 1,
        }),
        background: false,
    }))]);
    parser.parse(&line);
    println!("{:#?}", parser.exprs);
    assert!(parser.err.is_empty());
    for (i, expr) in golden_set.into_iter().enumerate() {
        assert!(parser.exprs[i].eq(&expr));
    }
}

#[test]
fn test_file_append() {
    let line = "ls >> /tmp/file";
    let mut parser = Parser::new();
    let golden_set = Vec::from([AndOrNode::Pipeline(Box::new(PipeLineExpr {
        pipeline: vec![command("ls", vec![])],
        capture_out: false,
        file_redirect: Some(RedirectExpr {
            file: name("/tmp/file"),
            mode: RedirectType::OutAppend,
            file_descriptor: 1,
        }),
        background: false,
    }))]);
    parser.parse(&line);
    println!("{:#?}", parser.exprs);
    assert!(parser.err.is_empty());
    for (i, expr) in golden_set.into_iter().enumerate() {
        assert!(parser.exprs[i].eq(&expr));
    }
}

#[test]
fn assignment_backtracks_to_plain_command() {
    // "FOO bar" has no '=', so FOO is the command and bar its argument.
    let mut parser = Parser::new();
    parser.parse("FOO bar");
    assert!(parser.err.is_empty());
    let golden = stmt(vec![command("FOO", vec![name("bar")])]);
    assert!(parser.exprs[0].eq(&golden));

    // "FOO=1 bar" is the command bar carrying the assignment FOO=1.
    let mut parser = Parser::new();
    parser.parse("FOO=1 bar");
    assert!(parser.err.is_empty());
    let golden = stmt(vec![CompoundList::Commandexpr(CommandExpr {
        command: name("bar"),
        arguments: vec![],
        assignment: Some(AssignmentExpr { key: "FOO".to_string(), val: name("1") }),
    })]);
    assert!(parser.exprs[0].eq(&golden));
}

#[test]
fn lone_assignment_is_a_statement() {
    let mut parser = Parser::new();
    parser.parse("X=1");
    assert!(parser.err.is_empty());
    let golden = stmt(vec![CompoundList::Commandexpr(CommandExpr {
        command: name(""),
        arguments: vec![],
        assignment: Some(AssignmentExpr { key: "X".to_string(), val: name("1") }),
    })]);
    assert!(parser.exprs[0].eq(&golden));
}

#[test]
fn background_marker_sets_the_flag() {
    let mut parser = Parser::new();
    parser.parse("sleep 5 &");
    assert!(parser.err.is_empty());
    let golden = AndOrNode::Pipeline(Box::new(PipeLineExpr {
        pipeline: vec![command("sleep", vec![name("5")])],
        capture_out: false,
        file_redirect: None,
        background: true,
    }));
    assert!(parser.exprs[0].eq(&golden));
}

#[test]
fn default_expansion_forms_parse() {
    let mut parser = Parser::new();
    parser.parse("echo ${X:-d}");
    assert!(parser.err.is_empty());
    let golden = stmt(vec![command(
        "echo",
        vec![Argument::Expansion(ExpansionExpr::ParameterSubstitute(
            "X".to_string(),
            "d".to_string(),
        ))],
    )]);
    assert!(parser.exprs[0].eq(&golden));

    let mut parser = Parser::new();
    parser.parse("echo ${X:=d}");
    assert!(parser.err.is_empty());
    let golden = stmt(vec![command(
        "echo",
        vec![Argument::Expansion(ExpansionExpr::ParameterAssign(
            "X".to_string(),
            "d".to_string(),
        ))],
    )]);
    assert!(parser.exprs[0].eq(&golden));

    let mut parser = Parser::new();
    parser.parse("echo ${#X}");
    assert!(parser.err.is_empty());
    let golden = stmt(vec![command(
        "echo",
        vec![Argument::Expansion(ExpansionExpr::StringLengthExpansion("X".to_string()))],
    )]);
    assert!(parser.exprs[0].eq(&golden));
}

#[test]
fn error_recovery_keeps_the_session_going() {
    // A bad statement leaves an error behind, but the next line still parses.
    let mut parser = Parser::new();
    parser.parse("echo $\necho ok");
    assert!(!parser.err.is_empty());
    let golden = stmt(vec![command("echo", vec![name("ok")])]);
    assert!(parser.exprs[parser.exprs.len() - 1].eq(&golden));
}


#[test]
fn function_definition_parses() {
    let line = "greet() {\necho hello\n}";
    let mut parser = Parser::new();
    parser.parse(&line);
    assert!(parser.err.is_empty());
    let golden = stmt(vec![CompoundList::Functionexpr(FunctionExpr {
        fname: "greet".to_string(),
        commands: Rc::new(vec![plain(vec![command("echo", vec![name("hello")])])]),
    })]);
    assert!(parser.exprs[0].eq(&golden));
}

#[test]
fn until_negates_the_condition() {
    let line = "until false; do\necho x\ndone";
    let mut parser = Parser::new();
    parser.parse(&line);
    assert!(parser.err.is_empty());
    let golden = stmt(vec![CompoundList::Whileexpr(WhileExpr {
        condition: AndOrNode::Notif(Box::new(NotExpr {
            condition: stmt(vec![command("false", vec![])]),
        })),
        body: vec![plain(vec![command("echo", vec![name("x")])])],
    })]);
    assert!(parser.exprs[0].eq(&golden));
}

#[test]
fn for_loop_parses() {
    let line = "for i in a b; do\necho $i\ndone";
    let mut parser = Parser::new();
    parser.parse(&line);
    assert!(parser.err.is_empty());
    let golden = stmt(vec![CompoundList::Forexpr(ForExpr {
        name: "i".to_string(),
        list: vec![name("a"), name("b")],
        commands: vec![plain(vec![command("echo", vec![variable("i")])])],
    })]);
    assert!(parser.exprs[0].eq(&golden));
}

#[test]
fn error_form_expansion_parses() {
    let mut parser = Parser::new();
    parser.parse("echo ${X:?gone}");
    assert!(parser.err.is_empty());
    let golden = stmt(vec![command(
        "echo",
        vec![Argument::Expansion(ExpansionExpr::ParameterError(
            "X".to_string(),
            "gone".to_string(),
        ))],
    )]);
    assert!(parser.exprs[0].eq(&golden));
}

#[test]
fn input_redirect_parses() {
    let mut parser = Parser::new();
    parser.parse("wc < /tmp/file");
    assert!(parser.err.is_empty());
    let golden = AndOrNode::Pipeline(Box::new(PipeLineExpr {
        pipeline: vec![command("wc", vec![])],
        capture_out: false,
        file_redirect: Some(RedirectExpr {
            file: name("/tmp/file"),
            mode: RedirectType::In,
            file_descriptor: 0,
        }),
        background: false,
    }));
    assert!(parser.exprs[0].eq(&golden));
}

#[test]
fn bang_negates_a_statement() {
    let mut parser = Parser::new();
    parser.parse("! false");
    assert!(parser.err.is_empty());
    let golden = AndOrNode::Notif(Box::new(NotExpr {
        condition: stmt(vec![command("false", vec![])]),
    }));
    assert!(parser.exprs[0].eq(&golden));
}

#[test]
fn special_variable_references_parse() {
    let mut parser = Parser::new();
    parser.parse("echo $? $! $$");
    assert!(parser.err.is_empty());
    let golden = stmt(vec![command(
        "echo",
        vec![variable("?"), variable("!"), variable("$")],
    )]);
    assert!(parser.exprs[0].eq(&golden));
}
