use codex_core::bash::{
    parse_plain_command_from_node, try_parse_bash, try_parse_word_only_commands_sequence,
};

fn parse_seq(src: &str) -> Option<Vec<Vec<String>>> {
    let tree = try_parse_bash(src)?;
    try_parse_word_only_commands_sequence(&tree, src)
}

fn words(words: &[&str]) -> Vec<String> {
    words.iter().map(|word| word.to_string()).collect()
}

#[test]
fn accepts_single_simple_command() {
    let cmds = parse_seq("ls -1").unwrap();
    assert_eq!(cmds, vec![vec!["ls".to_string(), "-1".to_string()]]);
}

#[test]
fn accepts_multiple_commands_with_allowed_operators() {
    let src = "ls && pwd; echo 'hi there' | wc -l";
    let cmds = parse_seq(src).unwrap();
    let expected: Vec<Vec<String>> = vec![
        vec!["ls".to_string()],
        vec!["pwd".to_string()],
        vec!["echo".to_string(), "hi there".to_string()],
        vec!["wc".to_string(), "-l".to_string()],
    ];
    assert_eq!(cmds, expected);
}

#[test]
fn extracts_double_and_single_quoted_strings() {
    let cmds = parse_seq("echo \"hello world\"").unwrap();
    assert_eq!(
        cmds,
        vec![vec!["echo".to_string(), "hello world".to_string()]]
    );

    let cmds2 = parse_seq("echo 'hi there'").unwrap();
    assert_eq!(
        cmds2,
        vec![vec!["echo".to_string(), "hi there".to_string()]]
    );
}

#[test]
fn accepts_numbers_as_words() {
    let cmds = parse_seq("echo 123 456").unwrap();
    assert_eq!(
        cmds,
        vec![vec![
            "echo".to_string(),
            "123".to_string(),
            "456".to_string()
        ]]
    );
}

#[test]
fn rejects_parentheses_and_subshells() {
    assert!(parse_seq("(ls)").is_none());
    assert!(parse_seq("ls || (pwd && echo hi)").is_none());
}

#[test]
fn rejects_redirections_and_unsupported_operators() {
    assert!(parse_seq("ls > out.txt").is_none());
    assert!(parse_seq("echo hi & echo bye").is_none());
}

#[test]
fn rejects_command_and_process_substitutions_and_expansions() {
    assert!(parse_seq("echo $(pwd)").is_none());
    assert!(parse_seq("echo `pwd`").is_none());
    assert!(parse_seq("echo $HOME").is_none());
    assert!(parse_seq("echo \"hi $USER\"").is_none());
}

#[test]
fn rejects_variable_assignment_prefix() {
    assert!(parse_seq("FOO=bar ls").is_none());
}

#[test]
fn rejects_trailing_operator_parse_error() {
    assert!(parse_seq("ls &&").is_none());
}

#[test]
fn rejects_strings_that_hold_nothing_but_an_expansion() {
    assert!(parse_seq("echo \"$HOME\"").is_none());
    assert!(parse_seq("echo \"$(pwd)\"").is_none());
    assert!(parse_seq("echo \"${HOME}\"").is_none());
}

#[test]
fn a_quoted_dollar_is_a_word() {
    assert_eq!(parse_seq("echo \"$\""), Some(vec![words(&["echo", "$"])]));
    assert!(parse_seq("echo \"a$\"").is_none());
    assert!(parse_seq("echo \"$$\"").is_none());
}

#[test]
fn tokens_that_are_no_words_are_not_dropped() {
    assert!(parse_seq("echo == b").is_none());
}

#[test]
fn operators_leave_no_trace() {
    let (a, b) = ("ls 1", "wc 2");
    for operator in [" && ", " || ", "; ", " | "] {
        assert_eq!(
            parse_seq(&format!("{a}{operator}{b}")),
            Some(vec![words(&["ls", "1"]), words(&["wc", "2"])])
        );
    }
    assert!(parse_seq(&format!("{a} & {b}")).is_none());
    assert!(parse_seq(&format!("({a})")).is_none());
}

#[test]
fn what_was_parsed_before_does_not_matter() {
    let src = "ls -1 | wc";
    let first = parse_seq(src);
    for other in ["", "if", "echo $(", "f() { ls; }", "<<X\n"] {
        let _ = try_parse_bash(other);
        assert_eq!(parse_seq(src), first);
    }
    assert!(!try_parse_bash(src).unwrap().nodes[0].has_error);
}

#[test]
fn rejects_substitutions_inside_numbers_and_bare_dollars() {
    assert!(parse_seq("echo 10#$(pwd)").is_none());
    assert!(parse_seq("echo $").is_none());
}

#[test]
fn rejects_control_flow_functions_and_process_substitution() {
    assert!(parse_seq("if true; then ls; fi").is_none());
    assert!(parse_seq("for x in a b; do ls; done").is_none());
    assert!(parse_seq("f() { ls; }").is_none());
    assert!(parse_seq("diff <(ls) <(pwd)").is_none());
    assert!(parse_seq("{ ls; }").is_none());
}

#[test]
fn rejects_joined_words() {
    assert!(parse_seq("rg -g\"*.py\" foo").is_none());
    assert!(parse_seq("echo a'b'").is_none());
}

#[test]
fn commands_come_in_the_order_of_the_script() {
    assert_eq!(
        parse_seq("a 1 || b 2\nc 3"),
        Some(vec![words(&["a", "1"]), words(&["b", "2"]), words(&["c", "3"])])
    );
}

#[test]
fn text_outside_ascii_is_cut_out_whole() {
    assert_eq!(
        parse_seq("echo \"grüß dich\" 'ça va' 日本"),
        Some(vec![words(&["echo", "grüß dich", "ça va", "日本"])])
    );
}

#[test]
fn a_source_without_commands_has_none() {
    assert_eq!(parse_seq(""), Some(vec![]));
}

#[test]
fn the_tree_of_a_command_is_the_one_of_the_grammar() {
    let tree = try_parse_bash("ls -1").unwrap();
    let kinds: Vec<&str> = tree.nodes.iter().map(|node| node.kind.as_str()).collect();
    assert_eq!(kinds, vec!["program", "command", "command_name", "number", "word"]);
    let spans: Vec<(usize, usize)> =
        tree.nodes.iter().map(|node| (node.start_byte, node.end_byte)).collect();
    assert_eq!(spans, vec![(0, 5), (0, 5), (0, 2), (3, 5), (0, 2)]);
    assert!(tree.nodes.iter().all(|node| node.named && !node.has_error));
}

#[test]
fn a_broken_source_has_an_error_in_its_tree() {
    let tree = try_parse_bash("ls &&").unwrap();
    assert!(tree.nodes[0].has_error);
}

#[test]
fn one_command_can_be_read_from_its_node() {
    let src = "pwd; echo 'hi there'";
    let tree = try_parse_bash(src).unwrap();
    let commands: Vec<Option<Vec<String>>> = (0..tree.nodes.len())
        .filter(|at| tree.nodes[*at].kind == "command")
        .map(|at| parse_plain_command_from_node(&tree, at, src.as_bytes()))
        .collect();
    assert_eq!(
        commands,
        vec![Some(words(&["pwd"])), Some(words(&["echo", "hi there"]))]
    );
    assert_eq!(parse_plain_command_from_node(&tree, 0, src.as_bytes()), None);
}

#[test]
fn text_that_is_not_utf8_is_no_word() {
    let src = "echo ab";
    let tree = try_parse_bash(src).unwrap();
    let command = (0..tree.nodes.len()).find(|at| tree.nodes[*at].kind == "command").unwrap();
    assert_eq!(
        parse_plain_command_from_node(&tree, command, src.as_bytes()),
        Some(words(&["echo", "ab"]))
    );
    assert_eq!(parse_plain_command_from_node(&tree, command, b"echo \xff\xfe"), None);
}
