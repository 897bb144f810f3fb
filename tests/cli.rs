use gh_analyzer::cli::Flags;
use gh_analyzer::{init, Cli, Command, ParsedArg};

fn strings(v: &[&str]) -> Vec<String> {
    v.iter().map(|s| s.to_string()).collect()
}

fn flag(key: &str, value: Option<&str>) -> ParsedArg {
    ParsedArg::Flag {
        key: key.to_string(),
        value: value.map(|v| v.to_string()),
    }
}

fn is_flag(a: &ParsedArg, key: &str, value: Option<&str>) -> bool {
    match a {
        ParsedArg::Flag { key: k, value: v } => k == key && v.as_deref() == value,
        ParsedArg::Argument(_) => false,
    }
}

#[test]
fn long_flag_key_and_value() {
    let a = ParsedArg::classify("--out-dir=/tmp/stats");
    assert!(is_flag(&a, "out-dir", Some("/tmp/stats")));
    let a = ParsedArg::classify("--k=v=w");
    assert!(is_flag(&a, "k", Some("v=w")));
    let a = ParsedArg::classify("--k=");
    assert!(is_flag(&a, "k", Some("")));
}

#[test]
fn long_flag_without_value() {
    let a = ParsedArg::classify("--help");
    assert!(is_flag(&a, "help", Some("")));
    let a = ParsedArg::classify("--");
    assert!(is_flag(&a, "", Some("")));
}

#[test]
fn short_flag_has_no_value() {
    let a = ParsedArg::classify("-x");
    assert!(is_flag(&a, "x", None));
    let a = ParsedArg::classify("-h=1");
    assert!(is_flag(&a, "h=1", None));
    let a = ParsedArg::classify("-");
    assert!(is_flag(&a, "", None));
}

#[test]
fn positional_is_unchanged() {
    for s in ["traffic", "owner/repo", "", "a-b", "x--y"] {
        match ParsedArg::classify(s) {
            ParsedArg::Argument(a) => assert_eq!(a, s),
            ParsedArg::Flag { .. } => panic!("classified {s:?} as a flag"),
        }
    }
}

#[test]
fn positionals_make_command_and_sub_commands() {
    let tokens: Vec<ParsedArg> = ["a", "b", "c", "d"]
        .iter()
        .map(|s| ParsedArg::classify(s))
        .collect();
    let cli = Cli::parse(&tokens);
    assert_eq!(cli.command.as_deref(), Some("a"));
    assert_eq!(cli.sub_commands, strings(&["b", "c", "d"]));
    assert!(cli.flags.entries.is_empty());
}

#[test]
fn empty_input_gives_empty_command_line() {
    let cli = Cli::parse(&Vec::new());
    assert_eq!(cli.command, None);
    assert!(cli.sub_commands.is_empty());
    assert!(cli.flags.entries.is_empty());
    let cli = init(&Vec::new());
    assert_eq!(cli.command, None);
    let cli = init(&strings(&["prog"]));
    assert_eq!(cli.command, None);
    assert!(cli.sub_commands.is_empty());
}

#[test]
fn single_positional_has_no_sub_commands() {
    let cli = Cli::parse(&vec![ParsedArg::Argument("traffic".to_string())]);
    assert_eq!(cli.command.as_deref(), Some("traffic"));
    assert!(cli.sub_commands.is_empty());
}

#[test]
fn init_skips_program_name() {
    let cli = init(&strings(&[
        "gh-analyzer",
        "--out-dir=out",
        "traffic",
        "-v",
        "owner/repo",
    ]));
    assert_eq!(cli.command.as_deref(), Some("traffic"));
    assert_eq!(cli.sub_commands, strings(&["owner/repo"]));
    assert_eq!(cli.flags.get("out-dir"), Some(Some("out".to_string())));
    assert_eq!(cli.flags.get("v"), Some(None));
    assert_eq!(cli.flags.get("gh-analyzer"), None);
    assert!(cli.flags.contains_key("v"));
    assert!(!cli.flags.contains_key("h"));
    let cli = init(&strings(&["gh-analyzer", "--help"]));
    assert_eq!(cli.flags.get("help"), Some(Some(String::new())));
}

#[test]
fn later_flag_overwrites_earlier() {
    let cli = Cli::parse(&vec![
        flag("k", Some("1")),
        flag("j", None),
        flag("k", Some("2")),
        flag("j", Some("3")),
    ]);
    assert_eq!(cli.flags.get("k"), Some(Some("2".to_string())));
    assert_eq!(cli.flags.get("j"), Some(Some("3".to_string())));
    assert_eq!(cli.flags.entries.len(), 2);
}

#[test]
fn flags_table_operations() {
    let mut f = Flags::new();
    assert!(!f.contains_key("a"));
    f.insert("a".to_string(), None);
    f.insert("b".to_string(), Some("x".to_string()));
    f.insert("a".to_string(), Some("y".to_string()));
    assert_eq!(f.get("a"), Some(Some("y".to_string())));
    assert_eq!(f.get("b"), Some(Some("x".to_string())));
    assert_eq!(f.get("c"), None);
    assert_eq!(f.entries.len(), 2);
}

#[test]
fn command_names() {
    assert_eq!(Command::parse("traffic"), Some(Command::Traffic));
    assert_eq!(Command::parse("clones"), Some(Command::Clones));
    assert_eq!(Command::parse("repo"), Some(Command::Repo));
    assert_eq!(Command::parse("Traffic"), None);
    assert_eq!(Command::parse(""), None);
}
