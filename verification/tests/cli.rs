use rustwright::cli::{case_ids, next_value, parse_cli, Cli, CliRequest};

fn parse(args: &[&str]) -> Result<CliRequest, String> {
    parse_cli(&args.iter().map(|arg| arg.to_string()).collect())
}

fn run(args: &[&str]) -> Cli {
    match parse(args) {
        Ok(CliRequest::Run(cli)) => cli,
        other => panic!("{:?}", other),
    }
}

#[test]
fn complete_command_lines_ask_for_a_run() {
    let cli = run(&["--out", "o.json", "--lib", "l.so", "--manifest", "m.json"]);
    assert_eq!(cli.manifest, "m.json");
    assert_eq!(cli.lib, "l.so");
    assert_eq!(cli.out, "o.json");
    assert_eq!(cli.cases, None);
}

#[test]
fn cases_are_listed_with_commas() {
    let cli = run(&["--manifest", "m", "--lib", "l", "--out", "o", "--cases", " a, b ,,c\t"]);
    assert_eq!(cli.cases, Some(vec!["a".to_string(), "b".to_string(), "c".to_string()]));
    assert_eq!(case_ids("x"), vec!["x"]);
    assert_eq!(case_ids(" x y , z "), vec!["x y", "z"]);
    assert!(case_ids(" ,\u{3000}, ").is_empty());
    assert!(case_ids("").is_empty());
}

#[test]
fn cases_must_name_a_case() {
    assert_eq!(
        parse(&["--cases", " , "]).unwrap_err(),
        "--cases must contain at least one case id"
    );
}

#[test]
fn later_flags_replace_earlier_ones() {
    let cli = run(&[
        "--manifest", "m1", "--lib", "l", "--out", "o", "--manifest", "m2", "--cases", "a", "--cases", "b",
    ]);
    assert_eq!(cli.manifest, "m2");
    assert_eq!(cli.cases, Some(vec!["b".to_string()]));
}

#[test]
fn values_are_taken_as_they_come() {
    let cli = run(&["--manifest", "--lib", "--lib", "-h", "--out", ""]);
    assert_eq!(cli.manifest, "--lib");
    assert_eq!(cli.lib, "-h");
    assert_eq!(cli.out, "");
}

#[test]
fn missing_values_are_faults() {
    assert_eq!(parse(&["--manifest"]).unwrap_err(), "missing value after --manifest");
    assert_eq!(parse(&["--lib"]).unwrap_err(), "missing value after --lib");
    assert_eq!(parse(&["--out"]).unwrap_err(), "missing value after --out");
    assert_eq!(parse(&["--cases"]).unwrap_err(), "missing value after --cases");
    let args = vec!["x".to_string()];
    assert_eq!(next_value(&args, 0, "--out"), Ok("x".to_string()));
    assert_eq!(next_value(&args, 1, "--out"), Err("missing value after --out".to_string()));
}

#[test]
fn missing_flags_are_faults() {
    assert_eq!(parse(&[]).unwrap_err(), "missing --manifest");
    assert_eq!(parse(&["--manifest", "m"]).unwrap_err(), "missing --lib");
    assert_eq!(parse(&["--manifest", "m", "--lib", "l"]).unwrap_err(), "missing --out");
}

#[test]
fn help_is_granted_at_once() {
    assert!(matches!(parse(&["-h"]), Ok(CliRequest::Help)));
    assert!(matches!(parse(&["--lib", "l", "--help", "--nonsense"]), Ok(CliRequest::Help)));
}

#[test]
fn unknown_arguments_are_faults() {
    assert_eq!(parse(&["--manifset"]).unwrap_err(), "unknown argument \"--manifset\"; use --help");
    assert_eq!(parse(&["a\"b"]).unwrap_err(), "unknown argument \"a\\\"b\"; use --help");
}
