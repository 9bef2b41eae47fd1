use clippy_share::cli::{parse_args, CliCommand};

fn args(items: &[&str]) -> Vec<String> {
    items.iter().map(|s| s.to_string()).collect()
}

#[test]
fn no_arguments_runs_with_defaults() {
    match parse_args(&args(&[])) {
        Ok(CliCommand::Run(c)) => {
            assert!(c.node_name.is_none() && c.selected_peers.is_none() && c.target_peers.is_none())
        }
        other => panic!("unexpected {:?}", other),
    }
}

#[test]
fn flags_take_values_and_later_wins() {
    let parsed = parse_args(&args(&[
        "--node-name", "a", "--selected-peers", "p,q", "--target-peers", "t", "--node-name", "b",
    ]));
    match parsed {
        Ok(CliCommand::Run(c)) => {
            assert_eq!(c.node_name.as_deref(), Some("b"));
            assert_eq!(c.selected_peers.as_deref(), Some("p,q"));
            assert_eq!(c.target_peers.as_deref(), Some("t"));
        }
        other => panic!("unexpected {:?}", other),
    }
}

#[test]
fn help_wins_when_reached() {
    assert!(matches!(parse_args(&args(&["-h", "--bogus"])), Ok(CliCommand::Help)));
    assert!(matches!(parse_args(&args(&["--node-name", "x", "--help"])), Ok(CliCommand::Help)));
    assert!(matches!(parse_args(&args(&["--node-name", "--help"])), Ok(CliCommand::Run(_))));
}

#[test]
fn errors_name_the_problem() {
    assert_eq!(parse_args(&args(&["--node-name"])).unwrap_err(), "Missing value for --node-name");
    assert_eq!(
        parse_args(&args(&["--selected-peers"])).unwrap_err(),
        "Missing value for --selected-peers"
    );
    assert_eq!(parse_args(&args(&["--target-peers"])).unwrap_err(), "Missing value for --target-peers");
    assert_eq!(parse_args(&args(&["--verbose", "-h"])).unwrap_err(), "Unknown argument: --verbose");
}
