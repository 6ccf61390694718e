//! The command line.

use unit::cli::{
    mesh_port, parse_args, parse_port, seed_addresses, trust_word, ws_port, Command, HELP, VERSION,
};

fn args(s: &[&str]) -> Vec<String> {
    s.iter().map(|x| x.to_string()).collect()
}

#[test]
fn no_arguments_run_with_defaults() {
    match parse_args(&args(&[])) {
        Command::Run(a) => {
            assert!(a.port.is_none() && a.peers.is_none() && a.eval_code.is_none());
            assert!(!a.quiet && !a.swarm && !a.no_mesh && !a.no_prelude);
        }
        _ => panic!("a run was asked for"),
    }
}

#[test]
fn options_take_their_values() {
    let a = args(&[
        "--port", "4201", "--peers", "a:1,b:2", "--ws-port", "x", "--eval", "1 .", "--file", "f.fs",
        "--no-mesh", "--no-prelude", "--swarm", "--trust", "mesh", "-q",
    ]);
    match parse_args(&a) {
        Command::Run(a) => {
            assert_eq!(a.port, Some(4201));
            assert_eq!(a.peers.as_deref(), Some("a:1,b:2"));
            assert_eq!(a.ws_port, None);
            assert_eq!(a.eval_code.as_deref(), Some("1 ."));
            assert_eq!(a.file_path.as_deref(), Some("f.fs"));
            assert_eq!(a.trust.as_deref(), Some("mesh"));
            assert!(a.quiet && a.swarm && a.no_mesh && a.no_prelude);
        }
        _ => panic!("a run was asked for"),
    }
}

#[test]
fn a_missing_value_is_none() {
    match parse_args(&args(&["--quiet", "--port"])) {
        Command::Run(a) => assert!(a.port.is_none() && a.quiet),
        _ => panic!("a run was asked for"),
    }
}

#[test]
fn help_version_and_unknown_options() {
    assert!(matches!(parse_args(&args(&["-q", "--help", "--nope"])), Command::Help));
    assert!(matches!(parse_args(&args(&["-v"])), Command::Version));
    match parse_args(&args(&["--nope", "--help"])) {
        Command::Unknown(s) => assert_eq!(s, "--nope"),
        _ => panic!("unknown option"),
    }
    assert_eq!(VERSION, "unit v0.15.2");
    assert!(HELP.contains("--no-prelude               Start without loading prelude.fs\n"));
}

#[test]
fn ports() {
    assert_eq!(parse_port(&Some("65535".to_string())), Some(65535));
    assert_eq!(parse_port(&Some("65536".to_string())), None);
    assert_eq!(mesh_port(None, &Some("12".to_string())), 12);
    assert_eq!(mesh_port(Some(3), &Some("12".to_string())), 3);
    assert_eq!(mesh_port(None, &None), 0);
    assert_eq!(ws_port(None, &None, 4200), 6200);
    assert_eq!(ws_port(None, &None, 0), 0);
    assert_eq!(ws_port(None, &Some("7".to_string()), 4200), 7);
    assert_eq!(ws_port(Some(9), &Some("7".to_string()), 4200), 9);
}

#[test]
fn seeds_are_split_at_commas() {
    assert_eq!(seed_addresses(" a:1 ,,b:2,"), vec!["a:1", "b:2"]);
    assert!(seed_addresses("").is_empty());
    assert_eq!(seed_addresses("x"), vec!["x"]);
}

#[test]
fn trust_words() {
    assert_eq!(trust_word("family").as_deref(), Some("TRUST-FAMILY"));
    assert_eq!(trust_word("none").as_deref(), Some("TRUST-NONE"));
    assert!(trust_word("everyone").is_none());
}
