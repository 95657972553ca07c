use mcpfz_probe::cli::{
    backend_failure, io_failure, parse_args, usage_failure, Backend, Parsed,
};

fn parse(args: &[&str]) -> Parsed {
    let args: Vec<String> = args.iter().map(|s| s.to_string()).collect();
    parse_args(&args)
}

fn error(args: &[&str]) -> String {
    match parse(args) {
        Parsed::Error(message) => message,
        _ => panic!("expected Error"),
    }
}

#[test]
fn defaults_to_ebpf_backend() {
    match parse(&[]) {
        Parsed::Run(args) => {
            assert_eq!(args.backend, Backend::Ebpf);
            assert_eq!(args.grace_ms, 100);
        }
        _ => panic!("expected Run"),
    }
}

#[test]
fn parses_fake_backend_options() {
    match parse(&[
        "--backend",
        "fake",
        "--events-file",
        "e.json",
        "--grace-ms",
        "250",
    ]) {
        Parsed::Run(args) => {
            assert_eq!(args.backend, Backend::Fake);
            assert_eq!(args.events_file.as_deref(), Some("e.json"));
            assert_eq!(args.grace_ms, 250);
        }
        _ => panic!("expected Run"),
    }
}

#[test]
fn help_and_version_short_circuit() {
    assert!(matches!(parse(&["--help"]), Parsed::Help));
    assert!(matches!(parse(&["-V"]), Parsed::Version));
}

#[test]
fn rejects_unknown_backend_and_bad_grace() {
    assert!(matches!(parse(&["--backend", "nope"]), Parsed::Error(_)));
    assert!(matches!(parse(&["--grace-ms", "abc"]), Parsed::Error(_)));
    assert!(matches!(parse(&["--stray"]), Parsed::Error(_)));
}

#[test]
fn says_what_is_wrong() {
    assert_eq!(error(&["--backend", "nope"]), "unknown backend 'nope'");
    assert_eq!(error(&["--grace-ms", "abc"]), "invalid --grace-ms value 'abc'");
    assert_eq!(error(&["--stray"]), "unexpected argument '--stray'");
    assert_eq!(error(&["--backend"]), "--backend requires a value");
    assert_eq!(error(&["--events-file"]), "--events-file requires a value");
    assert_eq!(error(&["--grace-ms"]), "--grace-ms requires a value");
}

#[test]
fn help_and_version_come_before_what_follows() {
    assert!(matches!(parse(&["-h", "--stray"]), Parsed::Help));
    assert!(matches!(parse(&["--backend", "fake", "--version", "-h"]), Parsed::Version));
    assert!(matches!(parse(&["--stray", "--help"]), Parsed::Error(_)));
    // An option takes whatever follows as its value.
    match parse(&["--events-file", "--help"]) {
        Parsed::Run(args) => assert_eq!(args.events_file.as_deref(), Some("--help")),
        _ => panic!("expected Run"),
    }
}

#[test]
fn last_option_holds() {
    match parse(&[
        "--backend", "fake", "--grace-ms", "1", "--events-file", "a", "--events-file", "b",
        "--grace-ms", "18446744073709551615", "--backend", "ebpf",
    ]) {
        Parsed::Run(args) => {
            assert_eq!(args.backend, Backend::Ebpf);
            assert_eq!(args.events_file.as_deref(), Some("b"));
            assert_eq!(args.grace_ms, u64::MAX);
        }
        _ => panic!("expected Run"),
    }
}

#[test]
fn grace_is_read_as_the_standard_library_reads_numbers() {
    for value in [
        "0", "00", "007", "+5", "+", "-", "", "-0", "-1", "++1", " 1", "1 ", "1_000", "12a", "a12",
        "18446744073709551615", "18446744073709551616", "99999999999999999999999",
        "000000000000000000000000018446744073709551615", "\u{661}", "0x10", "1.5",
    ] {
        let expected = value.parse::<u64>().ok();
        let found = match parse(&["--grace-ms", value]) {
            Parsed::Run(args) => Some(args.grace_ms),
            _ => None,
        };
        assert_eq!(found, expected, "{}", value);
    }
}

#[test]
fn failures_have_their_lines_and_codes() {
    let usage = usage_failure("unexpected argument '--stray'");
    assert_eq!(usage.code, 2);
    assert_eq!(
        usage.lines,
        vec![
            "mcpfz-probe: unexpected argument '--stray'".to_string(),
            "try 'mcpfz-probe --help'".to_string(),
        ]
    );
    let io = io_failure("broken pipe");
    assert_eq!(io.code, 1);
    assert_eq!(io.lines, vec!["mcpfz-probe: io error: broken pipe".to_string()]);
    let backend = backend_failure("no");
    assert_eq!(backend.code, 69);
    assert_eq!(backend.lines, vec!["mcpfz-probe: no".to_string()]);
}
