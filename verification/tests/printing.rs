use closeenv::cli::{
    exit_code, parse_args, parse_u64_arg, parse_usize_arg, CliCommand, OutputFormat, ScanRequest,
};
use closeenv::render::help_text;
use closeenv::report::{check, detector_counts, finding, raw_finding};
use closeenv::{
    report_text, report_text_with_limit, Finding, ScanCheck, ScanMode, ScanReport, Severity,
};

fn report(checks: Vec<ScanCheck>) -> ScanReport {
    ScanReport {
        root: "/r".to_string(),
        passed: checks.iter().all(|check| check.passed),
        scanned_files: 12,
        skipped_files: 3,
        duration_ms: 45,
        blocker_findings: 2,
        warning_findings: 1,
        detector_counts: detector_counts(&checks),
        checks,
    }
}

fn words(list: &[&str]) -> Vec<String> {
    list.iter().map(|s| s.to_string()).collect()
}

fn request(list: &[&str]) -> ScanRequest {
    match parse_args(&words(list)) {
        Ok(CliCommand::Scan(request)) => request,
        other => panic!("{other:?}"),
    }
}

fn refusal(list: &[&str]) -> String {
    parse_args(&words(list)).unwrap_err()
}

#[test]
fn reports_are_rendered() {
    let warning = Finding {
        severity: Severity::Warning,
        path: "w".to_string(),
        line: None,
        detail: "odd".to_string(),
    };
    let made = report(vec![
        check("first", "fine", "bad", Vec::new()),
        check("second", "fine", "bad", vec![finding("a", "x"), raw_finding("b", "y", 10), warning]),
    ]);
    assert_eq!(
        report_text_with_limit(&made, 3),
        "CloseEnv scan: failed\nRoot: /r\nFiles: scanned=12 skipped=3\nFindings: blockers=2 warnings=1 duration_ms=45\n- first: fine\n- second: bad (3)\n  - Blocker: a: x\n  - Blocker: b:10: y\n  - Warning: w: odd\n"
    );
    assert_eq!(
        report_text_with_limit(&made, 1),
        "CloseEnv scan: failed\nRoot: /r\nFiles: scanned=12 skipped=3\nFindings: blockers=2 warnings=1 duration_ms=45\n- first: fine\n- second: bad (3)\n  - Blocker: a: x\n  - ... 2 more findings omitted\n"
    );
    assert_eq!(report_text(&made), report_text_with_limit(&made, 100));
    assert!(report_text_with_limit(&made, 0).ends_with("- second: bad (3)\n  - ... 3 more findings omitted\n"));
}

#[test]
fn eight_findings_are_shown() {
    let many: Vec<Finding> = (0..10).map(|i| finding(&format!("f{i}"), "x")).collect();
    let made = report(vec![check("many", "fine", "bad", many)]);
    let text = report_text(&made);
    assert!(text.contains("f7: x\n  - ... 2 more findings omitted\n"));
    assert!(!text.contains("f8"));
}

#[test]
fn counts_are_sorted_by_detail() {
    let checks = vec![
        check("a", "", "", vec![finding("1", "z"), finding("2", "a")]),
        check("b", "", "", vec![finding("3", "z")]),
    ];
    let counts = detector_counts(&checks);
    assert_eq!(counts.entries(), &vec![("a".to_string(), 1), ("z".to_string(), 2)]);
    assert!(counts.contains_key("z"));
    assert!(!counts.contains_key("y"));
}

#[test]
fn arguments_are_read() {
    let plain = request(&[]);
    assert_eq!(plain.output_format, OutputFormat::Text);
    assert!(plain.fail_on_findings);
    assert_eq!(plain.text_finding_limit, 8);
    assert_eq!(plain.root, None);
    assert_eq!(plain.options, closeenv::ScanOptions::default());
    let full = request(&[
        "scan",
        "--json",
        "--sarif",
        "dir",
        "--no-fail",
        "--staged",
        "--include-ignored",
        "--max-files",
        "25000",
        "--max-file-bytes",
        "524288",
        "--limit",
        "20",
    ]);
    assert_eq!(full.output_format, OutputFormat::Sarif);
    assert!(!full.fail_on_findings);
    assert_eq!(full.text_finding_limit, 20);
    assert_eq!(full.root, Some("dir".to_string()));
    assert_eq!(full.options.mode, ScanMode::Staged);
    assert!(full.options.include_ignored);
    assert_eq!(full.options.max_files, Some(25000));
    assert_eq!(full.options.max_file_bytes, Some(524288));
    assert_eq!(request(&["--json", "x"]).root, request(&["scan", "--json", "x"]).root);
    assert_eq!(request(&["scan", "scan"]).root, Some("scan".to_string()));
    assert_eq!(request(&["scan", "help"]).root, Some("help".to_string()));
}

#[test]
fn help_and_version_are_asked_for() {
    for list in [vec!["help"], vec!["--help"], vec!["-h"], vec!["scan", "--json", "-h", "--bad"]] {
        assert!(matches!(parse_args(&words(&list)), Ok(CliCommand::Help)));
    }
    for list in [vec!["--version"], vec!["-V"], vec!["scan", "x", "--version", "y", "z"]] {
        assert!(matches!(parse_args(&words(&list)), Ok(CliCommand::Version)));
    }
    assert!(help_text().starts_with("CloseEnv\n\nUsage:\n  closeenv scan [path]"));
}

#[test]
fn arguments_are_refused() {
    assert_eq!(refusal(&["--bad"]), "unknown flag: --bad");
    assert_eq!(refusal(&["-"]), "unknown flag: -");
    assert_eq!(refusal(&["a", "b"]), "only one scan path is supported");
    assert_eq!(refusal(&["--limit"]), "--limit requires a value");
    assert_eq!(refusal(&["--max-files", "x"]), "--max-files requires a positive integer");
    assert_eq!(
        refusal(&["--max-file-bytes", "-1"]),
        "--max-file-bytes requires a positive integer"
    );
    assert_eq!(parse_usize_arg(&words(&["5"]), 0, "--n"), Ok(5));
    assert_eq!(parse_u64_arg(&words(&["5"]), 1, "--n"), Err("--n requires a value".to_string()));
}

#[test]
fn exit_codes_follow_findings() {
    assert_eq!(exit_code(true, false), 1);
    assert_eq!(exit_code(true, true), 0);
    assert_eq!(exit_code(false, false), 0);
    assert_eq!(exit_code(false, true), 0);
}
