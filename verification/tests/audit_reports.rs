use zeno_core::engine::audit::{AuditError, AuditLogger, AuditReport, ComplianceChecker, ReportGenerator};

fn strings(v: &[&str]) -> Vec<String> {
    v.iter().map(|s| s.to_string()).collect()
}

fn expected_html(id: &str, ts: &str, passed: bool, checks: usize, warnings: usize) -> String {
    format!(
        r#"<!DOCTYPE html>
<html>
<head>
    <title>Zeno Audit Report - {}</title>
    <style>
        body {{ font-family: Arial, sans-serif; margin: 40px; }}
        .header {{ background: #2c3e50; color: white; padding: 20px; }}
        .passed {{ color: green; font-weight: bold; }}
        .failed {{ color: red; font-weight: bold; }}
        table {{ width: 100%; border-collapse: collapse; margin: 20px 0; }}
        th, td {{ border: 1px solid #ddd; padding: 12px; text-align: left; }}
        th {{ background: #34495e; color: white; }}
    </style>
</head>
<body>
    <div class="header">
        <h1>🌀 Zeno Compliance Audit Report</h1>
        <p>Report ID: {}</p>
        <p>Generated: {}</p>
    </div>
    
    <h2>Summary</h2>
    <p class="{}">Status: {}</p>
    <p>Total Checks: {}</p>
    <p>Warnings: {}</p>
    
    <h2>Validation Results</h2>
    <table>
        <tr><th>Check</th><th>Status</th></tr>
        <!-- Validation results would be inserted here -->
    </table>
    
    <h2>Metrics</h2>
    <table>
        <tr><th>Metric</th><th>Value</th></tr>
        <!-- Metrics would be inserted here -->
    </table>
</body>
</html>"#,
        id,
        id,
        ts,
        if passed { "passed" } else { "failed" },
        if passed { "PASSED" } else { "FAILED" },
        checks,
        warnings,
    )
}

#[test]
fn report_passes_until_a_check_fails() {
    let mut r = AuditReport::new("r1".to_string(), "2024-01-01T00:00:00+00:00".to_string());
    assert!(r.passed());
    r.add_validation("a".to_string(), true);
    assert!(r.passed());
    r.add_validation("b".to_string(), false);
    assert!(!r.passed());
    r.add_validation("b".to_string(), true);
    assert!(!r.passed());
    assert_eq!(r.check_count(), 2);
    let mut results = r.validation_results().clone();
    results.sort();
    assert_eq!(results, vec![("a".to_string(), true), ("b".to_string(), true)]);
}

#[test]
fn summary_lists_counts_and_verdict() {
    let mut r = AuditReport::new("r2".to_string(), "T".to_string());
    r.add_validation("x".to_string(), false);
    r.add_warning("careful".to_string());
    r.add_warning("again".to_string());
    let s = r.summary();
    assert_eq!(
        s,
        vec![
            ("report_id".to_string(), "r2".to_string()),
            ("timestamp".to_string(), "T".to_string()),
            ("passed".to_string(), "false".to_string()),
            ("checks".to_string(), "1".to_string()),
            ("warnings".to_string(), "2".to_string()),
        ]
    );
    assert_eq!(r.warnings(), &strings(&["careful", "again"]));
    assert_eq!(r.report_id(), "r2");
    assert_eq!(r.timestamp(), "T");
}

#[test]
fn new_report_is_stamped_as_given() {
    let r = AuditReport::new("fresh".to_string(), "2024-06-01T00:00:00+00:00".to_string());
    assert_eq!(r.timestamp(), "2024-06-01T00:00:00+00:00");
    assert_eq!(r.report_id(), "fresh");
    assert!(r.passed());
    assert_eq!(r.check_count(), 0);
    assert!(r.warnings().is_empty());
}

#[test]
fn html_report_matches_template() {
    let mut r = AuditReport::new("rep-7".to_string(), "2024-05-01T10:00:00+00:00".to_string());
    let g = ReportGenerator::new(None);
    assert_eq!(g.template(), "default");
    assert_eq!(g.generate_html(&r), expected_html("rep-7", "2024-05-01T10:00:00+00:00", true, 0, 0));
    r.add_validation("temporal_leakage".to_string(), false);
    r.add_warning("w".to_string());
    assert_eq!(g.generate_html(&r), expected_html("rep-7", "2024-05-01T10:00:00+00:00", false, 1, 1));
    assert_eq!(g.generate_pdf(&r, "/tmp/out.pdf"), "PDF report saved to /tmp/out.pdf");
    assert_eq!(ReportGenerator::new(Some("custom".to_string())).template(), "custom");
}

#[test]
fn compliance_rules_start_with_defaults() {
    let mut c = ComplianceChecker::new();
    assert_eq!(c.rule_count(), 4);
    c.add_rule("custom".to_string(), "desc".to_string());
    assert_eq!(c.rule_count(), 5);
    c.add_rule("custom".to_string(), "other".to_string());
    assert_eq!(c.rule_count(), 5);
}

#[test]
fn temporal_leakage_compares_dates_as_text() {
    let c = ComplianceChecker::new();
    let train = strings(&["2024-01-01", "2024-01-03", "2024-01-02"]);
    let test = strings(&["2024-01-05", "2024-01-04"]);
    assert_eq!(c.check_temporal_leakage(&train, &test), Ok(true));
    let late_train = strings(&["2024-01-01", "2024-01-04"]);
    assert_eq!(c.check_temporal_leakage(&late_train, &test), Ok(false));
    let same = strings(&["2024-01-04"]);
    assert_eq!(c.check_temporal_leakage(&same, &same), Ok(false));
    assert_eq!(c.check_temporal_leakage(&strings(&["b"]), &strings(&["ba"])), Ok(true));
    assert_eq!(c.check_temporal_leakage(&strings(&["é"]), &strings(&["z"])), Ok(false));
    assert_eq!(c.check_temporal_leakage(&vec![], &test), Err(AuditError::EmptyTrainDates));
    assert_eq!(c.check_temporal_leakage(&train, &vec![]), Err(AuditError::EmptyTestDates));
    assert_eq!(c.check_temporal_leakage(&vec![], &vec![]), Err(AuditError::EmptyTrainDates));
}

#[test]
fn compliance_run_records_the_leakage_check() {
    let c = ComplianceChecker::new();
    let ok = c
        .run_compliance_check(
            &strings(&["2024-01-01"]),
            &strings(&["2024-02-01"]),
            1_717_200_000,
            "2024-06-01T00:00:00+00:00".to_string(),
        )
        .unwrap();
    assert_eq!(ok.report_id(), "audit_1717200000");
    assert_eq!(ok.timestamp(), "2024-06-01T00:00:00+00:00");
    assert!(ok.passed());
    assert_eq!(ok.validation_results(), &vec![("temporal_leakage".to_string(), true)]);
    assert!(ok.warnings().is_empty());
    let bad = c
        .run_compliance_check(&strings(&["2024-03-01"]), &strings(&["2024-02-01"]), -5, "T".to_string())
        .unwrap();
    assert_eq!(bad.report_id(), "audit_-5");
    assert!(!bad.passed());
    assert_eq!(bad.warnings(), &strings(&["Temporal leakage detected in train/test split"]));
    assert_eq!(
        c.run_compliance_check(&vec![], &strings(&["x"]), 0, "T".to_string()).err(),
        Some(AuditError::EmptyTrainDates)
    );
    assert_eq!(
        c.run_compliance_check(&strings(&["x"]), &vec![], 0, "T".to_string()).err(),
        Some(AuditError::EmptyTestDates)
    );
}

#[test]
fn assess_split_extends_a_given_report() {
    let c = ComplianceChecker::new();
    let mut r = AuditReport::new("base".to_string(), "T0".to_string());
    r.add_warning("earlier".to_string());
    let out = c.assess_split(r, &strings(&["b"]), &strings(&["a"])).unwrap();
    assert_eq!(out.report_id(), "base");
    assert_eq!(out.warnings(), &strings(&["earlier", "Temporal leakage detected in train/test split"]));
    let r2 = AuditReport::new("base".to_string(), "T0".to_string());
    assert_eq!(c.assess_split(r2, &strings(&["b"]), &vec![]).err(), Some(AuditError::EmptyTestDates));
}

#[test]
fn logger_formats_and_joins_entries() {
    let mut l = AuditLogger::new(None);
    assert_eq!(l.log_file(), "audit.log");
    assert_eq!(l.contents(), "");
    l.log("T1".to_string(), "start".to_string(), None);
    l.log("T2".to_string(), "stop".to_string(), Some("WARN".to_string()));
    assert_eq!(l.get_logs(), strings(&["[T1] INFO - start", "[T2] WARN - stop"]));
    assert_eq!(l.contents(), "[T1] INFO - start\n[T2] WARN - stop");
    l.log("T3".to_string(), "live".to_string(), Some("".to_string()));
    assert_eq!(l.entry_count(), 3);
    assert_eq!(l.get_logs()[2], "[T3]  - live");
    assert_eq!(AuditLogger::new(Some("x.log".to_string())).log_file(), "x.log");
}
