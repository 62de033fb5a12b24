use quasar::metrics::inject_job_label;

#[test]
fn test_inject_into_braced_line() {
    let out = inject_job_label(
        "transactions_total{kind=\"transfer\"} 5",
        "quasar-host",
        "quasar/0.1.0",
    );
    assert_eq!(
        out,
        "transactions_total{job=\"quasar-host\", instance=\"quasar/0.1.0\", kind=\"transfer\"} 5"
    );
}

#[test]
fn test_inject_into_bare_line() {
    let out = inject_job_label("transactions_total 5", "j", "i");
    assert_eq!(out, "transactions_total{job=\"j\", instance=\"i\"} 5");
}

#[test]
fn test_inject_keeps_comments_and_blank_lines() {
    let text = "# HELP transactions_total Count\n# TYPE transactions_total counter\ntransactions_total 7\n";
    let out = inject_job_label(text, "j", "i");
    assert_eq!(
        out,
        "# HELP transactions_total Count\n# TYPE transactions_total counter\ntransactions_total{job=\"j\", instance=\"i\"} 7"
    );
}

#[test]
fn test_inject_multiple_lines() {
    let text = "a{x=\"1\"} 1\nb 2";
    let out = inject_job_label(text, "jo", "in");
    assert_eq!(
        out,
        "a{job=\"jo\", instance=\"in\", x=\"1\"} 1\nb{job=\"jo\", instance=\"in\"} 2"
    );
}

#[test]
fn test_inject_empty_and_odd_lines() {
    assert_eq!(inject_job_label("", "j", "i"), "");
    // A line with neither brace nor space passes through unchanged.
    assert_eq!(inject_job_label("weird", "j", "i"), "weird");
}
