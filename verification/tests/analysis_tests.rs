use url_encoder::URLEncoder;

#[test]
fn analyze_counts_concrete() {
    let analysis = URLEncoder::new("a b/c?d".to_string()).analyze();
    assert_eq!(analysis.total_length, 7);
    // "a b/c?d" encodes to "a+b%2Fc%3Fd".
    assert_eq!(analysis.encoded_length, 11);
    // Only the space is outside the allow-list; '/' and '?' are structural.
    assert_eq!(analysis.special_chars, 1);
    assert_eq!(analysis.domains, 0);
    assert_eq!(analysis.paths, 1);
    assert_eq!(analysis.queries, 1);
}

#[test]
fn analyze_full_url() {
    let analysis = URLEncoder::new("https://example.com/path?x=1".to_string()).analyze();
    assert_eq!(analysis.total_length, 28);
    assert_eq!(analysis.encoded_length, 40);
    assert_eq!(analysis.special_chars, 0);
    assert_eq!(analysis.domains, 1);
    assert_eq!(analysis.paths, 3);
    assert_eq!(analysis.queries, 1);
}

#[test]
fn analyze_empty_input() {
    let analysis = URLEncoder::new(String::new()).analyze();
    assert_eq!(analysis.total_length, 0);
    assert_eq!(analysis.encoded_length, 0);
    assert_eq!(analysis.special_chars, 0);
    assert_eq!(analysis.domains, 0);
    assert_eq!(analysis.paths, 0);
    assert_eq!(analysis.queries, 0);
    let report = analysis.report();
    assert!(report.contains("Expansion Ratio: 0.00%"));
}

#[test]
fn analyze_invariant_ties_encoded_length_to_encoder() {
    let enc = URLEncoder::new("a b/c?d \u{e9}".to_string());
    let analysis = enc.analyze();
    assert_eq!(analysis.encoded_length, enc.encode().chars().count());
}

#[test]
fn report_exact_text() {
    let report = URLEncoder::new("a b/c?d".to_string()).analyze().report();
    let expected = "URL Analysis Report\n\
                    ====================\n\
                    Original Length: 7\n\
                    Encoded Length: 11\n\
                    Expansion Ratio: 57.14%\n\
                    Special Characters: 1\n\
                    Domains Found: 0\n\
                    Paths Found: 1\n\
                    Queries Found: 1\n";
    assert_eq!(report, expected);
}

#[test]
fn report_empty_input_exact_text() {
    let report = URLEncoder::new(String::new()).analyze().report();
    let expected = "URL Analysis Report\n\
                    ====================\n\
                    Original Length: 0\n\
                    Encoded Length: 0\n\
                    Expansion Ratio: 0.00%\n\
                    Special Characters: 0\n\
                    Domains Found: 0\n\
                    Paths Found: 0\n\
                    Queries Found: 0\n";
    assert_eq!(report, expected);
}

#[test]
fn extract_components_full_url() {
    let components = URLEncoder::new("https://example.com/path?x=1".to_string())
        .extract_components();
    assert_eq!(
        components,
        vec![
            "Protocol: https".to_string(),
            "Domain: example.com".to_string(),
            "Path: /path".to_string(),
            "Query: x=1".to_string(),
        ]
    );
}

#[test]
fn extract_components_without_scheme() {
    let components = URLEncoder::new("example.com/path".to_string()).extract_components();
    assert_eq!(components, vec!["URL: Not a valid URL format".to_string()]);
}

#[test]
fn extract_components_domain_only() {
    let components = URLEncoder::new("https://example.com".to_string()).extract_components();
    assert_eq!(
        components,
        vec!["Protocol: https".to_string(), "Domain: example.com".to_string()]
    );
}

#[test]
fn extract_components_without_query() {
    let components = URLEncoder::new("https://example.com/a/b".to_string()).extract_components();
    assert_eq!(
        components,
        vec![
            "Protocol: https".to_string(),
            "Domain: example.com".to_string(),
            "Path: /a/b".to_string(),
        ]
    );
}
