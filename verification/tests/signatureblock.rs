use mailpost::signatureblock::remove;
use regex::Regex;

#[test]
fn test_without_sig() {
    let input = "Dear Alice,\nI hope you are well\n";
    assert_eq!(input.to_string(), remove(input.to_string()));
}

#[test]
fn test_with_rfc3676_sig() {
    let input = "Dear Alice,\nI hope you are well\n-- \nEddie\nyour shipboard computer";
    assert_eq!(
        "Dear Alice,\nI hope you are well\n".to_string(),
        remove(input.to_string())
    );
}

#[test]
fn test_with_missing_space_sig() {
    let input = "Dear Alice,\nI hope you are well\n--\nEddie\nyour shipboard computer";
    assert_eq!(
        "Dear Alice,\nI hope you are well\n".to_string(),
        remove(input.to_string())
    );
}

#[test]
fn test_signature_starts_on_end_of_line() {
    let input = "Dear Alice,\nI hope you are well--\nEddie\nyour shipboard computer";
    assert_eq!(
        "Dear Alice,\nI hope you are well".to_string(),
        remove(input.to_string())
    );
}

#[test]
fn remove_short_forms() {
    assert_eq!(remove("A\nI hope you are well\n-- \nB".to_string()), "A\nI hope you are well\n");
    assert_eq!(remove("A\nB".to_string()), "A\nB");
    assert_eq!(remove("A--\nB".to_string()), "A");
}

#[test]
fn remove_edge_cases() {
    assert_eq!(remove(String::new()), "");
    assert_eq!(remove("--".to_string()), "");
    assert_eq!(remove("-".to_string()), "-");
    assert_eq!(remove("a-b-c".to_string()), "a-b-c");
    assert_eq!(remove("x\n--\ny\n--\nz".to_string()), "x\n");
    assert_eq!(remove("\u{e9}t\u{e9} ---".to_string()), "\u{e9}t\u{e9} ");
}

#[test]
fn remove_is_idempotent() {
    let once = remove("one\ntwo -- three\n-- \nfour".to_string());
    assert_eq!(once, "one\ntwo ");
    assert_eq!(remove(once.clone()), once);
}

#[test]
fn remove_agrees_with_the_pattern() {
    let pattern = Regex::new(r"(?m)--(?s).*$").unwrap();
    let samples = [
        "",
        "plain",
        "Dear Alice,\n-- \nEddie",
        "a--b\n--c",
        "-\n-",
        "tail--",
        "--head",
        "line one\nline two\n\n--\nsig\nmore -- sig",
    ];
    for sample in samples {
        assert_eq!(remove(sample.to_string()), pattern.replace_all(sample, "").to_string());
    }
}
