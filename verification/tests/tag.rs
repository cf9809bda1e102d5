use mailpost::tag::{detag, Tag};

#[test]
fn test_detag_empty() {
    let subject = "";
    let expected_result = "";
    let expected_tags = Vec::new();
    assert_eq!(detag(subject), (expected_result.to_string(), expected_tags));
}

#[test]
fn test_detag_start_tag() {
    let subject = "#happy weekend!";
    let expected_result = "weekend!".to_string();
    let expected_tags = vec![Tag::new("happy")];
    assert_eq!(detag(subject), (expected_result, expected_tags));
}

#[test]
fn test_detag_middle_tag() {
    let subject = "I'm feeling #jolly #happy today.";
    let expected_result = "I'm feeling today.".to_string();
    let expected_tags = vec![Tag::new("jolly"), Tag::new("happy")];
    assert_eq!(detag(subject), (expected_result, expected_tags));
}

#[test]
fn test_detag_end_tag() {
    let subject = "I like my #vet";
    let expected_result = "I like my".to_string();
    let expected_tags = vec![Tag::new("vet")];
    assert_eq!(detag(subject), (expected_result, expected_tags));
}

#[test]
fn detag_without_tags_keeps_a_single_spaced_subject() {
    let (title, tags) = detag("  A quiet day at home ");
    assert_eq!(title, "A quiet day at home");
    assert!(tags.is_empty());
}

#[test]
fn detag_collapses_runs_of_whitespace() {
    let (title, tags) = detag("one \t two\n\nthree");
    assert_eq!(title, "one two three");
    assert!(tags.is_empty());
}

#[test]
fn detag_keeps_duplicates_case_and_order() {
    let (title, tags) = detag("#Sun walk #rain #Sun again");
    assert_eq!(title, "walk again");
    assert_eq!(tags, vec![Tag::new("Sun"), Tag::new("rain"), Tag::new("Sun")]);
}

#[test]
fn detag_only_tags_leaves_an_empty_title() {
    let (title, tags) = detag("#a #b");
    assert_eq!(title, "");
    assert_eq!(tags, vec![Tag::new("a"), Tag::new("b")]);
}

#[test]
fn detag_bare_marker_is_an_empty_tag() {
    let (title, tags) = detag("# x");
    assert_eq!(title, "x");
    assert_eq!(tags, vec![Tag::new("")]);
}

#[test]
fn detag_strips_one_marker_only() {
    let (title, tags) = detag("##x a#b");
    assert_eq!(title, "a#b");
    assert_eq!(tags, vec![Tag::new("#x")]);
}

#[test]
fn detag_splits_on_unicode_whitespace() {
    let (title, tags) = detag("caf\u{e9}\u{3000}#\u{e9}t\u{e9}\u{a0}fin");
    assert_eq!(title, "caf\u{e9} fin");
    assert_eq!(tags, vec![Tag::new("\u{e9}t\u{e9}")]);
}

#[test]
fn tag_text_and_duplicate() {
    let tag = Tag::new("Vet");
    assert_eq!(tag.as_str(), "Vet");
    assert_eq!(tag.duplicate(), tag);
}
