use study_gateway::focus::{checked_total_minutes, focus_tag_slices, parse_focus_tags, TagRow};

fn row(tags: &str, seconds: i64) -> TagRow {
    TagRow { tags_json: tags.to_string(), actual_seconds: seconds }
}

#[test]
fn tags_are_trimmed_and_deduplicated() {
    assert_eq!(parse_focus_tags("[\" math \", \"\", \"math\", \"408\"]"), vec!["math".to_string(), "408".to_string()]);
}

#[test]
fn missing_tags_fall_back_to_uncategorized() {
    assert_eq!(parse_focus_tags("[]"), vec!["未分类".to_string()]);
    assert_eq!(parse_focus_tags("not json"), vec!["未分类".to_string()]);
    assert_eq!(parse_focus_tags("[\"  \"]"), vec!["未分类".to_string()]);
}

#[test]
fn slices_sum_minutes_per_tag() {
    let rows = vec![
        row("[\"math\"]", 1500),
        row("[\"math\", \"408\"]", 3600),
        row("[\"english\"]", 59),
        row("[]", 600),
    ];
    let slices = focus_tag_slices(&rows);
    let view: Vec<(String, i64, i64)> = slices.into_iter().map(|s| (s.key, s.minutes, s.runs)).collect();
    assert_eq!(
        view,
        vec![
            ("math".to_string(), 85, 2),
            ("408".to_string(), 60, 1),
            ("未分类".to_string(), 10, 1),
        ]
    );
}

#[test]
fn empty_rows_give_no_slices() {
    assert!(focus_tag_slices(&Vec::new()).is_empty());
}

#[test]
fn totals_and_overflow() {
    assert_eq!(checked_total_minutes(&vec![row("[]", 125), row("[]", 30), row("[]", 60)]), Some(3));
    assert_eq!(checked_total_minutes(&vec![row("[]", i64::MAX), row("[]", i64::MAX)]), Some(2 * (i64::MAX / 60)));
    let many: Vec<TagRow> = (0..61).map(|_| row("[]", i64::MAX)).collect();
    assert_eq!(checked_total_minutes(&many), None);
}
