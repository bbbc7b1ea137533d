use study_gateway::dates::{chrono_today, date_text_from_unix_seconds, extract_iso_date, is_leap, parse_clock_minutes};
use study_gateway::journal::{
    build_log_stem_at, daily_log_to_markdown, nth_log_stem, prepare_log_update, prepare_new_log, eq_ignore_ascii_case, normalize_log_date, parse_daily_log_markdown,
    parse_daily_log_markdown_at, parse_frontmatter_value, sanitize_title_for_filename,
};
use study_gateway::model::DailyLog;
use study_gateway::paths::{notes_file_target, sanitize_relative_path, NotesTarget};
use study_gateway::ranges::{resolve_focus_range, resolve_focus_range_at, resolve_week_window, CalendarDate};
use study_gateway::text::{push_decimal, push_hex, push_zero_padded};

#[test]
fn leap_years() {
    assert!(is_leap(2000));
    assert!(is_leap(2024));
    assert!(!is_leap(1900));
    assert!(!is_leap(2023));
}

#[test]
fn civil_dates() {
    assert_eq!(date_text_from_unix_seconds(0), "1970-01-01");
    assert_eq!(date_text_from_unix_seconds(86399), "1970-01-01");
    assert_eq!(date_text_from_unix_seconds(365 * 86400), "1971-01-01");
    assert_eq!(date_text_from_unix_seconds(951782400), "2000-02-29");
    assert_eq!(date_text_from_unix_seconds(1704067200), "2024-01-01");
    assert_eq!(date_text_from_unix_seconds(1735603200), "2024-12-31");
    let today = chrono_today();
    assert_eq!(today.len(), 10);
    assert_eq!(&today[4..5], "-");
}

#[test]
fn number_text() {
    let mut s = String::new();
    push_decimal(&mut s, 0);
    push_decimal(&mut s, 4545);
    assert_eq!(s, "04545");
    let mut p = String::new();
    push_zero_padded(&mut p, 7, 2);
    push_zero_padded(&mut p, 12345, 4);
    assert_eq!(p, "0712345");
    let mut h = String::new();
    push_hex(&mut h, 48879);
    assert_eq!(h, "beef");
}

#[test]
fn iso_dates_in_text() {
    assert_eq!(extract_iso_date("Plan for 2024-03-15 review").as_deref(), Some("2024-03-15"));
    assert_eq!(extract_iso_date("2024-3-15 and 2023-12-01").as_deref(), Some("2023-12-01"));
    assert_eq!(extract_iso_date("no date here"), None);
    assert_eq!(extract_iso_date("short"), None);
}

#[test]
fn clock_times() {
    assert_eq!(parse_clock_minutes("08:30"), Some(510));
    assert_eq!(parse_clock_minutes("0:0"), Some(0));
    assert_eq!(parse_clock_minutes("23:59"), Some(1439));
    assert_eq!(parse_clock_minutes("24:00"), None);
    assert_eq!(parse_clock_minutes("12:60"), None);
    assert_eq!(parse_clock_minutes("1:2:3"), None);
    assert_eq!(parse_clock_minutes("ab:cd"), None);
    assert_eq!(parse_clock_minutes("0830"), None);
}

#[test]
fn title_slugs() {
    assert_eq!(sanitize_title_for_filename("Hello, World!"), "Hello--World");
    assert_eq!(sanitize_title_for_filename("--abc--"), "abc");
    assert_eq!(sanitize_title_for_filename("数学 复习"), "数学-复习");
    assert_eq!(sanitize_title_for_filename("!!!"), "");
    assert_eq!(
        sanitize_title_for_filename("abcdefghijklmnopqrstuvwxyz"),
        "abcdefghijklmnopqrstuvwx"
    );
}

#[test]
fn frontmatter_lookup() {
    let lines = vec!["title: Morning".to_string(), "mood:  happy ".to_string(), "mood: sad".to_string()];
    assert_eq!(parse_frontmatter_value(&lines, "mood"), Some("happy"));
    assert_eq!(parse_frontmatter_value(&lines, "title"), Some("Morning"));
    assert_eq!(parse_frontmatter_value(&lines, "tags"), None);
}

fn sample_log() -> DailyLog {
    DailyLog {
        id: "2024-01-01_08-00-00_read".to_string(),
        date: "2024-01-01".to_string(),
        title: "Read".to_string(),
        content: "Finished chapter 3.".to_string(),
        mood: "focused".to_string(),
        sync_rate: -5,
        tags: "math,408".to_string(),
        auto_generated: true,
        created_at: "c".to_string(),
        updated_at: "u".to_string(),
    }
}

#[test]
fn log_to_markdown() {
    let md = daily_log_to_markdown(&sample_log());
    assert_eq!(
        md,
        "---\nid: 2024-01-01_08-00-00_read\ndate: 2024-01-01\ntitle: Read\nmood: focused\nsync_rate: -5\ntags: math,408\nauto_generated: true\ncreated_at: c\nupdated_at: u\n---\n\nFinished chapter 3.\n"
    );
}

#[test]
fn markdown_round_trip() {
    let md = daily_log_to_markdown(&sample_log());
    let back = parse_daily_log_markdown_at(&md, "stem", "2030-01-01", "now");
    assert_eq!(back.id, "2024-01-01_08-00-00_read");
    assert_eq!(back.date, "2024-01-01");
    assert_eq!(back.title, "Read");
    assert_eq!(back.mood, "focused");
    assert_eq!(back.sync_rate, -5);
    assert_eq!(back.tags, "math,408");
    assert!(back.auto_generated);
    assert_eq!(back.created_at, "c");
    assert_eq!(back.updated_at, "u");
    assert_eq!(back.content, "Finished chapter 3.\n");
}

#[test]
fn markdown_without_header() {
    let log = parse_daily_log_markdown_at("\n\nJust text", "2024-05-06_10-00-00", "2030-01-01", "now");
    assert_eq!(log.id, "2024-05-06_10-00-00");
    assert_eq!(log.date, "2024-05-06");
    assert_eq!(log.title, "留痕 2024-05-06");
    assert_eq!(log.mood, "neutral");
    assert_eq!(log.sync_rate, 80);
    assert_eq!(log.tags, "");
    assert!(!log.auto_generated);
    assert_eq!(log.created_at, "now");
    assert_eq!(log.content, "Just text");
    let other = parse_daily_log_markdown_at("---\nid: x\n", "notes", "2030-01-01", "now");
    assert_eq!(other.id, "notes");
    assert_eq!(other.date, "2030-01-01");
    assert_eq!(other.content, "---\nid: x\n");
    let clocked = parse_daily_log_markdown("---\nsync_rate: abc\nauto_generated: TRUE\n---\nbody", "s");
    assert_eq!(clocked.sync_rate, 80);
    assert!(clocked.auto_generated);
    assert_eq!(clocked.content, "body");
}

#[test]
fn log_dates_and_stems() {
    assert_eq!(normalize_log_date("  2024-02-03_rest", "today"), "2024-02-03");
    assert_eq!(normalize_log_date("notes", "today"), "today");
    assert_eq!(build_log_stem_at("2024-02-03", "08-00-00", "Read!"), "2024-02-03_08-00-00_Read");
    assert_eq!(build_log_stem_at("2024-02-03", "08-00-00", "!!"), "2024-02-03_08-00-00");
    assert!(eq_ignore_ascii_case("TrUe", "true"));
    assert!(!eq_ignore_ascii_case("yes", "true"));
}

#[test]
fn relative_paths() {
    assert_eq!(sanitize_relative_path("notes/a.md").unwrap(), vec!["notes".to_string(), "a.md".to_string()]);
    assert_eq!(sanitize_relative_path(" a\\b ").unwrap(), vec!["a".to_string(), "b".to_string()]);
    assert_eq!(sanitize_relative_path("./a//b/.").unwrap(), vec!["a".to_string(), "b".to_string()]);
    assert!(sanitize_relative_path("").unwrap().is_empty());
    assert_eq!(sanitize_relative_path("../x").unwrap_err(), "Invalid relative path: ../x");
    assert_eq!(sanitize_relative_path("/etc/passwd").unwrap_err(), "Invalid relative path: /etc/passwd");
    assert!(sanitize_relative_path("a/../../b").is_err());
}

#[test]
fn notes_file_targets() {
    let e = notes_file_target("  ", false).err().unwrap();
    assert_eq!(e.status_code(), 400);
    assert_eq!(e.message, "path 参数不能为空");
    assert!(matches!(notes_file_target(" /tmp/x.md ", true), Ok(NotesTarget::Absolute(ref p)) if p == "/tmp/x.md"));
    match notes_file_target("dir/x.md", false) {
        Ok(NotesTarget::InNotes(segs)) => assert_eq!(segs, vec!["dir".to_string(), "x.md".to_string()]),
        _ => panic!("expected a notes path"),
    }
    assert_eq!(notes_file_target("../x.md", false).err().unwrap().status_code(), 400);
}

#[test]
fn date_windows() {
    assert_eq!(
        resolve_week_window("2024-01-07").unwrap(),
        ("2024-01-01".to_string(), "2024-01-07".to_string())
    );
    assert_eq!(
        resolve_week_window("2024-03-01").unwrap(),
        ("2024-02-24".to_string(), "2024-03-01".to_string())
    );
    let e = resolve_week_window("2024/01/07").unwrap_err();
    assert!(e.starts_with("Invalid end_date, expected YYYY-MM-DD: "));
    let today = CalendarDate { year: 2024, month: 1, day: 10 };
    assert_eq!(
        resolve_focus_range_at(None, None, today).unwrap(),
        ("2024-01-04".to_string(), "2024-01-10".to_string())
    );
    assert_eq!(
        resolve_focus_range_at(Some("2024-01-10"), Some("2024-01-01"), today).unwrap_err(),
        "start_date 不能晚于 end_date"
    );
    assert!(resolve_focus_range_at(Some("x"), None, today).unwrap_err().starts_with("Invalid start_date"));
    assert!(resolve_focus_range(Some("2000-01-01"), None).is_ok());
}

#[test]
fn new_log_entries() {
    assert_eq!(nth_log_stem("2024-01-01_08-00-00_read", 0), "2024-01-01_08-00-00_read");
    assert_eq!(nth_log_stem("2024-01-01_08-00-00_read", 12), "2024-01-01_08-00-00_read-12");
    let mut log = sample_log();
    log.date = " 2024-02-03 morning".to_string();
    log.created_at = "  ".to_string();
    let created = prepare_new_log(log, "stem-1".to_string(), "2030-01-01", "now");
    assert_eq!(created.id, "stem-1");
    assert_eq!(created.date, "2024-02-03");
    assert_eq!(created.created_at, "now");
    assert_eq!(created.updated_at, "now");
    assert_eq!(created.title, "Read");
}

#[test]
fn log_updates() {
    let existing = sample_log();
    let mut blank_id = sample_log();
    blank_id.id = " ".to_string();
    assert_eq!(
        prepare_log_update(blank_id, &existing, "t", "n").unwrap_err(),
        "Daily log id is required for update"
    );
    let mut log = sample_log();
    log.date = "".to_string();
    log.created_at = "".to_string();
    let updated = prepare_log_update(log, &existing, "2030-01-01", "later").unwrap();
    assert_eq!(updated.date, "2024-01-01");
    assert_eq!(updated.created_at, "c");
    assert_eq!(updated.updated_at, "later");
    let mut undated = sample_log();
    undated.date = "someday".to_string();
    assert_eq!(prepare_log_update(undated, &existing, "2030-01-01", "later").unwrap().date, "2030-01-01");
}

#[test]
fn stated_outside_behaviour() {
    assert_eq!(parse_clock_minutes("+8:30"), Some(510));
    assert_eq!(parse_clock_minutes("-0:05"), Some(5));
    assert_eq!(parse_clock_minutes("-1:05"), None);
    assert_eq!(parse_clock_minutes(" 8:30"), None);
    let far = CalendarDate { year: 10000, month: 1, day: 10 };
    assert_eq!(
        resolve_focus_range_at(None, None, far).unwrap(),
        ("+10000-01-04".to_string(), "+10000-01-10".to_string())
    );
    let e = notes_file_target(" ../x.md ", false).err().unwrap();
    assert_eq!(e.message, "Invalid relative path: ../x.md");
}
