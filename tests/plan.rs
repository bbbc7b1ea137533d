use study_gateway::plan::{parse_markdown_plan, parse_plan_tasks};

const PLAN: &str = "# Week plan\n## 2026-03-01 Sunday\n- [ ] [08:30] Read chapter 3 #math #high\n- [x] Review notes (low)\n  - [X] Essay draft @2026-03-05 #English\nsome prose\n- [ ]    \n## no date here\n- [ ] [25:00] Late task #Urgent\n";

#[test]
fn plan_tasks_are_read() {
    let tasks = parse_plan_tasks(PLAN, "2026-01-01");
    assert_eq!(tasks.len(), 4);

    assert_eq!(tasks[0].title, "Read chapter 3");
    assert_eq!(tasks[0].date, "2026-03-01");
    assert_eq!(tasks[0].priority, "high");
    assert_eq!(tasks[0].tags, vec!["math".to_string()]);
    assert_eq!(tasks[0].status, "todo");
    assert_eq!(tasks[0].start_time.as_deref(), Some("08:30"));

    assert_eq!(tasks[1].title, "Review notes");
    assert_eq!(tasks[1].priority, "low");
    assert_eq!(tasks[1].status, "done");
    assert!(tasks[1].start_time.is_none());

    assert_eq!(tasks[2].title, "Essay draft");
    assert_eq!(tasks[2].date, "2026-03-05");
    assert!(tasks[2].tags.is_empty());
    assert_eq!(tasks[2].status, "done");

    assert_eq!(tasks[3].title, "[25:00] Late task");
    assert_eq!(tasks[3].date, "2026-03-01");
    assert_eq!(tasks[3].priority, "high");
    assert!(tasks[3].start_time.is_none());
}

#[test]
fn undated_tasks_take_today() {
    let tasks = parse_plan_tasks("- [ ] Solo task (Medium)", "2026-02-02");
    assert_eq!(tasks.len(), 1);
    assert_eq!(tasks[0].date, "2026-02-02");
    assert_eq!(tasks[0].priority, "medium");
    assert_eq!(tasks[0].title, "Solo task");
    let clocked = parse_markdown_plan("- [ ] Another");
    assert_eq!(clocked[0].date.len(), 10);
}

#[test]
fn non_task_lines_give_nothing() {
    assert!(parse_plan_tasks("", "d").is_empty());
    assert!(parse_plan_tasks("## 2026-03-01\nplain text\n- [] not a box", "d").is_empty());
}
