use study_gateway::assets::{asset_reply, normalize_embedded_asset_path, AssetBody};
use study_gateway::handlers::{
    after_write, focus_id_from, gen_focus_id, normalize_focus_dimension, plan_finish_run, prepare_focus_run,
    prepare_new_template, prepare_template_update, store_error_response, uuid_short, ErrorKind, StoreError,
};
use study_gateway::model::{FinishFocusRunPayload, FocusTemplate, StartFocusRunPayload};
use study_gateway::routes::{resolve_route, Method, Route};
use study_gateway::sync::SyncAction;

fn template(id: &str, name: &str, minutes: i32) -> FocusTemplate {
    FocusTemplate {
        id: id.to_string(),
        name: name.to_string(),
        timer_type: " ".to_string(),
        duration_minutes: minutes,
        tags_json: "".to_string(),
        linked_task_title: None,
        color_token: Some("blue".to_string()),
        is_archived: 0,
        created_at: "".to_string(),
        updated_at: "old".to_string(),
    }
}

#[test]
fn routes_of_the_table() {
    assert!(matches!(resolve_route(Method::Get, "/api/ping"), Route::Ping));
    assert!(matches!(resolve_route(Method::Get, "/api/ws"), Route::Socket));
    assert!(matches!(resolve_route(Method::Get, "/api/tasks"), Route::ListTasks));
    assert!(matches!(resolve_route(Method::Post, "/api/tasks"), Route::CreateTask));
    assert!(matches!(resolve_route(Method::Put, "/api/tasks/t1"), Route::UpdateTask(ref id) if id == "t1"));
    assert!(matches!(resolve_route(Method::Delete, "/api/tasks/t1"), Route::DeleteTask(ref id) if id == "t1"));
    assert!(matches!(resolve_route(Method::Post, "/api/focus/templates"), Route::CreateTemplate));
    assert!(matches!(
        resolve_route(Method::Delete, "/api/focus/templates/x9"),
        Route::ArchiveTemplate(ref id) if id == "x9"
    ));
    assert!(matches!(resolve_route(Method::Post, "/api/focus/runs/start"), Route::StartRun));
    assert!(matches!(
        resolve_route(Method::Post, "/api/focus/runs/r-7/finish"),
        Route::FinishRun(ref id) if id == "r-7"
    ));
    assert!(matches!(resolve_route(Method::Get, "/api/focus/stats"), Route::FocusStats));
    assert!(matches!(resolve_route(Method::Get, "/api/stats/weekly"), Route::WeeklyStats));
    assert!(matches!(resolve_route(Method::Get, "/api/resources"), Route::Resources));
    assert!(matches!(resolve_route(Method::Get, "/api/notes/tree"), Route::NotesTree));
    assert!(matches!(resolve_route(Method::Get, "/api/notes/file"), Route::NotesFile));
    assert!(matches!(resolve_route(Method::Get, "/api/quiz/all"), Route::QuizAll));
    assert!(matches!(resolve_route(Method::Head, "/api/quiz/due"), Route::QuizDue));
}

#[test]
fn wrong_method_and_unknown_paths() {
    assert!(matches!(resolve_route(Method::Post, "/api/ping"), Route::MethodNotAllowed));
    assert!(matches!(resolve_route(Method::Get, "/api/tasks/t1"), Route::MethodNotAllowed));
    assert!(matches!(resolve_route(Method::Get, "/settings/profile"), Route::Fallback));
    assert!(matches!(resolve_route(Method::Put, "/api/tasks/a/b"), Route::Fallback));
    assert!(matches!(resolve_route(Method::Put, "/api/tasks/"), Route::Fallback));
    assert!(matches!(resolve_route(Method::Post, "/api/focus/runs//finish"), Route::Fallback));
}

#[test]
fn asset_paths() {
    assert_eq!(normalize_embedded_asset_path("/"), "index.html");
    assert_eq!(normalize_embedded_asset_path(""), "index.html");
    assert_eq!(normalize_embedded_asset_path("///"), "index.html");
    assert_eq!(normalize_embedded_asset_path("/assets/app.js"), "assets/app.js");
    assert_eq!(normalize_embedded_asset_path("/a/../b/./c//d"), "a/b/c/d");
    assert_eq!(normalize_embedded_asset_path("/./"), "");
}

#[test]
fn unmapped_path_serves_the_index() {
    assert!(matches!(resolve_route(Method::Get, "/calendar/week"), Route::Fallback));
    let path = normalize_embedded_asset_path("/calendar/week");
    let reply = asset_reply(&path, false, true);
    assert_eq!(reply.status, 200);
    assert_eq!(reply.body, AssetBody::Index);
    assert_eq!(reply.content_type, "text/html; charset=utf-8");
}

#[test]
fn asset_file_and_missing_bundle() {
    let reply = asset_reply("assets/site.css", true, true);
    assert_eq!(reply.status, 200);
    assert_eq!(reply.body, AssetBody::File);
    assert_eq!(reply.content_type, "text/css");
    let unknown = asset_reply("blob.unknownext", true, true);
    assert_eq!(unknown.content_type, "application/octet-stream");
    let missing = asset_reply("x", false, false);
    assert_eq!(missing.status, 404);
    assert_eq!(missing.body, AssetBody::Missing);
}

#[test]
fn blank_template_name_is_a_bad_request() {
    let e = prepare_new_template(template("", "", 25), "fresh".to_string(), "now".to_string()).unwrap_err();
    assert_eq!(e.kind, ErrorKind::BadRequest);
    assert_eq!(e.status_code(), 400);
    assert_eq!(e.message, "template.name 不能为空");
    let e2 = prepare_new_template(template("", "   ", 25), "fresh".to_string(), "now".to_string()).unwrap_err();
    assert_eq!(e2.status_code(), 400);
}

#[test]
fn non_positive_template_duration_is_a_bad_request() {
    let e = prepare_new_template(template("", "Read", 0), "fresh".to_string(), "now".to_string()).unwrap_err();
    assert_eq!(e.status_code(), 400);
    assert_eq!(e.message, "template.duration_minutes 必须大于 0");
}

#[test]
fn new_template_defaults() {
    let t = prepare_new_template(template(" ", "Read", 25), "fresh".to_string(), "now".to_string()).unwrap();
    assert_eq!(t.id, "fresh");
    assert_eq!(t.name, "Read");
    assert_eq!(t.timer_type, "pomodoro");
    assert_eq!(t.tags_json, "[]");
    assert_eq!(t.created_at, "now");
    assert_eq!(t.updated_at, "now");
    assert_eq!(t.color_token.as_deref(), Some("blue"));
    let kept = prepare_new_template(template("mine", "Read", 25), "fresh".to_string(), "now".to_string()).unwrap();
    assert_eq!(kept.id, "mine");
}

#[test]
fn template_update_takes_path_id() {
    let mut t = template("body-id", "Read", 30);
    t.created_at = "then".to_string();
    let u = prepare_template_update(t, "path-id".to_string(), "now".to_string()).unwrap();
    assert_eq!(u.id, "path-id");
    assert_eq!(u.created_at, "then");
    assert_eq!(u.updated_at, "now");
}

fn start_payload(source: &str, timer: &str, minutes: i32) -> StartFocusRunPayload {
    StartFocusRunPayload {
        source: source.to_string(),
        template_id: None,
        task_id: Some("t1".to_string()),
        timer_type: timer.to_string(),
        planned_minutes: minutes,
        date: None,
        tags_json: None,
        note: None,
    }
}

#[test]
fn focus_run_start() {
    let r = prepare_focus_run(start_payload("  web ", " pomodoro ", 25), "id1".to_string(), "now".to_string(), "2024-01-01".to_string())
        .unwrap();
    assert_eq!(r.source, "web");
    assert_eq!(r.timer_type, "pomodoro");
    assert_eq!(r.status, "running");
    assert_eq!(r.actual_seconds, 0);
    assert_eq!(r.date, "2024-01-01");
    assert_eq!(r.tags_json, "[]");
    assert_eq!(r.started_at, "now");
    assert!(r.ended_at.is_none());
    let e = prepare_focus_run(start_payload(" ", "pomodoro", 25), "id".to_string(), "n".to_string(), "d".to_string())
        .unwrap_err();
    assert_eq!(e.message, "source 不能为空");
    let e = prepare_focus_run(start_payload("web", "pomodoro", 0), "id".to_string(), "n".to_string(), "d".to_string())
        .unwrap_err();
    assert_eq!(e.message, "planned_minutes 必须大于 0");
    let e = prepare_focus_run(start_payload("web", "", 5), "id".to_string(), "n".to_string(), "d".to_string())
        .unwrap_err();
    assert_eq!(e.message, "timer_type 不能为空");
    assert_eq!(e.status_code(), 400);
}

#[test]
fn focus_run_finish() {
    let p = FinishFocusRunPayload {
        actual_seconds: -5,
        status: " Completed ".to_string(),
        ended_at: None,
        tags_json: None,
        note: None,
    };
    let plan = plan_finish_run(&p, "now".to_string()).unwrap();
    assert_eq!(plan.status, "completed");
    assert_eq!(plan.actual_seconds, 0);
    assert_eq!(plan.ended_at, "now");
    let bad = FinishFocusRunPayload { status: "paused".to_string(), ..p };
    let e = plan_finish_run(&bad, "now".to_string()).unwrap_err();
    assert_eq!(e.status_code(), 400);
    assert_eq!(e.message, "status 仅支持 completed 或 aborted");
}

#[test]
fn dimensions() {
    assert_eq!(normalize_focus_dimension(None), "tag");
    assert_eq!(normalize_focus_dimension(Some(" Template ")), "template");
    assert_eq!(normalize_focus_dimension(Some("TIMER_TYPE")), "timer_type");
    assert_eq!(normalize_focus_dimension(Some("subject")), "tag");
}

#[test]
fn write_then_publish() {
    let ok = after_write::<u32>(Ok(7), SyncAction::Tasks);
    assert_eq!(ok.result.ok(), Some(7));
    assert_eq!(ok.notify, Some(SyncAction::Tasks));
    let missing = after_write::<u32>(Err(StoreError::NotFound("Focus run not found".to_string())), SyncAction::FocusRuns);
    assert!(missing.notify.is_none());
    let e = missing.result.unwrap_err();
    assert_eq!(e.status_code(), 404);
    assert_eq!(e.message, "Focus run not found");
    let failed = store_error_response(StoreError::Failed("disk I/O error".to_string()));
    assert_eq!(failed.status_code(), 500);
}

#[test]
fn generated_ids() {
    assert_eq!(focus_id_from("focus-run", 1700000000123456), "focus-run-1700000000123456");
    assert_eq!(focus_id_from("x", -12), "x--12");
    assert!(gen_focus_id("focus-template").starts_with("focus-template-"));
    let u = uuid_short();
    assert!(!u.is_empty() && u.len() <= 16);
    assert!(u.chars().all(|c| c.is_ascii_hexdigit() && !c.is_ascii_uppercase()));
}

#[test]
fn unicode_blank_name_is_a_bad_request() {
    let e = prepare_new_template(template("", "\u{3000}\t", 25), "fresh".to_string(), "now".to_string()).unwrap_err();
    assert_eq!(e.status_code(), 400);
}
