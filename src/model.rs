//! Records exchanged between the data store, the desktop UI and LAN clients.
use vstd::prelude::*;

verus! {

/// One day's journal entry, stored as a markdown file with a front-matter
/// header.
#[derive(Clone, Debug)]
pub struct DailyLog {
    pub id: String,
    pub date: String,
    pub title: String,
    pub content: String,
    pub mood: String,
    pub sync_rate: i32,
    pub tags: String,
    pub auto_generated: bool,
    pub created_at: String,
    pub updated_at: String,
}

/// A day's check-in / check-out record.
#[derive(Clone, Debug)]
pub struct FocusSession {
    pub id: String,
    pub date: String,
    pub checked_in_at: Option<String>,
    pub checked_out_at: Option<String>,
    pub total_focus_seconds: i64,
    pub active_task_id: Option<String>,
}

/// A reusable focus timer preset.
#[derive(Clone, Debug)]
pub struct FocusTemplate {
    pub id: String,
    pub name: String,
    pub timer_type: String,
    pub duration_minutes: i32,
    pub tags_json: String,
    pub linked_task_title: Option<String>,
    pub color_token: Option<String>,
    pub is_archived: i32,
    pub created_at: String,
    pub updated_at: String,
}

/// One run of a focus timer.
#[derive(Clone, Debug)]
pub struct FocusRun {
    pub id: String,
    pub source: String,
    pub template_id: Option<String>,
    pub task_id: Option<String>,
    pub timer_type: String,
    pub planned_minutes: i32,
    pub actual_seconds: i64,
    pub status: String,
    pub started_at: String,
    pub ended_at: Option<String>,
    pub date: String,
    pub tags_json: String,
    pub note: Option<String>,
    pub created_at: String,
    pub updated_at: String,
}

/// Request body that starts a focus run.
#[derive(Clone, Debug)]
pub struct StartFocusRunPayload {
    pub source: String,
    pub template_id: Option<String>,
    pub task_id: Option<String>,
    pub timer_type: String,
    pub planned_minutes: i32,
    pub date: Option<String>,
    pub tags_json: Option<String>,
    pub note: Option<String>,
}

/// Request body that finishes a focus run.
#[derive(Clone, Debug)]
pub struct FinishFocusRunPayload {
    pub actual_seconds: i64,
    pub status: String,
    pub ended_at: Option<String>,
    pub tags_json: Option<String>,
    pub note: Option<String>,
}

/// Metadata of an online video.
#[derive(Clone, Debug)]
pub struct BilibiliMetadata {
    pub bvid: String,
    pub title: String,
    pub pic: String,
    pub owner_name: String,
    pub duration: i64,
}

/// A saved video.
#[derive(Clone, Debug)]
pub struct VideoBookmark {
    pub id: String,
    pub bvid: String,
    pub title: String,
    pub pic: String,
    pub owner_name: String,
    pub duration: i64,
    pub created_at: String,
}

/// A conversation with the study assistant.
#[derive(Clone, Debug)]
pub struct AiSession {
    pub id: String,
    pub title: String,
    pub created_at: String,
    pub updated_at: String,
}

/// One message of an assistant conversation.
#[derive(Clone, Debug)]
pub struct AiMessage {
    pub id: String,
    pub session_id: String,
    pub role: String,
    pub content: String,
    pub created_at: String,
}

/// A file kept in the resource library.
#[derive(Clone, Debug)]
pub struct Resource {
    pub id: String,
    pub name: String,
    pub path: String,
    pub file_type: String,
    pub subject: String,
    pub size_bytes: i64,
    pub created_at: String,
}

} // verus!
