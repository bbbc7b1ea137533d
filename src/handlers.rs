//! Decisions of the REST handlers: request validation, the translation of
//! errors into HTTP statuses, and the write-then-publish policy.
//!
//! A handler validates its input, performs one store write under the data
//! store's lock, releases the lock, and publishes a change notification only
//! when the write succeeded.
use vstd::prelude::*;
use crate::model::{FinishFocusRunPayload, FocusRun, FocusTemplate, StartFocusRunPayload};
use crate::routes::RouteSpec;
use crate::sync::SyncAction;
use crate::text::{hex, push_hex, push_signed_decimal, push_str, same_text, signed_decimal, trim_str, trimmed};

verus! {

/// The error taxonomy of the REST surface.
#[derive(PartialEq, Eq, Structural, Clone, Copy, Debug)]
pub enum ErrorKind {
    /// Missing or out-of-range request fields.
    BadRequest,
    /// Unknown id on update, delete or finish.
    NotFound,
    /// Any data-store failure.
    Internal,
}

pub open spec fn status_of(kind: ErrorKind) -> u16 {
    match kind {
        ErrorKind::BadRequest => 400,
        ErrorKind::NotFound => 404,
        ErrorKind::Internal => 500,
    }
}

/// An error answered with a status code and a plain-text message.
#[derive(Debug)]
pub struct ApiError {
    pub kind: ErrorKind,
    pub message: String,
}

impl ApiError {
    pub fn status_code(&self) -> (r: u16)
        ensures
            r == status_of(self.kind),
    {
        match self.kind {
            ErrorKind::BadRequest => 400,
            ErrorKind::NotFound => 404,
            ErrorKind::Internal => 500,
        }
    }
}

/// A failure reported by the data store.
#[derive(Debug)]
pub enum StoreError {
    /// The statement matched no row.
    NotFound(String),
    /// The statement itself failed.
    Failed(String),
}

/// Translates a store failure: a missing row is 404, anything else 500.
pub fn store_error_response(e: StoreError) -> (r: ApiError)
    ensures
        match e {
            StoreError::NotFound(m) => r.kind == ErrorKind::NotFound && r.message@ == m@,
            StoreError::Failed(m) => r.kind == ErrorKind::Internal && r.message@ == m@,
        },
{
    match e {
        StoreError::NotFound(m) => ApiError { kind: ErrorKind::NotFound, message: m },
        StoreError::Failed(m) => ApiError { kind: ErrorKind::Internal, message: m },
    }
}

/// The notification a mutation route publishes after a successful write.
pub open spec fn route_action(r: RouteSpec) -> Option<SyncAction> {
    match r {
        RouteSpec::CreateTask => Some(SyncAction::Tasks),
        RouteSpec::UpdateTask(_) => Some(SyncAction::Tasks),
        RouteSpec::DeleteTask(_) => Some(SyncAction::Tasks),
        RouteSpec::CreateTemplate => Some(SyncAction::FocusTemplates),
        RouteSpec::UpdateTemplate(_) => Some(SyncAction::FocusTemplates),
        RouteSpec::ArchiveTemplate(_) => Some(SyncAction::FocusTemplates),
        RouteSpec::StartRun => Some(SyncAction::FocusRuns),
        RouteSpec::FinishRun(_) => Some(SyncAction::FocusRuns),
        _ => None,
    }
}

/// A handler's answer and the notification to publish once the store lock is
/// released.
pub struct WriteReply<T> {
    pub result: Result<T, ApiError>,
    pub notify: Option<SyncAction>,
}

/// Completes a mutation: a successful write is answered with its value and
/// publishes `action` exactly once; a failed write is translated and
/// publishes nothing.
pub fn after_write<T>(outcome: Result<T, StoreError>, action: SyncAction) -> (r: WriteReply<T>)
    ensures
        outcome is Ok <==> r.result is Ok,
        outcome is Ok ==> r.result->Ok_0 == outcome->Ok_0 && r.notify == Some(action),
        outcome is Err ==> r.notify is None,
        outcome is Err ==> (match outcome->Err_0 {
            StoreError::NotFound(m) => r.result->Err_0.kind == ErrorKind::NotFound && r.result->Err_0.message@ == m@,
            StoreError::Failed(m) => r.result->Err_0.kind == ErrorKind::Internal && r.result->Err_0.message@ == m@,
        }),
{
    match outcome {
        Ok(v) => WriteReply { result: Ok(v), notify: Some(action) },
        Err(e) => WriteReply { result: Err(store_error_response(e)), notify: None },
    }
}

/// Whether a text field is blank: empty once white space is trimmed.
pub open spec fn blank(s: Seq<char>) -> bool {
    trimmed(s).len() == 0
}

pub fn is_blank(s: &str) -> (r: bool)
    ensures
        r == blank(s@),
{
    trim_str(s).unicode_len() == 0
}

/// `value`, or `default` when `value` is blank.
pub open spec fn or_default(value: Seq<char>, default: Seq<char>) -> Seq<char> {
    if blank(value) { default } else { value }
}

fn keep_or(value: String, default: &str) -> (r: String)
    ensures
        r@ == or_default(value@, default@),
{
    if is_blank(value.as_str()) { String::from_str(default) } else { value }
}

/// Why a template's fields are rejected, if they are.
pub open spec fn template_rejection(name: Seq<char>, duration_minutes: i32) -> Option<Seq<char>> {
    if blank(name) {
        Some("template.name 不能为空"@)
    } else if duration_minutes <= 0 {
        Some("template.duration_minutes 必须大于 0"@)
    } else {
        None
    }
}

fn check_template(t: &FocusTemplate) -> (r: Result<(), ApiError>)
    ensures
        template_rejection(t.name@, t.duration_minutes) is None <==> r is Ok,
        r is Err ==> r->Err_0.kind == ErrorKind::BadRequest
            && r->Err_0.message@ == template_rejection(t.name@, t.duration_minutes)->0,
{
    if is_blank(t.name.as_str()) {
        Err(ApiError { kind: ErrorKind::BadRequest, message: String::from_str("template.name 不能为空") })
    } else if t.duration_minutes <= 0 {
        Err(ApiError {
            kind: ErrorKind::BadRequest,
            message: String::from_str("template.duration_minutes 必须大于 0"),
        })
    } else {
        Ok(())
    }
}

/// The template stored by a create request, before it reaches the store.
pub open spec fn created_template_ok(t: FocusTemplate, fresh_id: Seq<char>, now: Seq<char>, r: FocusTemplate) -> bool {
    &&& r.id@ == or_default(t.id@, fresh_id)
    &&& r.name == t.name
    &&& r.timer_type@ == or_default(t.timer_type@, "pomodoro"@)
    &&& r.duration_minutes == t.duration_minutes
    &&& r.tags_json@ == or_default(t.tags_json@, "[]"@)
    &&& r.linked_task_title == t.linked_task_title
    &&& r.color_token == t.color_token
    &&& r.is_archived == t.is_archived
    &&& r.created_at@ == or_default(t.created_at@, now)
    &&& r.updated_at@ == now
}

/// Validates and completes a template sent to the create endpoint: a blank
/// name or a non-positive duration is a bad request; a blank id takes
/// `fresh_id`, a blank timer type becomes `pomodoro`, blank tags become `[]`,
/// a blank creation time and the update time become `now`.
pub fn prepare_new_template(t: FocusTemplate, fresh_id: String, now: String) -> (r: Result<FocusTemplate, ApiError>)
    ensures
        template_rejection(t.name@, t.duration_minutes) is None <==> r is Ok,
        r is Ok ==> created_template_ok(t, fresh_id@, now@, r->Ok_0),
        r is Err ==> r->Err_0.kind == ErrorKind::BadRequest
            && r->Err_0.message@ == template_rejection(t.name@, t.duration_minutes)->0,
{
    match check_template(&t) {
        Err(e) => Err(e),
        Ok(()) => {
            let created_at = if is_blank(t.created_at.as_str()) { now.clone() } else { t.created_at };
            Ok(FocusTemplate {
                id: keep_or(t.id, fresh_id.as_str()),
                name: t.name,
                timer_type: keep_or(t.timer_type, "pomodoro"),
                duration_minutes: t.duration_minutes,
                tags_json: keep_or(t.tags_json, "[]"),
                linked_task_title: t.linked_task_title,
                color_token: t.color_token,
                is_archived: t.is_archived,
                created_at,
                updated_at: now,
            })
        },
    }
}

/// The template stored by an update request for `id`.
pub open spec fn updated_template_ok(t: FocusTemplate, id: Seq<char>, now: Seq<char>, r: FocusTemplate) -> bool {
    &&& r.id@ == id
    &&& r.name == t.name
    &&& r.timer_type@ == or_default(t.timer_type@, "pomodoro"@)
    &&& r.duration_minutes == t.duration_minutes
    &&& r.tags_json@ == or_default(t.tags_json@, "[]"@)
    &&& r.linked_task_title == t.linked_task_title
    &&& r.color_token == t.color_token
    &&& r.is_archived == t.is_archived
    &&& r.created_at@ == or_default(t.created_at@, now)
    &&& r.updated_at@ == now
}

/// Validates and completes a template sent to the update endpoint of `id`;
/// the same rules as for creation, with the id taken from the path.
pub fn prepare_template_update(t: FocusTemplate, id: String, now: String) -> (r: Result<FocusTemplate, ApiError>)
    ensures
        template_rejection(t.name@, t.duration_minutes) is None <==> r is Ok,
        r is Ok ==> updated_template_ok(t, id@, now@, r->Ok_0),
        r is Err ==> r->Err_0.kind == ErrorKind::BadRequest
            && r->Err_0.message@ == template_rejection(t.name@, t.duration_minutes)->0,
{
    match check_template(&t) {
        Err(e) => Err(e),
        Ok(()) => {
            let created_at = if is_blank(t.created_at.as_str()) { now.clone() } else { t.created_at };
            Ok(FocusTemplate {
                id,
                name: t.name,
                timer_type: keep_or(t.timer_type, "pomodoro"),
                duration_minutes: t.duration_minutes,
                tags_json: keep_or(t.tags_json, "[]"),
                linked_task_title: t.linked_task_title,
                color_token: t.color_token,
                is_archived: t.is_archived,
                created_at,
                updated_at: now,
            })
        },
    }
}

/// Why a start request is rejected, if it is.
pub open spec fn run_rejection(p: StartFocusRunPayload) -> Option<Seq<char>> {
    if blank(p.source@) {
        Some("source 不能为空"@)
    } else if p.planned_minutes <= 0 {
        Some("planned_minutes 必须大于 0"@)
    } else if blank(p.timer_type@) {
        Some("timer_type 不能为空"@)
    } else {
        None
    }
}

pub open spec fn opt_view(o: Option<String>) -> Option<Seq<char>> {
    match o {
        Some(s) => Some(s@),
        None => None,
    }
}

/// The run recorded by a valid start request.
pub open spec fn started_run_ok(
    p: StartFocusRunPayload,
    id: Seq<char>,
    now: Seq<char>,
    today: Seq<char>,
    r: FocusRun,
) -> bool {
    &&& r.id@ == id
    &&& r.source@ == trimmed(p.source@)
    &&& r.template_id == p.template_id
    &&& r.task_id == p.task_id
    &&& r.timer_type@ == trimmed(p.timer_type@)
    &&& r.planned_minutes == p.planned_minutes
    &&& r.actual_seconds == 0
    &&& r.status@ == "running"@
    &&& r.started_at@ == now
    &&& r.ended_at is None
    &&& r.date@ == (match p.date { Some(d) => d@, None => today })
    &&& r.tags_json@ == (match p.tags_json { Some(t) => t@, None => "[]"@ })
    &&& r.note == p.note
    &&& r.created_at@ == now
    &&& r.updated_at@ == now
}

/// Validates a start request and builds the running focus run: source and
/// timer type must not be blank and are stored trimmed, the planned minutes
/// must be positive; the date defaults to `today` and the tags to `[]`.
pub fn prepare_focus_run(p: StartFocusRunPayload, id: String, now: String, today: String) -> (r: Result<FocusRun, ApiError>)
    ensures
        run_rejection(p) is None <==> r is Ok,
        r is Ok ==> started_run_ok(p, id@, now@, today@, r->Ok_0),
        r is Err ==> r->Err_0.kind == ErrorKind::BadRequest && r->Err_0.message@ == run_rejection(p)->0,
{
    if is_blank(p.source.as_str()) {
        return Err(ApiError { kind: ErrorKind::BadRequest, message: String::from_str("source 不能为空") });
    }
    if p.planned_minutes <= 0 {
        return Err(ApiError {
            kind: ErrorKind::BadRequest,
            message: String::from_str("planned_minutes 必须大于 0"),
        });
    }
    if is_blank(p.timer_type.as_str()) {
        return Err(ApiError { kind: ErrorKind::BadRequest, message: String::from_str("timer_type 不能为空") });
    }
    let source = String::from_str(trim_str(p.source.as_str()));
    let timer_type = String::from_str(trim_str(p.timer_type.as_str()));
    let date = match p.date {
        Some(d) => d,
        None => today,
    };
    let tags_json = match p.tags_json {
        Some(t) => t,
        None => String::from_str("[]"),
    };
    Ok(FocusRun {
        id,
        source,
        template_id: p.template_id,
        task_id: p.task_id,
        timer_type,
        planned_minutes: p.planned_minutes,
        actual_seconds: 0,
        status: String::from_str("running"),
        started_at: now.clone(),
        ended_at: None,
        date,
        tags_json,
        note: p.note,
        created_at: now.clone(),
        updated_at: now,
    })
}

/// What `str::to_lowercase` makes of a character sequence.
pub uninterp spec fn lowered(s: Seq<char>) -> Seq<char>;

/// Relies on `str::to_lowercase`: the Unicode lower-case mapping of each
/// character; an empty input stays empty.
#[verifier::external_body]
pub(crate) fn lowercase(s: &str) -> (r: String)
    ensures
        r@ == lowered(s@),
        s@.len() == 0 ==> r@.len() == 0,
{
    s.to_lowercase()
}

/// The update applied by a finish request.
#[derive(Debug)]
pub struct FinishPlan {
    /// Seconds focused, never negative.
    pub actual_seconds: i64,
    /// `completed` or `aborted`.
    pub status: String,
    pub ended_at: String,
}

/// The finishing status a request asks for, normalized.
pub open spec fn finish_status(raw: Seq<char>) -> Seq<char> {
    lowered(trimmed(raw))
}

/// Validates a finish request: the status, trimmed and lower-cased, must be
/// `completed` or `aborted`; negative seconds count as zero; the end time
/// defaults to `now`.
pub fn plan_finish_run(p: &FinishFocusRunPayload, now: String) -> (r: Result<FinishPlan, ApiError>)
    ensures
        r is Ok <==> (finish_status(p.status@) == "completed"@ || finish_status(p.status@) == "aborted"@),
        r is Ok ==> r->Ok_0.status@ == finish_status(p.status@)
            && r->Ok_0.actual_seconds == (if p.actual_seconds < 0 { 0 } else { p.actual_seconds })
            && r->Ok_0.ended_at@ == (match p.ended_at { Some(e) => e@, None => now@ }),
        r is Err ==> r->Err_0.kind == ErrorKind::BadRequest
            && r->Err_0.message@ == "status 仅支持 completed 或 aborted"@,
{
    let status = lowercase(trim_str(p.status.as_str()));
    if !same_text(status.as_str(), "completed") && !same_text(status.as_str(), "aborted") {
        return Err(ApiError {
            kind: ErrorKind::BadRequest,
            message: String::from_str("status 仅支持 completed 或 aborted"),
        });
    }
    let ended_at = match &p.ended_at {
        Some(e) => e.clone(),
        None => now,
    };
    let actual_seconds = if p.actual_seconds < 0 { 0 } else { p.actual_seconds };
    Ok(FinishPlan { actual_seconds, status, ended_at })
}

/// The grouping of focus statistics a request asks for.
pub open spec fn focus_dimension(raw: Option<Seq<char>>) -> Seq<char> {
    let d = lowered(trimmed(match raw { Some(s) => s, None => "tag"@ }));
    if d == "template"@ {
        "template"@
    } else if d == "timer_type"@ {
        "timer_type"@
    } else {
        "tag"@
    }
}

/// Normalizes the `dimension` query parameter to `tag`, `template` or
/// `timer_type`; anything unrecognized means `tag`.
pub fn normalize_focus_dimension(raw: Option<&str>) -> (r: String)
    ensures
        r@ == focus_dimension(match raw { Some(s) => Some(s@), None => None }),
{
    let d = match raw {
        Some(s) => lowercase(trim_str(s)),
        None => lowercase(trim_str("tag")),
    };
    if same_text(d.as_str(), "template") {
        String::from_str("template")
    } else if same_text(d.as_str(), "timer_type") {
        String::from_str("timer_type")
    } else {
        String::from_str("tag")
    }
}

/// A generated id: the prefix, a dash, and a timestamp in microseconds.
pub open spec fn focus_id(prefix: Seq<char>, micros: i64) -> Seq<char> {
    prefix + "-"@ + signed_decimal(micros as int)
}

pub fn focus_id_from(prefix: &str, micros: i64) -> (r: String)
    ensures
        r@ == focus_id(prefix@, micros),
{
    let mut out = String::from_str(prefix);
    push_str(&mut out, "-");
    push_signed_decimal(&mut out, micros);
    out
}

/// Relies on `chrono::Utc::now().timestamp_micros()`: the current time in
/// microseconds since the Unix epoch (nothing is known of its value).
#[verifier::external_body]
fn now_micros() -> (r: i64) {
    chrono::Utc::now().timestamp_micros()
}

/// A fresh id with the given prefix, from the current time.
pub fn gen_focus_id(prefix: &str) -> (r: String)
    ensures
        exists|t: i64| r@ == focus_id(prefix@, t),
{
    let t = now_micros();
    focus_id_from(prefix, t)
}

/// Relies on `chrono::Utc::now().to_rfc3339()`: the current time as an
/// RFC 3339 timestamp (nothing is known of its value).
#[verifier::external_body]
pub(crate) fn now_iso() -> (r: String) {
    chrono::Utc::now().to_rfc3339()
}

/// Relies on `SystemTime::now().duration_since(UNIX_EPOCH)`: nanoseconds
/// since the Unix epoch, zero for a clock set before it (nothing is known
/// of its value).
#[verifier::external_body]
fn unix_nanos() -> (r: u128) {
    std::time::SystemTime::now()
        .duration_since(std::time::UNIX_EPOCH)
        .unwrap_or_default()
        .as_nanos()
}

/// Relies on `BuildHasher::hash_one` of a freshly seeded `RandomState`: the
/// seed is random per instance, so nothing is known of the hash.
#[verifier::external_body]
fn seeded_hash(v: u128) -> (r: u64) {
    std::hash::BuildHasher::hash_one(&std::collections::hash_map::RandomState::new(), v)
}

/// A short random id: a random 64-bit number in lower-case hexadecimal.
pub fn uuid_short() -> (r: String)
    ensures
        exists|n: u64| r@ == #[trigger] hex(n as nat),
{
    let n = seeded_hash(unix_nanos());
    let mut out = String::new();
    push_hex(&mut out, n);
    out
}

/// A create request with a blank template name is a bad request (400), and
/// nothing is handed to the store: no template comes out to be written.
pub proof fn blank_template_name_is_rejected(t: FocusTemplate)
    requires
        blank(t.name@),
    ensures
        template_rejection(t.name@, t.duration_minutes) is Some,
        status_of(ErrorKind::BadRequest) == 400,
{
}

/// A successful task creation publishes the tasks notification, and a failed
/// one publishes nothing.
pub proof fn task_creation_notifies(m: crate::routes::Method, path: Seq<char>)
    requires
        crate::routes::route_spec(m, path) == RouteSpec::CreateTask,
    ensures
        route_action(crate::routes::route_spec(m, path)) == Some(SyncAction::Tasks),
        SyncAction::Tasks.spec_tag() == "SYNC_TASKS"@,
{
}

} // verus!
