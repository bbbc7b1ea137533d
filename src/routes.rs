//! The gateway's fixed route table and its static-asset fallback.
//!
//! A request's method and path select one endpoint; a path that names no
//! endpoint falls back to the embedded single-page-app bundle, which serves
//! the matching file or, failing that, the index document.
use vstd::prelude::*;
use crate::text::{contains_char, ends_with, is_prefix, is_suffix, same_text, starts_with};

verus! {

/// HTTP request methods, as far as routing tells them apart.
#[derive(PartialEq, Eq, Structural, Clone, Copy, Debug)]
pub enum Method {
    Get,
    Head,
    Post,
    Put,
    Delete,
    Other,
}

/// The endpoint a request reaches. Ids are the raw path segment.
#[derive(Debug)]
pub enum Route {
    Ping,
    Socket,
    ListTasks,
    CreateTask,
    UpdateTask(String),
    DeleteTask(String),
    ListTemplates,
    CreateTemplate,
    UpdateTemplate(String),
    ArchiveTemplate(String),
    StartRun,
    FinishRun(String),
    FocusStats,
    WeeklyStats,
    Resources,
    NotesTree,
    NotesFile,
    QuizAll,
    QuizDue,
    /// The path names an endpoint that does not take this method.
    MethodNotAllowed,
    /// No endpoint has this path: serve the embedded bundle.
    Fallback,
}

/// `Route` with its ids as character sequences.
pub ghost enum RouteSpec {
    Ping,
    Socket,
    ListTasks,
    CreateTask,
    UpdateTask(Seq<char>),
    DeleteTask(Seq<char>),
    ListTemplates,
    CreateTemplate,
    UpdateTemplate(Seq<char>),
    ArchiveTemplate(Seq<char>),
    StartRun,
    FinishRun(Seq<char>),
    FocusStats,
    WeeklyStats,
    Resources,
    NotesTree,
    NotesFile,
    QuizAll,
    QuizDue,
    MethodNotAllowed,
    Fallback,
}

impl View for Route {
    type V = RouteSpec;

    open spec fn view(&self) -> RouteSpec {
        match self {
            Route::Ping => RouteSpec::Ping,
            Route::Socket => RouteSpec::Socket,
            Route::ListTasks => RouteSpec::ListTasks,
            Route::CreateTask => RouteSpec::CreateTask,
            Route::UpdateTask(id) => RouteSpec::UpdateTask(id@),
            Route::DeleteTask(id) => RouteSpec::DeleteTask(id@),
            Route::ListTemplates => RouteSpec::ListTemplates,
            Route::CreateTemplate => RouteSpec::CreateTemplate,
            Route::UpdateTemplate(id) => RouteSpec::UpdateTemplate(id@),
            Route::ArchiveTemplate(id) => RouteSpec::ArchiveTemplate(id@),
            Route::StartRun => RouteSpec::StartRun,
            Route::FinishRun(id) => RouteSpec::FinishRun(id@),
            Route::FocusStats => RouteSpec::FocusStats,
            Route::WeeklyStats => RouteSpec::WeeklyStats,
            Route::Resources => RouteSpec::Resources,
            Route::NotesTree => RouteSpec::NotesTree,
            Route::NotesFile => RouteSpec::NotesFile,
            Route::QuizAll => RouteSpec::QuizAll,
            Route::QuizDue => RouteSpec::QuizDue,
            Route::MethodNotAllowed => RouteSpec::MethodNotAllowed,
            Route::Fallback => RouteSpec::Fallback,
        }
    }
}

/// A path parameter: one non-empty segment.
pub open spec fn is_segment(id: Seq<char>) -> bool {
    id.len() > 0 && !id.contains('/')
}

/// The id in `path` when it is `prefix` followed by one segment.
pub open spec fn id_after(path: Seq<char>, prefix: Seq<char>) -> Option<Seq<char>> {
    if is_prefix(prefix, path) && is_segment(path.subrange(prefix.len() as int, path.len() as int)) {
        Some(path.subrange(prefix.len() as int, path.len() as int))
    } else {
        None
    }
}

/// The id in `path` when it is `prefix`, one segment, then `suffix`.
pub open spec fn id_between(path: Seq<char>, prefix: Seq<char>, suffix: Seq<char>) -> Option<Seq<char>> {
    if prefix.len() + suffix.len() <= path.len() && is_prefix(prefix, path) && is_suffix(suffix, path)
        && is_segment(path.subrange(prefix.len() as int, path.len() - suffix.len())) {
        Some(path.subrange(prefix.len() as int, path.len() - suffix.len()))
    } else {
        None
    }
}

pub open spec fn is_get(m: Method) -> bool {
    m == Method::Get || m == Method::Head
}

pub open spec fn get_only(m: Method, r: RouteSpec) -> RouteSpec {
    if is_get(m) { r } else { RouteSpec::MethodNotAllowed }
}

/// The route table.
pub open spec fn route_spec(m: Method, path: Seq<char>) -> RouteSpec {
    if path == "/api/ping"@ {
        get_only(m, RouteSpec::Ping)
    } else if path == "/api/ws"@ {
        get_only(m, RouteSpec::Socket)
    } else if path == "/api/tasks"@ {
        if is_get(m) { RouteSpec::ListTasks }
        else if m == Method::Post { RouteSpec::CreateTask }
        else { RouteSpec::MethodNotAllowed }
    } else if id_after(path, "/api/tasks/"@) is Some {
        let id = id_after(path, "/api/tasks/"@)->0;
        if m == Method::Put { RouteSpec::UpdateTask(id) }
        else if m == Method::Delete { RouteSpec::DeleteTask(id) }
        else { RouteSpec::MethodNotAllowed }
    } else if path == "/api/focus/templates"@ {
        if is_get(m) { RouteSpec::ListTemplates }
        else if m == Method::Post { RouteSpec::CreateTemplate }
        else { RouteSpec::MethodNotAllowed }
    } else if id_after(path, "/api/focus/templates/"@) is Some {
        let id = id_after(path, "/api/focus/templates/"@)->0;
        if m == Method::Put { RouteSpec::UpdateTemplate(id) }
        else if m == Method::Delete { RouteSpec::ArchiveTemplate(id) }
        else { RouteSpec::MethodNotAllowed }
    } else if path == "/api/focus/runs/start"@ {
        if m == Method::Post { RouteSpec::StartRun } else { RouteSpec::MethodNotAllowed }
    } else if id_between(path, "/api/focus/runs/"@, "/finish"@) is Some {
        let id = id_between(path, "/api/focus/runs/"@, "/finish"@)->0;
        if m == Method::Post { RouteSpec::FinishRun(id) } else { RouteSpec::MethodNotAllowed }
    } else if path == "/api/focus/stats"@ {
        get_only(m, RouteSpec::FocusStats)
    } else if path == "/api/stats/weekly"@ {
        get_only(m, RouteSpec::WeeklyStats)
    } else if path == "/api/resources"@ {
        get_only(m, RouteSpec::Resources)
    } else if path == "/api/notes/tree"@ {
        get_only(m, RouteSpec::NotesTree)
    } else if path == "/api/notes/file"@ {
        get_only(m, RouteSpec::NotesFile)
    } else if path == "/api/quiz/all"@ {
        get_only(m, RouteSpec::QuizAll)
    } else if path == "/api/quiz/due"@ {
        get_only(m, RouteSpec::QuizDue)
    } else {
        RouteSpec::Fallback
    }
}

fn is_get_method(m: Method) -> (r: bool)
    ensures
        r == is_get(m),
{
    m == Method::Get || m == Method::Head
}

fn id_after_exec(path: &str, prefix: &str) -> (r: Option<String>)
    ensures
        r is Some <==> id_after(path@, prefix@) is Some,
        r is Some ==> r->0@ == id_after(path@, prefix@)->0,
{
    if !starts_with(path, prefix) {
        return None;
    }
    let n = path.unicode_len();
    let rest = path.substring_char(prefix.unicode_len(), n);
    if rest.unicode_len() == 0 || contains_char(rest, '/') {
        None
    } else {
        Some(String::from_str(rest))
    }
}

fn id_between_exec(path: &str, prefix: &str, suffix: &str) -> (r: Option<String>)
    ensures
        r is Some <==> id_between(path@, prefix@, suffix@) is Some,
        r is Some ==> r->0@ == id_between(path@, prefix@, suffix@)->0,
{
    let n = path.unicode_len();
    let p = prefix.unicode_len();
    let s = suffix.unicode_len();
    if p > n || s > n - p {
        return None;
    }
    if !starts_with(path, prefix) || !ends_with(path, suffix) {
        return None;
    }
    let mid = path.substring_char(p, n - s);
    if mid.unicode_len() == 0 || contains_char(mid, '/') {
        None
    } else {
        Some(String::from_str(mid))
    }
}

fn get_only_exec(m: Method, r: Route) -> (out: Route)
    ensures
        out@ == get_only(m, r@),
{
    if is_get_method(m) { r } else { Route::MethodNotAllowed }
}

/// Selects the endpoint for a request.
pub fn resolve_route(m: Method, path: &str) -> (r: Route)
    ensures
        r@ == route_spec(m, path@),
{
    if same_text(path, "/api/ping") {
        get_only_exec(m, Route::Ping)
    } else if same_text(path, "/api/ws") {
        get_only_exec(m, Route::Socket)
    } else if same_text(path, "/api/tasks") {
        if is_get_method(m) { Route::ListTasks }
        else if m == Method::Post { Route::CreateTask }
        else { Route::MethodNotAllowed }
    } else if let Some(id) = id_after_exec(path, "/api/tasks/") {
        if m == Method::Put { Route::UpdateTask(id) }
        else if m == Method::Delete { Route::DeleteTask(id) }
        else { Route::MethodNotAllowed }
    } else if same_text(path, "/api/focus/templates") {
        if is_get_method(m) { Route::ListTemplates }
        else if m == Method::Post { Route::CreateTemplate }
        else { Route::MethodNotAllowed }
    } else if let Some(id) = id_after_exec(path, "/api/focus/templates/") {
        if m == Method::Put { Route::UpdateTemplate(id) }
        else if m == Method::Delete { Route::ArchiveTemplate(id) }
        else { Route::MethodNotAllowed }
    } else if same_text(path, "/api/focus/runs/start") {
        if m == Method::Post { Route::StartRun } else { Route::MethodNotAllowed }
    } else if let Some(id) = id_between_exec(path, "/api/focus/runs/", "/finish") {
        if m == Method::Post { Route::FinishRun(id) } else { Route::MethodNotAllowed }
    } else if same_text(path, "/api/focus/stats") {
        get_only_exec(m, Route::FocusStats)
    } else if same_text(path, "/api/stats/weekly") {
        get_only_exec(m, Route::WeeklyStats)
    } else if same_text(path, "/api/resources") {
        get_only_exec(m, Route::Resources)
    } else if same_text(path, "/api/notes/tree") {
        get_only_exec(m, Route::NotesTree)
    } else if same_text(path, "/api/notes/file") {
        get_only_exec(m, Route::NotesFile)
    } else if same_text(path, "/api/quiz/all") {
        get_only_exec(m, Route::QuizAll)
    } else if same_text(path, "/api/quiz/due") {
        get_only_exec(m, Route::QuizDue)
    } else {
        Route::Fallback
    }
}

} // verus!
