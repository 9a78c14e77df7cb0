//! The route handlers: what a request asks of the store, and what response
//! the store's answer turns into.

use vstd::prelude::*;
use vstd::string::StrSliceExecFns;
use crate::assets::{blob_view, media_type_for, media_type_of, MediaType};
use crate::decimal::{parse_i64, parse_i64_spec};
use crate::render::{index_html, render_index};
use crate::task::{title_is_valid, valid_title, views, Task, TaskView};
use crate::text::{begins_with, chars_of, reads};

verus! {

/// The method of a request.
#[derive(Clone, Copy, Debug, PartialEq, Eq, Structural)]
pub enum Method {
    Get,
    Post,
    Patch,
    Delete,
    /// Any method that no route takes.
    Other,
}

/// The method that a name stands for; names are upper case.
pub open spec fn method_named(name: Seq<char>) -> Method {
    if name == "GET"@ {
        Method::Get
    } else if name == "POST"@ {
        Method::Post
    } else if name == "PATCH"@ {
        Method::Patch
    } else if name == "DELETE"@ {
        Method::Delete
    } else {
        Method::Other
    }
}

impl Method {
    /// The method that `name` stands for.
    pub fn from_name(name: &str) -> (r: Method)
        ensures
            r == method_named(name@),
    {
        let chars = chars_of(name);
        if reads(&chars, "GET") {
            Method::Get
        } else if reads(&chars, "POST") {
            Method::Post
        } else if reads(&chars, "PATCH") {
            Method::Patch
        } else if reads(&chars, "DELETE") {
            Method::Delete
        } else {
            Method::Other
        }
    }
}

/// A response, as far as the service decides it.
#[derive(Debug, PartialEq, Eq)]
pub enum Response {
    /// 200 with an HTML page as the body.
    Page { html: String },
    /// 302 with the index as the location.
    SeeIndex,
    /// 204 without a body.
    NoContent,
    /// 200 with a static asset as the body.
    File { media: MediaType, bytes: Vec<u8> },
    /// 400 without a body.
    BadRequest,
    /// 404 without a body.
    NotFound,
    /// 500 without a body.
    ServerError,
}

/// The mathematical value of a [`Response`].
pub enum ResponseView {
    Page { html: Seq<char> },
    SeeIndex,
    NoContent,
    File { media: MediaType, bytes: Seq<u8> },
    BadRequest,
    NotFound,
    ServerError,
}

impl ResponseView {
    /// The status code of the response.
    pub open spec fn status(self) -> u16 {
        match self {
            ResponseView::Page { .. } => 200,
            ResponseView::SeeIndex => 302,
            ResponseView::NoContent => 204,
            ResponseView::File { .. } => 200,
            ResponseView::BadRequest => 400,
            ResponseView::NotFound => 404,
            ResponseView::ServerError => 500,
        }
    }

    /// The media type of the body, for a response that has one.
    pub open spec fn media(self) -> Option<MediaType> {
        match self {
            ResponseView::Page { .. } => Some(MediaType::Html),
            ResponseView::File { media, .. } => Some(media),
            _ => None,
        }
    }
}

impl View for Response {
    type V = ResponseView;

    open spec fn view(&self) -> ResponseView {
        match self {
            Response::Page { html } => ResponseView::Page { html: html@ },
            Response::SeeIndex => ResponseView::SeeIndex,
            Response::NoContent => ResponseView::NoContent,
            Response::File { media, bytes } => ResponseView::File { media: *media, bytes: bytes@ },
            Response::BadRequest => ResponseView::BadRequest,
            Response::NotFound => ResponseView::NotFound,
            Response::ServerError => ResponseView::ServerError,
        }
    }
}

impl Response {
    /// The status code of the response.
    pub fn status(&self) -> (r: u16)
        ensures
            r == self@.status(),
    {
        match self {
            Response::Page { .. } => 200,
            Response::SeeIndex => 302,
            Response::NoContent => 204,
            Response::File { .. } => 200,
            Response::BadRequest => 400,
            Response::NotFound => 404,
            Response::ServerError => 500,
        }
    }

    /// The media type of the body, for a response that has one.
    pub fn media(&self) -> (r: Option<MediaType>)
        ensures
            r == self@.media(),
    {
        match self {
            Response::Page { .. } => Some(MediaType::Html),
            Response::File { media, .. } => Some(*media),
            _ => None,
        }
    }

    /// The value of the `Location` header: the index, for the one response
    /// that redirects.
    pub fn location(&self) -> (r: Option<&'static str>)
        ensures
            r is Some <==> self@ is SeeIndex,
            r is Some ==> r->0@ == "/"@,
    {
        match self {
            Response::SeeIndex => Some("/"),
            _ => None,
        }
    }
}

/// What a request asks of the stores behind the service.
#[derive(Debug, PartialEq, Eq)]
pub enum Query {
    /// All tasks, in listing order.
    List,
    /// A new task with this title.
    Create { title: String },
    /// The task with this identifier, marked as done.
    MarkDone { id: i64 },
    /// The task with this identifier, deleted.
    Delete { id: i64 },
    /// The static asset at this path.
    Asset { path: String },
}

/// The mathematical value of a [`Query`].
pub enum QueryView {
    List,
    Create { title: Seq<char> },
    MarkDone { id: int },
    Delete { id: int },
    Asset { path: Seq<char> },
}

impl View for Query {
    type V = QueryView;

    open spec fn view(&self) -> QueryView {
        match self {
            Query::List => QueryView::List,
            Query::Create { title } => QueryView::Create { title: title@ },
            Query::MarkDone { id } => QueryView::MarkDone { id: *id as int },
            Query::Delete { id } => QueryView::Delete { id: *id as int },
            Query::Asset { path } => QueryView::Asset { path: path@ },
        }
    }
}

/// What is to be done about a request.
#[derive(Debug, PartialEq, Eq)]
pub enum Plan {
    /// Put the query to the store and answer with what [`respond`] makes of
    /// the outcome.
    Ask { query: Query },
    /// Answer at once, without going to the store.
    Respond { response: Response },
}

/// The mathematical value of a [`Plan`].
pub enum PlanView {
    Ask { query: QueryView },
    Respond { response: ResponseView },
}

impl View for Plan {
    type V = PlanView;

    open spec fn view(&self) -> PlanView {
        match self {
            Plan::Ask { query } => PlanView::Ask { query: query@ },
            Plan::Respond { response } => PlanView::Respond { response: response@ },
        }
    }
}

/// What came back from the store.
#[derive(Debug, PartialEq, Eq)]
pub enum Outcome {
    /// The tasks, in listing order.
    Tasks { tasks: Vec<Task> },
    /// The identifier of the task that was created.
    Created { id: i64 },
    /// The number of rows that a change matched.
    Affected { rows: u64 },
    /// The asset that was looked up, if there is one.
    Blob { bytes: Option<Vec<u8>> },
    /// The store failed.
    Failed,
}

/// The mathematical value of an [`Outcome`].
pub enum OutcomeView {
    Tasks { tasks: Seq<TaskView> },
    Created { id: int },
    Affected { rows: nat },
    Blob { bytes: Option<Seq<u8>> },
    Failed,
}

impl View for Outcome {
    type V = OutcomeView;

    open spec fn view(&self) -> OutcomeView {
        match self {
            Outcome::Tasks { tasks } => OutcomeView::Tasks { tasks: views(tasks@) },
            Outcome::Created { id } => OutcomeView::Created { id: *id as int },
            Outcome::Affected { rows } => OutcomeView::Affected { rows: *rows as nat },
            Outcome::Blob { bytes } => OutcomeView::Blob { bytes: blob_view(*bytes) },
            Outcome::Failed => OutcomeView::Failed,
        }
    }
}

/// The path of the index page.
pub open spec fn index_path() -> Seq<char> {
    "/"@
}

/// The path under which tasks are created.
pub open spec fn tasks_path() -> Seq<char> {
    "/tasks"@
}

/// What stands before a task's identifier in the path of that task.
pub open spec fn task_prefix() -> Seq<char> {
    "/tasks/"@
}

/// What stands before an asset's path in the path of a request for it.
pub open spec fn assets_prefix() -> Seq<char> {
    "/assets/"@
}

/// The task that a path names: the path is the task prefix followed by the
/// decimal literal of a 64-bit identifier.
pub open spec fn task_id_of(path: Seq<char>) -> Option<i64> {
    if task_prefix().is_prefix_of(path) {
        parse_i64_spec(path.skip(task_prefix().len() as int))
    } else {
        None
    }
}

/// The value of a title that may be missing.
pub open spec fn title_view(title: Option<&str>) -> Option<Seq<char>> {
    match title {
        Some(t) => Some(t@),
        None => None,
    }
}

/// The route table: what is to be done about a request with this method and
/// path, and with this `title` field in its form, if it has one.
pub open spec fn plan_spec(method: Method, path: Seq<char>, title: Option<Seq<char>>) -> PlanView {
    match method {
        Method::Get => if path == index_path() {
            PlanView::Ask { query: QueryView::List }
        } else if assets_prefix().is_prefix_of(path) {
            PlanView::Ask {
                query: QueryView::Asset { path: path.skip(assets_prefix().len() as int) },
            }
        } else {
            PlanView::Respond { response: ResponseView::NotFound }
        },
        Method::Post => if path == tasks_path() {
            match title {
                Some(t) => if valid_title(t) {
                    PlanView::Ask { query: QueryView::Create { title: t } }
                } else {
                    PlanView::Respond { response: ResponseView::BadRequest }
                },
                None => PlanView::Respond { response: ResponseView::BadRequest },
            }
        } else {
            PlanView::Respond { response: ResponseView::NotFound }
        },
        Method::Patch => match task_id_of(path) {
            Some(id) => PlanView::Ask { query: QueryView::MarkDone { id: id as int } },
            None => PlanView::Respond { response: ResponseView::NotFound },
        },
        Method::Delete => match task_id_of(path) {
            Some(id) => PlanView::Ask { query: QueryView::Delete { id: id as int } },
            None => PlanView::Respond { response: ResponseView::NotFound },
        },
        Method::Other => PlanView::Respond { response: ResponseView::NotFound },
    }
}

/// What the answer to `query` is once the store has come back with
/// `outcome`. An outcome that does not belong to the query is a fault of the
/// server.
pub open spec fn respond_spec(query: QueryView, outcome: OutcomeView) -> ResponseView {
    match (query, outcome) {
        (QueryView::List, OutcomeView::Tasks { tasks }) => ResponseView::Page {
            html: index_html(tasks),
        },
        (QueryView::Create { .. }, OutcomeView::Created { .. }) => ResponseView::SeeIndex,
        (QueryView::MarkDone { .. }, OutcomeView::Affected { rows }) => if rows > 0 {
            ResponseView::NoContent
        } else {
            ResponseView::NotFound
        },
        (QueryView::Delete { .. }, OutcomeView::Affected { rows }) => if rows > 0 {
            ResponseView::NoContent
        } else {
            ResponseView::NotFound
        },
        (QueryView::Asset { path }, OutcomeView::Blob { bytes: Some(bytes) }) => ResponseView::File {
            media: media_type_of(path),
            bytes,
        },
        (QueryView::Asset { .. }, OutcomeView::Blob { bytes: None }) => ResponseView::NotFound,
        _ => ResponseView::ServerError,
    }
}

/// The task that `path` names, if it names one.
fn task_id_from(path: &str) -> (r: Option<i64>)
    ensures
        r == task_id_of(path@),
{
    let chars = chars_of(path);
    let prefix = chars_of("/tasks/");
    if begins_with(&chars, &prefix) {
        parse_i64(path.substring_char(prefix.len(), chars.len()))
    } else {
        None
    }
}

/// Decides what is to be done about a request.
///
/// A title that is missing or empty is refused here, before anything reaches
/// the store; a path that names no task, because its identifier is not a
/// number, is answered like one that names a task that does not exist.
pub fn plan(method: Method, path: &str, title: Option<&str>) -> (r: Plan)
    ensures
        r@ == plan_spec(method, path@, title_view(title)),
{
    match method {
        Method::Get => {
            let chars = chars_of(path);
            let prefix = chars_of("/assets/");
            if reads(&chars, "/") {
                Plan::Ask { query: Query::List }
            } else if begins_with(&chars, &prefix) {
                let rest = path.substring_char(prefix.len(), chars.len());
                Plan::Ask { query: Query::Asset { path: rest.to_owned() } }
            } else {
                Plan::Respond { response: Response::NotFound }
            }
        },
        Method::Post => {
            let chars = chars_of(path);
            if reads(&chars, "/tasks") {
                match title {
                    Some(t) => if title_is_valid(t) {
                        Plan::Ask { query: Query::Create { title: t.to_owned() } }
                    } else {
                        Plan::Respond { response: Response::BadRequest }
                    },
                    None => Plan::Respond { response: Response::BadRequest },
                }
            } else {
                Plan::Respond { response: Response::NotFound }
            }
        },
        Method::Patch => match task_id_from(path) {
            Some(id) => Plan::Ask { query: Query::MarkDone { id } },
            None => Plan::Respond { response: Response::NotFound },
        },
        Method::Delete => match task_id_from(path) {
            Some(id) => Plan::Ask { query: Query::Delete { id } },
            None => Plan::Respond { response: Response::NotFound },
        },
        Method::Other => Plan::Respond { response: Response::NotFound },
    }
}

/// Turns what came back from the store into the response to `query`.
pub fn respond(query: &Query, outcome: Outcome) -> (r: Response)
    ensures
        r@ == respond_spec(query@, outcome@),
{
    match outcome {
        Outcome::Tasks { tasks } => match query {
            Query::List => Response::Page { html: render_index(&tasks) },
            _ => Response::ServerError,
        },
        Outcome::Created { .. } => match query {
            Query::Create { .. } => Response::SeeIndex,
            _ => Response::ServerError,
        },
        Outcome::Affected { rows } => match query {
            Query::MarkDone { .. } | Query::Delete { .. } => if rows > 0 {
                Response::NoContent
            } else {
                Response::NotFound
            },
            _ => Response::ServerError,
        },
        Outcome::Blob { bytes } => match query {
            Query::Asset { path } => match bytes {
                Some(bytes) => Response::File { media: media_type_for(path.as_str()), bytes },
                None => Response::NotFound,
            },
            _ => Response::ServerError,
        },
        Outcome::Failed => Response::ServerError,
    }
}

} // verus!
