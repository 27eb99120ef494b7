use vstd::prelude::*;
use crate::models::{Snap, SnapView, uuid_text};
use crate::state::{SnapAppState, SnapCreationError};
use crate::store::{holds_id, is_listing, valid_history, views};

verus! {

/// Status code of a successful listing.
pub const OK: u16 = 200;

/// Status code of a successful creation.
pub const CREATED: u16 = 201;

/// Status code of a request whose body could not be read as a creation.
pub const BAD_REQUEST: u16 = 400;

/// Status code of a request that no route matches.
pub const NOT_FOUND: u16 = 404;

/// Status code of a creation that failed inside the repository.
pub const INTERNAL_SERVER_ERROR: u16 = 500;

/// The status line text of `code`: its digits and canonical reason phrase.
pub uninterp spec fn status_text(code: u16) -> Seq<char>;

/// Relies on `http::StatusCode::from_u16` and its `Display`: the code followed
/// by its canonical reason phrase. `from_u16` accepts exactly 100 to 999.
#[verifier::external_body]
fn format_status(code: u16) -> (r: String)
    requires
        100 <= code <= 999,
    ensures
        r@ == status_text(code),
        code == 400 ==> r@ == "400 Bad Request"@,
        code == 500 ==> r@ == "500 Internal Server Error"@,
{
    match axum::http::StatusCode::from_u16(code) {
        Ok(status) => status.to_string(),
        Err(_) => String::new(),
    }
}

/// A problem description: a type URI, a title, the status line and a detail.
#[derive(Debug, Clone)]
pub struct ProblemResponse {
    pub uri: Option<String>,
    pub title: Option<String>,
    pub status: Option<String>,
    pub detail: Option<String>,
}

/// What a response tells of one snap.
#[derive(Debug, Clone)]
pub struct SnapInfo {
    pub id: String,
    pub message: String,
}

/// The answer to a creation request.
#[derive(Debug, Clone)]
pub enum PostReply {
    /// The snap was created; its identity and message.
    Created(SnapInfo),
    /// The request failed, with this status code and description.
    Problem(u16, ProblemResponse),
}

/// `o` holds a string whose text is `s`.
pub open spec fn holds_text(o: Option<String>, s: Seq<char>) -> bool {
    o matches Some(t) && t@ == s
}

/// `p` is a problem description with this status line, title and detail.
pub open spec fn describes(p: ProblemResponse, status: Seq<char>, title: Seq<char>, detail: Seq<char>) -> bool {
    &&& p.uri is None
    &&& holds_text(p.title, title)
    &&& holds_text(p.status, status)
    &&& holds_text(p.detail, detail)
}

/// The status line of a request whose body could not be read.
pub open spec fn bad_request_line() -> Seq<char> {
    "400 Bad Request"@
}

/// The status line of a creation that failed inside the repository.
pub open spec fn server_error_line() -> Seq<char> {
    "500 Internal Server Error"@
}

/// `info` tells the identity and message of snap `s`.
pub open spec fn informs(info: SnapInfo, s: SnapView) -> bool {
    info.id@ == uuid_text(s.id) && info.message@ == s.message
}

/// `infos` tells of the snaps `l`, one for one and in order.
pub open spec fn informs_all(infos: Seq<SnapInfo>, l: Seq<SnapView>) -> bool {
    infos.len() == l.len() && forall|k: int| 0 <= k < l.len() ==> informs(#[trigger] infos[k], l[k])
}

/// The title of a creation that failed inside the repository.
pub open spec fn creation_failed_title() -> Seq<char> {
    "Unknown error"@
}

/// The detail of a creation that failed inside the repository.
pub open spec fn creation_failed_detail() -> Seq<char> {
    "Can't determine error cause"@
}

/// The title of a request whose body could not be read.
pub open spec fn bad_json_title() -> Seq<char> {
    "Problem Parsing Json"@
}

/// What a response tells of `snap`.
pub fn snap_info(snap: &Snap) -> (r: SnapInfo)
    ensures
        informs(r, snap@),
{
    let message = snap.message().to_owned();
    SnapInfo { id: snap.id(), message }
}

/// What a response tells of each of `snaps`, in order.
pub fn snap_infos(snaps: &Vec<Snap>) -> (r: Vec<SnapInfo>)
    ensures
        informs_all(r@, views(snaps@)),
{
    let mut out: Vec<SnapInfo> = Vec::new();
    let mut i: usize = 0;
    while i < snaps.len()
        invariant
            i <= snaps@.len(),
            informs_all(out@, views(snaps@).subrange(0, i as int)),
        decreases snaps@.len() - i,
    {
        let info = snap_info(&snaps[i]);
        out.push(info);
        i = i + 1;
    }
    out
}

/// The problem description for a creation that failed inside the repository.
pub fn map_snap_creation_error(error: SnapCreationError) -> (r: (u16, ProblemResponse))
    ensures
        r.0 == INTERNAL_SERVER_ERROR,
        describes(r.1, server_error_line(), creation_failed_title(), creation_failed_detail()),
{
    let title = "Unknown error".to_owned();
    let detail = "Can't determine error cause".to_owned();
    proof {
        reveal_strlit("Unknown error");
        reveal_strlit("Can't determine error cause");
        reveal_strlit("500 Internal Server Error");
    }
    let response = ProblemResponse {
        uri: None,
        title: Some(title),
        status: Some(format_status(INTERNAL_SERVER_ERROR)),
        detail: Some(detail),
    };
    (INTERNAL_SERVER_ERROR, response)
}

/// The problem description for a request body that could not be read as a
/// creation; `reason` explains why.
pub fn handle_bad_json(reason: String) -> (r: (u16, ProblemResponse))
    ensures
        r.0 == BAD_REQUEST,
        describes(r.1, bad_request_line(), bad_json_title(), reason@),
{
    let title = "Problem Parsing Json".to_owned();
    proof {
        reveal_strlit("Problem Parsing Json");
        reveal_strlit("400 Bad Request");
    }
    let response = ProblemResponse {
        uri: None,
        title: Some(title),
        status: Some(format_status(BAD_REQUEST)),
        detail: Some(reason),
    };
    (BAD_REQUEST, response)
}

/// The answer to a creation request, given what the repository returned.
pub fn reply_to_creation(outcome: &Result<Snap, SnapCreationError>) -> (r: PostReply)
    ensures
        match *outcome {
            Ok(s) => r matches PostReply::Created(info) && informs(info, s@),
            Err(_) => r matches PostReply::Problem(code, p) && code == INTERNAL_SERVER_ERROR
                && describes(p, server_error_line(), creation_failed_title(), creation_failed_detail()),
        },
{
    match outcome {
        Ok(snap) => PostReply::Created(snap_info(snap)),
        Err(e) => {
            let (code, problem) = map_snap_creation_error(*e);
            PostReply::Problem(code, problem)
        },
    }
}

/// Handles a creation request whose body gave `payload`: the message, or why
/// no message could be read from it. Only a readable message reaches the
/// repository; an unreadable one leaves it untouched.
pub fn snaps_post_handler<S: SnapAppState>(repo: &mut S, payload: Result<String, String>) -> (r:
    PostReply)
    ensures
        match payload {
            Err(reason) => {
                &&& *final(repo) == *old(repo)
                &&& r matches PostReply::Problem(code, p)
                &&& code == BAD_REQUEST
                &&& describes(p, bad_request_line(), bad_json_title(), reason@)
            },
            Ok(message) => {
                &&& valid_history(final(repo).snaps())
                &&& old(repo).snaps().len() == 0 ==> r is Created
                &&& match r {
                    PostReply::Created(info) => {
                        let s = final(repo).snaps().last();
                        &&& final(repo).snaps() == old(repo).snaps().push(s)
                        &&& !holds_id(old(repo).snaps(), s.id)
                        &&& s.message == message@
                        &&& informs(info, s)
                    },
                    PostReply::Problem(code, p) => {
                        &&& final(repo).snaps() == old(repo).snaps()
                        &&& code == INTERNAL_SERVER_ERROR
                        &&& describes(
                            p,
                            server_error_line(),
                            creation_failed_title(),
                            creation_failed_detail(),
                        )
                    },
                }
            },
        },
{
    match payload {
        Ok(message) => {
            let outcome = repo.post(message.as_str());
            reply_to_creation(&outcome)
        },
        Err(reason) => {
            let (code, problem) = handle_bad_json(reason);
            PostReply::Problem(code, problem)
        },
    }
}

/// Handles a listing request: status OK and the snaps held, newest first.
pub fn snaps_get_handler<S: SnapAppState>(repo: &S) -> (r: (u16, Vec<SnapInfo>))
    ensures
        r.0 == OK,
        valid_history(repo.snaps()),
        exists|l: Seq<SnapView>| #[trigger] is_listing(repo.snaps(), l) && informs_all(r.1@, l),
{
    let snaps = repo.get();
    let infos = snap_infos(&snaps);
    (OK, infos)
}

} // verus!
