//! The REST API: its documents, its paging, and what each endpoint decides.
//!
//! An endpoint is a chain of steps. Each step takes what was read or stored and
//! says what to look up or store next, or what to answer. Success is answered
//! with `{ "ok": true, "data": .. }`, failure with a problem document.
//!
//! * Domains: `GET|POST /domains`, `GET|PATCH|DELETE /domains/{domain_id}`
//! * Mailboxes: `GET|POST /mailboxes`, `GET|PATCH|DELETE /mailboxes/{mailbox_id}`
//! * Sending: `POST /mail`
//! * Messages: `GET /mailboxes/{mailbox_id}/messages`, `../inbox`, `../sent`,
//!   `GET|DELETE /messages/{message_id}`
//! * Services: `GET /services`, `POST /services/{service}/start`, `../stop`,
//!   `POST /services/mode`
pub mod control;
pub mod domains;
pub mod mailboxes;
pub mod messages;
pub mod sending;

use vstd::prelude::*;
use crate::text;
use crate::text::joined;
pub use self::control::{
    HealthInfo, NewMode, controlled_service, health, list_services, service_answer,
    wanted_mode,
};
pub use self::domains::{
    DomainCreation, DomainDTO, DomainDTOView, NewDomain, PatchDomain, create_domain,
    delete_domain, get_domain, list_domains, patch_domain,
};
pub use self::mailboxes::{
    MailboxCreation, MailboxDTO, MailboxDTOView, MailboxUpdate, NewMailbox, PatchMailbox,
    create_mailbox, delete_mailbox, get_mailbox, list_mailboxes, patch_mailbox,
};
pub use self::messages::{
    DeletionStep, ListMessagesQuery, MessageDTO, MessageDTOView, MessageDeletion,
    MessageDirection, MessageLink, MessageListing, delete_message, get_message,
    list_mailbox_inbox, list_mailbox_messages, list_mailbox_sent, load_mailbox_messages,
};
pub use self::sending::{
    DATE_LIMIT, SendEmail, SendResult, Sending, recipients, send_email, send_with,
};

verus! {

// ---------------------------------------------------------------------------
// Answers
// ---------------------------------------------------------------------------

/// What is told of a failure.
#[derive(Debug, Clone)]
pub struct ApiProblem {
    pub status: u16,
    /// The sort of problem; it is written as `type`.
    pub kind: String,
    pub detail: Option<String>,
}

/// What an [`ApiProblem`] holds.
#[verifier::ext_equal]
pub struct ApiProblemView {
    pub status: u16,
    pub kind: Seq<char>,
    pub detail: Option<Seq<char>>,
}

impl View for ApiProblem {
    type V = ApiProblemView;

    open spec fn view(&self) -> ApiProblemView {
        ApiProblemView {
            status: self.status,
            kind: self.kind@,
            detail: text::view_of(self.detail),
        }
    }
}

impl ApiProblem {
    /// The request cannot be served as it stands.
    pub fn bad_request(msg: &str) -> (out: ApiProblem)
        ensures
            out@ == (ApiProblemView { status: 400, kind: "bad request"@, detail: Some(msg@) }),
    {
        ApiProblem { status: 400, kind: "bad request".to_owned(), detail: Some(msg.to_owned()) }
    }

    /// What was asked for is not there.
    pub fn not_found(msg: &str) -> (out: ApiProblem)
        ensures
            out@ == (ApiProblemView { status: 404, kind: "not_found"@, detail: Some(msg@) }),
    {
        ApiProblem { status: 404, kind: "not_found".to_owned(), detail: Some(msg.to_owned()) }
    }

    /// The body of the request is not valid.
    pub fn validation_error(detail: &str) -> (out: ApiProblem)
        ensures
            out@ == (ApiProblemView {
                status: 422,
                kind: "validation_error"@,
                detail: Some(detail@),
            }),
    {
        ApiProblem {
            status: 422,
            kind: "validation_error".to_owned(),
            detail: Some(detail.to_owned()),
        }
    }

    /// The caller is not known.
    pub fn unauthorized() -> (out: ApiProblem)
        ensures
            out@ == (ApiProblemView { status: 401, kind: "unauthorized"@, detail: None }),
    {
        ApiProblem { status: 401, kind: "unauthorized".to_owned(), detail: None }
    }

    /// The caller may not do this.
    pub fn forbidden() -> (out: ApiProblem)
        ensures
            out@ == (ApiProblemView { status: 403, kind: "forbidden"@, detail: None }),
    {
        ApiProblem { status: 403, kind: "forbidden".to_owned(), detail: None }
    }

    /// The request contradicts what is stored.
    pub fn conflict(msg: &str) -> (out: ApiProblem)
        ensures
            out@ == (ApiProblemView { status: 409, kind: "conflict"@, detail: Some(msg@) }),
    {
        ApiProblem { status: 409, kind: "conflict".to_owned(), detail: Some(msg.to_owned()) }
    }

    /// Something failed on this side.
    pub fn server_error(msg: &str) -> (out: ApiProblem)
        ensures
            out@ == (ApiProblemView { status: 500, kind: "server_error"@, detail: Some(msg@) }),
    {
        ApiProblem { status: 500, kind: "server_error".to_owned(), detail: Some(msg.to_owned()) }
    }
}

/// A failed request: the status of the response, and the document in it.
#[derive(Debug, Clone)]
pub struct Failure {
    pub status: u16,
    pub problem: ApiProblem,
}

/// What a [`Failure`] holds.
#[verifier::ext_equal]
pub struct FailureView {
    pub status: u16,
    pub problem: ApiProblemView,
}

impl View for Failure {
    type V = FailureView;

    open spec fn view(&self) -> FailureView {
        FailureView { status: self.status, problem: self.problem@ }
    }
}

impl FailureView {
    /// The response whose status is the one that its document names.
    pub open spec fn of(status: u16, kind: Seq<char>, detail: Seq<char>) -> FailureView {
        FailureView { status, problem: ApiProblemView { status, kind, detail: Some(detail) } }
    }

    /// The answer to a bad request.
    pub open spec fn bad(detail: Seq<char>) -> FailureView {
        FailureView::of(400, "bad request"@, detail)
    }

    /// The answer where something is not there.
    pub open spec fn absent(detail: Seq<char>) -> FailureView {
        FailureView::of(404, "not_found"@, detail)
    }

    /// The answer where something contradicts what is stored.
    pub open spec fn conflict(detail: Seq<char>) -> FailureView {
        FailureView::of(409, "conflict"@, detail)
    }

    /// The answer where the store failed with `e`.
    pub open spec fn server(e: Seq<char>) -> FailureView {
        FailureView::of(500, "server_error"@, e)
    }

    /// The answer to a body that cannot be read: a bad request, told as a
    /// validation error.
    pub open spec fn unreadable() -> FailureView {
        FailureView {
            status: 400,
            problem: ApiProblemView {
                status: 422,
                kind: "validation_error"@,
                detail: Some("Failed to parse request body"@),
            },
        }
    }
}

impl Failure {
    /// The response whose status is the one that `problem` names.
    pub fn of(problem: ApiProblem) -> (out: Failure)
        ensures
            out@ == (FailureView { status: problem.status, problem: problem@ }),
    {
        Failure { status: problem.status, problem }
    }

    pub(crate) fn bad(detail: &str) -> (out: Failure)
        ensures
            out@ == FailureView::bad(detail@),
    {
        Failure::of(ApiProblem::bad_request(detail))
    }

    pub(crate) fn server(e: &str) -> (out: Failure)
        ensures
            out@ == FailureView::server(e@),
    {
        Failure::of(ApiProblem::server_error(e))
    }

    pub(crate) fn unreadable() -> (out: Failure)
        ensures
            out@ == FailureView::unreadable(),
    {
        Failure {
            status: 400,
            problem: ApiProblem::validation_error("Failed to parse request body"),
        }
    }
}

/// A successful answer.
#[derive(Debug, Clone)]
pub struct ApiResponse<T> {
    pub ok: bool,
    pub data: T,
}

impl<T> ApiResponse<T> {
    /// The answer that carries `data`.
    pub fn ok(data: T) -> (out: ApiResponse<T>)
        ensures
            out == (ApiResponse { ok: true, data }),
    {
        ApiResponse { ok: true, data }
    }
}

// ---------------------------------------------------------------------------
// Paging
// ---------------------------------------------------------------------------

/// The items on a page where the request does not say.
pub const DEFAULT_PAGE_LIMIT: usize = 50;

/// The most items on a page.
pub const MAX_PAGE_LIMIT: usize = 200;

/// The greatest number of items that can be skipped.
pub const MAX_OFFSET: u64 = 0x7fff_ffff_ffff_ffff;

/// One page of a list.
#[derive(Debug, Clone)]
pub struct Page<T> {
    pub items: Vec<T>,
    pub limit: usize,
    pub offset: usize,
    /// Where the next page begins; `None` on the last page.
    pub next_offset: Option<usize>,
}

/// The rows from `offset` on, at most `limit` of them.
pub open spec fn window<T>(rows: Seq<T>, limit: int, offset: int) -> Seq<T> {
    if offset >= rows.len() {
        Seq::empty()
    } else if offset + limit >= rows.len() {
        rows.subrange(offset, rows.len() as int)
    } else {
        rows.subrange(offset, offset + limit)
    }
}

/// Where the page after that one begins.
pub open spec fn next_page(len: int, limit: int, offset: int) -> Option<int> {
    if offset + limit < len {
        Some(offset + limit)
    } else {
        None
    }
}

/// The number in an option.
pub open spec fn as_int(n: Option<usize>) -> Option<int> {
    match n {
        Some(n) => Some(n as int),
        None => None,
    }
}

impl<T> Page<T> {
    /// This is the page of `rows` with that limit and offset.
    pub open spec fn is_page(self, len: int, limit: int, offset: int) -> bool {
        &&& self.limit == limit
        &&& self.offset == offset
        &&& as_int(self.next_offset) == next_page(len, limit, offset)
    }

    /// The page of `rows` that begins at `offset`.
    pub fn from_all(rows: Vec<T>, limit: usize, offset: usize) -> (out: Page<T>)
        ensures
            out.items@ == window(rows@, limit as int, offset as int),
            out.is_page(rows@.len() as int, limit as int, offset as int),
    {
        let len: usize = rows.len();
        let mut rows = rows;
        if offset >= len {
            return Page { items: Vec::new(), limit, offset, next_offset: None };
        }
        let mut items = rows.split_off(offset);
        if len - offset > limit {
            items.truncate(limit);
            Page { items, limit, offset, next_offset: Some(offset + limit) }
        } else {
            Page { items, limit, offset, next_offset: None }
        }
    }
}

/// The size of the page that a request asks for: between one and the cap, and
/// the default where it does not say.
pub open spec fn page_limit(limit: Option<usize>) -> usize {
    match limit {
        Some(n) => if n < 1 {
            1
        } else if n > MAX_PAGE_LIMIT {
            MAX_PAGE_LIMIT
        } else {
            n
        },
        None => DEFAULT_PAGE_LIMIT,
    }
}

/// The items that a request skips.
pub open spec fn page_offset(offset: Option<usize>) -> int {
    match offset {
        Some(n) => if n > MAX_OFFSET {
            MAX_OFFSET as int
        } else {
            n as int
        },
        None => 0,
    }
}

/// The limit and the offset of a list request, from its query parameters; a
/// parameter that is missing or cannot be read is `None`.
pub fn page_params(limit: Option<usize>, offset: Option<usize>) -> (out: (usize, usize))
    ensures
        out.0 == page_limit(limit),
        out.1 == page_offset(offset),
        1 <= out.0 <= MAX_PAGE_LIMIT,
{
    let limit: usize = match limit {
        Some(n) => if n < 1 {
            1
        } else if n > MAX_PAGE_LIMIT {
            MAX_PAGE_LIMIT
        } else {
            n
        },
        None => DEFAULT_PAGE_LIMIT,
    };
    let offset: usize = match offset {
        Some(n) => if n as u64 > MAX_OFFSET {
            MAX_OFFSET as usize
        } else {
            n
        },
        None => 0,
    };
    (limit, offset)
}

/// The items of the pages from `offset` on, each begun where the page before it
/// says, one after the other.
pub open spec fn following_pages<T>(rows: Seq<T>, limit: int, offset: int) -> Seq<T>
    decreases rows.len() - offset,
{
    let page = window(rows, limit, offset);
    match next_page(rows.len() as int, limit, offset) {
        Some(next) if limit > 0 && 0 <= offset => page + following_pages(rows, limit, next),
        _ => page,
    }
}

proof fn lemma_following_pages<T>(rows: Seq<T>, limit: int, offset: int)
    requires
        limit > 0,
        0 <= offset <= rows.len(),
    ensures
        following_pages(rows, limit, offset) == rows.skip(offset),
    decreases rows.len() - offset,
{
    if offset + limit < rows.len() {
        lemma_following_pages(rows, limit, offset + limit);
        assert(window(rows, limit, offset) + rows.skip(offset + limit) == rows.skip(offset));
    } else {
        assert(window(rows, limit, offset) == rows.skip(offset));
    }
}

/// The pages of a list hold every row exactly once, in order: begun at the
/// front and followed to the last one, they give the whole list.
pub proof fn law_pages_cover_the_list<T>(rows: Seq<T>, limit: int)
    requires
        limit > 0,
    ensures
        following_pages(rows, limit, 0) == rows,
{
    lemma_following_pages(rows, limit, 0);
    assert(rows.skip(0) == rows);
}

// ---------------------------------------------------------------------------
// What endpoints share
// ---------------------------------------------------------------------------

/// The answer `out` tells what `want` says.
pub open spec fn answers<T: View>(
    out: Result<ApiResponse<T>, Failure>,
    want: Result<T::V, FailureView>,
) -> bool {
    match (out, want) {
        (Ok(reply), Ok(data)) => reply.ok && reply.data@ == data,
        (Err(e), Err(f)) => e@ == f,
        _ => false,
    }
}

/// The check `out` passes or fails as `want` says.
pub open spec fn passes(out: Result<(), Failure>, want: Result<(), FailureView>) -> bool {
    match (out, want) {
        (Ok(_), Ok(_)) => true,
        (Err(e), Err(f)) => e@ == f,
        _ => false,
    }
}

/// What is told of the `noun` named `id`, such as `domain 'a.b' not found`.
pub open spec fn about(noun: Seq<char>, id: Seq<char>, what: Seq<char>) -> Seq<char> {
    noun + " '"@ + id + "' "@ + what
}

pub(crate) fn tell_about(noun: &str, id: &str, what: &str) -> (out: String)
    ensures
        out@ == about(noun@, id@, what@),
{
    let a = joined(noun, " '");
    let b = joined(a.as_str(), id);
    let c = joined(b.as_str(), "' ");
    joined(c.as_str(), what)
}

/// The `noun` named `id` has to be there.
pub open spec fn present(noun: Seq<char>, id: Seq<char>, there: bool) -> Result<(), FailureView> {
    if there {
        Ok(())
    } else {
        Err(FailureView::absent(about(noun, id, "not found"@)))
    }
}

/// The `noun` named `id` must not be there yet.
pub open spec fn vacant(noun: Seq<char>, id: Seq<char>, there: bool) -> Result<(), FailureView> {
    if there {
        Err(FailureView::conflict(about(noun, id, "already exists"@)))
    } else {
        Ok(())
    }
}

pub(crate) fn absent(noun: &str, id: &str) -> (out: Failure)
    ensures
        out@ == FailureView::absent(about(noun@, id@, "not found"@)),
{
    Failure::of(ApiProblem::not_found(tell_about(noun, id, "not found").as_str()))
}

pub(crate) fn check_present(noun: &str, id: &str, there: bool) -> (out: Result<(), Failure>)
    ensures
        passes(out, present(noun@, id@, there)),
{
    if there {
        Ok(())
    } else {
        Err(absent(noun, id))
    }
}

pub(crate) fn check_vacant(noun: &str, id: &str, there: bool) -> (out: Result<(), Failure>)
    ensures
        passes(out, vacant(noun@, id@, there)),
{
    if there {
        Err(Failure::of(ApiProblem::conflict(tell_about(noun, id, "already exists").as_str())))
    } else {
        Ok(())
    }
}

/// What the store did, as an answer.
pub open spec fn done(outcome: Result<(), String>) -> Result<(), FailureView> {
    match outcome {
        Ok(_) => Ok(()),
        Err(e) => Err(FailureView::server(e@)),
    }
}

/// Whether the store did what it was told.
pub fn written(outcome: Result<(), String>) -> (out: Result<(), Failure>)
    ensures
        passes(out, done(outcome)),
{
    match outcome {
        Ok(_) => Ok(()),
        Err(e) => Err(Failure::server(e.as_str())),
    }
}

/// The answer once a row was deleted, or could not be.
pub fn deleted(outcome: Result<(), String>) -> (out: Result<ApiResponse<()>, Failure>)
    ensures
        answers(out, done(outcome)),
{
    match outcome {
        Ok(_) => Ok(ApiResponse::ok(())),
        Err(e) => Err(Failure::server(e.as_str())),
    }
}

/// The row that a store holds under `id`.
pub open spec fn lookup<T>(store: Map<Seq<char>, T>, id: Seq<char>) -> Option<T> {
    if store.dom().contains(id) {
        Some(store[id])
    } else {
        None
    }
}

/// A page holds 50 items where the request does not say, else as many as it asks
/// for, but at least one and at most 200. It begins where the request says, or
/// at the front.
pub proof fn law_pages_are_as_asked_for(n: usize)
    ensures
        page_limit(None) == 50,
        page_limit(Some(n)) == (if n == 0 {
            1
        } else if n <= 200 {
            n
        } else {
            200
        }),
        page_offset(None) == 0,
        page_offset(Some(n)) == (if n <= 0x7fff_ffff_ffff_ffff {
            n as int
        } else {
            0x7fff_ffff_ffff_ffff
        }),
{
}

/// The item at `i` of a page is the row at its offset and `i`. A page is full
/// unless the rows end before, and it names the next page exactly where rows
/// follow, which then begins at the first of these.
pub proof fn law_pages_are_windows<T>(rows: Seq<T>, limit: int, offset: int)
    requires
        limit > 0,
        offset >= 0,
    ensures
        window(rows, limit, offset).len() == (if offset >= rows.len() {
            0
        } else if rows.len() - offset < limit {
            rows.len() - offset
        } else {
            limit
        }),
        forall|i: int|
            0 <= i < window(rows, limit, offset).len() ==> #[trigger] window(
                rows,
                limit,
                offset,
            )[i] == rows[offset + i],
        next_page(rows.len() as int, limit, offset) is Some <==> offset + limit < rows.len(),
        next_page(rows.len() as int, limit, offset) matches Some(next) ==> next == offset + limit,
{
}

/// Each failure has the status and the sort of problem that HTTP has for it, in
/// the response and in its document, and tells the detail that it was given.
/// Only a body that cannot be read is told as a validation error.
pub proof fn law_failures_have_their_status(detail: Seq<char>)
    ensures
        ({
            let bad = FailureView::bad(detail);
            &&& bad.status == 400
            &&& bad.problem.status == 400
            &&& bad.problem.kind == "bad request"@
            &&& bad.problem.detail == Some(detail)
        }),
        ({
            let absent = FailureView::absent(detail);
            &&& absent.status == 404
            &&& absent.problem.status == 404
            &&& absent.problem.kind == "not_found"@
            &&& absent.problem.detail == Some(detail)
        }),
        ({
            let conflict = FailureView::conflict(detail);
            &&& conflict.status == 409
            &&& conflict.problem.status == 409
            &&& conflict.problem.kind == "conflict"@
            &&& conflict.problem.detail == Some(detail)
        }),
        ({
            let server = FailureView::server(detail);
            &&& server.status == 500
            &&& server.problem.status == 500
            &&& server.problem.kind == "server_error"@
            &&& server.problem.detail == Some(detail)
        }),
        FailureView::unreadable().status == 400,
        FailureView::unreadable().problem.status == 422,
        FailureView::unreadable().problem.kind == "validation_error"@,
        FailureView::unreadable().problem.detail == Some("Failed to parse request body"@),
{
}

/// What has to be there is refused with 404 exactly where it is not, and what
/// must not be there with 409 exactly where it is. The detail names it.
pub proof fn law_presence_decides(noun: Seq<char>, id: Seq<char>, there: bool)
    ensures
        present(noun, id, there) is Ok <==> there,
        vacant(noun, id, there) is Ok <==> !there,
        present(noun, id, there) matches Err(f) ==> f.status == 404 && f.problem.detail == Some(
            noun + " '"@ + id + "' not found"@,
        ),
        vacant(noun, id, there) matches Err(f) ==> f.status == 409 && f.problem.detail == Some(
            noun + " '"@ + id + "' already exists"@,
        ),
{
    reveal_strlit("' ");
    reveal_strlit("not found");
    reveal_strlit("already exists");
    reveal_strlit("' not found");
    reveal_strlit("' already exists");
    assert("' "@ + "not found"@ == "' not found"@);
    assert("' "@ + "already exists"@ == "' already exists"@);
    let head = noun + " '"@ + id;
    assert(head + "' "@ + "not found"@ == head + ("' "@ + "not found"@));
    assert(head + "' "@ + "already exists"@ == head + ("' "@ + "already exists"@));
}

/// What the store could not do is answered with 500 and its error; all that it
/// did is answered as done.
pub proof fn law_store_errors_are_told(outcome: Result<(), String>)
    ensures
        done(outcome) is Ok <==> outcome is Ok,
        outcome matches Err(e) ==> (done(outcome) matches Err(f) && f.status == 500
            && f.problem.detail == Some(e@)),
{
}

/// A page tells the limit and the offset that it was made with, and where the
/// next page begins exactly where rows follow.
pub proof fn law_pages_tell_their_place<T>(page: Page<T>, len: int, limit: int, offset: int)
    requires
        page.is_page(len, limit, offset),
    ensures
        page.limit == limit,
        page.offset == offset,
        page.next_offset is Some <==> offset + limit < len,
        page.next_offset matches Some(next) ==> next == offset + limit,
{
}

/// An answer succeeds exactly where success is wanted, and then says so and
/// carries what is wanted; otherwise it is the failure that is wanted.
pub proof fn law_answers_are_what_is_wanted<T: View>(
    out: Result<ApiResponse<T>, Failure>,
    want: Result<T::V, FailureView>,
)
    requires
        answers(out, want),
    ensures
        out is Ok <==> want is Ok,
        out matches Ok(reply) ==> reply.ok && want == Ok::<T::V, FailureView>(reply.data@),
        out matches Err(e) ==> want matches Err(f) && e.status == f.status && e.problem@
            == f.problem,
{
}

/// A check passes exactly where it is meant to, and otherwise fails as it is
/// meant to.
pub proof fn law_checks_pass_where_they_should(
    out: Result<(), Failure>,
    want: Result<(), FailureView>,
)
    requires
        passes(out, want),
    ensures
        out is Ok <==> want is Ok,
        out matches Err(e) ==> want matches Err(f) && e.status == f.status && e.problem@
            == f.problem,
{
}

} // verus!
