//! The endpoints of mailboxes.
use vstd::prelude::*;
use crate::api;
use crate::api::{
    absent, check_present, check_vacant, page_params, ApiResponse, Failure,
    FailureView, Page,
};
use crate::db;
use crate::db::{Domain, Mailbox, MailboxRow};
use crate::email;
use crate::text;
use crate::text::{copy_text, same_text, to_lowercase, trim};
use crate::time;

verus! {

/// A mailbox as the API shows it.
#[derive(Debug, Clone)]
pub struct MailboxDTO {
    /// The full address, such as `user@example.com`.
    pub id: String,
    pub domain_id: String,
    pub created_at: String,
    pub updated_at: String,
    pub forward_to: Option<String>,
}

/// What a [`MailboxDTO`] holds.
#[verifier::ext_equal]
pub struct MailboxDTOView {
    pub id: Seq<char>,
    pub domain_id: Seq<char>,
    pub created_at: Seq<char>,
    pub updated_at: Seq<char>,
    pub forward_to: Option<Seq<char>>,
}

impl View for MailboxDTO {
    type V = MailboxDTOView;

    open spec fn view(&self) -> MailboxDTOView {
        MailboxDTOView {
            id: self.id@,
            domain_id: self.domain_id@,
            created_at: self.created_at@,
            updated_at: self.updated_at@,
            forward_to: text::view_of(self.forward_to),
        }
    }
}

/// What the API shows of a mailbox.
pub open spec fn mailbox_dto(mailbox: Mailbox) -> MailboxDTOView {
    MailboxDTOView {
        id: mailbox.id@,
        domain_id: mailbox.domain_id@,
        created_at: time::timestamp_text(mailbox.created_at.nanos),
        updated_at: time::timestamp_text(mailbox.updated_at.nanos),
        forward_to: text::view_of(mailbox.forward_to),
    }
}

impl MailboxDTO {
    /// What the API shows of a mailbox.
    pub fn of(mailbox: &Mailbox) -> (out: MailboxDTO)
        requires
            mailbox.wf(),
        ensures
            out@ == mailbox_dto(*mailbox),
    {
        MailboxDTO {
            id: mailbox.id.clone(),
            domain_id: mailbox.domain_id.clone(),
            created_at: mailbox.created_at.text(),
            updated_at: mailbox.updated_at.text(),
            forward_to: copy_text(&mailbox.forward_to),
        }
    }
}

/// The body of a request for a new mailbox.
#[derive(Debug, Clone)]
pub struct NewMailbox {
    /// The full address, such as `user@example.com`.
    pub id: String,
    /// The domain of the address; it is taken from the address where it is not
    /// given.
    pub domain_id: Option<String>,
    pub forward_to: Option<String>,
}

/// The body of a request to change a mailbox. The note is read and passed over.
#[derive(Debug, Clone)]
pub struct PatchMailbox {
    pub domain_id: Option<String>,
    pub note: Option<String>,
    pub forward_to: Option<String>,
}

/// The mailboxes of `domain`, or all of them, as the API shows them.
pub open spec fn mailbox_dtos(rows: Seq<Mailbox>, domain: Option<Seq<char>>) -> Seq<MailboxDTOView>
    decreases rows.len(),
{
    if rows.len() == 0 {
        Seq::empty()
    } else {
        let front = mailbox_dtos(rows.drop_last(), domain);
        if domain matches Some(id) && rows.last().domain_id@ != id {
            front
        } else {
            front.push(mailbox_dto(rows.last()))
        }
    }
}

/// What mailboxes of the API hold.
pub open spec fn mailbox_dto_views(items: Seq<MailboxDTO>) -> Seq<MailboxDTOView> {
    items.map_values(|m: MailboxDTO| m@)
}

/// `GET /mailboxes`: one page of the mailboxes, or of those of one domain.
pub fn list_mailboxes(
    rows: Result<Vec<Mailbox>, String>,
    domain_id: Option<String>,
    limit: Option<usize>,
    offset: Option<usize>,
) -> (out: Result<ApiResponse<Page<MailboxDTO>>, Failure>)
    requires
        rows matches Ok(list) ==> forall|i: int| 0 <= i < list@.len() ==> (#[trigger] list@[i]).wf(),
    ensures
        (match (rows, out) {
            (Ok(list), Ok(reply)) => {
                let all = mailbox_dtos(list@, text::view_of(domain_id));
                &&& reply.ok
                &&& mailbox_dto_views(reply.data.items@) == api::window(
                    all,
                    api::page_limit(limit) as int,
                    api::page_offset(offset),
                )
                &&& reply.data.is_page(
                    all.len() as int,
                    api::page_limit(limit) as int,
                    api::page_offset(offset),
                )
            },
            (Err(e), Err(f)) => f@ == FailureView::server(e@),
            _ => false,
        }),
{
    let (limit, offset) = page_params(limit, offset);
    let list = match rows {
        Ok(list) => list,
        Err(e) => return Err(Failure::server(e.as_str())),
    };
    let ghost domain = text::view_of(domain_id);
    let mut items: Vec<MailboxDTO> = Vec::new();
    let mut i: usize = 0;
    while i < list.len()
        invariant
            i <= list.len(),
            domain == text::view_of(domain_id),
            forall|k: int| 0 <= k < list@.len() ==> (#[trigger] list@[k]).wf(),
            mailbox_dto_views(items@) == mailbox_dtos(list@.take(i as int), domain),
        decreases list.len() - i,
    {
        assert(list@.take(i + 1).drop_last() == list@.take(i as int));
        let other = match &domain_id {
            Some(id) => !same_text(list[i].domain_id.as_str(), id.as_str()),
            None => false,
        };
        if !other {
            let ghost shown = mailbox_dto_views(items@);
            let dto = MailboxDTO::of(&list[i]);
            let ghost view = dto@;
            items.push(dto);
            assert(mailbox_dto_views(items@) == shown.push(view));
        }
        i += 1;
    }
    assert(list@.take(list@.len() as int) == list@);
    assert(mailbox_dto_views(items@).len() == items@.len());
    let ghost all = items@;
    let page = Page::from_all(items, limit, offset);
    assert(mailbox_dto_views(page.items@) == api::window(
        mailbox_dto_views(all),
        limit as int,
        offset as int,
    ));
    Ok(ApiResponse::ok(page))
}

/// The domain that a request names agrees with that of the address, apart from
/// letter case and surrounding white space.
pub open spec fn domain_agrees(given: Option<Seq<char>>, domain: Seq<char>) -> bool {
    match given {
        Some(id) => text::lowercase(text::trimmed(id)) == domain,
        None => true,
    }
}

fn check_domain(given: &Option<String>, domain: &str) -> (out: bool)
    ensures
        out == domain_agrees(text::view_of(*given), domain@),
{
    match given {
        Some(id) => {
            let provided = to_lowercase(trim(id.as_str()).as_str());
            same_text(provided.as_str(), domain)
        },
        None => true,
    }
}

/// The mailbox that a request wants created. The address is kept in lower case,
/// so that it is found again however it is written.
pub open spec fn wanted_mailbox(body: Option<NewMailbox>) -> Result<
    db::MailboxRowView,
    FailureView,
> {
    match body {
        Some(body) => {
            let id = text::lowercase(text::trimmed(body.id@));
            if id.len() == 0 {
                Err(FailureView::bad("email address must not be empty"@))
            } else {
                match db::address_domain(id) {
                    Some(domain) => if domain_agrees(text::view_of(body.domain_id), domain) {
                        Ok(
                            db::MailboxRowView {
                                id,
                                domain_id: domain,
                                forward_to: text::view_of(body.forward_to),
                            },
                        )
                    } else {
                        Err(
                            FailureView::bad(
                                "domain_id does not match the domain part of the address"@,
                            ),
                        )
                    },
                    None => Err(
                        FailureView::bad("invalid email address (missing domain part)"@),
                    ),
                }
            }
        },
        None => Err(FailureView::unreadable()),
    }
}

/// A mailbox that is being created.
#[derive(Debug, Clone)]
pub struct MailboxCreation {
    /// The row to look up and then to store.
    pub row: MailboxRow,
}

/// `POST /mailboxes`: begin to create a mailbox. `None` is a body that cannot be
/// read.
pub fn create_mailbox(body: Option<NewMailbox>) -> (out: Result<MailboxCreation, Failure>)
    ensures
        (match (out, wanted_mailbox(body)) {
            (Ok(creation), Ok(row)) => creation.row@ == row,
            (Err(e), Err(f)) => e@ == f,
            _ => false,
        }),
{
    let body = match body {
        Some(body) => body,
        None => return Err(Failure::unreadable()),
    };
    let id = to_lowercase(trim(body.id.as_str()).as_str());
    if id.as_str().is_empty() {
        return Err(Failure::bad("email address must not be empty"));
    }
    let mailbox = match Mailbox::try_from(id) {
        Ok(mailbox) => mailbox,
        Err(_) => return Err(Failure::bad("invalid email address (missing domain part)")),
    };
    if !check_domain(&body.domain_id, mailbox.domain_id.as_str()) {
        return Err(Failure::bad("domain_id does not match the domain part of the address"));
    }
    Ok(
        MailboxCreation {
            row: MailboxRow {
                id: mailbox.id,
                domain_id: mailbox.domain_id,
                forward_to: body.forward_to,
            },
        },
    )
}

/// The answer once a mailbox was stored, or could not be.
pub open spec fn mailbox_stored(stored: Result<Mailbox, String>) -> Result<
    MailboxDTOView,
    FailureView,
> {
    match stored {
        Ok(mailbox) => Ok(mailbox_dto(mailbox)),
        Err(e) => Err(FailureView::server(e@)),
    }
}

impl MailboxCreation {
    /// Whether the mailbox may be stored, once its address was looked up.
    pub fn looked_up(&self, found: &Option<Mailbox>) -> (out: Result<(), Failure>)
        ensures
            api::passes(out, api::vacant("mailbox"@, self.row.id@, found is Some)),
    {
        check_vacant("mailbox", self.row.id.as_str(), found.is_some())
    }

    /// The domain to store before the mailbox, once the domain of the address
    /// was looked up: the two are provisioned together.
    pub fn domain_looked_up(&self, found: &Option<Domain>) -> (out: Option<String>)
        ensures
            text::view_of(out) == (match found {
                Some(_) => None,
                None => Some(self.row.domain_id@),
            }),
    {
        match found {
            Some(_) => None,
            None => Some(self.row.domain_id.clone()),
        }
    }

    /// The answer once the mailbox was stored, or could not be.
    pub fn stored(&self, stored: Result<Mailbox, String>) -> (out: Result<
        ApiResponse<MailboxDTO>,
        Failure,
    >)
        requires
            stored matches Ok(mailbox) ==> mailbox.wf(),
        ensures
            api::answers(out, mailbox_stored(stored)),
    {
        match stored {
            Ok(mailbox) => Ok(ApiResponse::ok(MailboxDTO::of(&mailbox))),
            Err(e) => Err(Failure::server(e.as_str())),
        }
    }
}

/// The answer that shows the mailbox named `id`.
pub open spec fn shown_mailbox(id: Seq<char>, found: Option<Mailbox>) -> Result<
    MailboxDTOView,
    FailureView,
> {
    match found {
        Some(mailbox) => Ok(mailbox_dto(mailbox)),
        None => Err(FailureView::absent(api::about("mailbox"@, id, "not found"@))),
    }
}

/// `GET /mailboxes/{mailbox_id}`: the mailbox that was looked up.
pub fn get_mailbox(id: &str, found: Option<Mailbox>) -> (out: Result<
    ApiResponse<MailboxDTO>,
    Failure,
>)
    requires
        found matches Some(mailbox) ==> mailbox.wf(),
    ensures
        api::answers(out, shown_mailbox(id@, found)),
{
    match found {
        Some(mailbox) => Ok(ApiResponse::ok(MailboxDTO::of(&mailbox))),
        None => Err(absent("mailbox", id)),
    }
}

/// The row that a request changes the mailbox named `id` to. What the request
/// does not name stays as it is.
pub open spec fn patched_mailbox(
    id: Seq<char>,
    body: Option<PatchMailbox>,
    found: Option<Mailbox>,
) -> Result<db::MailboxRowView, FailureView> {
    match (body, found) {
        (None, _) => Err(FailureView::unreadable()),
        (Some(_), None) => Err(FailureView::absent(api::about("mailbox"@, id, "not found"@))),
        (Some(body), Some(mailbox)) => if domain_agrees(
            text::view_of(body.domain_id),
            mailbox.domain_id@,
        ) {
            Ok(
                db::MailboxRowView {
                    id: mailbox.id@,
                    domain_id: mailbox.domain_id@,
                    forward_to: match body.forward_to {
                        Some(to) => Some(to@),
                        None => text::view_of(mailbox.forward_to),
                    },
                },
            )
        } else {
            Err(FailureView::bad("domain_id does not match the domain part of the address"@))
        },
    }
}

/// A mailbox that is being changed.
#[derive(Debug, Clone)]
pub struct MailboxUpdate {
    /// The row to write, and then to read again.
    pub row: MailboxRow,
}

/// `PATCH /mailboxes/{mailbox_id}`: begin to change the mailbox that was looked
/// up. `None` is a body that cannot be read.
pub fn patch_mailbox(id: &str, body: Option<PatchMailbox>, found: Option<Mailbox>) -> (out: Result<
    MailboxUpdate,
    Failure,
>)
    ensures
        (match (out, patched_mailbox(id@, body, found)) {
            (Ok(update), Ok(row)) => update.row@ == row,
            (Err(e), Err(f)) => e@ == f,
            _ => false,
        }),
{
    let body = match body {
        Some(body) => body,
        None => return Err(Failure::unreadable()),
    };
    let mailbox = match found {
        Some(mailbox) => mailbox,
        None => return Err(absent("mailbox", id)),
    };
    if !check_domain(&body.domain_id, mailbox.domain_id.as_str()) {
        return Err(Failure::bad("domain_id does not match the domain part of the address"));
    }
    let forward_to = match body.forward_to {
        Some(to) => Some(to),
        None => mailbox.forward_to,
    };
    Ok(
        MailboxUpdate {
            row: MailboxRow { id: mailbox.id, domain_id: mailbox.domain_id, forward_to },
        },
    )
}

impl MailboxUpdate {
    /// The answer once the row was written and read again. A row that was just
    /// written has to be there.
    pub fn read_again(&self, found: Option<Mailbox>) -> (out: Result<
        ApiResponse<MailboxDTO>,
        Failure,
    >)
        requires
            found matches Some(mailbox) ==> mailbox.wf(),
        ensures
            api::answers(
                out,
                match found {
                    Some(mailbox) => Ok(mailbox_dto(mailbox)),
                    None => Err(FailureView::server("mailbox vanished after update"@)),
                },
            ),
    {
        match found {
            Some(mailbox) => Ok(ApiResponse::ok(MailboxDTO::of(&mailbox))),
            None => Err(Failure::server("mailbox vanished after update")),
        }
    }
}

/// `DELETE /mailboxes/{mailbox_id}`: whether the mailbox that was looked up is to
/// be deleted; see [`deleted`] for the answer.
pub fn delete_mailbox(id: &str, found: &Option<Mailbox>) -> (out: Result<(), Failure>)
    ensures
        api::passes(out, api::present("mailbox"@, id@, found is Some)),
{
    check_present("mailbox", id, found.is_some())
}

/// A mailbox that a store does not hold can be created; it is then shown as it
/// was stored, and cannot be created again. Once it is deleted it is not found,
/// and can be created once more.
pub proof fn law_mailbox_lives_from_creation_to_deletion(
    store: Map<Seq<char>, Mailbox>,
    body: Option<NewMailbox>,
    row: Mailbox,
)
    requires
        wanted_mailbox(body) is Ok,
        api::lookup(store, wanted_mailbox(body)->Ok_0.id) is None,
    ensures
        ({
            let id = wanted_mailbox(body)->Ok_0.id;
            let with = store.insert(id, row);
            let without = with.remove(id);
            &&& api::vacant("mailbox"@, id, api::lookup(store, id) is Some) is Ok
            &&& shown_mailbox(id, api::lookup(with, id)) == Ok::<MailboxDTOView, FailureView>(
                mailbox_dto(row),
            )
            &&& api::vacant("mailbox"@, id, api::lookup(with, id) is Some) == Err::<
                (),
                FailureView,
            >(FailureView::conflict(api::about("mailbox"@, id, "already exists"@)))
            &&& api::present("mailbox"@, id, api::lookup(with, id) is Some) is Ok
            &&& shown_mailbox(id, api::lookup(without, id)) == Err::<MailboxDTOView, FailureView>(
                FailureView::absent(api::about("mailbox"@, id, "not found"@)),
            )
            &&& api::vacant("mailbox"@, id, api::lookup(without, id) is Some) is Ok
        }),
{
}

/// A mailbox is created in the domain of its own address, whatever the request
/// names, and a request that names another domain is refused.
pub proof fn law_mailbox_stays_in_its_domain(body: NewMailbox)
    ensures
        wanted_mailbox(Some(body)) matches Ok(row) ==> {
            &&& db::address_domain(row.id) == Some(row.domain_id)
            &&& domain_agrees(text::view_of(body.domain_id), row.domain_id)
        },
        forall|domain: Seq<char>|
            #![trigger domain_agrees(text::view_of(body.domain_id), domain)]
            db::address_domain(text::lowercase(text::trimmed(body.id@))) == Some(domain)
                && !domain_agrees(text::view_of(body.domain_id), domain)
                ==> wanted_mailbox(Some(body)) is Err,
{
}

/// Addresses that differ in letter case or in surrounding white space name one
/// mailbox.
pub proof fn law_mailbox_is_found_however_it_is_written(one: NewMailbox, other: NewMailbox)
    requires
        text::lowercase(text::trimmed(one.id@)) == text::lowercase(text::trimmed(other.id@)),
        wanted_mailbox(Some(one)) is Ok,
        wanted_mailbox(Some(other)) is Ok,
    ensures
        wanted_mailbox(Some(one))->Ok_0.id == wanted_mailbox(Some(other))->Ok_0.id,
        wanted_mailbox(Some(one))->Ok_0.domain_id == wanted_mailbox(Some(other))->Ok_0.domain_id,
{
}

/// Mail for a created mailbox is looked up under its address, however the
/// letters of the two are written.
pub proof fn law_created_mailbox_takes_mail(body: NewMailbox, to: Seq<char>)
    requires
        wanted_mailbox(Some(body)) is Ok,
        text::lowercase(text::strip(to, seq!['<', '>', ' '])) == text::lowercase(
            text::trimmed(body.id@),
        ),
    ensures
        email::recipient_key(to) == wanted_mailbox(Some(body))->Ok_0.id,
{
}

/// A change keeps the address and the domain of a mailbox; where the request
/// names no new forwarding, it keeps everything.
pub proof fn law_patch_keeps_what_it_does_not_name(
    id: Seq<char>,
    body: PatchMailbox,
    mailbox: Mailbox,
)
    ensures
        patched_mailbox(id, Some(body), Some(mailbox)) matches Ok(row) ==> {
            &&& row.id == mailbox.id@
            &&& row.domain_id == mailbox.domain_id@
            &&& row.forward_to == (match body.forward_to {
                Some(to) => Some(to@),
                None => text::view_of(mailbox.forward_to),
            })
        },
        body.domain_id is None ==> patched_mailbox(id, Some(body), Some(mailbox)) is Ok,
{
}

/// A mailbox is created under its address in small letters, without the white
/// space around it, in the domain that the address names, and forwards where
/// the request says. An address without a domain is refused, a blank one is,
/// and so is a request that names another domain than the address.
pub proof fn law_mailboxes_are_created_under_their_address(
    body: NewMailbox,
    front: Seq<char>,
    address: Seq<char>,
    back: Seq<char>,
    local: Seq<char>,
    domain: Seq<char>,
)
    requires
        text::is_blank(front),
        text::is_blank(back),
        text::is_bare(address),
        body.id@ == front + address + back,
        text::lowercase(address) == local + seq!['@'] + domain,
        !local.contains('@'),
        !domain.contains('@'),
    ensures
        domain.len() > 0 && (body.domain_id matches Some(named) ==> text::lowercase(
            text::trimmed(named@),
        ) == domain) ==> (wanted_mailbox(Some(body)) matches Ok(row) && row.id == text::lowercase(
            address,
        ) && row.domain_id == domain && row.forward_to == text::view_of(body.forward_to)),
        domain.len() > 0 && (body.domain_id matches Some(named) && text::lowercase(
            text::trimmed(named@),
        ) != domain) ==> (wanted_mailbox(Some(body)) matches Err(f) && f.status == 400
            && f.problem.detail == Some(
            "domain_id does not match the domain part of the address"@,
        )),
        domain.len() == 0 ==> (wanted_mailbox(Some(body)) matches Err(f) && f.status == 400
            && f.problem.detail == Some("invalid email address (missing domain part)"@)),
        wanted_mailbox(None) matches Err(f) && f.status == 400 && f.problem.status == 422,
{
    text::law_trimming_leaves_the_inside(front, address, back);
    db::law_domain_follows_the_first_at(local, domain, Seq::empty());
}

/// An address with nothing in it, or without an `@`, makes no mailbox.
pub proof fn law_addresses_without_a_domain_are_refused(
    body: NewMailbox,
    front: Seq<char>,
    address: Seq<char>,
    back: Seq<char>,
)
    requires
        text::is_blank(front),
        text::is_blank(back),
        text::is_bare(address),
        body.id@ == front + address + back,
        !text::lowercase(address).contains('@'),
    ensures
        wanted_mailbox(Some(body)) matches Err(f) && f.status == 400 && f.problem.detail == Some(
            if text::lowercase(address).len() == 0 {
                "email address must not be empty"@
            } else {
                "invalid email address (missing domain part)"@
            },
        ),
{
    text::law_trimming_leaves_the_inside(front, address, back);
    db::law_domain_follows_the_first_at(text::lowercase(address), Seq::empty(), Seq::empty());
}

/// One more stored mailbox is listed behind the others where the list is of its
/// domain or of all domains, and not otherwise.
pub proof fn law_every_mailbox_is_listed(
    rows: Seq<Mailbox>,
    mailbox: Mailbox,
    domain: Option<Seq<char>>,
)
    ensures
        mailbox_dtos(rows.push(mailbox), domain) == (if domain is None || domain == Some(
            mailbox.domain_id@,
        ) {
            mailbox_dtos(rows, domain).push(mailbox_dto(mailbox))
        } else {
            mailbox_dtos(rows, domain)
        }),
        mailbox_dtos(Seq::empty(), domain).len() == 0,
{
    assert(rows.push(mailbox).drop_last() == rows);
}

/// A mailbox is shown with its own address, domain, forwarding and instants,
/// wherever it is shown; what is not there is answered with 404, and what the
/// store could not do with 500.
pub proof fn law_mailboxes_are_shown_as_they_are(id: Seq<char>, mailbox: Mailbox, e: String)
    ensures
        ({
            let shown = mailbox_dto(mailbox);
            &&& shown.id == mailbox.id@
            &&& shown.domain_id == mailbox.domain_id@
            &&& shown.forward_to == text::view_of(mailbox.forward_to)
            &&& shown.created_at == time::timestamp_text(mailbox.created_at.nanos)
            &&& shown.updated_at == time::timestamp_text(mailbox.updated_at.nanos)
        }),
        shown_mailbox(id, Some(mailbox)) matches Ok(shown) && shown.id == mailbox.id@
            && shown.forward_to == text::view_of(mailbox.forward_to),
        mailbox_stored(Ok(mailbox)) matches Ok(shown) && shown.id == mailbox.id@
            && shown.forward_to == text::view_of(mailbox.forward_to),
        shown_mailbox(id, None) matches Err(f) && f.status == 404 && f.problem.detail == Some(
            "mailbox"@ + " '"@ + id + "' "@ + "not found"@,
        ),
        mailbox_stored(Err(e)) matches Err(f) && f.status == 500 && f.problem.detail == Some(e@),
{
}

/// A change that names another domain than that of the mailbox is refused,
/// whatever the letter case and the white space around it; one that names the
/// same domain, or none, is carried out.
pub proof fn law_patch_cannot_move_a_mailbox(
    id: Seq<char>,
    body: PatchMailbox,
    mailbox: Mailbox,
    front: Seq<char>,
    named: Seq<char>,
    back: Seq<char>,
)
    requires
        text::is_blank(front),
        text::is_blank(back),
        text::is_bare(named),
        body.domain_id matches Some(given) && given@ == front + named + back,
    ensures
        text::lowercase(named) == mailbox.domain_id@ <==> patched_mailbox(
            id,
            Some(body),
            Some(mailbox),
        ) is Ok,
        patched_mailbox(id, Some(body), Some(mailbox)) matches Err(f) ==> f.status == 400
            && f.problem.detail == Some(
            "domain_id does not match the domain part of the address"@,
        ),
        patched_mailbox(id, Some(body), None) matches Err(f) && f.status == 404 && f.problem.detail
            == Some("mailbox"@ + " '"@ + id + "' "@ + "not found"@),
        patched_mailbox(id, None, Some(mailbox)) matches Err(f) && f.status == 400
            && f.problem.status == 422,
{
    text::law_trimming_leaves_the_inside(front, named, back);
}

} // verus!
