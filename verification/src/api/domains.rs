//! The endpoints of domains.
use vstd::prelude::*;
use crate::api;
use crate::api::{
    absent, check_present, check_vacant, page_params, ApiResponse, Failure, FailureView, Page,
};
use crate::db::Domain;
use crate::text;
use crate::text::trim;
use crate::time;

verus! {

/// A domain as the API shows it.
#[derive(Debug, Clone)]
pub struct DomainDTO {
    pub id: String,
    pub created_at: String,
    pub updated_at: String,
}

/// What a [`DomainDTO`] holds.
#[verifier::ext_equal]
pub struct DomainDTOView {
    pub id: Seq<char>,
    pub created_at: Seq<char>,
    pub updated_at: Seq<char>,
}

impl View for DomainDTO {
    type V = DomainDTOView;

    open spec fn view(&self) -> DomainDTOView {
        DomainDTOView {
            id: self.id@,
            created_at: self.created_at@,
            updated_at: self.updated_at@,
        }
    }
}

/// What the API shows of a domain.
pub open spec fn domain_dto(domain: Domain) -> DomainDTOView {
    DomainDTOView {
        id: domain.id@,
        created_at: time::timestamp_text(domain.created_at.nanos),
        updated_at: time::timestamp_text(domain.updated_at.nanos),
    }
}

impl DomainDTO {
    /// What the API shows of a domain.
    pub fn of(domain: &Domain) -> (out: DomainDTO)
        requires
            domain.wf(),
        ensures
            out@ == domain_dto(*domain),
    {
        DomainDTO {
            id: domain.id.clone(),
            created_at: domain.created_at.text(),
            updated_at: domain.updated_at.text(),
        }
    }
}

/// The body of a request for a new domain.
#[derive(Debug, Clone)]
pub struct NewDomain {
    /// The name of the domain, such as `example.com`.
    pub id: String,
}

/// The body of a request to change a domain. A domain has nothing that can be
/// changed, so the note is read and passed over.
#[derive(Debug, Clone)]
pub struct PatchDomain {
    pub note: Option<String>,
}

/// What the API shows of domains.
pub open spec fn domain_dtos(rows: Seq<Domain>) -> Seq<DomainDTOView> {
    rows.map_values(|d: Domain| domain_dto(d))
}

/// What domains of the API hold.
pub open spec fn domain_dto_views(items: Seq<DomainDTO>) -> Seq<DomainDTOView> {
    items.map_values(|d: DomainDTO| d@)
}

/// `GET /domains`: one page of the domains.
pub fn list_domains(
    rows: Result<Vec<Domain>, String>,
    limit: Option<usize>,
    offset: Option<usize>,
) -> (out: Result<ApiResponse<Page<DomainDTO>>, Failure>)
    requires
        rows matches Ok(list) ==> forall|i: int| 0 <= i < list@.len() ==> (#[trigger] list@[i]).wf(),
    ensures
        (match (rows, out) {
            (Ok(list), Ok(reply)) => {
                &&& reply.ok
                &&& domain_dto_views(reply.data.items@) == api::window(
                    domain_dtos(list@),
                    api::page_limit(limit) as int,
                    api::page_offset(offset),
                )
                &&& reply.data.is_page(
                    list@.len() as int,
                    api::page_limit(limit) as int,
                    api::page_offset(offset),
                )
            },
            (Err(e), Err(f)) => f@ == FailureView::server(e@),
            _ => false,
        }),
{
    let (limit, offset) = page_params(limit, offset);
    let list = match rows {
        Ok(list) => list,
        Err(e) => return Err(Failure::server(e.as_str())),
    };
    let mut items: Vec<DomainDTO> = Vec::new();
    let mut i: usize = 0;
    while i < list.len()
        invariant
            i <= list.len(),
            items@.len() == i,
            forall|k: int| 0 <= k < list@.len() ==> (#[trigger] list@[k]).wf(),
            forall|k: int| 0 <= k < i ==> (#[trigger] items@[k])@ == domain_dto(list@[k]),
        decreases list.len() - i,
    {
        items.push(DomainDTO::of(&list[i]));
        i += 1;
    }
    let page = Page::from_all(items, limit, offset);
    assert(domain_dto_views(page.items@) == api::window(
        domain_dtos(list@),
        limit as int,
        offset as int,
    ));
    Ok(ApiResponse::ok(page))
}

/// A domain that is being created.
#[derive(Debug, Clone)]
pub struct DomainCreation {
    /// The domain to look up and then to store.
    pub id: String,
}

/// The name of the domain that a request wants created.
pub open spec fn wanted_domain(body: Option<NewDomain>) -> Result<Seq<char>, FailureView> {
    match body {
        Some(body) => if text::trimmed(body.id@).len() == 0 {
            Err(FailureView::bad("domain id must not be empty"@))
        } else {
            Ok(text::trimmed(body.id@))
        },
        None => Err(FailureView::unreadable()),
    }
}

/// `POST /domains`: begin to create a domain. `None` is a body that cannot be
/// read.
pub fn create_domain(body: Option<NewDomain>) -> (out: Result<DomainCreation, Failure>)
    ensures
        (match (out, wanted_domain(body)) {
            (Ok(creation), Ok(id)) => creation.id@ == id,
            (Err(e), Err(f)) => e@ == f,
            _ => false,
        }),
{
    let body = match body {
        Some(body) => body,
        None => return Err(Failure::unreadable()),
    };
    let id = trim(body.id.as_str());
    if id.as_str().is_empty() {
        return Err(Failure::bad("domain id must not be empty"));
    }
    Ok(DomainCreation { id })
}

/// The answer once a domain was stored, or could not be.
pub open spec fn domain_stored(stored: Result<Domain, String>) -> Result<
    DomainDTOView,
    FailureView,
> {
    match stored {
        Ok(domain) => Ok(domain_dto(domain)),
        Err(e) => Err(FailureView::server(e@)),
    }
}

impl DomainCreation {
    /// Whether the domain may be stored, once it was looked up.
    pub fn looked_up(&self, found: &Option<Domain>) -> (out: Result<(), Failure>)
        ensures
            api::passes(out, api::vacant("domain"@, self.id@, found is Some)),
    {
        check_vacant("domain", self.id.as_str(), found.is_some())
    }

    /// The answer once the domain was stored, or could not be.
    pub fn stored(&self, stored: Result<Domain, String>) -> (out: Result<
        ApiResponse<DomainDTO>,
        Failure,
    >)
        requires
            stored matches Ok(domain) ==> domain.wf(),
        ensures
            api::answers(out, domain_stored(stored)),
    {
        match stored {
            Ok(domain) => Ok(ApiResponse::ok(DomainDTO::of(&domain))),
            Err(e) => Err(Failure::server(e.as_str())),
        }
    }
}

/// The answer that shows the domain named `id`.
pub open spec fn shown_domain(id: Seq<char>, found: Option<Domain>) -> Result<
    DomainDTOView,
    FailureView,
> {
    match found {
        Some(domain) => Ok(domain_dto(domain)),
        None => Err(FailureView::absent(api::about("domain"@, id, "not found"@))),
    }
}

/// `GET /domains/{domain_id}`: the domain that was looked up.
pub fn get_domain(id: &str, found: Option<Domain>) -> (out: Result<ApiResponse<DomainDTO>, Failure>)
    requires
        found matches Some(domain) ==> domain.wf(),
    ensures
        api::answers(out, shown_domain(id@, found)),
{
    match found {
        Some(domain) => Ok(ApiResponse::ok(DomainDTO::of(&domain))),
        None => Err(absent("domain", id)),
    }
}

/// `PATCH /domains/{domain_id}`: the domain that was looked up, as it is.
pub fn patch_domain(id: &str, body: Option<PatchDomain>, found: Option<Domain>) -> (out: Result<
    ApiResponse<DomainDTO>,
    Failure,
>)
    requires
        found matches Some(domain) ==> domain.wf(),
    ensures
        api::answers(
            out,
            match body {
                Some(_) => shown_domain(id@, found),
                None => Err(FailureView::unreadable()),
            },
        ),
{
    match body {
        Some(_) => get_domain(id, found),
        None => Err(Failure::unreadable()),
    }
}

/// `DELETE /domains/{domain_id}`: whether the domain that was looked up is to be
/// deleted; see [`deleted`] for the answer.
pub fn delete_domain(id: &str, found: &Option<Domain>) -> (out: Result<(), Failure>)
    ensures
        api::passes(out, api::present("domain"@, id@, found is Some)),
{
    check_present("domain", id, found.is_some())
}

/// A domain that a store does not hold can be created; it is then shown as it
/// was stored, and cannot be created again. Once it is deleted it is not found,
/// and can be created once more.
pub proof fn law_domain_lives_from_creation_to_deletion(
    store: Map<Seq<char>, Domain>,
    body: Option<NewDomain>,
    row: Domain,
)
    requires
        wanted_domain(body) is Ok,
        api::lookup(store, wanted_domain(body)->Ok_0) is None,
    ensures
        ({
            let id = wanted_domain(body)->Ok_0;
            let with = store.insert(id, row);
            let without = with.remove(id);
            &&& api::vacant("domain"@, id, api::lookup(store, id) is Some) is Ok
            &&& shown_domain(id, api::lookup(with, id)) == Ok::<DomainDTOView, FailureView>(
                domain_dto(row),
            )
            &&& api::vacant("domain"@, id, api::lookup(with, id) is Some) == Err::<(), FailureView>(
                FailureView::conflict(api::about("domain"@, id, "already exists"@)),
            )
            &&& api::present("domain"@, id, api::lookup(with, id) is Some) is Ok
            &&& shown_domain(id, api::lookup(without, id)) == Err::<DomainDTOView, FailureView>(
                FailureView::absent(api::about("domain"@, id, "not found"@)),
            )
            &&& api::vacant("domain"@, id, api::lookup(without, id) is Some) is Ok
        }),
{
}

/// A domain is created under the name that the request gives, without the white
/// space around it and otherwise letter for letter. A blank name is refused, and
/// so is a body that cannot be read.
pub proof fn law_domains_are_created_under_their_name(
    body: NewDomain,
    front: Seq<char>,
    name: Seq<char>,
    back: Seq<char>,
)
    requires
        text::is_blank(front),
        text::is_blank(back),
        text::is_bare(name),
        body.id@ == front + name + back,
    ensures
        name.len() > 0 ==> wanted_domain(Some(body)) == Ok::<Seq<char>, FailureView>(name),
        name.len() == 0 ==> (wanted_domain(Some(body)) matches Err(f) && f.status == 400
            && f.problem.detail == Some("domain id must not be empty"@)),
        wanted_domain(None) matches Err(f) && f.status == 400 && f.problem.status == 422,
{
    text::law_trimming_leaves_the_inside(front, name, back);
}

/// A domain is shown under its own name and with its own instants, wherever it
/// is shown; what is not there is answered with 404, and what the store could
/// not do with 500.
pub proof fn law_domains_are_shown_as_they_are(id: Seq<char>, domain: Domain, e: String)
    ensures
        domain_dto(domain).id == domain.id@,
        domain_dto(domain).created_at == time::timestamp_text(domain.created_at.nanos),
        domain_dto(domain).updated_at == time::timestamp_text(domain.updated_at.nanos),
        shown_domain(id, Some(domain)) matches Ok(shown) && shown.id == domain.id@,
        domain_stored(Ok(domain)) matches Ok(shown) && shown.id == domain.id@,
        shown_domain(id, None) matches Err(f) && f.status == 404 && f.problem.detail == Some(
            "domain"@ + " '"@ + id + "' "@ + "not found"@,
        ),
        domain_stored(Err(e)) matches Err(f) && f.status == 500 && f.problem.detail == Some(e@),
{
}

/// The list of domains shows each stored domain once and in its place.
pub proof fn law_every_domain_is_listed(rows: Seq<Domain>, i: int)
    requires
        0 <= i < rows.len(),
    ensures
        domain_dtos(rows).len() == rows.len(),
        domain_dtos(rows)[i].id == rows[i].id@,
        domain_dtos(rows)[i].created_at == time::timestamp_text(rows[i].created_at.nanos),
        domain_dtos(rows)[i].updated_at == time::timestamp_text(rows[i].updated_at.nanos),
{
}

} // verus!
