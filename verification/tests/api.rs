use zonemail::api::{
    create_domain, create_mailbox, delete_domain, delete_mailbox, delete_message, deleted,
    get_domain, get_mailbox, get_message, health, list_domains, list_mailbox_inbox,
    list_mailbox_messages, list_mailbox_sent, list_mailboxes, load_mailbox_messages, page_params,
    patch_domain, patch_mailbox, recipients, send_email, send_with, written, ApiProblem,
    ApiResponse, DeletionStep, ListMessagesQuery, MessageDirection, NewDomain, NewMailbox, Page,
    PatchDomain, PatchMailbox, SendEmail, DEFAULT_PAGE_LIMIT, MAX_PAGE_LIMIT,
};
use zonemail::db::{Domain, Inbound, Mailbox, Message, Outbound, OutboundStatus};
use zonemail::time::Timestamp;

fn at(seconds: i128) -> Timestamp {
    Timestamp { nanos: seconds * 1_000_000_000 }
}

fn domain(id: &str) -> Domain {
    Domain::new(id.to_string(), at(0))
}

fn mailbox(id: &str) -> Mailbox {
    Mailbox::new(id.to_string(), at(0)).unwrap()
}

fn message(id: u64) -> Message {
    Message {
        id,
        mail_from: "alice@example.com".to_string(),
        raw: vec![1, 2, 3],
        subject: Some("Hi".to_string()),
        message_id_header: None,
        content_type: None,
        from_address: None,
        to: vec!["bob@ext.com".to_string()],
        cc: vec![],
        bcc: vec![],
        created_at: at(0),
        updated_at: at(1),
    }
}

fn inbound(message_id: u64, rcpt_to: &str) -> Inbound {
    Inbound {
        id: 1,
        message_id,
        rcpt_to: rcpt_to.to_string(),
        created_at: at(0),
        updated_at: at(0),
    }
}

fn outbound(message_id: u64, sender_id: &str) -> Outbound {
    Outbound {
        id: 1,
        message_id,
        rcpt_to: "x@y.z".to_string(),
        sender_id: sender_id.to_string(),
        status: OutboundStatus::Queued,
        attempts: 0,
        next_attempt_at: None,
        last_error: None,
        created_at: at(0),
        updated_at: at(0),
    }
}

fn new_mailbox(id: &str) -> Option<NewMailbox> {
    Some(NewMailbox { id: id.to_string(), domain_id: None, forward_to: None })
}

fn mail(to: &[&str], cc: &[&str]) -> SendEmail {
    SendEmail {
        from: "alice@example.com".to_string(),
        to: to.iter().map(|s| s.to_string()).collect(),
        cc: cc.iter().map(|s| s.to_string()).collect(),
        bcc: vec![],
        subject: Some("Integration".to_string()),
        body: "hello world".to_string(),
        content_type: None,
    }
}

#[test]
fn domain_crud_roundtrip_through_public_router() {
    let body = || Some(NewDomain { id: "example.com".to_string() });

    let creation = create_domain(body()).expect("create");
    assert_eq!(creation.id, "example.com");
    assert!(creation.looked_up(&None).is_ok());
    let created = creation.stored(Ok(domain("example.com"))).expect("create");
    assert!(created.ok);
    assert_eq!(created.data.id, "example.com");

    let again = create_domain(body()).unwrap().looked_up(&Some(domain("example.com")));
    let failure = again.unwrap_err();
    assert_eq!(failure.status, 409, "duplicate domain");
    assert_eq!(failure.problem.detail.as_deref(), Some("domain 'example.com' already exists"));

    assert!(delete_domain("example.com", &Some(domain("example.com"))).is_ok(), "delete");
    assert!(deleted(Ok(())).unwrap().ok);

    let failure = get_domain("example.com", None).unwrap_err();
    assert_eq!(failure.status, 404, "absent after delete");
}

#[test]
fn sending_mail_enqueues_jobs_and_stores_the_message() {
    let creation = create_mailbox(new_mailbox("alice@example.com")).expect("mailbox provisioned");
    let sending = send_email(Some(mail(&["bob@ext.com"], &["carol@ext.com"]))).expect("send");
    assert_eq!(sending.sender, creation.row.id);
    assert!(sending.sender_looked_up(&Some(mailbox("alice@example.com"))).is_ok());

    let row = sending.compose(1_700_000_000).expect("composed");
    assert_eq!(row.mail_from, "alice@example.com", "stored sender");
    assert_eq!(row.subject.as_deref(), Some("Integration"), "stored subject");
    assert_eq!(row.to, vec!["bob@ext.com".to_string()]);
    assert_eq!(row.cc, vec!["carol@ext.com".to_string()]);
    let text = String::from_utf8(row.raw.clone()).unwrap();
    assert!(text.contains("Date: Tue, 14 Nov 2023 22:13:20 +0000"), "{text}");
    assert!(text.ends_with("hello world"), "{text}");

    let jobs = sending.message_stored(Ok(5)).unwrap();
    assert_eq!(jobs.len(), 2, "one job per recipient");
    assert_eq!(jobs[0].rcpt_to, "bob@ext.com");
    assert_eq!(jobs[1].rcpt_to, "carol@ext.com");
    assert!(jobs.iter().all(|j| j.message_id == 5 && j.sender_id == "alice@example.com"));
    let result = sending.jobs_stored(5, vec![Ok(8), Ok(9)]).unwrap();
    assert!(result.ok, "send reported ok");
    assert_eq!(result.data.message_id, 5);
    assert_eq!(result.data.outbound_ids, vec![8, 9]);

    let shown = get_message(5, Some(message(5))).unwrap();
    assert_eq!(shown.data.mail_from, "alice@example.com");
}

#[test]
fn send_rejects_an_unprovisioned_sender() {
    let mut body = mail(&["bob@ext.com"], &[]);
    body.from = "Ghost@example.com".to_string();
    let sending = send_email(Some(body)).expect("recipient is well-formed");
    assert_eq!(sending.sender, "ghost@example.com");
    let failure = sending.sender_looked_up(&None).unwrap_err();
    assert_eq!(failure.status, 409, "unprovisioned sender");
}

#[test]
fn send_validates_recipients() {
    let failure = send_email(Some(mail(&[], &[]))).unwrap_err();
    assert_eq!(failure.status, 400, "empty recipients");

    let failure = send_email(Some(mail(&["not-an-email"], &[]))).unwrap_err();
    assert_eq!(failure.status, 400, "malformed recipient");
    assert_eq!(
        failure.problem.detail.as_deref(),
        Some("recipient 'not-an-email' is not a valid address")
    );
    let failure = send_email(None).unwrap_err();
    assert_eq!((failure.status, failure.problem.status), (400, 422));
}

#[test]
fn health_probe_reports_healthy() {
    let probe = health("1.2.3");
    assert!(probe.ok);
    assert_eq!(probe.data.service, "zonemail");
    assert_eq!(probe.data.version, "1.2.3");
    assert_eq!(probe.data.status, "healthy");
}

#[test]
fn sending_to_hidden_recipients_alone_works() {
    let mut body = mail(&[], &[]);
    body.bcc = vec!["dave@ext.com".to_string()];
    assert_eq!(recipients(&body), vec!["dave@ext.com".to_string()]);
    let sending = send_email(Some(body)).unwrap();
    let row = sending.compose(0).unwrap();
    assert!(!String::from_utf8(row.raw).unwrap().contains("dave@ext.com"));
    assert_eq!(sending.message_stored(Ok(1)).unwrap()[0].rcpt_to, "dave@ext.com");
}

#[test]
fn messages_that_cannot_be_sent_are_refused() {
    let mut body = mail(&["bob@ext.com"], &[]);
    body.content_type = Some("nonsense".to_string());
    let sending = send_email(Some(body)).unwrap();
    assert_eq!(sending.compose(0).unwrap_err().status, 400);
    assert_eq!(sending.row_with(None).unwrap_err().status, 400);
    let row = sending.row_with(Some(b"Subject: x\r\n\r\n".to_vec())).unwrap();
    assert_eq!(row.subject.as_deref(), Some("x"));
    assert_eq!(sending.message_stored(Err("full".to_string())).unwrap_err().status, 500);
    let failure = sending
        .jobs_stored(1, vec![Ok(2), Err("full".to_string()), Err("late".to_string())])
        .unwrap_err();
    assert_eq!(failure.problem.detail.as_deref(), Some("full"));
    let failure = send_with(mail(&["a@b.c", "d"], &[]), &vec![true, false]).unwrap_err();
    assert_eq!(failure.problem.detail.as_deref(), Some("recipient 'd' is not a valid address"));
    let mut html = mail(&["bob@ext.com"], &[]);
    html.content_type = Some("text/html".to_string());
    let row = send_email(Some(html)).unwrap().compose(0).unwrap();
    assert_eq!(row.content_type.unwrap().trim(), "text/html");
}

#[test]
fn problems_are_told() {
    let p = ApiProblem::bad_request("m");
    assert_eq!((p.status, p.kind.as_str(), p.detail.as_deref()), (400, "bad request", Some("m")));
    let p = ApiProblem::not_found("m");
    assert_eq!((p.status, p.kind.as_str()), (404, "not_found"));
    let p = ApiProblem::validation_error("m");
    assert_eq!((p.status, p.kind.as_str()), (422, "validation_error"));
    let p = ApiProblem::unauthorized();
    assert_eq!((p.status, p.kind.as_str(), p.detail), (401, "unauthorized", None));
    let p = ApiProblem::forbidden();
    assert_eq!((p.status, p.kind.as_str(), p.detail), (403, "forbidden", None));
    let p = ApiProblem::conflict("m");
    assert_eq!((p.status, p.kind.as_str()), (409, "conflict"));
    let p = ApiProblem::server_error("m");
    assert_eq!((p.status, p.kind.as_str()), (500, "server_error"));
    assert_eq!(ApiResponse::ok(7).data, 7);
    assert!(written(Ok(())).is_ok());
    assert_eq!(written(Err("e".to_string())).unwrap_err().status, 500);
    assert_eq!(deleted(Err("e".to_string())).unwrap_err().status, 500);
}

#[test]
fn page_parameters_are_clamped() {
    assert_eq!(page_params(None, None), (DEFAULT_PAGE_LIMIT, 0));
    assert_eq!(page_params(Some(0), Some(3)), (1, 3));
    assert_eq!(page_params(Some(1000), Some(0)).0, MAX_PAGE_LIMIT);
    assert_eq!(page_params(Some(7), Some(usize::MAX)), (7, i64::MAX as usize));
}

#[test]
fn pages_cover_the_list() {
    let rows: Vec<u32> = (0..7).collect();
    let mut seen = Vec::new();
    let mut offset = 0;
    loop {
        let page = Page::from_all(rows.clone(), 3, offset);
        assert_eq!((page.limit, page.offset), (3, offset));
        seen.extend(page.items);
        match page.next_offset {
            Some(next) => offset = next,
            None => break,
        }
    }
    assert_eq!(seen, rows);
    let past = Page::from_all(rows.clone(), 3, 9);
    assert!(past.items.is_empty() && past.next_offset.is_none());
    let exact = Page::from_all(rows, 7, 0);
    assert!(exact.next_offset.is_none());
    let huge = Page::from_all(vec![1], usize::MAX, usize::MAX);
    assert!(huge.items.is_empty());
}

#[test]
fn domains_are_listed_and_shown() {
    let page = list_domains(Ok(vec![domain("a"), domain("b")]), Some(1), None).unwrap();
    assert_eq!(page.data.items.len(), 1);
    assert_eq!(page.data.items[0].id, "a");
    assert_eq!(page.data.items[0].created_at, "1970-01-01T00:00:00Z");
    assert_eq!(page.data.next_offset, Some(1));
    assert_eq!(list_domains(Err("e".to_string()), None, None).unwrap_err().status, 500);
    let failure = create_domain(Some(NewDomain { id: "  ".to_string() })).unwrap_err();
    assert_eq!(failure.problem.detail.as_deref(), Some("domain id must not be empty"));
    assert_eq!(create_domain(Some(NewDomain { id: " x ".to_string() })).unwrap().id, "x");
    assert_eq!(create_domain(None).unwrap_err().status, 400);
    assert_eq!(create_domain(Some(NewDomain { id: "x".to_string() }))
        .unwrap()
        .stored(Err("e".to_string()))
        .unwrap_err()
        .status, 500);
    let patch = || Some(PatchDomain { note: Some("n".to_string()) });
    assert_eq!(patch_domain("a", patch(), Some(domain("a"))).unwrap().data.id, "a");
    assert_eq!(patch_domain("a", patch(), None).unwrap_err().status, 404);
    assert_eq!(patch_domain("a", None, Some(domain("a"))).unwrap_err().status, 400);
    assert_eq!(delete_domain("a", &None).unwrap_err().status, 404);
}

#[test]
fn mailboxes_are_created_in_their_domain() {
    let creation = create_mailbox(Some(NewMailbox {
        id: " Bob@Example.COM ".to_string(),
        domain_id: Some(" example.com ".to_string()),
        forward_to: Some("b@ext.com".to_string()),
    }))
    .unwrap();
    assert_eq!(creation.row.id, "bob@example.com");
    assert_eq!(creation.row.domain_id, "example.com");
    assert_eq!(creation.row.forward_to.as_deref(), Some("b@ext.com"));
    assert!(creation.looked_up(&None).is_ok());
    let failure = creation.looked_up(&Some(mailbox("bob@example.com"))).unwrap_err();
    assert_eq!(failure.status, 409);
    assert_eq!(creation.domain_looked_up(&None).as_deref(), Some("example.com"));
    assert_eq!(creation.domain_looked_up(&Some(domain("example.com"))), None);
    assert_eq!(creation.stored(Ok(mailbox("bob@example.com"))).unwrap().data.id, "bob@example.com");
    assert_eq!(creation.stored(Err("e".to_string())).unwrap_err().status, 500);

    let detail = |body: Option<NewMailbox>| create_mailbox(body).unwrap_err().problem.detail;
    assert_eq!(detail(new_mailbox("  ")).as_deref(), Some("email address must not be empty"));
    assert_eq!(
        detail(new_mailbox("bob")).as_deref(),
        Some("invalid email address (missing domain part)")
    );
    let other = Some(NewMailbox {
        id: "bob@example.com".to_string(),
        domain_id: Some("other.com".to_string()),
        forward_to: None,
    });
    assert_eq!(
        detail(other).as_deref(),
        Some("domain_id does not match the domain part of the address")
    );
    assert_eq!(detail(None).as_deref(), Some("Failed to parse request body"));
}

#[test]
fn mailboxes_are_changed_and_shown() {
    let patch = |domain_id: Option<&str>, forward_to: Option<&str>| {
        Some(PatchMailbox {
            domain_id: domain_id.map(str::to_string),
            note: None,
            forward_to: forward_to.map(str::to_string),
        })
    };
    let mut kept = mailbox("a@b.c");
    kept.forward_to = Some("old@x.y".to_string());
    let update = patch_mailbox("a@b.c", patch(None, None), Some(kept.clone())).unwrap();
    assert_eq!(update.row.forward_to.as_deref(), Some("old@x.y"));
    let update = patch_mailbox("a@b.c", patch(Some("B.C"), Some("new@x.y")), Some(kept)).unwrap();
    assert_eq!(update.row.forward_to.as_deref(), Some("new@x.y"));
    assert_eq!(update.row.domain_id, "b.c");
    assert_eq!(update.read_again(Some(mailbox("a@b.c"))).unwrap().data.id, "a@b.c");
    let failure = update.read_again(None).unwrap_err();
    assert_eq!(failure.problem.detail.as_deref(), Some("mailbox vanished after update"));
    let failure = patch_mailbox("a@b.c", patch(Some("z"), None), Some(mailbox("a@b.c"))).unwrap_err();
    assert_eq!(failure.status, 400);
    assert_eq!(patch_mailbox("a@b.c", patch(None, None), None).unwrap_err().status, 404);
    assert_eq!(patch_mailbox("a@b.c", None, Some(mailbox("a@b.c"))).unwrap_err().status, 400);

    assert_eq!(get_mailbox("a@b.c", Some(mailbox("a@b.c"))).unwrap().data.domain_id, "b.c");
    let failure = get_mailbox("a@b.c", None).unwrap_err();
    assert_eq!(failure.problem.detail.as_deref(), Some("mailbox 'a@b.c' not found"));
    assert!(delete_mailbox("a@b.c", &Some(mailbox("a@b.c"))).is_ok());
    assert_eq!(delete_mailbox("a@b.c", &None).unwrap_err().status, 404);
}

#[test]
fn mailboxes_are_listed_by_domain() {
    let rows = || Ok(vec![mailbox("a@x.com"), mailbox("b@y.com"), mailbox("c@x.com")]);
    let all = list_mailboxes(rows(), None, None, None).unwrap();
    assert_eq!(all.data.items.len(), 3);
    let some = list_mailboxes(rows(), Some("x.com".to_string()), None, Some(1)).unwrap();
    let ids: Vec<&str> = some.data.items.iter().map(|m| m.id.as_str()).collect();
    assert_eq!(ids, vec!["c@x.com"]);
    assert_eq!(list_mailboxes(Err("e".to_string()), None, None, None).unwrap_err().status, 500);
}

#[test]
fn messages_of_a_mailbox_are_united_by_id() {
    let key = "a@x.com";
    let inbounds =
        vec![inbound(9, key), inbound(3, key), inbound(9, key), inbound(5, "other@x.com")];
    let outbounds = vec![outbound(3, key), outbound(1, key), outbound(7, "other@x.com")];
    let pairs = |direction: MessageDirection| -> Vec<(u64, bool)> {
        load_mailbox_messages(key, direction, &inbounds, &outbounds)
            .iter()
            .map(|l| (l.message_id, l.sent))
            .collect()
    };
    assert_eq!(pairs(MessageDirection::Both), vec![(1, true), (3, true), (9, false)]);
    assert_eq!(pairs(MessageDirection::Inbound), vec![(3, false), (9, false)]);
    assert_eq!(pairs(MessageDirection::Outbound), vec![(1, true), (3, true)]);
}

#[test]
fn a_listing_is_made_in_steps() {
    let query = ListMessagesQuery {
        direction: Some(MessageDirection::Outbound),
        limit: Some(500),
        offset: None,
    };
    let listing = list_mailbox_messages("A@x.com", Some(query), None, None);
    assert_eq!((listing.limit, listing.offset), (MAX_PAGE_LIMIT, 0));
    assert_eq!(listing.direction, MessageDirection::Outbound);
    let listing = list_mailbox_messages("A@x.com", None, Some(1), Some(1));
    assert_eq!(listing.direction, MessageDirection::Both);
    assert_eq!(listing.key(), "a@x.com");
    assert!(listing.ensure_mailbox_exists(&Some(mailbox("a@x.com"))).is_ok());
    let failure = listing.ensure_mailbox_exists(&None).unwrap_err();
    assert_eq!(failure.problem.detail.as_deref(), Some("mailbox 'A@x.com' not found"));

    let links = listing
        .links(
            "a@x.com",
            Ok(vec![inbound(1, "a@x.com"), inbound(2, "a@x.com"), inbound(4, "a@x.com")]),
            Ok(vec![outbound(3, "a@x.com")]),
        )
        .unwrap();
    let found = vec![Some(message(1)), None, Some(message(3)), Some(message(4))];
    let page = listing.page(&links, &found);
    assert_eq!(page.data.items.len(), 1);
    assert_eq!(page.data.items[0].id, 3);
    assert_eq!(page.data.items[0].direction.as_deref(), Some("outbound"));
    assert_eq!(page.data.next_offset, Some(2));

    let failed = || Err("down".to_string());
    assert_eq!(listing.links("a", failed(), Ok(vec![])).unwrap_err().status, 500);
    assert_eq!(listing.links("a", Ok(vec![]), Err("down".to_string())).unwrap_err().status, 500);
    let inbox = list_mailbox_inbox("a@x.com", None, None);
    assert!(inbox.links("a@x.com", Ok(vec![]), Err("unread".to_string())).unwrap().is_empty());
    let sent = list_mailbox_sent("a@x.com", None, None);
    assert!(sent.links("a@x.com", failed(), Ok(vec![])).unwrap().is_empty());
}

#[test]
fn messages_are_shown_and_deleted_with_their_rows() {
    let shown = get_message(7, Some(message(7))).unwrap();
    assert_eq!(shown.data.subject.as_deref(), Some("Hi"));
    assert_eq!(shown.data.direction, None);
    assert_eq!(shown.data.updated_at, "1970-01-01T00:00:01Z");
    let failure = get_message(120, None).unwrap_err();
    assert_eq!(failure.problem.detail.as_deref(), Some("message '120' not found"));

    assert_eq!(delete_message(7, &None).unwrap_err().status, 404);
    let mut deletion = delete_message(7, &Some(message(7))).unwrap();
    assert_eq!(deletion.message_id, 7);
    assert_eq!(deletion.action(), DeletionStep::Inbounds);
    assert!(deletion.advance(Ok(())).is_none());
    assert_eq!(deletion.action(), DeletionStep::Outbounds);
    assert!(deletion.advance(Ok(())).is_none());
    assert_eq!(deletion.action(), DeletionStep::Message);
    assert!(deletion.advance(Ok(())).unwrap().unwrap().ok);

    let mut deletion = delete_message(7, &Some(message(7))).unwrap();
    assert_eq!(deletion.advance(Err("e".to_string())).unwrap().unwrap_err().status, 500);
    assert_eq!(deletion.action(), DeletionStep::Done);
}
