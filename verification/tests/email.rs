use zonemail::db::{Mailbox, OutboundStatus};
use zonemail::email::{
    address_list_to_strings, address_to_string, incoming_message, message_with, outgoing_message,
    received_with, Addr, Address, Group, Intake, IntakeAction, IntakeEvent, MailAddresses,
    MailHeaders, MailTexts, SmtpReply, ZonedMailHandler,
};
use zonemail::time::Timestamp;

fn addr(address: Option<&str>) -> Addr {
    Addr { address: address.map(str::to_string) }
}

fn sample_message() -> Vec<u8> {
    b"Date: Mon, 1 Jan 2024 00:00:00 +0000\r\n\
      From: Alice Smith <alice@example.com>\r\n\
      To: Bob Jones <bob@ext.com>\r\n\
      Subject: Hello world\r\n\
      Message-ID: <1234@example.com>\r\n\
      Content-Type: text/plain; charset=utf-8\r\n\
      \r\n\
      A short body.\r\n"
        .to_vec()
}

fn mailbox(id: &str, forward_to: Option<&str>) -> Mailbox {
    let mut mailbox = Mailbox::new(id.to_string(), Timestamp { nanos: 0 }).unwrap();
    mailbox.forward_to = forward_to.map(str::to_string);
    mailbox
}

#[test]
fn parse_extracts_from_subject_and_message_id() {
    let msg = incoming_message(sample_message());
    assert_eq!(msg.from_address.as_deref(), Some("alice@example.com"));
    assert_eq!(msg.mail_from, "alice@example.com");
    assert_eq!(msg.subject.as_deref(), Some("Hello world"));
    assert_eq!(msg.message_id_header.as_deref(), Some("1234@example.com"));
}

#[test]
fn parse_extracts_content_type() {
    let msg = incoming_message(sample_message());
    let ct = msg.content_type.expect("content-type parsed");
    let (kind, rest) = ct.trim().split_once('/').expect("type and subtype");
    assert_eq!(kind, "text");
    assert_eq!(rest.split(';').next(), Some("plain"));
}

#[test]
fn multiple_to_recipients_preserved_in_order() {
    let raw = b"From: a@x.com\r\nTo: b@ext.com, Carol <c@ext.com>, d@ext.com\r\n\r\nbody\r\n".to_vec();
    assert_eq!(
        incoming_message(raw).to,
        vec!["b@ext.com".to_string(), "c@ext.com".to_string(), "d@ext.com".to_string()],
    );
}

#[test]
fn missing_subject_is_none() {
    let raw = b"From: a@x.com\r\nTo: b@ext.com\r\n\r\nonly a body\r\n".to_vec();
    assert!(incoming_message(raw).subject.is_none());
}

#[test]
fn address_to_string_is_empty_when_only_a_display_name() {
    let value = Address::List(vec![addr(None)]);
    assert_eq!(address_to_string(&value), "");
    assert!(address_list_to_strings(&value).is_empty());
}

#[test]
fn address_list_flattens_groups() {
    let value = Address::Group(vec![Group {
        addresses: vec![addr(Some("m1@team.com")), addr(Some("m2@team.com"))],
    }]);
    assert_eq!(
        address_list_to_strings(&value),
        vec!["m1@team.com".to_string(), "m2@team.com".to_string()],
    );
    assert_eq!(address_to_string(&value), "m1@team.com");
}

#[test]
fn empty_list_yields_no_addresses() {
    let value = Address::List(Vec::new());
    assert!(address_list_to_strings(&value).is_empty());
    assert_eq!(address_to_string(&value), "");
}

#[test]
fn payload_is_kept_where_nothing_can_be_read() {
    let row = message_with("x@y.z".to_string(), vec![0, 255, 7], None);
    assert_eq!(row.raw, vec![0, 255, 7]);
    assert_eq!(row.mail_from, "x@y.z");
    assert!(row.subject.is_none() && row.to.is_empty());
    let row = outgoing_message("bounce@y.z".to_string(), sample_message());
    assert_eq!(row.mail_from, "bounce@y.z");
    assert_eq!(row.raw, sample_message());
    assert_eq!(row.to, vec!["bob@ext.com".to_string()]);
    assert!(row.cc.is_empty() && row.bcc.is_empty());
}

#[test]
fn only_the_headers_are_read() {
    let raw = b"From: a@x.com\r\nCc: c@x.com\r\nBcc: Team: d@x.com, e@x.com;\r\n\
        Content-Type: message/rfc822\r\n\r\nSubject: inner\r\n\r\nbody\r\n"
        .to_vec();
    let row = incoming_message(raw);
    assert!(row.subject.is_none());
    assert_eq!(row.cc, vec!["c@x.com".to_string()]);
    assert_eq!(row.bcc, vec!["d@x.com".to_string(), "e@x.com".to_string()]);
    let row = incoming_message(b"Subject: no body\r\n".to_vec());
    assert_eq!(row.subject.as_deref(), Some("no body"));
    assert_eq!(incoming_message(vec![]).mail_from, "");
    let raw = b"Received: from a; 1 Jan 2024 0:0:0 -9223372036854775808\r\n\
        Content-Type: text/plain;\r\n\tcharset=utf-8\r\nSubject: =?utf-8?q?a=20b?=\r\n\r\n"
        .to_vec();
    let row = incoming_message(raw);
    assert_eq!(row.subject.as_deref(), Some("a b"));
    assert_eq!(row.content_type.as_deref(), Some(" text/plain;\r\n\tcharset=utf-8\r\n"));

    let from = Some(Address::List(vec![addr(Some("f@x.com"))]));
    let headers = MailHeaders {
        addresses: MailAddresses { from, to: None, cc: None, bcc: None },
        texts: MailTexts {
            subject: Some("s".to_string()),
            message_id: Some("m".to_string()),
            content_type: None,
        },
    };
    let row = received_with(vec![1], Some(headers.clone()));
    assert_eq!((row.mail_from.as_str(), row.subject.as_deref()), ("f@x.com", Some("s")));
    assert_eq!(row.from_address.as_deref(), Some("f@x.com"));
    let row = message_with("b@x.com".to_string(), vec![1], Some(headers));
    assert_eq!((row.mail_from.as_str(), row.message_id_header.as_deref()), ("b@x.com", Some("m")));
    assert!(received_with(vec![1], None).mail_from.is_empty());
}

#[test]
fn only_provisioned_recipients_are_accepted() {
    let mut handler = ZonedMailHandler::new();
    let key = handler.handle_rcpt(" <Bob@Example.COM> ");
    assert_eq!(key, "bob@example.com");
    assert_eq!(handler.rcpt_checked(key.clone(), false), SmtpReply::Abort);
    assert!(handler.recipients.is_empty());
    assert_eq!(handler.rcpt_checked(key, true), SmtpReply::Accept);
    assert_eq!(handler.recipients, vec!["bob@example.com".to_string()]);
}

/// Run an intake on answers, and tell what it did.
fn run(mut intake: Intake, known: Option<u64>, linked: bool, forward: Option<&str>) -> Vec<String> {
    let mut log = Vec::new();
    loop {
        match intake.action() {
            IntakeAction::FindMessage(id) => {
                log.push(format!("find {id}"));
                intake.advance(IntakeEvent::MessageFound(known));
            }
            IntakeAction::StoreMessage => {
                log.push("store".to_string());
                intake.advance(IntakeEvent::MessageStored(Some(9)));
            }
            IntakeAction::StoreInbound(row) => {
                log.push(format!("link {} {}", row.message_id, row.rcpt_to));
                intake.advance(IntakeEvent::InboundStored(linked));
            }
            IntakeAction::FindMailbox(id) => {
                log.push(format!("mailbox {id}"));
                intake.advance(IntakeEvent::MailboxFound(Some(mailbox(&id, forward))));
            }
            IntakeAction::Enqueue(job) => {
                assert_eq!(job.status, OutboundStatus::Queued);
                log.push(format!("job {} {} {}", job.message_id, job.sender_id, job.rcpt_to));
                intake.advance(IntakeEvent::ForwardQueued(false));
            }
            IntakeAction::Reply(reply) => {
                log.push(format!("{reply:?}"));
                return log;
            }
        }
    }
}

fn intake(recipients: &[&str]) -> Intake {
    let mut handler = ZonedMailHandler::new();
    for r in recipients {
        handler.rcpt_checked(r.to_string(), true);
    }
    let intake = handler.handle_email(sample_message());
    assert!(handler.recipients.is_empty());
    intake
}

#[test]
fn new_message_is_stored_and_linked() {
    assert_eq!(
        run(intake(&["b@x.com", "c@x.com"]), None, true, None),
        vec![
            "find 1234@example.com",
            "store",
            "link 9 b@x.com",
            "link 9 c@x.com",
            "mailbox b@x.com",
            "mailbox c@x.com",
            "Accept",
        ]
    );
}

#[test]
fn known_message_is_linked_but_not_stored_again() {
    let log = run(intake(&["b@x.com"]), Some(4), true, None);
    assert!(!log.contains(&"store".to_string()));
    assert!(log.contains(&"link 4 b@x.com".to_string()));
}

#[test]
fn forwarded_mailbox_gets_a_job() {
    let log = run(intake(&["b@x.com"]), None, true, Some("b@gmail.com"));
    assert!(log.contains(&"job 9 b@x.com b@gmail.com".to_string()), "{log:?}");
    assert_eq!(log.last().map(String::as_str), Some("Accept"));
}

#[test]
fn lost_link_is_refused() {
    let log = run(intake(&["b@x.com", "c@x.com"]), None, false, None);
    assert_eq!(log.last().map(String::as_str), Some("Abort"));
}
