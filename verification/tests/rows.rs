use zonemail::api::{create_mailbox, NewMailbox};
use zonemail::app::{seed_from_config, seed_mailbox, SeedAction, SeedEvent};
use zonemail::config::{Config, MailboxEntry};
use zonemail::db::{Domain, Mailbox, MailboxError, Record, RecordDTO, RecordType};
use zonemail::email::ZonedMailHandler;
use zonemail::text::{
    contains_text, insert_ordered, joined, number_text, parse_octet, parse_u16, same_text,
    split_once, split_words, starts_with, text_precedes, to_ascii_lower, trim, trim_both,
    trim_leading, trim_trailing,
};
use zonemail::time::Timestamp;

fn record() -> RecordDTO {
    RecordDTO {
        domain_id: "example.com".to_string(),
        record_type: RecordType::A,
        value: "1.2.3.4".to_string(),
        ttl: 60,
    }
}

#[test]
fn mailbox_rows_know_their_domain() {
    let now = Timestamp { nanos: 5 };
    let m = Mailbox::new("user@domain.com".to_string(), now).unwrap();
    assert_eq!((m.id.as_str(), m.domain_id.as_str()), ("user@domain.com", "domain.com"));
    assert_eq!((m.created_at, m.updated_at), (now, now));
    assert_eq!(Mailbox::new("a@b@c".to_string(), now).unwrap().domain_id, "b");
    for bad in ["", "user", "user@"] {
        let e = Mailbox::try_from(bad).unwrap_err();
        assert_eq!(e, MailboxError::InvalidFormat, "{bad:?}");
        assert_eq!(e.message(), "Invalid email address format (missing domain)");
    }
    assert!(Mailbox::try_from("a@b".to_string()).unwrap().created_at.nanos > 0);
    assert_eq!(String::from(Mailbox::try_from(&"a@b".to_string()).unwrap()), "a@b");
}

#[test]
fn domain_and_record_rows() {
    assert_eq!(String::from(&Domain::from("a.b")), "a.b");
    assert_eq!(String::from(Domain::from("a.b".to_string())), "a.b");
    assert!(Domain::from(&"a.b".to_string()).created_at.nanos > 0);
    let row = Record::from(&record());
    assert_eq!((row.id, row.ttl), (0, 60));
    let back = RecordDTO::from(&row);
    assert_eq!(back.value, "1.2.3.4");
    assert_eq!(RecordDTO::from(Record::from(record())).domain_id, "example.com");
}

/// Run the seeding where nothing is there yet, or everything is.
fn seed(config: &Config, there: bool) -> Vec<String> {
    let mut seeding = seed_from_config(config);
    let mut log = Vec::new();
    loop {
        match seeding.action() {
            SeedAction::FindDomain(id) => {
                log.push(format!("find {id}"));
                seeding.advance(SeedEvent::Found(there));
            }
            SeedAction::StoreDomain(id) => {
                log.push(format!("domain {id}"));
                seeding.advance(SeedEvent::Stored(Ok(())));
            }
            SeedAction::FindMailbox(id) => {
                log.push(format!("find {id}"));
                seeding.advance(SeedEvent::Found(there));
            }
            SeedAction::StoreMailbox(row) => {
                log.push(format!("mailbox {} {} {:?}", row.id, row.domain_id, row.forward_to));
                seeding.advance(SeedEvent::Stored(Ok(())));
            }
            SeedAction::StoreRecord(dto) => {
                log.push(format!("record {}", dto.value));
                seeding.advance(SeedEvent::Stored(Ok(())));
            }
            SeedAction::Finish(outcome) => {
                log.push(format!("{outcome:?}"));
                return log;
            }
        }
    }
}

#[test]
fn seeding_stores_what_is_missing() {
    let mut config = Config::default();
    config.domains = vec!["example.com".to_string()];
    config.mailboxes = vec![
        MailboxEntry::Simple("User@Example.com".to_string()),
        MailboxEntry::Detailed {
            id: "fwd@example.com".to_string(),
            forward_to: Some("x@y.z".to_string()),
        },
        MailboxEntry::Simple("nonsense".to_string()),
    ];
    config.records = vec![record()];
    let log = seed(&config, false);
    assert!(log.contains(&"domain example.com".to_string()), "{log:?}");
    assert!(log.contains(&"mailbox user@example.com example.com None".to_string()), "{log:?}");
    assert!(log.contains(&"mailbox fwd@example.com example.com Some(\"x@y.z\")".to_string()));
    assert!(log.contains(&"record 1.2.3.4".to_string()));
    assert_eq!(log.last().map(String::as_str), Some("Ok(())"));
    let log = seed(&config, true);
    assert!(!log.iter().any(|l| l.starts_with("domain") || l.starts_with("mailbox")), "{log:?}");
    assert!(seed_mailbox(&MailboxEntry::Simple("nonsense".to_string())).is_none());
}

#[test]
fn seeding_stops_at_an_error() {
    let mut config = Config::default();
    config.domains = vec!["example.com".to_string()];
    let mut seeding = seed_from_config(&config);
    seeding.advance(SeedEvent::Found(false));
    seeding.advance(SeedEvent::Stored(Err("full".to_string())));
    match seeding.action() {
        SeedAction::Finish(outcome) => assert!(outcome.unwrap_err().contains("full")),
        _ => panic!("seeding goes on"),
    }
}

#[test]
fn white_space_is_that_of_the_standard_library() {
    for code in 0..=0x10ffffu32 {
        if let Some(c) = char::from_u32(code) {
            let s = c.to_string();
            assert_eq!(trim(&s).is_empty(), s.trim().is_empty(), "{code:x}");
        }
    }
    assert_eq!(trim(" \t a b \u{3000}\n"), "a b");
}

#[test]
fn texts_are_cut_and_compared() {
    assert!(same_text("a", "a") && !same_text("a", "b"));
    assert_eq!(to_ascii_lower("AbÄ"), "abÄ");
    assert_eq!(split_once("a@b@c", '@'), Some(("a".to_string(), "b@c".to_string())));
    assert_eq!(split_once("abc", '@'), None);
    assert!(starts_with("http://x", "http") && !starts_with("ht", "http"));
    assert_eq!(joined("a", "b"), "ab");
    assert_eq!(split_words("  a\tbc  d "), vec!["a", "bc", "d"]);
    assert_eq!(trim_leading("//a/", &vec!['/']), "a/");
    assert_eq!(trim_trailing("/a//", &vec!['/']), "/a");
    assert_eq!(trim_both("<a> ", &vec!['<', '>', ' ']), "a");
    assert!(contains_text(&vec!["x".to_string()], "x"));
}

#[test]
fn numbers_are_read_and_written() {
    for (text, want) in [("0", Some(0)), ("65535", Some(65535)), ("+7", Some(7)), ("007", Some(7))] {
        assert_eq!(parse_u16(text), want);
        assert_eq!(text.parse::<u16>().ok(), want);
    }
    for text in ["", "65536", "-1", " 1", "1a", "+", "99999999999999999999"] {
        assert_eq!(parse_u16(text), None);
        assert!(text.parse::<u16>().is_err());
    }
    assert_eq!(parse_octet("255"), Some(255));
    assert_eq!(parse_octet("256"), None);
    assert_eq!(number_text(0), "0");
    assert_eq!(number_text(u64::MAX), "18446744073709551615");
}

#[test]
fn texts_are_ordered_like_the_standard_library() {
    for (a, b) in [("a", "b"), ("a", "aa"), ("", "a"), ("Z", "a"), ("é", "z"), ("a", "a")] {
        assert_eq!(text_precedes(a, b), a < b, "{a} {b}");
    }
    let mut list = vec![];
    for s in ["b", "a", "c", "a"] {
        insert_ordered(&mut list, s.to_string());
    }
    assert_eq!(list, vec!["a", "b", "c"]);
}

#[test]
fn mail_finds_the_mailbox_however_it_is_written() {
    let seeded = seed_mailbox(&MailboxEntry::Simple("User@Example.com".to_string())).unwrap();
    let created = create_mailbox(Some(NewMailbox {
        id: " USER@example.com ".to_string(),
        domain_id: None,
        forward_to: None,
    }))
    .unwrap();
    let key = ZonedMailHandler::new().handle_rcpt("<uSeR@EXAMPLE.com>");
    assert_eq!(key, "user@example.com");
    assert_eq!(seeded.id, key);
    assert_eq!(created.row.id, key);
}
