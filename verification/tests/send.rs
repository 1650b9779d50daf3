use zonemail::db::{Outbound, OutboundStatus};
use zonemail::send::{
    backoff_delay, build_envelope, claim, deliver_hosts, drain_once, enqueue_forward,
    enqueue_outbound, envelope_with, err, fail_or_requeue, lookup_mx_hosts, mx_domain,
    reclaim_in_progress, BuiltMessage, MxHost, OutboundWorkerConfig,
};
use zonemail::time::{Duration, Timestamp};

const NOW: i128 = 1_700_000_000_000_000_000;

fn job(status: OutboundStatus, attempts: u64) -> Outbound {
    Outbound {
        id: 7,
        message_id: 3,
        rcpt_to: "bob@other.example".to_string(),
        sender_id: "alice@example.com".to_string(),
        status,
        attempts,
        next_attempt_at: None,
        last_error: None,
        created_at: Timestamp { nanos: NOW },
        updated_at: Timestamp { nanos: NOW },
    }
}

fn now() -> Timestamp {
    Timestamp { nanos: NOW }
}

#[test]
fn backoff_delay_doubles_and_caps() {
    let cfg = OutboundWorkerConfig::default();
    assert_eq!(backoff_delay(&cfg, 1).as_secs(), 60);
    assert_eq!(backoff_delay(&cfg, 2).as_secs(), 120);
    assert_eq!(backoff_delay(&cfg, 4).as_secs(), 480);
    assert_eq!(backoff_delay(&cfg, 64).as_secs(), 3600);
}

#[test]
fn submission_port_defaults_to_25_and_is_overridable() {
    assert_eq!(OutboundWorkerConfig::default().submission_port(), 25);
    assert_eq!(
        OutboundWorkerConfig::default().with_submission_port(1025).submission_port(),
        1025
    );
}

#[test]
fn fail_or_requeue_requeues_before_cap() {
    let mut job = job(OutboundStatus::InProgress, 0);
    fail_or_requeue(&mut job, &OutboundWorkerConfig::default(), now(), "transient");
    assert_eq!(job.status, OutboundStatus::Queued, "retried, still Queued");
    assert_eq!(job.attempts, 1, "one attempt recorded");
    assert_eq!(job.next_attempt_at, Some(Timestamp { nanos: NOW + 60_000_000_000 }));
    assert_eq!(job.last_error.as_deref(), Some("transient"));
}

#[test]
fn fail_or_requeue_marks_failed_at_cap() {
    let cap = OutboundWorkerConfig::default().max_attempts;
    let mut job = job(OutboundStatus::InProgress, cap);
    fail_or_requeue(&mut job, &OutboundWorkerConfig::default(), now(), "exhausted");
    assert_eq!(job.status, OutboundStatus::Failed, "terminal past the cap");
    assert!(job.next_attempt_at.is_none(), "no further attempts scheduled");
}

#[test]
fn reclaim_in_progress_requeues_stale_jobs() {
    let mut stale = job(OutboundStatus::InProgress, 2);
    stale.last_error = Some("crash".to_string());
    let mut rows = vec![stale, job(OutboundStatus::Delivered, 1)];
    reclaim_in_progress(&mut rows);
    assert_eq!(rows[0].status, OutboundStatus::Queued, "stale job reclaimed");
    assert!(rows[0].next_attempt_at.is_none());
    assert_eq!(rows[0].attempts, 2);
    assert_eq!(rows[1].status, OutboundStatus::Delivered);
}

#[test]
fn deliver_hosts_delivers_to_local_sink() {
    let cfg = OutboundWorkerConfig::default();
    let mut delivery = deliver_hosts(
        job(OutboundStatus::InProgress, 0),
        &cfg,
        now(),
        vec!["127.0.0.1".to_string()],
    );
    assert_eq!(delivery.host().map(String::as_str), Some("127.0.0.1"));
    let row = delivery.attempted(&cfg, now(), Ok("2.0.0 OK queued".to_string()));
    assert!(delivery.host().is_none());
    assert_eq!(delivery.job.status, OutboundStatus::Delivered, "job Delivered via sink");
    assert_eq!(delivery.job.attempts, 1, "one successful attempt");
    assert_eq!(row.code, Some(250), "recorded a 250 success code");
    assert_eq!((row.outbound_id, row.peer_host.as_str()), (7, "127.0.0.1"));
}

#[test]
fn deliver_hosts_requeues_when_port_refused() {
    let cfg = OutboundWorkerConfig::default();
    let mut delivery = deliver_hosts(
        job(OutboundStatus::InProgress, 0),
        &cfg,
        now(),
        vec!["127.0.0.1".to_string()],
    );
    let row = delivery.attempted(&cfg, now(), Err("connection refused".to_string()));
    assert!(row.code.is_none());
    assert_eq!(row.message.as_deref(), Some("connection refused"));
    assert_eq!(delivery.job.status, OutboundStatus::Queued, "refused delivery is retried");
    assert_eq!(delivery.job.attempts, 1, "one attempted delivery before re-queue");
    assert!(delivery.job.next_attempt_at.is_some(), "backoff scheduled for the retry");
    assert_eq!(
        delivery.job.last_error.as_deref(),
        Some("via 127.0.0.1: connection refused"),
        "failure reason recorded"
    );
}

#[test]
fn later_hosts_are_tried_after_earlier_ones_refuse() {
    let cfg = OutboundWorkerConfig::default();
    let hosts = vec!["mx1".to_string(), "mx2".to_string(), "mx3".to_string()];
    let mut delivery = deliver_hosts(job(OutboundStatus::InProgress, 0), &cfg, now(), hosts);
    let first = delivery.attempted(&cfg, now(), Err("down".to_string()));
    assert_eq!(first.peer_host, "mx1");
    assert_eq!(delivery.host().map(String::as_str), Some("mx2"));
    let second = delivery.attempted(&cfg, now(), Ok("ok".to_string()));
    assert_eq!(second.peer_host, "mx2");
    assert!(delivery.host().is_none());
    assert_eq!(delivery.job.attempts, 1);
    assert_eq!(delivery.job.status, OutboundStatus::Delivered);
}

#[test]
fn no_hosts_is_a_failed_attempt() {
    let cfg = OutboundWorkerConfig::default();
    let delivery = deliver_hosts(job(OutboundStatus::InProgress, 0), &cfg, now(), vec![]);
    assert!(delivery.host().is_none());
    assert_eq!(delivery.job.status, OutboundStatus::Queued);
    assert_eq!(delivery.job.last_error.as_deref(), Some("no MX records for domain"));
}

#[test]
fn a_job_is_claimed_once() {
    let held = claim(Some(job(OutboundStatus::Queued, 0))).expect("claimed");
    assert_eq!(held.status, OutboundStatus::InProgress);
    assert!(claim(Some(held)).is_none());
    assert!(claim(Some(job(OutboundStatus::Delivered, 1))).is_none());
    assert!(claim(None).is_none());
}

#[test]
fn due_jobs_are_drained_in_order() {
    let mut later = job(OutboundStatus::Queued, 1);
    later.id = 1;
    later.next_attempt_at = Some(Timestamp { nanos: NOW + 1 });
    let mut due = job(OutboundStatus::Queued, 1);
    due.id = 2;
    due.next_attempt_at = Some(now());
    let mut fresh = job(OutboundStatus::Queued, 0);
    fresh.id = 3;
    let mut held = job(OutboundStatus::InProgress, 0);
    held.id = 4;
    let rows = vec![fresh, held, later, due];
    assert_eq!(drain_once(&rows, now()), vec![2, 3]);
    assert_eq!(drain_once(&rows, Timestamp { nanos: NOW + 1 }), vec![1, 2, 3]);
    assert!(drain_once(&vec![], now()).is_empty());
}

#[test]
fn queued_messages_become_rows() {
    let raw = b"From: alice@example.com\r\nSubject: Hi\r\n\r\nbody\r\n".to_vec();
    let message =
        BuiltMessage { mail_from: Some("alice@example.com".to_string()), raw: raw.clone() };
    let queued = enqueue_outbound("alice@example.com", "bob@ext.com", message);
    assert_eq!(queued.message.mail_from, "alice@example.com");
    assert_eq!(queued.message.subject.as_deref(), Some("Hi"));
    assert_eq!(queued.message.raw, raw);
    let job = queued.message_stored(Ok(5)).unwrap();
    assert_eq!((job.message_id, job.attempts, job.status), (5, 0, OutboundStatus::Queued));
    assert_eq!((job.sender_id.as_str(), job.rcpt_to.as_str()), ("alice@example.com", "bob@ext.com"));
    assert_eq!(queued.job_stored(5, Ok(8)), Ok((5, 8)));
    assert_eq!(
        queued.message_stored(Err("full".to_string())).unwrap_err(),
        "failed to store outbound Message: full"
    );
    assert_eq!(
        queued.job_stored(5, Err("full".to_string())),
        Err("failed to enqueue Outbound: full".to_string())
    );
    let forward = enqueue_forward(4, "me@x.com", "you@y.com");
    assert_eq!((forward.message_id, forward.rcpt_to.as_str()), (4, "you@y.com"));
    assert_eq!(err("a", "b"), "a: b");
}

#[test]
fn envelopes_are_checked() {
    let e = build_envelope("alice@example.com", "bob@ext.com").unwrap();
    assert_eq!(e.from.as_deref(), Some("alice@example.com"));
    assert_eq!(e.to, vec!["bob@ext.com".to_string()]);
    let null = build_envelope("  ", "bob@ext.com").unwrap();
    assert!(null.from.is_none());
    assert!(build_envelope("alice@example.com", "not-an-email").is_err());
    assert!(build_envelope("not-an-email", "bob@ext.com").is_err());
    assert!(envelope_with("a@b", "c@d", Ok(()), Err("bad".to_string())).is_err());
}

#[test]
fn mail_hosts_are_sorted() {
    assert_eq!(mx_domain("bob@ext.com"), "ext.com");
    let host = |preference: u16, exchange: &str| MxHost {
        preference,
        exchange: exchange.to_string(),
    };
    assert_eq!(
        lookup_mx_hosts(vec![host(20, "c.example."), host(10, "a.example."), host(20, "b.example.")]),
        vec!["a.example".to_string(), "c.example".to_string(), "b.example".to_string()]
    );
}

#[test]
fn spans_hold_seconds() {
    assert_eq!(Duration::from_secs(90).as_secs(), 90);
}
