//! Outbound mail: a queue of delivery jobs and the worker that drains it.
//!
//! Accepting a message only stores it with a queued job. The worker claims the
//! jobs that are due, tries the mail hosts of the recipient in order, records
//! every attempt, and ends each job as delivered, queued again or failed.
use vstd::prelude::*;
use vstd::arithmetic::power2;
use crate::db;
use crate::db::{NewDeliveryStatus, NewMessage, NewOutbound, Outbound, OutboundStatus};
use crate::email;
use crate::email::outgoing_message;
use crate::text;
use crate::text::{joined, split_once, trim, trim_trailing};
use crate::time::{Duration, Timestamp};

verus! {

/// The port for a handover from one mail host to another.
pub const SUBMISSION_PORT: u16 = 25;

/// An error text with what was being done before it.
pub fn err(prefix: &str, e: &str) -> (out: String)
    ensures
        out@ == prefix@ + ": "@ + e@,
{
    let head = joined(prefix, ": ");
    joined(head.as_str(), e)
}

// ---------------------------------------------------------------------------
// Configuration of the worker
// ---------------------------------------------------------------------------

/// How the outbound worker behaves.
#[derive(Debug, Clone, Copy)]
pub struct OutboundWorkerConfig {
    /// How often the worker looks for due jobs.
    pub poll_interval: Duration,
    /// A job that has been tried this often is given up at the next failure.
    pub max_attempts: u64,
    /// The wait before the first retry; each further retry doubles it.
    pub base_backoff: Duration,
    /// The longest wait before a retry.
    pub max_backoff: Duration,
    /// The port dialed on a mail host.
    pub submission_port: u16,
}

impl OutboundWorkerConfig {
    /// The same configuration with another port, so that mail can be sent to a
    /// relay or a sink.
    pub fn with_submission_port(self, port: u16) -> (out: OutboundWorkerConfig)
        ensures
            out == (OutboundWorkerConfig { submission_port: port, ..self }),
    {
        OutboundWorkerConfig {
            poll_interval: self.poll_interval,
            max_attempts: self.max_attempts,
            base_backoff: self.base_backoff,
            max_backoff: self.max_backoff,
            submission_port: port,
        }
    }

    /// The port that the worker dials on a mail host.
    pub fn submission_port(&self) -> (out: u16)
        ensures
            out == self.submission_port,
    {
        self.submission_port
    }
}

impl Default for OutboundWorkerConfig {
    fn default() -> (out: OutboundWorkerConfig)
        ensures
            out == (OutboundWorkerConfig {
                poll_interval: Duration { secs: 5 },
                max_attempts: 8,
                base_backoff: Duration { secs: 60 },
                max_backoff: Duration { secs: 3_600 },
                submission_port: 25,
            }),
    {
        OutboundWorkerConfig {
            poll_interval: Duration::from_secs(5),
            max_attempts: 8,
            base_backoff: Duration::from_secs(60),
            max_backoff: Duration::from_secs(3_600),
            submission_port: SUBMISSION_PORT,
        }
    }
}

/// How often the wait has doubled before attempt `attempts` is repeated.
pub open spec fn doublings(attempts: int) -> nat {
    if attempts <= 1 {
        0
    } else if attempts >= 63 {
        62
    } else {
        (attempts - 1) as nat
    }
}

/// The seconds to wait after `attempts` attempts: the base, doubled for each
/// attempt after the first, and at most the cap.
pub open spec fn backoff_secs(config: OutboundWorkerConfig, attempts: int) -> int {
    let full = config.base_backoff.secs * power2::pow2(doublings(attempts));
    if full <= config.max_backoff.secs {
        full as int
    } else {
        config.max_backoff.secs as int
    }
}

/// How long to wait after `attempts` attempts.
pub fn backoff_delay(config: &OutboundWorkerConfig, attempts: u64) -> (out: Duration)
    ensures
        out.secs == backoff_secs(*config, attempts as int),
{
    let earlier: u64 = attempts.saturating_sub(1);
    let shift: u64 = if earlier < 62 {
        earlier
    } else {
        62
    };
    proof {
        vstd::bits::lemma_u64_pow2_no_overflow(shift as nat);
        vstd::bits::lemma_u64_shl_is_mul(1, shift);
    }
    let multiplier: u64 = 1u64 << shift;
    assert(multiplier == power2::pow2(doublings(attempts as int)));
    let cap: u64 = config.max_backoff.as_secs();
    match config.base_backoff.as_secs().checked_mul(multiplier) {
        Some(seconds) => if seconds <= cap {
            Duration::from_secs(seconds)
        } else {
            Duration::from_secs(cap)
        },
        None => Duration::from_secs(cap),
    }
}

// ---------------------------------------------------------------------------
// Jobs
// ---------------------------------------------------------------------------

/// A fresh job: waiting, never tried, due at once.
pub open spec fn queued_job(
    message_id: u64,
    sender_id: Seq<char>,
    rcpt_to: Seq<char>,
) -> db::NewOutboundView {
    db::NewOutboundView {
        message_id,
        rcpt_to,
        sender_id,
        status: OutboundStatus::Queued,
        attempts: 0,
        next_attempt_at: None,
        last_error: None,
    }
}

/// The job that delivers the stored message `message_id` to `forward_to`. The
/// sender is the provisioned address that received the message.
pub fn enqueue_forward(message_id: u64, sender_id: &str, forward_to: &str) -> (out: NewOutbound)
    ensures
        out@ == queued_job(message_id, sender_id@, forward_to@),
{
    NewOutbound {
        message_id,
        rcpt_to: forward_to.to_owned(),
        sender_id: sender_id.to_owned(),
        status: OutboundStatus::Queued,
        attempts: 0,
        next_attempt_at: None,
        last_error: None,
    }
}

/// A message as it will be transmitted, with the sender of its envelope.
#[derive(Debug, Clone)]
pub struct BuiltMessage {
    pub mail_from: Option<String>,
    pub raw: Vec<u8>,
}

/// A message on its way into the queue for one recipient.
#[derive(Debug, Clone)]
pub struct Enqueue {
    pub sender: String,
    pub recipient: String,
    /// The row to store first.
    pub message: NewMessage,
}

/// The sender of an envelope as it is stored: empty where there is none.
pub open spec fn envelope_sender(mail_from: Option<Seq<char>>) -> Seq<char> {
    match mail_from {
        Some(from) => from,
        None => Seq::empty(),
    }
}

/// Begin to queue `message` from `sender`, which is a provisioned mailbox, to
/// `recipient`. Nothing is sent; the message is stored with its headers, and
/// then the job for it.
pub fn enqueue_outbound(sender: &str, recipient: &str, message: BuiltMessage) -> (out: Enqueue)
    requires
        message.raw@.len() <= u32::MAX,
    ensures
        out.sender@ == sender@,
        out.recipient@ == recipient@,
        out.message@ == email::message_row(
            envelope_sender(text::view_of(message.mail_from)),
            message.raw@,
            email::parsed_headers(message.raw@),
        ),
{
    let mail_from = match message.mail_from {
        Some(from) => from,
        None => String::new(),
    };
    Enqueue {
        sender: sender.to_owned(),
        recipient: recipient.to_owned(),
        message: outgoing_message(mail_from, message.raw),
    }
}

impl Enqueue {
    /// The job to store once the message was stored, or the error.
    pub fn message_stored(&self, stored: Result<u64, String>) -> (out: Result<NewOutbound, String>)
        ensures
            (match (stored, out) {
                (Ok(id), Ok(job)) => job@ == queued_job(id, self.sender@, self.recipient@),
                (Err(e), Err(text)) => text@ == "failed to store outbound Message"@ + ": "@ + e@,
                _ => false,
            }),
    {
        match stored {
            Ok(id) => Ok(enqueue_forward(id, self.sender.as_str(), self.recipient.as_str())),
            Err(e) => Err(err("failed to store outbound Message", e.as_str())),
        }
    }

    /// The ids of the message and of the job once the job was stored, or the
    /// error.
    pub fn job_stored(&self, message_id: u64, stored: Result<u64, String>) -> (out: Result<
        (u64, u64),
        String,
    >)
        ensures
            (match (stored, out) {
                (Ok(id), Ok(ids)) => ids == (message_id, id),
                (Err(e), Err(text)) => text@ == "failed to enqueue Outbound"@ + ": "@ + e@,
                _ => false,
            }),
    {
        match stored {
            Ok(id) => Ok((message_id, id)),
            Err(e) => Err(err("failed to enqueue Outbound", e.as_str())),
        }
    }
}

// ---------------------------------------------------------------------------
// The worker
// ---------------------------------------------------------------------------

/// The job after a worker that went away without ending it: waiting again, due
/// at once, with its attempts unchanged. A job that nobody holds is unchanged.
pub open spec fn reclaimed(job: db::OutboundView) -> db::OutboundView {
    if job.status == OutboundStatus::InProgress {
        db::OutboundView {
            status: OutboundStatus::Queued,
            next_attempt_at: None,
            last_error: None,
            ..job
        }
    } else {
        job
    }
}

/// Put every job that an earlier cycle left in progress back into the queue.
pub fn reclaim_in_progress(rows: &mut Vec<Outbound>)
    ensures
        final(rows)@.len() == old(rows)@.len(),
        forall|i: int|
            0 <= i < old(rows)@.len() ==> (#[trigger] final(rows)@[i])@ == reclaimed(
                old(rows)@[i]@,
            ),
{
    let ghost before = rows@;
    let mut i: usize = 0;
    while i < rows.len()
        invariant
            i <= rows.len(),
            rows@.len() == before.len(),
            forall|k: int| 0 <= k < i ==> (#[trigger] rows@[k])@ == reclaimed(before[k]@),
            forall|k: int| i <= k < before.len() ==> #[trigger] rows@[k] == before[k],
        decreases rows.len() - i,
    {
        if rows[i].status == OutboundStatus::InProgress {
            let job = &mut rows[i];
            job.status = OutboundStatus::Queued;
            job.next_attempt_at = None;
            job.last_error = None;
        }
        i += 1;
    }
}

/// Whether a job is waiting and may be tried at `now`.
pub open spec fn is_due(job: db::OutboundView, now: Timestamp) -> bool {
    &&& job.status == OutboundStatus::Queued
    &&& job.next_attempt_at matches Some(next) ==> next.nanos <= now.nanos
}

/// The ids of the jobs of `rows` that are due, in the order of the rows.
pub open spec fn due_ids(rows: Seq<Outbound>, now: Timestamp) -> Seq<u64>
    decreases rows.len(),
{
    if rows.len() == 0 {
        Seq::empty()
    } else {
        let front = due_ids(rows.drop_last(), now);
        if is_due(rows.last()@, now) {
            front.push(rows.last().id)
        } else {
            front
        }
    }
}

/// No id comes before a smaller one. Ids are given out in the order in which
/// jobs are queued, so jobs in this order are first come first served.
pub open spec fn in_order(ids: Seq<u64>) -> bool {
    forall|i: int, j: int| 0 <= i <= j < ids.len() ==> ids[i] <= ids[j]
}

/// Put an id in its place among others that are in order.
fn insert_in_order(ids: &mut Vec<u64>, id: u64)
    requires
        in_order(old(ids)@),
    ensures
        in_order(final(ids)@),
        final(ids)@.to_multiset() == old(ids)@.to_multiset().insert(id),
{
    let mut at: usize = ids.len();
    while at > 0 && ids[at - 1] > id
        invariant
            at <= ids.len(),
            forall|k: int| at <= k < ids.len() ==> #[trigger] ids@[k] > id,
        decreases at,
    {
        at -= 1;
    }
    proof {
        vstd::seq_lib::to_multiset_insert(ids@, at as int, id);
    }
    ids.insert(at, id);
}

/// The waiting jobs that a worker tries to claim at `now`: those that are due,
/// first come first served.
pub fn drain_once(rows: &Vec<Outbound>, now: Timestamp) -> (out: Vec<u64>)
    ensures
        in_order(out@),
        out@.to_multiset() == due_ids(rows@, now).to_multiset(),
        forall|i: int|
            0 <= i < rows@.len() && (#[trigger] rows@[i]).status == OutboundStatus::Queued && (
            match rows@[i].next_attempt_at {
                Some(next) => next.nanos <= now.nanos,
                None => true,
            }) ==> out@.contains(rows@[i].id),
        forall|id: u64| #[trigger]
            out@.contains(id) ==> exists|i: int|
                0 <= i < rows@.len() && (#[trigger] rows@[i]).id == id && rows@[i].status
                    == OutboundStatus::Queued && (match rows@[i].next_attempt_at {
                    Some(next) => next.nanos <= now.nanos,
                    None => true,
                }),
{
    let mut out: Vec<u64> = Vec::new();
    let mut i: usize = 0;
    while i < rows.len()
        invariant
            i <= rows.len(),
            in_order(out@),
            out@.to_multiset() == due_ids(rows@.take(i as int), now).to_multiset(),
        decreases rows.len() - i,
    {
        assert(rows@.take(i + 1).drop_last() == rows@.take(i as int));
        let waits = rows[i].status == OutboundStatus::Queued;
        let due = match rows[i].next_attempt_at {
            Some(next) => next.nanos <= now.nanos,
            None => true,
        };
        if waits && due {
            proof {
                vstd::seq_lib::to_multiset_build(due_ids(rows@.take(i as int), now), rows@[i as int].id);
            }
            insert_in_order(&mut out, rows[i].id);
        }
        i += 1;
    }
    assert(rows@.take(rows@.len() as int) == rows@);
    proof {
        law_what_waits_and_is_due_is_drained(rows@, now, out@);
    }
    out
}

/// The job after a worker claimed it, where it can be claimed.
pub open spec fn claimed(job: db::OutboundView) -> Option<db::OutboundView> {
    if job.status == OutboundStatus::Queued {
        Some(db::OutboundView { status: OutboundStatus::InProgress, ..job })
    } else {
        None
    }
}

/// Claim the job that was read under the write lock. `None` where the row is
/// gone or where somebody else has claimed it.
pub fn claim(job: Option<Outbound>) -> (out: Option<Outbound>)
    ensures
        (match (job, out) {
            (Some(j), Some(c)) => claimed(j@) == Some(c@),
            (Some(j), None) => claimed(j@) is None,
            (None, Some(_)) => false,
            (None, None) => true,
        }),
{
    match job {
        Some(mut job) => if job.status == OutboundStatus::Queued {
            job.status = OutboundStatus::InProgress;
            Some(job)
        } else {
            None
        },
        None => None,
    }
}

/// The instant after the wait that follows `attempts` attempts can be told.
pub open spec fn retry_fits(config: OutboundWorkerConfig, now: Timestamp, attempts: int) -> bool {
    &&& now.wf()
    &&& attempts <= config.max_attempts ==> {
        &&& backoff_secs(config, attempts) <= crate::time::MAX_SPAN_SECONDS
        &&& now.nanos + backoff_secs(config, attempts) * crate::time::NANOS_PER_SECOND
            <= crate::time::MAX_NANOS
    }
}

/// The job after one more attempt failed for `reason`: given up for good where
/// that was the attempt after the last allowed one, else waiting again with a
/// backoff.
pub open spec fn after_failure(
    job: db::OutboundView,
    config: OutboundWorkerConfig,
    now: Timestamp,
    reason: Seq<char>,
) -> db::OutboundView {
    let attempts = job.attempts + 1;
    if attempts > config.max_attempts {
        db::OutboundView {
            status: OutboundStatus::Failed,
            attempts: attempts as u64,
            next_attempt_at: None,
            last_error: Some(reason),
            ..job
        }
    } else {
        db::OutboundView {
            status: OutboundStatus::Queued,
            attempts: attempts as u64,
            next_attempt_at: Some(
                Timestamp {
                    nanos: (now.nanos + backoff_secs(config, attempts)
                        * crate::time::NANOS_PER_SECOND) as i128,
                },
            ),
            last_error: Some(reason),
            ..job
        }
    }
}

/// Count one more failed attempt, and queue the job again with a backoff or
/// give it up.
pub fn fail_or_requeue(
    outbound: &mut Outbound,
    config: &OutboundWorkerConfig,
    now: Timestamp,
    reason: &str,
)
    requires
        old(outbound).attempts < u64::MAX,
        retry_fits(*config, now, old(outbound).attempts + 1),
    ensures
        final(outbound)@ == after_failure(old(outbound)@, *config, now, reason@),
{
    let attempts: u64 = outbound.attempts + 1;
    outbound.attempts = attempts;
    outbound.last_error = Some(reason.to_owned());
    if attempts > config.max_attempts {
        outbound.status = OutboundStatus::Failed;
        outbound.next_attempt_at = None;
    } else {
        let delay = backoff_delay(config, attempts);
        outbound.status = OutboundStatus::Queued;
        outbound.next_attempt_at = Some(now.plus_seconds(delay.as_secs()));
    }
}

// ---------------------------------------------------------------------------
// One delivery
// ---------------------------------------------------------------------------

/// The delivery of one claimed job to a list of mail hosts, best first.
#[derive(Debug, Clone)]
pub struct Delivery {
    /// The job as it has to be stored once the delivery is over.
    pub job: Outbound,
    pub hosts: Vec<String>,
    /// The host to try next.
    pub next: usize,
    /// Whether the delivery is over.
    pub done: bool,
}

/// What a [`Delivery`] holds.
#[verifier::ext_equal]
pub struct DeliveryView {
    pub job: db::OutboundView,
    pub hosts: Seq<Seq<char>>,
    pub next: int,
    pub done: bool,
}

impl View for Delivery {
    type V = DeliveryView;

    open spec fn view(&self) -> DeliveryView {
        DeliveryView {
            job: self.job@,
            hosts: text::views(self.hosts@),
            next: self.next as int,
            done: self.done,
        }
    }
}

/// What came of one attempt: the answer of the host, or why there was none.
pub enum AttemptView {
    Accepted(Seq<char>),
    Refused(Seq<char>),
}

/// What a `Result` says of an attempt.
pub open spec fn attempt_view(outcome: Result<String, String>) -> AttemptView {
    match outcome {
        Ok(response) => AttemptView::Accepted(response@),
        Err(e) => AttemptView::Refused(e@),
    }
}

/// The reason that is kept of a failed attempt at `host`.
pub open spec fn host_error(host: Seq<char>, e: Seq<char>) -> Seq<char> {
    "via "@ + host + ": "@ + e
}

/// The job after it was handed over.
pub open spec fn after_success(job: db::OutboundView) -> db::OutboundView {
    db::OutboundView {
        status: OutboundStatus::Delivered,
        attempts: (job.attempts + 1) as u64,
        next_attempt_at: None,
        last_error: None,
        ..job
    }
}

/// The record of an attempt at `host`: code 250 where the host accepted, no
/// code where it did not, and its words or the error.
pub open spec fn attempt_row(
    outbound_id: u64,
    host: Seq<char>,
    outcome: AttemptView,
) -> db::NewDeliveryStatusView {
    db::NewDeliveryStatusView {
        outbound_id,
        peer_host: host,
        code: match outcome {
            AttemptView::Accepted(_) => Some(250),
            AttemptView::Refused(_) => None,
        },
        message: match outcome {
            AttemptView::Accepted(words) => Some(words),
            AttemptView::Refused(words) => Some(words),
        },
    }
}

impl DeliveryView {
    /// While the delivery is not over there is a host to try, and the attempt
    /// can be counted.
    pub open spec fn wf(self) -> bool {
        !self.done ==> 0 <= self.next < self.hosts.len() && self.job.attempts < u64::MAX
    }

    /// The delivery of `job` before the first attempt. Without a host the job
    /// fails at once.
    pub open spec fn start(
        job: db::OutboundView,
        config: OutboundWorkerConfig,
        now: Timestamp,
        hosts: Seq<Seq<char>>,
    ) -> DeliveryView {
        if hosts.len() == 0 {
            DeliveryView {
                job: after_failure(job, config, now, "no MX records for domain"@),
                hosts,
                next: 0,
                done: true,
            }
        } else {
            DeliveryView { job, hosts, next: 0, done: false }
        }
    }

    /// The delivery after the attempt at the next host: over where the host
    /// accepted or was the last one.
    pub open spec fn after(
        self,
        config: OutboundWorkerConfig,
        now: Timestamp,
        outcome: AttemptView,
    ) -> DeliveryView {
        match outcome {
            AttemptView::Accepted(_) => DeliveryView {
                job: after_success(self.job),
                done: true,
                ..self
            },
            AttemptView::Refused(e) => if self.next + 1 < self.hosts.len() {
                DeliveryView { next: self.next + 1, ..self }
            } else {
                DeliveryView {
                    job: after_failure(
                        self.job,
                        config,
                        now,
                        host_error(self.hosts[self.next], e),
                    ),
                    done: true,
                    ..self
                }
            },
        }
    }
}

/// Begin to deliver a claimed job to `hosts`, best first. What to do is told by
/// [`Delivery::host`]; each attempt is reported by [`Delivery::attempted`].
pub fn deliver_hosts(
    outbound: Outbound,
    config: &OutboundWorkerConfig,
    now: Timestamp,
    hosts: Vec<String>,
) -> (out: Delivery)
    requires
        outbound.attempts < u64::MAX,
        retry_fits(*config, now, outbound.attempts + 1),
    ensures
        out@ == DeliveryView::start(outbound@, *config, now, text::views(hosts@)),
        out@.wf(),
{
    if hosts.len() == 0 {
        let mut job = outbound;
        fail_or_requeue(&mut job, config, now, "no MX records for domain");
        Delivery { job, hosts, next: 0, done: true }
    } else {
        Delivery { job: outbound, hosts, next: 0, done: false }
    }
}

impl Delivery {
    /// The host to try next; `None` once the delivery is over and the job has
    /// to be stored.
    pub fn host(&self) -> (out: Option<&String>)
        requires
            self@.wf(),
        ensures
            (match out {
                Some(h) => !self.done && h@ == self@.hosts[self@.next],
                None => self.done,
            }),
    {
        if self.done {
            None
        } else {
            Some(&self.hosts[self.next])
        }
    }

    /// Go on after the attempt at the next host. What is returned has to be
    /// stored as the record of that attempt.
    pub fn attempted(
        &mut self,
        config: &OutboundWorkerConfig,
        now: Timestamp,
        outcome: Result<String, String>,
    ) -> (row: NewDeliveryStatus)
        requires
            old(self)@.wf(),
            !old(self).done,
            retry_fits(*config, now, old(self).job.attempts + 1),
        ensures
            final(self)@ == old(self)@.after(*config, now, attempt_view(outcome)),
            final(self)@.wf(),
            row@ == attempt_row(
                old(self).job.id,
                old(self)@.hosts[old(self)@.next],
                attempt_view(outcome),
            ),
    {
        let host = self.hosts[self.next].clone();
        let outbound_id: u64 = self.job.id;
        match outcome {
            Ok(response) => {
                let attempts: u64 = self.job.attempts + 1;
                self.job.status = OutboundStatus::Delivered;
                self.job.attempts = attempts;
                self.job.next_attempt_at = None;
                self.job.last_error = None;
                self.done = true;
                NewDeliveryStatus {
                    outbound_id,
                    peer_host: host,
                    code: Some(250),
                    message: Some(response),
                }
            },
            Err(e) => {
                if self.hosts.len() - self.next > 1 {
                    self.next = self.next + 1;
                } else {
                    let head = joined("via ", host.as_str());
                    let reason = err(head.as_str(), e.as_str());
                    fail_or_requeue(&mut self.job, config, now, reason.as_str());
                    self.done = true;
                }
                NewDeliveryStatus { outbound_id, peer_host: host, code: None, message: Some(e) }
            },
        }
    }
}

// ---------------------------------------------------------------------------
// Envelopes and mail hosts
// ---------------------------------------------------------------------------

/// The two ends of a handover.
#[derive(Debug, Clone)]
pub struct Envelope {
    /// The reverse path; `None` is the null sender.
    pub from: Option<String>,
    /// The forward paths.
    pub to: Vec<String>,
}

/// Why `lettre` does not take `address` as an email address; `None` where it
/// does.
pub uninterp spec fn address_error(address: Seq<char>) -> Option<Seq<char>>;

/// Whether `lettre::Address::from_str` takes `address`, which it then keeps as
/// it stands, and otherwise the text of its error.
#[verifier::external_body]
pub(crate) fn check_address(address: &str) -> (out: Result<(), String>)
    ensures
        (match out {
            Ok(_) => address_error(address@) is None,
            Err(e) => address_error(address@) == Some(e@),
        }),
{
    match address.parse::<lettre::Address>() {
        Ok(_) => Ok(()),
        Err(e) => Err(e.to_string()),
    }
}

/// The envelope for the given checks of its two addresses. A blank sender is
/// the null sender and is not checked.
pub open spec fn envelope_of(
    mail_from: Seq<char>,
    recipient: Seq<char>,
    from_error: Option<Seq<char>>,
    to_error: Option<Seq<char>>,
    out: Result<Envelope, String>,
) -> bool {
    let null_sender = text::trimmed(mail_from).len() == 0;
    match out {
        Ok(envelope) => {
            &&& !null_sender ==> from_error is None
            &&& to_error is None
            &&& text::view_of(envelope.from) == (if null_sender {
                None
            } else {
                Some(mail_from)
            })
            &&& text::views(envelope.to@) == seq![recipient]
        },
        Err(e) => {
            ||| !null_sender && from_error is Some && e@ == "invalid MAIL FROM"@ + ": "@
                + from_error->0
            ||| (null_sender || from_error is None) && to_error is Some && e@
                == "invalid RCPT TO"@ + ": "@ + to_error->0
        },
    }
}

/// The envelope of a job: the stored sender and the recipient of the job. The
/// checks of the two addresses are given.
pub fn envelope_with(
    mail_from: &str,
    recipient: &str,
    from_check: Result<(), String>,
    to_check: Result<(), String>,
) -> (out: Result<Envelope, String>)
    ensures
        envelope_of(
            mail_from@,
            recipient@,
            (match from_check {
                Ok(_) => None,
                Err(e) => Some(e@),
            }),
            (match to_check {
                Ok(_) => None,
                Err(e) => Some(e@),
            }),
            out,
        ),
{
    let bare = trim(mail_from);
    let from = if bare.as_str().is_empty() {
        None
    } else {
        match from_check {
            Ok(_) => Some(mail_from.to_owned()),
            Err(e) => return Err(err("invalid MAIL FROM", e.as_str())),
        }
    };
    match to_check {
        Ok(_) => {
            let mut to: Vec<String> = Vec::new();
            to.push(recipient.to_owned());
            assert(text::views(to@) == seq![recipient@]);
            Ok(Envelope { from, to })
        },
        Err(e) => Err(err("invalid RCPT TO", e.as_str())),
    }
}

/// The envelope of a job: the stored sender and the recipient of the job.
pub fn build_envelope(mail_from: &str, recipient: &str) -> (out: Result<Envelope, String>)
    ensures
        envelope_of(
            mail_from@,
            recipient@,
            address_error(mail_from@),
            address_error(recipient@),
            out,
        ),
{
    let from_check = check_address(mail_from);
    let to_check = check_address(recipient);
    envelope_with(mail_from, recipient, from_check, to_check)
}

/// What stands after the last `@` of `address`; all of it where there is none.
pub open spec fn mail_domain(address: Seq<char>) -> Seq<char>
    decreases address.len(),
{
    match text::cut(address, '@') {
        Some((_, rest)) => if rest.len() < address.len() {
            mail_domain(rest)
        } else {
            rest
        },
        None => address,
    }
}

proof fn lemma_cut_is_shorter(s: Seq<char>, c: char)
    ensures
        text::cut(s, c) matches Some((_, rest)) ==> rest.len() < s.len(),
{
    if exists|i: int| text::first_at(s, c, i) {
        let i = choose|i: int| text::first_at(s, c, i);
        text::lemma_cut_at(s, c, i);
    }
}

/// The domain whose mail hosts take mail for `recipient`.
pub fn mx_domain(recipient: &str) -> (out: String)
    ensures
        out@ == mail_domain(recipient@),
{
    let mut rest = recipient.to_owned();
    loop
        invariant
            mail_domain(rest@) == mail_domain(recipient@),
        decreases rest@.len(),
    {
        proof {
            lemma_cut_is_shorter(rest@, '@');
        }
        match split_once(rest.as_str(), '@') {
            Some((_, tail)) => {
                rest = tail;
            },
            None => {
                return rest;
            },
        }
    }
}

/// A mail host and its preference; a lower number is preferred.
#[derive(Debug, Clone)]
pub struct MxHost {
    pub preference: u16,
    pub exchange: String,
}

/// What an [`MxHost`] holds.
pub struct MxHostView {
    pub preference: u16,
    pub exchange: Seq<char>,
}

impl View for MxHost {
    type V = MxHostView;

    open spec fn view(&self) -> MxHostView {
        MxHostView { preference: self.preference, exchange: self.exchange@ }
    }
}

/// What each host of a list holds.
pub open spec fn mx_views(records: Seq<MxHost>) -> Seq<MxHostView> {
    Seq::new(records.len(), |i: int| records[i]@)
}

/// `item` put into `sorted` behind everything that is preferred at least as
/// much.
pub open spec fn put_by_preference(sorted: Seq<MxHostView>, item: MxHostView) -> Seq<MxHostView>
    decreases sorted.len(),
{
    if sorted.len() == 0 || sorted.last().preference <= item.preference {
        sorted.push(item)
    } else {
        put_by_preference(sorted.drop_last(), item).push(sorted.last())
    }
}

/// The records by ascending preference; ties keep their order.
pub open spec fn by_preference(records: Seq<MxHostView>) -> Seq<MxHostView>
    decreases records.len(),
{
    if records.len() == 0 {
        Seq::empty()
    } else {
        put_by_preference(by_preference(records.drop_last()), records.last())
    }
}

/// The names of the hosts without the dot of the DNS root; a name with nothing
/// else is passed over.
pub open spec fn host_names(records: Seq<MxHostView>) -> Seq<Seq<char>>
    decreases records.len(),
{
    if records.len() == 0 {
        Seq::empty()
    } else {
        let front = host_names(records.drop_last());
        let name = text::drop_trailing(records.last().exchange, seq!['.']);
        if name.len() == 0 {
            front
        } else {
            front.push(name)
        }
    }
}

/// Put `item` into `sorted` behind everything that is preferred at least as
/// much.
fn put_host(sorted: &mut Vec<MxHost>, item: MxHost)
    ensures
        mx_views(final(sorted)@) == put_by_preference(mx_views(old(sorted)@), item@),
{
    let ghost before = sorted@;
    let ghost views = mx_views(before);
    let mut at: usize = sorted.len();
    assert(views.take(views.len() as int) == views);
    assert(put_by_preference(views, item@) + views.skip(views.len() as int) == put_by_preference(
        views,
        item@,
    ));
    while at > 0 && sorted[at - 1].preference > item.preference
        invariant
            at <= sorted.len(),
            sorted@ == before,
            views == mx_views(before),
            put_by_preference(views, item@) == put_by_preference(views.take(at as int), item@)
                + views.skip(at as int),
        decreases at,
    {
        proof {
            let front = views.take(at as int);
            assert(front.last() == before[at - 1]@);
            assert(front.drop_last() == views.take(at - 1));
            assert(put_by_preference(front, item@) + views.skip(at as int) == put_by_preference(
                views.take(at - 1),
                item@,
            ) + views.skip(at - 1));
        }
        at -= 1;
    }
    proof {
        let front = views.take(at as int);
        if at > 0 {
            assert(front.last() == before[at - 1]@);
        }
        assert(put_by_preference(front, item@) == front.push(item@));
        assert(mx_views(before.insert(at as int, item)) == front.push(item@) + views.skip(
            at as int,
        ));
    }
    sorted.insert(at, item);
}

/// The hosts to try for a recipient, best first, from the answer to the MX
/// lookup of its domain.
pub fn lookup_mx_hosts(records: Vec<MxHost>) -> (hosts: Vec<String>)
    ensures
        text::views(hosts@) == host_names(by_preference(mx_views(records@))),
{
    let ghost all = mx_views(records@);
    let mut sorted: Vec<MxHost> = Vec::new();
    let mut i: usize = 0;
    assert(mx_views(sorted@) == by_preference(all.take(0)));
    while i < records.len()
        invariant
            i <= records.len(),
            all == mx_views(records@),
            mx_views(sorted@) == by_preference(all.take(i as int)),
        decreases records.len() - i,
    {
        proof {
            assert(all.take(i + 1).drop_last() == all.take(i as int));
            assert(all.take(i + 1).last() == records@[i as int]@);
        }
        let item = MxHost {
            preference: records[i].preference,
            exchange: records[i].exchange.clone(),
        };
        put_host(&mut sorted, item);
        i += 1;
    }
    assert(all.take(all.len() as int) == all);
    let dot: Vec<char> = vec!['.'];
    assert(dot@ == seq!['.']);
    let ghost ranked = mx_views(sorted@);
    let mut hosts: Vec<String> = Vec::new();
    let mut k: usize = 0;
    assert(text::views(hosts@) == host_names(ranked.take(0)));
    while k < sorted.len()
        invariant
            k <= sorted.len(),
            dot@ == seq!['.'],
            ranked == mx_views(sorted@),
            text::views(hosts@) == host_names(ranked.take(k as int)),
        decreases sorted.len() - k,
    {
        proof {
            assert(ranked.take(k + 1).drop_last() == ranked.take(k as int));
            assert(ranked.take(k + 1).last() == sorted@[k as int]@);
        }
        let name = trim_trailing(sorted[k].exchange.as_str(), &dot);
        if !name.as_str().is_empty() {
            let ghost was = hosts@;
            let ghost shown = name@;
            hosts.push(name);
            assert(text::views(hosts@) == text::views(was).push(shown));
        }
        k += 1;
    }
    assert(ranked.take(ranked.len() as int) == ranked);
    hosts
}

// ---------------------------------------------------------------------------
// Laws
// ---------------------------------------------------------------------------

/// A job that was claimed cannot be claimed again: of any number of workers
/// only one gets it.
pub proof fn law_claim_is_exclusive(job: db::OutboundView, held: db::OutboundView)
    requires
        claimed(job) == Some(held),
    ensures
        claimed(held) is None,
        held.status == OutboundStatus::InProgress,
        held == (db::OutboundView { status: OutboundStatus::InProgress, ..job }),
{
}

proof fn lemma_due_ids_hold(rows: Seq<Outbound>, now: Timestamp, i: int)
    requires
        0 <= i < rows.len(),
        is_due(rows[i]@, now),
    ensures
        due_ids(rows, now).contains(rows[i].id),
    decreases rows.len(),
{
    let front = due_ids(rows.drop_last(), now);
    if i == rows.len() - 1 {
        assert(front.push(rows.last().id)[front.len() as int] == rows[i].id);
    } else {
        lemma_due_ids_hold(rows.drop_last(), now, i);
        let k = choose|k: int| 0 <= k < front.len() && front[k] == rows[i].id;
        assert(front.push(rows.last().id)[k] == rows[i].id);
    }
}

/// Of two jobs that are due, the one that was queued first is tried first,
/// whatever the order of the rows.
pub proof fn law_first_come_first_served(
    rows: Seq<Outbound>,
    now: Timestamp,
    out: Seq<u64>,
    i: int,
    j: int,
)
    requires
        in_order(out),
        out.to_multiset() == due_ids(rows, now).to_multiset(),
        0 <= i < rows.len(),
        0 <= j < rows.len(),
        is_due(rows[i]@, now),
        is_due(rows[j]@, now),
        rows[i].id < rows[j].id,
    ensures
        exists|p: int, q: int|
            #![trigger out[p], out[q]]
            0 <= p < q < out.len() && out[p] == rows[i].id && out[q] == rows[j].id,
{
    broadcast use vstd::seq_lib::group_to_multiset_ensures;

    lemma_due_ids_hold(rows, now, i);
    lemma_due_ids_hold(rows, now, j);
    assert(due_ids(rows, now).to_multiset().contains(rows[i].id));
    assert(due_ids(rows, now).to_multiset().contains(rows[j].id));
    assert(out.contains(rows[i].id));
    assert(out.contains(rows[j].id));
    let p = choose|p: int| 0 <= p < out.len() && out[p] == rows[i].id;
    let q = choose|q: int| 0 <= q < out.len() && out[q] == rows[j].id;
    assert(p < q);
}

proof fn lemma_due_ids_are_due(rows: Seq<Outbound>, now: Timestamp, k: int) -> (i: int)
    requires
        0 <= k < due_ids(rows, now).len(),
    ensures
        0 <= i < rows.len(),
        is_due(rows[i]@, now),
        rows[i].id == due_ids(rows, now)[k],
    decreases rows.len(),
{
    let front = due_ids(rows.drop_last(), now);
    if is_due(rows.last()@, now) && k == front.len() {
        rows.len() - 1
    } else {
        lemma_due_ids_are_due(rows.drop_last(), now, k)
    }
}

/// Every job that a worker tries is one that it can claim, until somebody else
/// changes it.
pub proof fn law_due_jobs_can_be_claimed(
    rows: Seq<Outbound>,
    now: Timestamp,
    out: Seq<u64>,
    p: int,
)
    requires
        out.to_multiset() == due_ids(rows, now).to_multiset(),
        0 <= p < out.len(),
    ensures
        exists|i: int|
            0 <= i < rows.len() && (#[trigger] rows[i]).id == out[p] && is_due(rows[i]@, now)
                && claimed(rows[i]@) is Some,
{
    broadcast use vstd::seq_lib::group_to_multiset_ensures;

    let due = due_ids(rows, now);
    assert(out.contains(out[p]));
    assert(out.to_multiset().contains(out[p]));
    assert(due.contains(out[p]));
    let k = choose|k: int| 0 <= k < due.len() && due[k] == out[p];
    let i = lemma_due_ids_are_due(rows, now, k);
    assert(rows[i].id == out[p]);
}

/// A claimed job whose worker went away is waiting again after a reclaim, due
/// at once and with its attempts unchanged.
pub proof fn law_reclaim_undoes_a_lost_claim(
    job: db::OutboundView,
    held: db::OutboundView,
    now: Timestamp,
)
    requires
        claimed(job) == Some(held),
    ensures
        claimed(reclaimed(held)) is Some,
        is_due(reclaimed(held), now),
        reclaimed(held).attempts == job.attempts,
        reclaimed(held).id == job.id,
{
}

/// After a reclaim no job is in progress, jobs that were not are unchanged,
/// and a second reclaim changes nothing.
pub proof fn law_reclaim_leaves_no_orphans(job: db::OutboundView)
    ensures
        reclaimed(job).status != OutboundStatus::InProgress,
        job.status != OutboundStatus::InProgress ==> reclaimed(job) == job,
        reclaimed(reclaimed(job)) == reclaimed(job),
{
}

/// A failed job is either given up, and then not due at any time, or waiting
/// for an instant that is not before now; it is given up exactly when the
/// attempts exceed the cap.
pub proof fn law_failure_is_retried_up_to_the_cap(
    job: db::OutboundView,
    config: OutboundWorkerConfig,
    now: Timestamp,
    reason: Seq<char>,
)
    requires
        job.attempts < u64::MAX,
        retry_fits(config, now, job.attempts + 1),
    ensures
        ({
            let after = after_failure(job, config, now, reason);
            &&& after.attempts == job.attempts + 1
            &&& after.last_error == Some(reason)
            &&& after.status == OutboundStatus::Failed <==> job.attempts + 1 > config.max_attempts
            &&& after.status == OutboundStatus::Queued <==> job.attempts + 1 <= config.max_attempts
            &&& after.status == OutboundStatus::Failed ==> after.next_attempt_at is None
                && claimed(after) is None
            &&& after.status == OutboundStatus::Queued ==> (after.next_attempt_at matches Some(t)
                && t.nanos >= now.nanos && t.wf())
        }),
{
    assert(backoff_secs(config, job.attempts + 1) >= 0) by {
        assert(config.base_backoff.secs * power2::pow2(doublings(job.attempts + 1)) >= 0)
            by (nonlinear_arith);
    }
    assert(backoff_secs(config, job.attempts + 1) * crate::time::NANOS_PER_SECOND >= 0)
        by (nonlinear_arith)
        requires
            backoff_secs(config, job.attempts + 1) >= 0,
    ;
}

/// The job after `n` failures, each at its own time and for its own reason.
pub open spec fn after_failures(
    job: db::OutboundView,
    config: OutboundWorkerConfig,
    times: spec_fn(nat) -> Timestamp,
    reasons: spec_fn(nat) -> Seq<char>,
    n: nat,
) -> db::OutboundView
    decreases n,
{
    if n == 0 {
        job
    } else {
        let earlier = (n - 1) as nat;
        after_failure(
            after_failures(job, config, times, reasons, earlier),
            config,
            times(earlier),
            reasons(earlier),
        )
    }
}

/// A fresh job is tried again after each of the first `max_attempts` failures
/// and is given up with the next one.
pub proof fn law_attempts_are_bounded(
    job: db::OutboundView,
    config: OutboundWorkerConfig,
    times: spec_fn(nat) -> Timestamp,
    reasons: spec_fn(nat) -> Seq<char>,
    n: nat,
)
    requires
        job.attempts == 0,
        0 < n <= config.max_attempts + 1,
        config.max_attempts < u64::MAX,
    ensures
        after_failures(job, config, times, reasons, n).attempts == n,
        after_failures(job, config, times, reasons, n).status == (if n <= config.max_attempts {
            OutboundStatus::Queued
        } else {
            OutboundStatus::Failed
        }),
    decreases n,
{
    reveal_with_fuel(after_failures, 2);
    if n > 1 {
        law_attempts_are_bounded(job, config, times, reasons, (n - 1) as nat);
    }
}

/// The wait doubles with each attempt, as long as it stays under the cap.
pub proof fn law_backoff_doubles(config: OutboundWorkerConfig, attempts: int)
    requires
        1 <= attempts < 63,
    ensures
        backoff_secs(config, 1) <= config.max_backoff.secs,
        config.base_backoff.secs <= config.max_backoff.secs ==> backoff_secs(config, 1)
            == config.base_backoff.secs,
        backoff_secs(config, attempts + 1) == (if 2 * backoff_secs(config, attempts)
            <= config.max_backoff.secs {
            2 * backoff_secs(config, attempts)
        } else {
            config.max_backoff.secs as int
        }),
{
    let base = config.base_backoff.secs;
    let d = doublings(attempts);
    assert(doublings(attempts + 1) == d + 1);
    power2::lemma_pow2_unfold((d + 1) as nat);
    assert(power2::pow2((d + 1) as nat) == 2 * power2::pow2(d));
    assert(base * (2 * power2::pow2(d)) == 2 * (base * power2::pow2(d))) by (nonlinear_arith);
    assert(base * power2::pow2(d) >= 0) by (nonlinear_arith);
    vstd::arithmetic::power2::lemma2_to64();
    assert(power2::pow2(0) == 1);
    assert(base * 1 == base);
}

/// The wait is never longer than the cap.
pub proof fn law_backoff_is_capped(config: OutboundWorkerConfig, attempts: int)
    ensures
        0 <= backoff_secs(config, attempts) <= config.max_backoff.secs,
{
    assert(config.base_backoff.secs * power2::pow2(doublings(attempts)) >= 0) by (nonlinear_arith);
}

impl DeliveryView {
    /// The delivery after the attempts with the given outcomes.
    pub open spec fn run(
        self,
        config: OutboundWorkerConfig,
        now: Timestamp,
        outcomes: Seq<AttemptView>,
    ) -> DeliveryView
        decreases outcomes.len(),
    {
        if self.done || outcomes.len() == 0 {
            self
        } else {
            self.after(config, now, outcomes[0]).run(config, now, outcomes.drop_first())
        }
    }

    /// The records of those attempts.
    pub open spec fn rows(
        self,
        config: OutboundWorkerConfig,
        now: Timestamp,
        outcomes: Seq<AttemptView>,
    ) -> Seq<db::NewDeliveryStatusView>
        decreases outcomes.len(),
    {
        if self.done || outcomes.len() == 0 {
            Seq::empty()
        } else {
            seq![attempt_row(self.job.id, self.hosts[self.next], outcomes[0])] + self.after(
                config,
                now,
                outcomes[0],
            ).rows(config, now, outcomes.drop_first())
        }
    }
}

/// The records of attempts at `hosts`, from the first on.
pub open spec fn attempt_rows(
    outbound_id: u64,
    hosts: Seq<Seq<char>>,
    outcomes: Seq<AttemptView>,
) -> Seq<db::NewDeliveryStatusView> {
    Seq::new(outcomes.len(), |i: int| attempt_row(outbound_id, hosts[i], outcomes[i]))
}

proof fn lemma_run_to_success(
    state: DeliveryView,
    config: OutboundWorkerConfig,
    now: Timestamp,
    outcomes: Seq<AttemptView>,
    k: int,
)
    requires
        !state.done,
        0 <= state.next <= k < state.hosts.len(),
        outcomes.len() == k + 1,
        forall|i: int| state.next <= i < k ==> (#[trigger] outcomes[i]) is Refused,
        outcomes[k] is Accepted,
    ensures
        state.run(config, now, outcomes.skip(state.next)) == (DeliveryView {
            job: after_success(state.job),
            next: k,
            done: true,
            ..state
        }),
        state.rows(config, now, outcomes.skip(state.next)) == attempt_rows(
            state.job.id,
            state.hosts,
            outcomes,
        ).skip(state.next),
    decreases k - state.next,
{
    reveal_with_fuel(DeliveryView::run, 2);
    reveal_with_fuel(DeliveryView::rows, 2);
    let rest = outcomes.skip(state.next);
    let rows = attempt_rows(state.job.id, state.hosts, outcomes);
    assert(rest[0] == outcomes[state.next]);
    assert(rest.drop_first() == outcomes.skip(state.next + 1));
    let next = state.after(config, now, rest[0]);
    assert(rows.skip(state.next) == seq![rows[state.next]] + rows.skip(state.next + 1));
    if state.next < k {
        assert(outcomes[state.next] is Refused);
        lemma_run_to_success(next, config, now, outcomes, k);
    } else {
        assert(rows.skip(state.next + 1) == Seq::<db::NewDeliveryStatusView>::empty());
        assert(next.rows(config, now, rest.drop_first()) == Seq::<
            db::NewDeliveryStatusView,
        >::empty());
    }
}

/// The first host that accepts ends the delivery: the hosts before it were
/// tried in order, each attempt has its record, and the job is delivered.
pub proof fn law_first_accepting_host_delivers(
    job: db::OutboundView,
    config: OutboundWorkerConfig,
    now: Timestamp,
    hosts: Seq<Seq<char>>,
    outcomes: Seq<AttemptView>,
    k: int,
)
    requires
        0 <= k < hosts.len(),
        outcomes.len() == k + 1,
        forall|i: int| 0 <= i < k ==> (#[trigger] outcomes[i]) is Refused,
        outcomes[k] is Accepted,
    ensures
        DeliveryView::start(job, config, now, hosts).run(config, now, outcomes) == (DeliveryView {
            job: after_success(job),
            hosts,
            next: k,
            done: true,
        }),
        DeliveryView::start(job, config, now, hosts).rows(config, now, outcomes) == attempt_rows(
            job.id,
            hosts,
            outcomes,
        ),
        after_success(job).status == OutboundStatus::Delivered,
{
    let start = DeliveryView::start(job, config, now, hosts);
    assert(outcomes.skip(0) == outcomes);
    let rows = attempt_rows(job.id, hosts, outcomes);
    assert(rows.skip(0) == rows);
    lemma_run_to_success(start, config, now, outcomes, k);
}

proof fn lemma_run_to_failure(
    state: DeliveryView,
    config: OutboundWorkerConfig,
    now: Timestamp,
    outcomes: Seq<AttemptView>,
)
    requires
        !state.done,
        0 <= state.next < state.hosts.len(),
        outcomes.len() == state.hosts.len(),
        forall|i: int| 0 <= i < outcomes.len() ==> (#[trigger] outcomes[i]) is Refused,
    ensures
        state.run(config, now, outcomes.skip(state.next)) == (DeliveryView {
            job: after_failure(
                state.job,
                config,
                now,
                host_error(state.hosts.last(), outcomes.last()->Refused_0),
            ),
            next: state.hosts.len() - 1,
            done: true,
            ..state
        }),
        state.rows(config, now, outcomes.skip(state.next)) == attempt_rows(
            state.job.id,
            state.hosts,
            outcomes,
        ).skip(state.next),
    decreases state.hosts.len() - state.next,
{
    reveal_with_fuel(DeliveryView::run, 2);
    reveal_with_fuel(DeliveryView::rows, 2);
    let rest = outcomes.skip(state.next);
    let rows = attempt_rows(state.job.id, state.hosts, outcomes);
    assert(rest[0] == outcomes[state.next]);
    assert(outcomes[state.next] is Refused);
    assert(rest.drop_first() == outcomes.skip(state.next + 1));
    let next = state.after(config, now, rest[0]);
    assert(rows.skip(state.next) == seq![rows[state.next]] + rows.skip(state.next + 1));
    if state.next + 1 < state.hosts.len() {
        lemma_run_to_failure(next, config, now, outcomes);
    } else {
        assert(rows.skip(state.next + 1) == Seq::<db::NewDeliveryStatusView>::empty());
        assert(next.rows(config, now, rest.drop_first()) == Seq::<
            db::NewDeliveryStatusView,
        >::empty());
    }
}

/// Where every host refuses, each attempt has its record and the job has
/// failed once more, for the reason of the last host.
pub proof fn law_all_hosts_refusing_fails_once(
    job: db::OutboundView,
    config: OutboundWorkerConfig,
    now: Timestamp,
    hosts: Seq<Seq<char>>,
    outcomes: Seq<AttemptView>,
)
    requires
        hosts.len() > 0,
        outcomes.len() == hosts.len(),
        forall|i: int| 0 <= i < outcomes.len() ==> (#[trigger] outcomes[i]) is Refused,
    ensures
        DeliveryView::start(job, config, now, hosts).run(config, now, outcomes).done,
        DeliveryView::start(job, config, now, hosts).run(config, now, outcomes).job
            == after_failure(
            job,
            config,
            now,
            host_error(hosts.last(), outcomes.last()->Refused_0),
        ),
        DeliveryView::start(job, config, now, hosts).rows(config, now, outcomes) == attempt_rows(
            job.id,
            hosts,
            outcomes,
        ),
{
    let start = DeliveryView::start(job, config, now, hosts);
    assert(outcomes.skip(0) == outcomes);
    let rows = attempt_rows(job.id, hosts, outcomes);
    assert(rows.skip(0) == rows);
    lemma_run_to_failure(start, config, now, outcomes);
}

proof fn lemma_put_sorted(sorted: Seq<MxHostView>, item: MxHostView)
    requires
        forall|i: int, j: int|
            0 <= i <= j < sorted.len() ==> (#[trigger] sorted[i]).preference <= (
            #[trigger] sorted[j]).preference,
    ensures
        ({
            let out = put_by_preference(sorted, item);
            &&& forall|i: int, j: int|
                0 <= i <= j < out.len() ==> (#[trigger] out[i]).preference <= (
                #[trigger] out[j]).preference
            &&& forall|i: int|
                0 <= i < out.len() ==> (#[trigger] out[i]).preference <= item.preference || (
                sorted.len() > 0 && out[i].preference <= sorted.last().preference)
            &&& out.len() == sorted.len() + 1
        }),
    decreases sorted.len(),
{
    if sorted.len() > 0 && sorted.last().preference > item.preference {
        let front = sorted.drop_last();
        lemma_put_sorted(front, item);
        let put = put_by_preference(front, item);
        let out = put.push(sorted.last());
        assert(put_by_preference(sorted, item) == out);
        assert forall|i: int| 0 <= i < put.len() implies (#[trigger] put[i]).preference
            <= sorted.last().preference by {
            if front.len() > 0 {
                assert(front.last() == sorted[sorted.len() - 2]);
                assert(sorted[sorted.len() - 2].preference <= sorted[sorted.len()
                    - 1].preference);
            }
        }
    }
}

/// The hosts are tried by ascending preference.
pub proof fn law_hosts_are_sorted(records: Seq<MxHostView>)
    ensures
        forall|i: int, j: int|
            0 <= i <= j < by_preference(records).len() ==> (#[trigger] by_preference(
                records,
            )[i]).preference <= (#[trigger] by_preference(records)[j]).preference,
    decreases records.len(),
{
    if records.len() > 0 {
        law_hosts_are_sorted(records.drop_last());
        lemma_put_sorted(by_preference(records.drop_last()), records.last());
    }
}

/// The records of `records` with the preference `p`, in order.
pub open spec fn with_preference(records: Seq<MxHostView>, p: u16) -> Seq<MxHostView>
    decreases records.len(),
{
    if records.len() == 0 {
        Seq::empty()
    } else {
        let front = with_preference(records.drop_last(), p);
        if records.last().preference == p {
            front.push(records.last())
        } else {
            front
        }
    }
}

proof fn lemma_put_keeps_ties(sorted: Seq<MxHostView>, item: MxHostView, p: u16)
    requires
        forall|i: int, j: int|
            0 <= i <= j < sorted.len() ==> (#[trigger] sorted[i]).preference <= (
            #[trigger] sorted[j]).preference,
    ensures
        with_preference(put_by_preference(sorted, item), p) == with_preference(
            sorted.push(item),
            p,
        ),
    decreases sorted.len(),
{
    assert(sorted.push(item).drop_last() == sorted);
    if sorted.len() > 0 && sorted.last().preference > item.preference {
        let front = sorted.drop_last();
        lemma_put_keeps_ties(front, item, p);
        let put = put_by_preference(front, item);
        assert(put.push(sorted.last()).drop_last() == put);
        assert(front.push(item).drop_last() == front);
        assert(with_preference(sorted.push(item), p) == (if item.preference == p {
            with_preference(sorted, p).push(item)
        } else {
            with_preference(sorted, p)
        }));
    }
}

/// Hosts of one preference keep the order of the answer, and none is lost,
/// invented or doubled.
pub proof fn law_ties_keep_their_order(records: Seq<MxHostView>, p: u16)
    ensures
        with_preference(by_preference(records), p) == with_preference(records, p),
    decreases records.len(),
{
    if records.len() > 0 {
        let front = records.drop_last();
        law_ties_keep_their_order(front, p);
        law_hosts_are_sorted(front);
        lemma_put_keeps_ties(by_preference(front), records.last(), p);
        assert(by_preference(front).push(records.last()).drop_last() == by_preference(front));
    }
}

/// Every job that waits and whose time has come, or has not been set, is drained,
/// however often it was tried; nothing else is drained; nothing is drained
/// twice where no two rows have one id; and the smaller id comes first.
pub proof fn law_what_waits_and_is_due_is_drained(
    rows: Seq<Outbound>,
    now: Timestamp,
    out: Seq<u64>,
)
    requires
        in_order(out),
        out.to_multiset() == due_ids(rows, now).to_multiset(),
    ensures
        forall|i: int|
            0 <= i < rows.len() && (#[trigger] rows[i]).status == OutboundStatus::Queued && (
            match rows[i].next_attempt_at {
                Some(next) => next.nanos <= now.nanos,
                None => true,
            }) ==> out.contains(rows[i].id),
        forall|id: u64| #[trigger]
            out.contains(id) ==> exists|i: int|
                0 <= i < rows.len() && (#[trigger] rows[i]).id == id && rows[i].status
                    == OutboundStatus::Queued && (match rows[i].next_attempt_at {
                    Some(next) => next.nanos <= now.nanos,
                    None => true,
                }),
        ids_differ(rows) ==> out.no_duplicates(),
        forall|p: int, q: int| 0 <= p <= q < out.len() ==> out[p] <= out[q],
{
    broadcast use vstd::seq_lib::group_to_multiset_ensures;

    let due = due_ids(rows, now);
    assert forall|i: int|
        0 <= i < rows.len() && (#[trigger] rows[i]).status == OutboundStatus::Queued && (
        match rows[i].next_attempt_at {
            Some(next) => next.nanos <= now.nanos,
            None => true,
        }) implies out.contains(rows[i].id) by {
        assert(rows[i]@.status == OutboundStatus::Queued);
        lemma_due_ids_hold(rows, now, i);
        assert(due.to_multiset().contains(rows[i].id));
    }
    assert forall|id: u64| #[trigger] out.contains(id) implies exists|i: int|
        0 <= i < rows.len() && (#[trigger] rows[i]).id == id && rows[i].status
            == OutboundStatus::Queued && (match rows[i].next_attempt_at {
            Some(next) => next.nanos <= now.nanos,
            None => true,
        }) by {
        assert(out.to_multiset().contains(id));
        assert(due.contains(id));
        let k = choose|k: int| 0 <= k < due.len() && due[k] == id;
        let i = lemma_due_ids_are_due(rows, now, k);
        assert(rows[i].id == id);
        assert(is_due(rows[i]@, now));
    }
    if ids_differ(rows) {
        lemma_due_ids_differ(rows, now);
        due.lemma_multiset_has_no_duplicates();
        assert forall|id: u64| out.to_multiset().contains(id) implies #[trigger]
        out.to_multiset().count(id) == 1 by {
            assert(due.to_multiset().contains(id));
        }
        out.lemma_multiset_has_no_duplicates_conv();
    }
}

/// No two rows have one id.
pub open spec fn ids_differ(rows: Seq<Outbound>) -> bool {
    forall|i: int, j: int|
        0 <= i < j < rows.len() ==> (#[trigger] rows[i]).id != (#[trigger] rows[j]).id
}

proof fn lemma_due_ids_differ(rows: Seq<Outbound>, now: Timestamp)
    requires
        ids_differ(rows),
    ensures
        due_ids(rows, now).no_duplicates(),
    decreases rows.len(),
{
    if rows.len() > 0 {
        let front = rows.drop_last();
        let ids = due_ids(front, now);
        assert forall|i: int, j: int| 0 <= i < j < front.len() implies (#[trigger] front[i]).id != (
        #[trigger] front[j]).id by {
            assert(rows[i].id != rows[j].id);
        }
        lemma_due_ids_differ(front, now);
        assert forall|k: int| 0 <= k < ids.len() implies #[trigger] ids[k] != rows.last().id by {
            let i = lemma_due_ids_are_due(front, now, k);
            assert(rows[i].id != rows[rows.len() - 1].id);
        }
    }
}

/// A job that does not wait is not drained at any time: neither one that a
/// worker holds nor one that was delivered or given up.
pub proof fn law_settled_jobs_are_not_drained(
    rows: Seq<Outbound>,
    now: Timestamp,
    out: Seq<u64>,
    i: int,
)
    requires
        in_order(out),
        out.to_multiset() == due_ids(rows, now).to_multiset(),
        ids_differ(rows),
        0 <= i < rows.len(),
        rows[i].status != OutboundStatus::Queued,
    ensures
        !out.contains(rows[i].id),
{
    law_what_waits_and_is_due_is_drained(rows, now, out);
}

/// A job that failed for the nth time, where n is at most the cap, waits for
/// the backoff from the moment of its failure. From then on it is drained,
/// whatever n is, and not before.
pub proof fn law_failed_jobs_are_drained_again(
    job: db::OutboundView,
    config: OutboundWorkerConfig,
    now: Timestamp,
    reason: Seq<char>,
    rows: Seq<Outbound>,
    i: int,
    later: Timestamp,
    out: Seq<u64>,
)
    requires
        job.attempts + 1 <= config.max_attempts,
        retry_fits(config, now, job.attempts + 1),
        0 <= i < rows.len(),
        rows[i]@ == after_failure(job, config, now, reason),
        in_order(out),
        out.to_multiset() == due_ids(rows, later).to_multiset(),
    ensures
        rows[i].next_attempt_at matches Some(next) && next.nanos == now.nanos + backoff_secs(
            config,
            job.attempts + 1,
        ) * 1_000_000_000,
        later.nanos >= now.nanos + backoff_secs(config, job.attempts + 1) * 1_000_000_000
            ==> out.contains(job.id),
        ids_differ(rows) && later.nanos < now.nanos + backoff_secs(config, job.attempts + 1)
            * 1_000_000_000 ==> !out.contains(job.id),
{
    law_failure_is_retried_up_to_the_cap(job, config, now, reason);
    law_what_waits_and_is_due_is_drained(rows, later, out);
    let secs = backoff_secs(config, job.attempts + 1);
    law_backoff_is_capped(config, job.attempts + 1);
    assert(secs * 1_000_000_000 >= 0);
    assert(rows[i]@.next_attempt_at == rows[i].next_attempt_at);
    assert(rows[i].id == job.id);
    assert(rows[i].status == OutboundStatus::Queued);
}

/// A fresh job that has failed n times in a row, where n is at most the cap, is
/// drained at every instant from its next attempt on.
pub proof fn law_every_allowed_attempt_is_made(
    job: db::OutboundView,
    config: OutboundWorkerConfig,
    times: spec_fn(nat) -> Timestamp,
    reasons: spec_fn(nat) -> Seq<char>,
    n: nat,
    rows: Seq<Outbound>,
    i: int,
    later: Timestamp,
    out: Seq<u64>,
)
    requires
        job.attempts == 0,
        0 < n <= config.max_attempts < u64::MAX,
        0 <= i < rows.len(),
        rows[i]@ == after_failures(job, config, times, reasons, n),
        in_order(out),
        out.to_multiset() == due_ids(rows, later).to_multiset(),
        rows[i].next_attempt_at matches Some(next) ==> next.nanos <= later.nanos,
    ensures
        out.contains(rows[i].id),
{
    law_attempts_are_bounded(job, config, times, reasons, n);
    law_what_waits_and_is_due_is_drained(rows, later, out);
    assert(rows[i].status == OutboundStatus::Queued);
}

/// A failure changes what is known of the attempts of a job, not the job: it
/// still takes the same message from the same sender to the same recipient.
pub proof fn law_failure_keeps_the_job(
    job: db::OutboundView,
    config: OutboundWorkerConfig,
    now: Timestamp,
    reason: Seq<char>,
)
    ensures
        ({
            let after = after_failure(job, config, now, reason);
            &&& after.id == job.id
            &&& after.message_id == job.message_id
            &&& after.rcpt_to == job.rcpt_to
            &&& after.sender_id == job.sender_id
            &&& after.created_at == job.created_at
            &&& after.last_error == Some(reason)
        }),
{
}

/// A job that was handed over is delivered, with one attempt more and no error,
/// and takes the same message from the same sender to the same recipient.
pub proof fn law_success_settles_the_job(job: db::OutboundView)
    requires
        job.attempts < u64::MAX,
    ensures
        after_success(job).status == OutboundStatus::Delivered,
        after_success(job).attempts == job.attempts + 1,
        after_success(job).next_attempt_at is None,
        after_success(job).last_error is None,
        after_success(job).id == job.id,
        after_success(job).message_id == job.message_id,
        after_success(job).rcpt_to == job.rcpt_to,
        after_success(job).sender_id == job.sender_id,
        after_success(job).created_at == job.created_at,
        claimed(after_success(job)) is None,
        reclaimed(after_success(job)) == after_success(job),
{
}

/// A job is claimed exactly where it waits, and a claim changes its status alone.
pub proof fn law_waiting_jobs_can_be_claimed(job: db::OutboundView)
    ensures
        claimed(job) is Some <==> job.status == OutboundStatus::Queued,
        claimed(job) matches Some(held) ==> {
            &&& held.status == OutboundStatus::InProgress
            &&& held.id == job.id
            &&& held.message_id == job.message_id
            &&& held.rcpt_to == job.rcpt_to
            &&& held.sender_id == job.sender_id
            &&& held.attempts == job.attempts
            &&& held.next_attempt_at == job.next_attempt_at
            &&& held.last_error == job.last_error
            &&& held.created_at == job.created_at
        },
{
}

/// A reclaimed job waits, is due at once, and is otherwise what it was.
pub proof fn law_reclaim_keeps_the_job(job: db::OutboundView)
    requires
        job.status == OutboundStatus::InProgress,
    ensures
        reclaimed(job).status == OutboundStatus::Queued,
        reclaimed(job).next_attempt_at is None,
        reclaimed(job).last_error is None,
        reclaimed(job).id == job.id,
        reclaimed(job).message_id == job.message_id,
        reclaimed(job).rcpt_to == job.rcpt_to,
        reclaimed(job).sender_id == job.sender_id,
        reclaimed(job).attempts == job.attempts,
        reclaimed(job).created_at == job.created_at,
{
}

/// A fresh job takes its message from its sender to its recipient, waits, was
/// never tried, and is drained at any time once it is stored.
pub proof fn law_fresh_jobs_are_drained_at_once(
    message_id: u64,
    sender: Seq<char>,
    recipient: Seq<char>,
    rows: Seq<Outbound>,
    i: int,
    now: Timestamp,
    out: Seq<u64>,
)
    requires
        0 <= i < rows.len(),
        rows[i]@.status == queued_job(message_id, sender, recipient).status,
        rows[i]@.next_attempt_at == queued_job(message_id, sender, recipient).next_attempt_at,
        in_order(out),
        out.to_multiset() == due_ids(rows, now).to_multiset(),
    ensures
        queued_job(message_id, sender, recipient).message_id == message_id,
        queued_job(message_id, sender, recipient).sender_id == sender,
        queued_job(message_id, sender, recipient).rcpt_to == recipient,
        queued_job(message_id, sender, recipient).attempts == 0,
        queued_job(message_id, sender, recipient).last_error is None,
        out.contains(rows[i].id),
{
    law_what_waits_and_is_due_is_drained(rows, now, out);
    assert(rows[i].status == OutboundStatus::Queued);
}

/// The first wait is the base, unless the cap is shorter, and from the 63rd
/// attempt on the wait stays the same.
pub proof fn law_backoff_begins_and_ends(config: OutboundWorkerConfig, attempts: int)
    ensures
        attempts <= 1 ==> backoff_secs(config, attempts) == (if config.base_backoff.secs
            <= config.max_backoff.secs {
            config.base_backoff.secs
        } else {
            config.max_backoff.secs
        }),
        attempts >= 63 ==> backoff_secs(config, attempts) == backoff_secs(config, 63),
{
    vstd::arithmetic::power2::lemma2_to64();
    assert(power2::pow2(0) == 1);
    assert(config.base_backoff.secs * 1 == config.base_backoff.secs);
}

/// The wait never gets shorter from one attempt to the next.
pub proof fn law_backoff_never_shrinks(config: OutboundWorkerConfig, attempts: int)
    ensures
        backoff_secs(config, attempts) <= backoff_secs(config, attempts + 1),
{
    law_backoff_is_capped(config, attempts);
    law_backoff_is_capped(config, attempts + 1);
    law_backoff_begins_and_ends(config, attempts);
    law_backoff_begins_and_ends(config, attempts + 1);
    if 1 <= attempts < 63 {
        law_backoff_doubles(config, attempts);
    }
}

/// The record of an attempt names its job and its host. It has the code 250 and
/// the words of the host where that accepted, and no code and the error where
/// it did not.
pub proof fn law_attempts_are_recorded(id: u64, host: Seq<char>, words: Seq<char>)
    ensures
        ({
            let taken = attempt_row(id, host, AttemptView::Accepted(words));
            &&& taken.outbound_id == id
            &&& taken.peer_host == host
            &&& taken.code == Some(250u64)
            &&& taken.message == Some(words)
        }),
        ({
            let refused = attempt_row(id, host, AttemptView::Refused(words));
            &&& refused.outbound_id == id
            &&& refused.peer_host == host
            &&& refused.code is None
            &&& refused.message == Some(words)
        }),
{
}

/// Without a host to try, a delivery is over at once, the job has failed once
/// more, and the error says that there are no mail hosts.
pub proof fn law_no_host_is_a_failure(
    job: db::OutboundView,
    config: OutboundWorkerConfig,
    now: Timestamp,
)
    requires
        job.attempts < u64::MAX,
    ensures
        ({
            let over = DeliveryView::start(job, config, now, Seq::empty());
            &&& over.done
            &&& over.job.id == job.id
            &&& over.job.attempts == job.attempts + 1
            &&& over.job.last_error == Some("no MX records for domain"@)
            &&& over.job.status == (if job.attempts < config.max_attempts {
                OutboundStatus::Queued
            } else {
                OutboundStatus::Failed
            })
        }),
{
}

/// A refusal leads to the next host, with the job as it was; at the last host it
/// is a failure of the job, and the error names the host and its words.
pub proof fn law_refusal_leads_to_the_next_host(
    state: DeliveryView,
    config: OutboundWorkerConfig,
    now: Timestamp,
    words: Seq<char>,
)
    requires
        !state.done,
        0 <= state.next < state.hosts.len(),
        state.job.attempts < u64::MAX,
    ensures
        ({
            let after = state.after(config, now, AttemptView::Refused(words));
            &&& after.hosts == state.hosts
            &&& state.next + 1 < state.hosts.len() ==> !after.done && after.next == state.next + 1
                && after.job == state.job
            &&& state.next + 1 == state.hosts.len() ==> after.done && after.job.attempts
                == state.job.attempts + 1 && after.job.last_error == Some(
                "via "@ + state.hosts[state.next] + ": "@ + words,
            )
        }),
{
}

/// A blank sender is the null sender and needs no check; any other sender goes
/// into the envelope as it stands. The recipient is the only one. There is an
/// envelope exactly where the addresses that need a check pass it, and the
/// error is that of the sender first.
pub proof fn law_envelopes_are_built(
    mail_from: Seq<char>,
    recipient: Seq<char>,
    from_error: Option<Seq<char>>,
    to_error: Option<Seq<char>>,
    out: Result<Envelope, String>,
)
    requires
        envelope_of(mail_from, recipient, from_error, to_error, out),
    ensures
        out is Ok <==> to_error is None && (text::is_blank(mail_from) || from_error is None),
        out matches Ok(envelope) ==> envelope.to@.len() == 1 && envelope.to@[0]@ == recipient,
        out matches Ok(envelope) ==> (envelope.from is None <==> text::is_blank(mail_from)),
        out matches Ok(envelope) ==> (envelope.from matches Some(from) ==> from@ == mail_from),
        out matches Err(e) ==> !text::is_blank(mail_from) && from_error is Some ==> e@
            == "invalid MAIL FROM: "@ + from_error->0,
        out matches Err(e) ==> text::is_blank(mail_from) || from_error is None ==> e@
            == "invalid RCPT TO: "@ + to_error->0,
{
    text::law_trimming_takes_white_space_only(mail_from);
    reveal_strlit("invalid MAIL FROM: ");
    reveal_strlit("invalid MAIL FROM");
    reveal_strlit("invalid RCPT TO: ");
    reveal_strlit("invalid RCPT TO");
    reveal_strlit(": ");
    assert("invalid MAIL FROM"@ + ": "@ == "invalid MAIL FROM: "@);
    assert("invalid RCPT TO"@ + ": "@ == "invalid RCPT TO: "@);
    if let Ok(envelope) = out {
        let to = text::views(envelope.to@);
        assert(to.len() == 1);
        assert(to[0] == envelope.to@[0]@);
    }
}

/// The domain of a recipient is what follows the last `@`, whatever stands
/// before it; an address without one is its own domain.
pub proof fn law_domain_follows_the_last_at(front: Seq<char>, domain: Seq<char>)
    requires
        !domain.contains('@'),
    ensures
        mail_domain(front + seq!['@'] + domain) == domain,
        mail_domain(domain) == domain,
    decreases front.len(),
{
    let address = front + seq!['@'] + domain;
    text::lemma_cut_none(domain, '@');
    text::law_cut_loses_nothing(front, '@');
    match text::cut(front, '@') {
        Some((head, rest)) => {
            assert(address == head + seq!['@'] + (rest + seq!['@'] + domain));
            text::law_cut_is_at_the_first_separator(head, '@', rest + seq!['@'] + domain);
            law_domain_follows_the_last_at(rest, domain);
        },
        None => {
            text::law_cut_is_at_the_first_separator(front, '@', domain);
            assert(mail_domain(domain) == domain);
        },
    }
}

/// Each mail host is tried under its name without the dots of the DNS root, in
/// the order of the records, and a record without any other name is passed over.
pub proof fn law_hosts_are_named(
    front: Seq<MxHostView>,
    preference: u16,
    name: Seq<char>,
    dots: Seq<char>,
)
    requires
        forall|i: int| 0 <= i < dots.len() ==> #[trigger] dots[i] == '.',
        name.len() > 0 ==> name.last() != '.',
    ensures
        host_names(front.push(MxHostView { preference, exchange: name + dots })) == (if name.len()
            == 0 {
            host_names(front)
        } else {
            host_names(front).push(name)
        }),
        host_names(Seq::empty()).len() == 0,
{
    let all = front.push(MxHostView { preference, exchange: name + dots });
    assert(all.drop_last() == front);
    let dot = seq!['.'];
    assert(dot[0] == '.');
    assert(text::made_of(dots, dot));
    text::law_trailing_characters_are_dropped(name, dots, dot);
}

proof fn lemma_put_holds(sorted: Seq<MxHostView>, item: MxHostView)
    ensures
        put_by_preference(sorted, item).to_multiset() == sorted.to_multiset().insert(item),
    decreases sorted.len(),
{
    vstd::seq_lib::to_multiset_build(sorted, item);
    if sorted.len() > 0 && sorted.last().preference > item.preference {
        let front = sorted.drop_last();
        lemma_put_holds(front, item);
        vstd::seq_lib::to_multiset_build(front, sorted.last());
        assert(front.push(sorted.last()) == sorted);
        vstd::seq_lib::to_multiset_build(put_by_preference(front, item), sorted.last());
        assert(put_by_preference(sorted, item).to_multiset() == sorted.to_multiset().insert(item));
    }
}

/// The hosts that are tried are those of the answer, each as often as it is there.
pub proof fn law_no_host_is_lost(records: Seq<MxHostView>)
    ensures
        by_preference(records).to_multiset() == records.to_multiset(),
        by_preference(records).len() == records.len(),
    decreases records.len(),
{
    broadcast use vstd::seq_lib::group_to_multiset_ensures;

    if records.len() > 0 {
        let front = records.drop_last();
        law_no_host_is_lost(front);
        lemma_put_holds(by_preference(front), records.last());
        vstd::seq_lib::to_multiset_build(front, records.last());
        assert(front.push(records.last()) == records);
    } else {
        assert(by_preference(records) == records);
    }
    assert(by_preference(records).to_multiset().len() == by_preference(records).len());
    assert(records.to_multiset().len() == records.len());
}

/// Every retry fits into time where even the longest wait from now on does.
pub proof fn law_retries_fit_where_the_longest_does(
    config: OutboundWorkerConfig,
    now: Timestamp,
    attempts: int,
)
    requires
        now.wf(),
        config.max_backoff.secs <= 631_107_417_600,
        now.nanos + config.max_backoff.secs * 1_000_000_000 <= crate::time::MAX_NANOS,
    ensures
        retry_fits(config, now, attempts),
{
    law_backoff_is_capped(config, attempts);
}

/// A message without a sender is stored with an empty one, and any other with
/// its sender as it is.
pub proof fn law_senders_are_stored_as_they_are(from: Seq<char>)
    ensures
        envelope_sender(Some(from)) == from,
        envelope_sender(None).len() == 0,
{
}

} // verus!
