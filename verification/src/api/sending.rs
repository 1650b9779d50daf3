//! The endpoint that sends a message.
use vstd::prelude::*;
use std::time::{Duration, UNIX_EPOCH};
use lettre::message::header::{Bcc, Cc, ContentType, Header, To};
use lettre::message::MessageBuilder;
use crate::api;
use crate::api::{
    tell_about, ApiProblem, ApiResponse, Failure, FailureView,
};
use crate::db;
use crate::db::{Mailbox, NewMessage, NewOutbound};
use crate::email;
use crate::email::outgoing_message;
use crate::send;
use crate::send::{check_address, enqueue_forward};
use crate::text;
use crate::text::{copy_text, copy_texts, joined, to_lowercase, trim};

verus! {

/// The body of a request to send a message.
#[derive(Debug, Clone)]
pub struct SendEmail {
    /// The sender, which has to be a provisioned mailbox.
    pub from: String,
    pub to: Vec<String>,
    pub cc: Vec<String>,
    pub bcc: Vec<String>,
    pub subject: Option<String>,
    pub body: String,
    /// What the body is; plain text where it is not given.
    pub content_type: Option<String>,
}

/// The answer to a request to send a message: the stored message, and its jobs
/// in the order of the recipients.
#[derive(Debug, Clone)]
pub struct SendResult {
    pub message_id: u64,
    pub outbound_ids: Vec<u64>,
}

/// What a body is where the request does not say.
pub open spec fn default_content_type() -> Seq<char> {
    "text/plain; charset=utf-8"@
}

/// The recipients of a request, in order.
pub open spec fn recipients_of(body: SendEmail) -> Seq<Seq<char>> {
    text::views(body.to@) + text::views(body.cc@) + text::views(body.bcc@)
}

/// The recipients of a request: those addressed, those copied and those copied
/// blindly.
pub fn recipients(body: &SendEmail) -> (out: Vec<String>)
    ensures
        text::views(out@) == recipients_of(*body),
        out@.len() == body.to@.len() + body.cc@.len() + body.bcc@.len(),
        forall|i: int| 0 <= i < body.to@.len() ==> out@[i]@ == (#[trigger] body.to@[i])@,
        forall|i: int|
            0 <= i < body.cc@.len() ==> out@[body.to@.len() + i]@ == (#[trigger] body.cc@[i])@,
        forall|i: int|
            0 <= i < body.bcc@.len() ==> out@[body.to@.len() + body.cc@.len() + i]@ == (
            #[trigger] body.bcc@[i])@,
{
    let mut out = copy_texts(&body.to);
    let mut cc = copy_texts(&body.cc);
    let mut bcc = copy_texts(&body.bcc);
    let ghost first = out@;
    let ghost second = cc@;
    let ghost third = bcc@;
    out.append(&mut cc);
    out.append(&mut bcc);
    assert(out@ == first + second + third);
    assert(text::views(out@) == text::views(first) + text::views(second) + text::views(third));
    proof {
        lemma_recipients_stand_in_order(out@, *body);
    }
    out
}

/// Where the first `false` is.
pub open spec fn first_invalid(valid: Seq<bool>) -> Option<int>
    decreases valid.len(),
{
    if valid.len() == 0 {
        None
    } else {
        match first_invalid(valid.drop_last()) {
            Some(i) => Some(i),
            None => if valid.last() {
                None
            } else {
                Some(valid.len() - 1)
            },
        }
    }
}

/// Why a request is refused whose recipients are valid or not, as `valid` says
/// of each; `None` where it is not.
pub open spec fn recipients_refused(recipients: Seq<Seq<char>>, valid: Seq<bool>) -> Option<
    FailureView,
> {
    if recipients.len() == 0 {
        Some(FailureView::bad("at least one recipient is required"@))
    } else {
        match first_invalid(valid) {
            Some(i) => Some(
                FailureView::bad(api::about("recipient"@, recipients[i], "is not a valid address"@)),
            ),
            None => None,
        }
    }
}

/// A message that is being sent.
#[derive(Debug, Clone)]
pub struct Sending {
    /// The mailbox of the sender, to be looked up.
    pub sender: String,
    /// Who gets the message.
    pub recipients: Vec<String>,
    pub mail: SendEmail,
}

impl Sending {
    /// This is how the request `body` is sent.
    pub open spec fn sends(self, body: SendEmail) -> bool {
        &&& self.sender@ == text::lowercase(text::trimmed(body.from@))
        &&& text::views(self.recipients@) == recipients_of(body)
        &&& self.mail == body
    }
}

/// Begin to send a message, where it is known of each recipient whether its
/// address is valid.
pub fn send_with(body: SendEmail, valid: &Vec<bool>) -> (out: Result<Sending, Failure>)
    requires
        valid@.len() == recipients_of(body).len(),
    ensures
        (match (out, recipients_refused(recipients_of(body), valid@)) {
            (Ok(sending), None) => sending.sends(body),
            (Err(e), Some(f)) => e@ == f,
            _ => false,
        }),
{
    let all = recipients(&body);
    assert(text::views(all@).len() == all@.len());
    if all.len() == 0 {
        return Err(Failure::bad("at least one recipient is required"));
    }
    let mut i: usize = 0;
    while i < valid.len()
        invariant
            i <= valid.len(),
            valid@.len() == all@.len(),
            all@.len() > 0,
            text::views(all@) == recipients_of(body),
            first_invalid(valid@.take(i as int)) is None,
        decreases valid.len() - i,
    {
        assert(valid@.take(i + 1).drop_last() == valid@.take(i as int));
        if !valid[i] {
            proof {
                lemma_first_invalid_stays(valid@, i + 1);
            }
            assert(text::views(all@)[i as int] == all@[i as int]@);
            let detail = tell_about("recipient", all[i].as_str(), "is not a valid address");
            return Err(Failure::bad(detail.as_str()));
        }
        i += 1;
    }
    assert(valid@.take(valid@.len() as int) == valid@);
    let sender = to_lowercase(trim(body.from.as_str()).as_str());
    Ok(Sending { sender, recipients: all, mail: body })
}

proof fn lemma_first_invalid_stays(valid: Seq<bool>, n: int)
    requires
        0 <= n <= valid.len(),
        first_invalid(valid.take(n)) is Some,
    ensures
        first_invalid(valid) == first_invalid(valid.take(n)),
    decreases valid.len(),
{
    if n < valid.len() {
        let front = valid.drop_last();
        assert(front.take(n) == valid.take(n));
        lemma_first_invalid_stays(front, n);
    } else {
        assert(valid.take(n) == valid);
    }
}

/// Whether each address is valid.
pub open spec fn validity(addresses: Seq<Seq<char>>) -> Seq<bool> {
    addresses.map_values(|a: Seq<char>| send::address_error(a) is None)
}

/// `POST /mail`: begin to send a message. `None` is a body that cannot be read.
pub fn send_email(body: Option<SendEmail>) -> (out: Result<Sending, Failure>)
    ensures
        (match body {
            Some(body) => match (
                out,
                recipients_refused(recipients_of(body), validity(recipients_of(body))),
            ) {
                (Ok(sending), None) => sending.sends(body),
                (Err(e), Some(f)) => e@ == f,
                _ => false,
            },
            None => out matches Err(e) && e@ == FailureView::unreadable(),
        }),
{
    let body = match body {
        Some(body) => body,
        None => return Err(Failure::unreadable()),
    };
    let all = recipients(&body);
    let mut valid: Vec<bool> = Vec::new();
    let mut i: usize = 0;
    while i < all.len()
        invariant
            i <= all.len(),
            valid@.len() == i,
            forall|k: int|
                0 <= k < i ==> #[trigger] valid@[k] == (send::address_error(all@[k]@) is None),
        decreases all.len() - i,
    {
        valid.push(check_address(all[i].as_str()).is_ok());
        i += 1;
    }
    assert(text::views(all@).len() == all@.len());
    assert(valid@ == validity(text::views(all@)));
    send_with(body, &valid)
}

/// Addresses as one header holds them.
pub open spec fn address_line(list: Seq<Seq<char>>) -> Seq<char>
    decreases list.len(),
{
    if list.len() <= 1 {
        if list.len() == 0 {
            Seq::empty()
        } else {
            list[0]
        }
    } else {
        address_line(list.drop_last()) + ", "@ + list.last()
    }
}

/// The header for these addresses; there is none for none.
pub open spec fn address_header(list: Seq<Seq<char>>) -> Option<Seq<char>> {
    if list.len() == 0 {
        None
    } else {
        Some(address_line(list))
    }
}

fn join_addresses(list: &Vec<String>) -> (out: Option<String>)
    ensures
        text::view_of(out) == address_header(text::views(list@)),
{
    if list.len() == 0 {
        return None;
    }
    let mut line = list[0].clone();
    let mut i: usize = 1;
    proof {
        let head = text::views(list@).take(1);
        assert(head.len() == 1);
        assert(head[0] == list@[0]@);
    }
    while i < list.len()
        invariant
            1 <= i <= list.len(),
            line@ == address_line(text::views(list@).take(i as int)),
        decreases list.len() - i,
    {
        proof {
            let next = text::views(list@).take(i + 1);
            assert(next.drop_last() == text::views(list@).take(i as int));
            assert(next.last() == list@[i as int]@);
        }
        let head = joined(line.as_str(), ", ");
        line = joined(head.as_str(), list[i].as_str());
        i += 1;
    }
    assert(text::views(list@).take(list@.len() as int) == text::views(list@));
    Some(line)
}

/// The first second, from the Unix epoch on, that a message cannot bear.
pub const DATE_LIMIT: u64 = 253_402_300_800;

/// The message that `lettre` builds from these headers and this body, dated by
/// seconds from the Unix epoch; `None` where it does not take them.
pub uninterp spec fn composed(
    from: Seq<char>,
    to: Option<Seq<char>>,
    cc: Option<Seq<char>>,
    bcc: Option<Seq<char>>,
    subject: Option<Seq<char>>,
    content_type: Seq<char>,
    body: Seq<char>,
    date: u64,
) -> Option<Seq<u8>>;

/// `lettre::message::MessageBuilder`: the message with these headers and this
/// body, as it is transmitted. Its date header panics from the year 10000 on, so
/// the precondition leaves those dates out.
#[verifier::external_body]
fn compose_message(
    from: &str,
    to: Option<String>,
    cc: Option<String>,
    bcc: Option<String>,
    subject: Option<String>,
    content_type: &str,
    body: String,
    date: u64,
) -> (out: Option<Vec<u8>>)
    requires
        date < DATE_LIMIT,
    ensures
        composed(
            from@,
            text::view_of(to),
            text::view_of(cc),
            text::view_of(bcc),
            text::view_of(subject),
            content_type@,
            body@,
            date,
        ) == (match out {
            Some(raw) => Some(raw@),
            None => None,
        }),
{
    let at = UNIX_EPOCH + Duration::from_secs(date);
    let kind = ContentType::parse(content_type).ok()?;
    let mut mail = MessageBuilder::new().date(at).header(kind).from(from.parse().ok()?);
    if let Some(list) = to {
        mail = mail.header(To::parse(&list).ok()?);
    }
    if let Some(list) = cc {
        mail = mail.header(Cc::parse(&list).ok()?);
    }
    if let Some(list) = bcc {
        mail = mail.header(Bcc::parse(&list).ok()?);
    }
    mail = match subject { Some(text) => mail.subject(text), None => mail };
    Some(mail.body(body).ok()?.formatted())
}

/// The message of a request, as it is transmitted.
pub open spec fn composed_mail(mail: SendEmail, date: u64) -> Option<Seq<u8>> {
    composed(
        text::trimmed(mail.from@),
        address_header(text::views(mail.to@)),
        address_header(text::views(mail.cc@)),
        address_header(text::views(mail.bcc@)),
        text::view_of(mail.subject),
        match mail.content_type {
            Some(kind) => kind@,
            None => default_content_type(),
        },
        mail.body@,
        date,
    )
}

/// The row to store for a message from `from` that was composed, or not.
pub open spec fn row_to_send(from: Seq<char>, raw: Option<Seq<u8>>) -> Result<
    db::NewMessageView,
    FailureView,
> {
    match raw {
        Some(raw) if raw.len() <= u32::MAX => Ok(
            email::message_row(text::trimmed(from), raw, email::parsed_headers(raw)),
        ),
        _ => Err(FailureView::bad("the message cannot be composed"@)),
    }
}

/// The row of a message is `want`, or the refusal.
pub open spec fn gives_row(
    out: Result<NewMessage, Failure>,
    want: Result<db::NewMessageView, FailureView>,
) -> bool {
    match (out, want) {
        (Ok(row), Ok(view)) => row@ == view,
        (Err(e), Err(f)) => e@ == f,
        _ => false,
    }
}

/// The ids of a finished request.
pub open spec fn all_stored(stored: Seq<Result<u64, String>>, ids: Seq<u64>) -> bool {
    &&& ids.len() == stored.len()
    &&& forall|i: int|
        0 <= i < stored.len() ==> (#[trigger] stored[i] matches Ok(id) && id == ids[i])
}

impl Sending {
    /// Whether the message may be sent, once the mailbox of the sender was
    /// looked up.
    pub fn sender_looked_up(&self, found: &Option<Mailbox>) -> (out: Result<(), Failure>)
        ensures
            api::passes(
                out,
                match found {
                    Some(_) => Ok(()),
                    None => Err(
                        FailureView::conflict(
                            api::about("sender"@, self.sender@, "is not a provisioned mailbox"@),
                        ),
                    ),
                },
            ),
    {
        match found {
            Some(_) => Ok(()),
            None => {
                let detail = tell_about(
                    "sender",
                    self.sender.as_str(),
                    "is not a provisioned mailbox",
                );
                Err(Failure::of(ApiProblem::conflict(detail.as_str())))
            },
        }
    }

    /// The row to store for the message, where it was composed as `raw`, or not.
    pub fn row_with(&self, raw: Option<Vec<u8>>) -> (out: Result<NewMessage, Failure>)
        ensures
            gives_row(
                out,
                row_to_send(
                    self.mail.from@,
                    match raw {
                        Some(raw) => Some(raw@),
                        None => None,
                    },
                ),
            ),
    {
        match raw {
            Some(raw) => if raw.len() as u64 <= u32::MAX as u64 {
                Ok(outgoing_message(trim(self.mail.from.as_str()), raw))
            } else {
                Err(Failure::bad("the message cannot be composed"))
            },
            None => Err(Failure::bad("the message cannot be composed")),
        }
    }

    /// Compose the message with that date, in seconds from the Unix epoch; the
    /// row to store for it.
    pub fn compose(&self, date: u64) -> (out: Result<NewMessage, Failure>)
        requires
            date < DATE_LIMIT,
        ensures
            gives_row(out, row_to_send(self.mail.from@, composed_mail(self.mail, date))),
    {
        let from = trim(self.mail.from.as_str());
        let content_type = match &self.mail.content_type {
            Some(kind) => kind.clone(),
            None => "text/plain; charset=utf-8".to_owned(),
        };
        let raw = compose_message(
            from.as_str(),
            join_addresses(&self.mail.to),
            join_addresses(&self.mail.cc),
            join_addresses(&self.mail.bcc),
            copy_text(&self.mail.subject),
            content_type.as_str(),
            self.mail.body.clone(),
            date,
        );
        self.row_with(raw)
    }

    /// The jobs to store once the message was stored, one for each recipient.
    pub fn message_stored(&self, stored: Result<u64, String>) -> (out: Result<
        Vec<NewOutbound>,
        Failure,
    >)
        ensures
            (match (stored, out) {
                (Ok(id), Ok(jobs)) => {
                    &&& jobs@.len() == self.recipients@.len()
                    &&& forall|i: int|
                        0 <= i < jobs@.len() ==> (#[trigger] jobs@[i])@ == send::queued_job(
                            id,
                            self.sender@,
                            self.recipients@[i]@,
                        )
                    &&& forall|i: int|
                        0 <= i < jobs@.len() ==> is_fresh_job(
                            #[trigger] jobs@[i],
                            id,
                            self.sender@,
                            self.recipients@[i]@,
                        )
                },
                (Err(e), Err(f)) => f@ == FailureView::server(e@),
                _ => false,
            }),
    {
        let id = match stored {
            Ok(id) => id,
            Err(e) => return Err(Failure::server(e.as_str())),
        };
        let mut jobs: Vec<NewOutbound> = Vec::new();
        let mut i: usize = 0;
        while i < self.recipients.len()
            invariant
                i <= self.recipients.len(),
                jobs@.len() == i,
                forall|k: int|
                    0 <= k < i ==> (#[trigger] jobs@[k])@ == send::queued_job(
                        id,
                        self.sender@,
                        self.recipients@[k]@,
                    ),
            decreases self.recipients.len() - i,
        {
            jobs.push(enqueue_forward(id, self.sender.as_str(), self.recipients[i].as_str()));
            i += 1;
        }
        assert forall|k: int| 0 <= k < jobs@.len() implies is_fresh_job(
            #[trigger] jobs@[k],
            id,
            self.sender@,
            self.recipients@[k]@,
        ) by {
            assert(jobs@[k]@ == send::queued_job(id, self.sender@, self.recipients@[k]@));
        }
        Ok(jobs)
    }

    /// The answer once each job was stored, or could not be.
    pub fn jobs_stored(&self, message_id: u64, stored: Vec<Result<u64, String>>) -> (out: Result<
        ApiResponse<SendResult>,
        Failure,
    >)
        ensures
            (match out {
                Ok(reply) => {
                    &&& reply.ok
                    &&& reply.data.message_id == message_id
                    &&& all_stored(stored@, reply.data.outbound_ids@)
                },
                Err(f) => exists|i: int|
                    0 <= i < stored@.len() && (#[trigger] stored@[i] matches Err(e) && f@
                        == FailureView::server(e@)) && forall|k: int|
                        0 <= k < i ==> #[trigger] stored@[k] is Ok,
            }),
    {
        let mut outbound_ids: Vec<u64> = Vec::new();
        let mut i: usize = 0;
        while i < stored.len()
            invariant
                i <= stored.len(),
                all_stored(stored@.take(i as int), outbound_ids@),
            decreases stored.len() - i,
        {
            let ghost seen = stored@.take(i as int);
            assert(forall|k: int| 0 <= k < i ==> #[trigger] stored@[k] == seen[k]);
            match &stored[i] {
                Ok(id) => {
                    outbound_ids.push(*id);
                },
                Err(e) => {
                    assert(stored@[i as int] is Err);
                    return Err(Failure::server(e.as_str()));
                },
            }
            i += 1;
        }
        assert(stored@.take(stored@.len() as int) == stored@);
        Ok(ApiResponse::ok(SendResult { message_id, outbound_ids }))
    }
}

/// A request is refused for its recipients just where there are none or where
/// one of them is not valid.
pub proof fn law_every_recipient_has_to_be_valid(recipients: Seq<Seq<char>>, valid: Seq<bool>)
    requires
        valid.len() == recipients.len(),
    ensures
        recipients_refused(recipients, valid) is None <==> recipients.len() > 0 && forall|i: int|
            0 <= i < valid.len() ==> #[trigger] valid[i],
        recipients_refused(recipients, valid) matches Some(f) ==> f.status == 400,
{
    lemma_first_invalid(valid);
}

proof fn lemma_first_invalid(valid: Seq<bool>)
    ensures
        first_invalid(valid) is None <==> forall|i: int|
            0 <= i < valid.len() ==> #[trigger] valid[i],
        first_invalid(valid) matches Some(i) ==> 0 <= i < valid.len() && !valid[i],
    decreases valid.len(),
{
    if valid.len() > 0 {
        let front = valid.drop_last();
        lemma_first_invalid(front);
        assert(forall|i: int| 0 <= i < front.len() ==> #[trigger] front[i] == valid[i]);
        if first_invalid(valid) is None {
            assert forall|i: int| 0 <= i < valid.len() implies #[trigger] valid[i] by {
                if i < front.len() {
                    assert(front[i]);
                }
            }
        }
        if forall|i: int| 0 <= i < valid.len() ==> #[trigger] valid[i] {
            assert(forall|i: int| 0 <= i < front.len() ==> #[trigger] front[i]);
            assert(valid[valid.len() - 1]);
        }
    }
}

/// Every address that the message is to, is copied to or is copied blindly to is
/// a recipient of the accepted request, in that order, whichever of the three
/// lists are empty, and nobody else is.
pub proof fn law_every_address_is_a_recipient(body: SendEmail, sending: Sending)
    requires
        sending.sends(body),
    ensures
        sending.recipients@.len() == body.to@.len() + body.cc@.len() + body.bcc@.len(),
        forall|i: int|
            0 <= i < body.to@.len() ==> sending.recipients@[i]@ == (#[trigger] body.to@[i])@,
        forall|i: int|
            0 <= i < body.cc@.len() ==> sending.recipients@[body.to@.len() + i]@ == (
            #[trigger] body.cc@[i])@,
        forall|i: int|
            0 <= i < body.bcc@.len() ==> sending.recipients@[body.to@.len() + body.cc@.len() + i]@
                == (#[trigger] body.bcc@[i])@,
        forall|i: int|
            0 <= i < body.to@.len() ==> text::has_text(
                sending.recipients@,
                (#[trigger] body.to@[i])@,
            ),
        forall|i: int|
            0 <= i < body.cc@.len() ==> text::has_text(
                sending.recipients@,
                (#[trigger] body.cc@[i])@,
            ),
        forall|i: int|
            0 <= i < body.bcc@.len() ==> text::has_text(
                sending.recipients@,
                (#[trigger] body.bcc@[i])@,
            ),
{
    lemma_recipients_stand_in_order(sending.recipients@, body);
}

proof fn lemma_recipients_stand_in_order(list: Seq<String>, body: SendEmail)
    requires
        text::views(list) == recipients_of(body),
    ensures
        list.len() == body.to@.len() + body.cc@.len() + body.bcc@.len(),
        forall|i: int|
            0 <= i < body.to@.len() ==> list[i]@ == (#[trigger] body.to@[i])@ && text::has_text(
                list,
                body.to@[i]@,
            ),
        forall|i: int|
            0 <= i < body.cc@.len() ==> list[body.to@.len() + i]@ == (#[trigger] body.cc@[i])@
                && text::has_text(list, body.cc@[i]@),
        forall|i: int|
            0 <= i < body.bcc@.len() ==> list[body.to@.len() + body.cc@.len() + i]@ == (
            #[trigger] body.bcc@[i])@ && text::has_text(list, body.bcc@[i]@),
{
    let all = text::views(list);
    let to = text::views(body.to@);
    let cc = text::views(body.cc@);
    let bcc = text::views(body.bcc@);
    assert(all == to + cc + bcc);
    assert(all.len() == list.len());
    assert forall|i: int| 0 <= i < body.to@.len() implies list[i]@ == (#[trigger] body.to@[i])@
        && text::has_text(list, body.to@[i]@) by {
        assert(all[i] == to[i]);
        assert(all[i] == list[i]@);
    }
    assert forall|i: int| 0 <= i < body.cc@.len() implies list[to.len() + i]@ == (
    #[trigger] body.cc@[i])@ && text::has_text(list, body.cc@[i]@) by {
        assert(all[to.len() + i] == cc[i]);
        assert(all[to.len() + i] == list[to.len() + i]@);
    }
    assert forall|i: int| 0 <= i < body.bcc@.len() implies list[to.len() + cc.len() + i]@ == (
    #[trigger] body.bcc@[i])@ && text::has_text(list, body.bcc@[i]@) by {
        assert(all[to.len() + cc.len() + i] == bcc[i]);
        assert(all[to.len() + cc.len() + i] == list[to.len() + cc.len() + i]@);
    }
}

/// A job takes the message `id` from `sender` to `recipient`, and waits to be
/// tried for the first time.
pub open spec fn is_fresh_job(
    job: NewOutbound,
    id: u64,
    sender: Seq<char>,
    recipient: Seq<char>,
) -> bool {
    &&& job.message_id == id
    &&& job.sender_id@ == sender
    &&& job.rcpt_to@ == recipient
    &&& job.status == db::OutboundStatus::Queued
    &&& job.attempts == 0
    &&& job.next_attempt_at is None
    &&& job.last_error is None
}

/// Every address of the request has a job of its own once the message is
/// stored, and there are no other jobs: as many as the three lists have
/// addresses.
pub proof fn law_every_address_has_a_job(
    body: SendEmail,
    sending: Sending,
    id: u64,
    jobs: Seq<NewOutbound>,
)
    requires
        sending.sends(body),
        jobs.len() == sending.recipients@.len(),
        forall|i: int|
            0 <= i < jobs.len() ==> (#[trigger] jobs[i])@ == send::queued_job(
                id,
                sending.sender@,
                sending.recipients@[i]@,
            ),
    ensures
        jobs.len() == body.to@.len() + body.cc@.len() + body.bcc@.len(),
        forall|i: int|
            0 <= i < body.to@.len() ==> is_fresh_job(
                jobs[i],
                id,
                sending.sender@,
                (#[trigger] body.to@[i])@,
            ),
        forall|i: int|
            0 <= i < body.cc@.len() ==> is_fresh_job(
                jobs[body.to@.len() + i],
                id,
                sending.sender@,
                (#[trigger] body.cc@[i])@,
            ),
        forall|i: int|
            0 <= i < body.bcc@.len() ==> is_fresh_job(
                jobs[body.to@.len() + body.cc@.len() + i],
                id,
                sending.sender@,
                (#[trigger] body.bcc@[i])@,
            ),
{
    law_every_address_is_a_recipient(body, sending);
    assert forall|i: int| 0 <= i < jobs.len() implies is_fresh_job(
        #[trigger] jobs[i],
        id,
        sending.sender@,
        sending.recipients@[i]@,
    ) by {
        assert(jobs[i]@ == send::queued_job(id, sending.sender@, sending.recipients@[i]@));
    }
    let n = body.to@.len() as int;
    let m = body.cc@.len() as int;
    assert forall|i: int| 0 <= i < body.cc@.len() implies is_fresh_job(
        jobs[n + i],
        id,
        sending.sender@,
        (#[trigger] body.cc@[i])@,
    ) by {
        assert(sending.recipients@[n + i]@ == body.cc@[i]@);
    }
    assert forall|i: int| 0 <= i < body.bcc@.len() implies is_fresh_job(
        jobs[n + m + i],
        id,
        sending.sender@,
        (#[trigger] body.bcc@[i])@,
    ) by {
        assert(sending.recipients@[n + m + i]@ == body.bcc@[i]@);
    }
}

/// The sender is looked up under the address of the request in small letters,
/// without the white space around it.
pub proof fn law_sender_is_that_of_the_request(
    body: SendEmail,
    sending: Sending,
    front: Seq<char>,
    from: Seq<char>,
    back: Seq<char>,
)
    requires
        sending.sends(body),
        text::is_blank(front),
        text::is_blank(back),
        text::is_bare(from),
        body.from@ == front + from + back,
    ensures
        sending.sender@ == text::lowercase(from),
        sending.mail == body,
{
    text::law_trimming_leaves_the_inside(front, from, back);
}

/// A request without a recipient is refused for that. Otherwise the recipient
/// that the refusal names is the first one that is not valid.
pub proof fn law_first_invalid_recipient_is_named(
    recipients: Seq<Seq<char>>,
    valid: Seq<bool>,
    i: int,
)
    requires
        valid.len() == recipients.len(),
        0 <= i < valid.len(),
        !valid[i],
        forall|k: int| 0 <= k < i ==> #[trigger] valid[k],
    ensures
        recipients_refused(recipients, valid) matches Some(f) && f.status == 400
            && f.problem.detail == Some(
            "recipient '"@ + recipients[i] + "' is not a valid address"@,
        ),
        recipients_refused(Seq::empty(), Seq::empty()) matches Some(f) && f.status == 400
            && f.problem.detail == Some("at least one recipient is required"@),
{
    lemma_first_invalid_is(valid, i);
    reveal_strlit("recipient");
    reveal_strlit(" '");
    reveal_strlit("recipient '");
    reveal_strlit("' ");
    reveal_strlit("is not a valid address");
    reveal_strlit("' is not a valid address");
    assert("recipient"@ + " '"@ == "recipient '"@);
    assert("' "@ + "is not a valid address"@ == "' is not a valid address"@);
    let head = "recipient '"@ + recipients[i];
    assert(head + "' "@ + "is not a valid address"@ == head + ("' "@ + "is not a valid address"@));
}

proof fn lemma_first_invalid_is(valid: Seq<bool>, i: int)
    requires
        0 <= i < valid.len(),
        !valid[i],
        forall|k: int| 0 <= k < i ==> #[trigger] valid[k],
    ensures
        first_invalid(valid) == Some(i),
{
    let head = valid.take(i + 1);
    let before = valid.take(i);
    assert(head.drop_last() == before);
    assert(head.last() == valid[i]);
    lemma_first_invalid(before);
    assert forall|k: int| 0 <= k < before.len() implies #[trigger] before[k] by {
        assert(before[k] == valid[k]);
    }
    assert(first_invalid(head) == Some(i));
    lemma_first_invalid_stays(valid, i + 1);
}

/// An address is valid exactly where `lettre` takes it.
pub proof fn law_validity_is_that_of_the_address(addresses: Seq<Seq<char>>, i: int)
    requires
        0 <= i < addresses.len(),
    ensures
        validity(addresses).len() == addresses.len(),
        validity(addresses)[i] <==> send::address_error(addresses[i]) is None,
{
}

/// The header for a list of addresses holds all of them in order, with a comma
/// and a space between two; there is no header for none.
pub proof fn law_header_holds_every_address(list: Seq<Seq<char>>, address: Seq<char>)
    ensures
        address_header(Seq::empty()) is None,
        address_header(seq![address]) == Some(address),
        address_header(list) matches Some(line) ==> address_header(list.push(address)) == Some(
            line + ", "@ + address,
        ),
        list.len() > 0 ==> address_header(list) is Some,
{
    assert(list.push(address).drop_last() == list);
    assert(seq![address][0] == address);
}

/// The message is composed from what the request holds, each thing in its
/// place: the sender without white space around it, the three lists of
/// addresses, the subject where there is one, and the body, which is plain text
/// where the request does not say what it is.
pub proof fn law_message_is_composed_from_the_request(
    mail: SendEmail,
    date: u64,
    front: Seq<char>,
    from: Seq<char>,
    back: Seq<char>,
)
    requires
        text::is_blank(front),
        text::is_blank(back),
        text::is_bare(from),
        mail.from@ == front + from + back,
    ensures
        composed_mail(mail, date) == composed(
            from,
            address_header(text::views(mail.to@)),
            address_header(text::views(mail.cc@)),
            address_header(text::views(mail.bcc@)),
            text::view_of(mail.subject),
            (match mail.content_type {
                Some(kind) => kind@,
                None => "text/plain; charset=utf-8"@,
            }),
            mail.body@,
            date,
        ),
{
    text::law_trimming_leaves_the_inside(front, from, back);
}

/// The row of a composed message holds the message as it was composed, from the
/// sender without white space around it; without a message there is a refusal.
pub proof fn law_composed_messages_are_stored(
    front: Seq<char>,
    from: Seq<char>,
    back: Seq<char>,
    raw: Seq<u8>,
)
    requires
        text::is_blank(front),
        text::is_blank(back),
        text::is_bare(from),
    ensures
        raw.len() <= u32::MAX ==> (row_to_send(front + from + back, Some(raw)) matches Ok(row)
            && row.raw == raw && row.mail_from == from),
        raw.len() > u32::MAX ==> row_to_send(front + from + back, Some(raw)) is Err,
        row_to_send(front + from + back, None) matches Err(f) && f.status == 400
            && f.problem.detail == Some("the message cannot be composed"@),
{
    text::law_trimming_leaves_the_inside(front, from, back);
}

/// A request is done once every job was stored; it then has the ids of all of
/// them, in the order of the recipients.
pub proof fn law_every_job_is_answered(stored: Seq<Result<u64, String>>, ids: Seq<u64>)
    requires
        all_stored(stored, ids),
    ensures
        ids.len() == stored.len(),
        forall|i: int| 0 <= i < stored.len() ==> #[trigger] stored[i] == Ok::<u64, String>(ids[i]),
{
    assert forall|i: int| 0 <= i < stored.len() implies #[trigger] stored[i] == Ok::<u64, String>(
        ids[i],
    ) by {
        assert(stored[i] matches Ok(id) && id == ids[i]);
    }
}

/// The row of a message is given exactly where one is wanted, and it is that one;
/// otherwise the refusal is the one that is wanted.
pub proof fn law_rows_are_given_where_wanted(
    out: Result<NewMessage, Failure>,
    want: Result<db::NewMessageView, FailureView>,
)
    requires
        gives_row(out, want),
    ensures
        out is Ok <==> want is Ok,
        out matches Ok(row) ==> want == Ok::<db::NewMessageView, FailureView>(row@),
        out matches Err(e) ==> want == Err::<db::NewMessageView, FailureView>(e@),
{
}

} // verus!
