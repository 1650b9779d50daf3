//! The endpoints of messages: the lists of a mailbox, and single messages.
use vstd::prelude::*;
use crate::api;
use crate::api::{
    absent, check_present, page_params, ApiResponse, Failure, FailureView,
    Page,
};
use crate::db::{Inbound, Mailbox, Message, Outbound};
use crate::text;
use crate::text::{copy_text, copy_texts, number_text, same_text, to_lowercase};
use crate::time;

verus! {

/// Which messages of a mailbox to list.
#[derive(Debug, Clone, Copy, PartialEq, Eq, Structural)]
pub enum MessageDirection {
    /// Those that it received and those that it sent.
    Both,
    /// Those that it received.
    Inbound,
    /// Those that it sent.
    Outbound,
}

impl MessageDirection {
    /// Received messages are listed.
    pub open spec fn received(self) -> bool {
        self != MessageDirection::Outbound
    }

    /// Sent messages are listed.
    pub open spec fn sent(self) -> bool {
        self != MessageDirection::Inbound
    }
}

/// A message as the API shows it.
#[derive(Debug, Clone)]
pub struct MessageDTO {
    pub id: u64,
    /// `inbound` or `outbound` in the list of a mailbox; `None` elsewhere.
    pub direction: Option<String>,
    pub mail_from: String,
    pub subject: Option<String>,
    pub message_id_header: Option<String>,
    pub content_type: Option<String>,
    pub from_address: Option<String>,
    pub to: Vec<String>,
    pub cc: Vec<String>,
    pub bcc: Vec<String>,
    pub created_at: String,
    pub updated_at: String,
}

/// What a [`MessageDTO`] holds.
#[verifier::ext_equal]
pub struct MessageDTOView {
    pub id: u64,
    pub direction: Option<Seq<char>>,
    pub mail_from: Seq<char>,
    pub subject: Option<Seq<char>>,
    pub message_id_header: Option<Seq<char>>,
    pub content_type: Option<Seq<char>>,
    pub from_address: Option<Seq<char>>,
    pub to: Seq<Seq<char>>,
    pub cc: Seq<Seq<char>>,
    pub bcc: Seq<Seq<char>>,
    pub created_at: Seq<char>,
    pub updated_at: Seq<char>,
}

impl View for MessageDTO {
    type V = MessageDTOView;

    open spec fn view(&self) -> MessageDTOView {
        MessageDTOView {
            id: self.id,
            direction: text::view_of(self.direction),
            mail_from: self.mail_from@,
            subject: text::view_of(self.subject),
            message_id_header: text::view_of(self.message_id_header),
            content_type: text::view_of(self.content_type),
            from_address: text::view_of(self.from_address),
            to: text::views(self.to@),
            cc: text::views(self.cc@),
            bcc: text::views(self.bcc@),
            created_at: self.created_at@,
            updated_at: self.updated_at@,
        }
    }
}

/// What the API shows of a message. The payload is not shown.
pub open spec fn message_dto(message: Message, direction: Option<Seq<char>>) -> MessageDTOView {
    MessageDTOView {
        id: message.id,
        direction,
        mail_from: message.mail_from@,
        subject: text::view_of(message.subject),
        message_id_header: text::view_of(message.message_id_header),
        content_type: text::view_of(message.content_type),
        from_address: text::view_of(message.from_address),
        to: text::views(message.to@),
        cc: text::views(message.cc@),
        bcc: text::views(message.bcc@),
        created_at: time::timestamp_text(message.created_at.nanos),
        updated_at: time::timestamp_text(message.updated_at.nanos),
    }
}

impl MessageDTO {
    /// What the API shows of a message.
    pub fn of(message: &Message, direction: Option<String>) -> (out: MessageDTO)
        requires
            message.wf(),
        ensures
            out@ == message_dto(*message, text::view_of(direction)),
    {
        MessageDTO {
            id: message.id,
            direction,
            mail_from: message.mail_from.clone(),
            subject: copy_text(&message.subject),
            message_id_header: copy_text(&message.message_id_header),
            content_type: copy_text(&message.content_type),
            from_address: copy_text(&message.from_address),
            to: copy_texts(&message.to),
            cc: copy_texts(&message.cc),
            bcc: copy_texts(&message.bcc),
            created_at: message.created_at.text(),
            updated_at: message.updated_at.text(),
        }
    }
}

/// The query of a request for the messages of a mailbox.
#[derive(Debug, Clone)]
pub struct ListMessagesQuery {
    /// Which messages to list; both sorts where it is not given.
    pub direction: Option<MessageDirection>,
    pub limit: Option<usize>,
    pub offset: Option<usize>,
}

/// A list of messages that is being made.
#[derive(Debug, Clone)]
pub struct MessageListing {
    pub mailbox_id: String,
    pub direction: MessageDirection,
    pub limit: usize,
    pub offset: usize,
}

impl MessageListing {
    /// The listing is that of the mailbox with that direction, limit and offset.
    pub open spec fn is_for(
        self,
        mailbox_id: Seq<char>,
        direction: MessageDirection,
        limit: Option<usize>,
        offset: Option<usize>,
    ) -> bool {
        &&& self.mailbox_id@ == mailbox_id
        &&& self.direction == direction
        &&& self.limit == api::page_limit(limit)
        &&& self.offset == api::page_offset(offset)
    }
}

/// `GET /mailboxes/{mailbox_id}/messages`: begin to list the messages of a
/// mailbox. Where the query as a whole cannot be read, the limit and the offset
/// are what can be read of them alone, and both sorts are listed.
pub fn list_mailbox_messages(
    mailbox_id: &str,
    query: Option<ListMessagesQuery>,
    limit: Option<usize>,
    offset: Option<usize>,
) -> (out: MessageListing)
    ensures
        (match query {
            Some(q) => out.is_for(
                mailbox_id@,
                match q.direction {
                    Some(direction) => direction,
                    None => MessageDirection::Both,
                },
                q.limit,
                q.offset,
            ),
            None => out.is_for(mailbox_id@, MessageDirection::Both, limit, offset),
        }),
{
    let (direction, limit, offset) = match query {
        Some(q) => (
            match q.direction {
                Some(direction) => direction,
                None => MessageDirection::Both,
            },
            q.limit,
            q.offset,
        ),
        None => (MessageDirection::Both, limit, offset),
    };
    let (limit, offset) = page_params(limit, offset);
    MessageListing { mailbox_id: mailbox_id.to_owned(), direction, limit, offset }
}

/// `GET /mailboxes/{mailbox_id}/messages/inbox`: begin to list the messages that
/// a mailbox received.
pub fn list_mailbox_inbox(mailbox_id: &str, limit: Option<usize>, offset: Option<usize>) -> (out:
    MessageListing)
    ensures
        out.is_for(mailbox_id@, MessageDirection::Inbound, limit, offset),
{
    let (limit, offset) = page_params(limit, offset);
    MessageListing {
        mailbox_id: mailbox_id.to_owned(),
        direction: MessageDirection::Inbound,
        limit,
        offset,
    }
}

/// `GET /mailboxes/{mailbox_id}/messages/sent`: begin to list the messages that a
/// mailbox sent.
pub fn list_mailbox_sent(mailbox_id: &str, limit: Option<usize>, offset: Option<usize>) -> (out:
    MessageListing)
    ensures
        out.is_for(mailbox_id@, MessageDirection::Outbound, limit, offset),
{
    let (limit, offset) = page_params(limit, offset);
    MessageListing {
        mailbox_id: mailbox_id.to_owned(),
        direction: MessageDirection::Outbound,
        limit,
        offset,
    }
}

/// A message in the list of a mailbox.
#[derive(Debug, Clone, Copy, PartialEq, Eq, Structural)]
pub struct MessageLink {
    pub message_id: u64,
    /// Whether the mailbox sent it. One that it both sent and received counts
    /// as sent, where sent messages are listed.
    pub sent: bool,
}

/// The message was received for `key`.
pub open spec fn is_received(rows: Seq<Inbound>, key: Seq<char>, id: u64) -> bool {
    exists|i: int|
        0 <= i < rows.len() && (#[trigger] rows[i]).message_id == id && rows[i].rcpt_to@ == key
}

/// The message was sent by `key`.
pub open spec fn is_sent(rows: Seq<Outbound>, key: Seq<char>, id: u64) -> bool {
    exists|i: int|
        0 <= i < rows.len() && (#[trigger] rows[i]).message_id == id && rows[i].sender_id@ == key
}

/// The message is in the list.
pub open spec fn has_link(links: Seq<MessageLink>, id: u64) -> bool {
    exists|i: int| 0 <= i < links.len() && (#[trigger] links[i]).message_id == id
}

/// The message is in the list as sent.
pub open spec fn has_sent_link(links: Seq<MessageLink>, id: u64) -> bool {
    exists|i: int|
        0 <= i < links.len() && (#[trigger] links[i]).message_id == id && links[i].sent
}

/// No message is in the list twice, and they stand by their ids.
pub open spec fn by_id(links: Seq<MessageLink>) -> bool {
    forall|i: int, j: int|
        0 <= i < j < links.len() ==> (#[trigger] links[i]).message_id < (
        #[trigger] links[j]).message_id
}

/// `links` are the messages of the mailbox `key` of that direction.
pub open spec fn links_of(
    links: Seq<MessageLink>,
    key: Seq<char>,
    direction: MessageDirection,
    inbounds: Seq<Inbound>,
    outbounds: Seq<Outbound>,
) -> bool {
    &&& by_id(links)
    &&& forall|id: u64| #[trigger]
        has_link(links, id) <==> {
            ||| direction.received() && is_received(inbounds, key, id)
            ||| direction.sent() && is_sent(outbounds, key, id)
        }
    &&& forall|id: u64| #[trigger]
        has_sent_link(links, id) <==> direction.sent() && is_sent(outbounds, key, id)
}

fn put_link(links: &mut Vec<MessageLink>, id: u64, sent: bool)
    requires
        by_id(old(links)@),
    ensures
        by_id(final(links)@),
        forall|x: u64| #[trigger]
            has_link(final(links)@, x) <==> has_link(old(links)@, x) || x == id,
        forall|x: u64| #[trigger]
            has_sent_link(final(links)@, x) <==> has_sent_link(old(links)@, x) || (x == id && sent),
{
    let ghost before = links@;
    let mut at: usize = links.len();
    while at > 0 && links[at - 1].message_id > id
        invariant
            at <= links.len(),
            links@ == before,
            forall|k: int| at <= k < before.len() ==> (#[trigger] before[k]).message_id > id,
        decreases at,
    {
        at -= 1;
    }
    if at > 0 && links[at - 1].message_id == id {
        let spot: usize = at - 1;
        let kept: bool = links[spot].sent || sent;
        links.set(spot, MessageLink { message_id: id, sent: kept });
        proof {
            let after = links@;
            assert(after == before.update(spot as int, MessageLink { message_id: id, sent: kept }));
            assert(before[spot as int].message_id == id);
            assert(after[spot as int].message_id == id);
            assert forall|x: u64| #[trigger]
                has_link(after, x) <==> has_link(before, x) || x == id by {
                if has_link(before, x) {
                    let i = choose|i: int|
                        0 <= i < before.len() && (#[trigger] before[i]).message_id == x;
                    assert(after[i].message_id == x);
                }
                if has_link(after, x) {
                    let i = choose|i: int|
                        0 <= i < after.len() && (#[trigger] after[i]).message_id == x;
                    assert(before[i].message_id == x);
                }
            }
            assert forall|x: u64| #[trigger]
                has_sent_link(after, x) <==> has_sent_link(before, x) || (x == id && sent) by {
                if has_sent_link(before, x) {
                    let i = choose|i: int|
                        0 <= i < before.len() && (#[trigger] before[i]).message_id == x
                            && before[i].sent;
                    assert(after[i].message_id == x && after[i].sent);
                }
                if has_sent_link(after, x) {
                    let i = choose|i: int|
                        0 <= i < after.len() && (#[trigger] after[i]).message_id == x
                            && after[i].sent;
                    assert(before[i].message_id == x);
                }
                if x == id && sent {
                    assert(after[spot as int].sent);
                }
            }
        }
    } else {
        links.insert(at, MessageLink { message_id: id, sent });
        proof {
            let after = links@;
            let item = MessageLink { message_id: id, sent };
            assert(after == before.insert(at as int, item));
            assert(forall|k: int| 0 <= k < at ==> (#[trigger] before[k]).message_id < id);
            assert(after[at as int] == item);
            assert(forall|k: int| 0 <= k < at ==> #[trigger] after[k] == before[k]);
            assert(forall|k: int| at < k < after.len() ==> #[trigger] after[k] == before[k - 1]);
            assert forall|x: u64| #[trigger]
                has_link(after, x) <==> has_link(before, x) || x == id by {
                if has_link(before, x) {
                    let i = choose|i: int|
                        0 <= i < before.len() && (#[trigger] before[i]).message_id == x;
                    assert(after[if i < at { i } else { i + 1 }].message_id == x);
                }
                if has_link(after, x) {
                    let i = choose|i: int|
                        0 <= i < after.len() && (#[trigger] after[i]).message_id == x;
                    if i != at {
                        assert(before[if i < at { i } else { i - 1 }].message_id == x);
                    }
                }
            }
            assert forall|x: u64| #[trigger]
                has_sent_link(after, x) <==> has_sent_link(before, x) || (x == id && sent) by {
                if has_sent_link(before, x) {
                    let i = choose|i: int|
                        0 <= i < before.len() && (#[trigger] before[i]).message_id == x
                            && before[i].sent;
                    assert(after[if i < at { i } else { i + 1 }] == before[i]);
                }
                if has_sent_link(after, x) {
                    let i = choose|i: int|
                        0 <= i < after.len() && (#[trigger] after[i]).message_id == x
                            && after[i].sent;
                    if i != at {
                        assert(before[if i < at { i } else { i - 1 }] == after[i]);
                    }
                }
            }
        }
    }
}

/// The messages of the mailbox `key` of that direction, by their ids and each
/// once. Rows of other mailboxes are passed over.
pub fn load_mailbox_messages(
    key: &str,
    direction: MessageDirection,
    inbounds: &Vec<Inbound>,
    outbounds: &Vec<Outbound>,
) -> (links: Vec<MessageLink>)
    ensures
        links_of(links@, key@, direction, inbounds@, outbounds@),
{
    let mut links: Vec<MessageLink> = Vec::new();
    if direction != MessageDirection::Outbound {
        let mut i: usize = 0;
        while i < inbounds.len()
            invariant
                i <= inbounds.len(),
                by_id(links@),
                forall|id: u64| #[trigger]
                    has_link(links@, id) <==> is_received(inbounds@.take(i as int), key@, id),
                forall|id: u64| !#[trigger] has_sent_link(links@, id),
            decreases inbounds.len() - i,
        {
            let ghost seen = inbounds@.take(i as int);
            let ghost row = inbounds@[i as int];
            assert(inbounds@.take(i + 1) == seen.push(row));
            proof {
                lemma_received_push(seen, row, key@);
            }
            if same_text(inbounds[i].rcpt_to.as_str(), key) {
                put_link(&mut links, inbounds[i].message_id, false);
            }
            i += 1;
        }
        assert(inbounds@.take(inbounds@.len() as int) == inbounds@);
    }
    let ghost received = links@;
    if direction != MessageDirection::Inbound {
        let mut i: usize = 0;
        while i < outbounds.len()
            invariant
                i <= outbounds.len(),
                by_id(links@),
                forall|id: u64| #[trigger]
                    has_link(links@, id) <==> has_link(received, id) || is_sent(
                        outbounds@.take(i as int),
                        key@,
                        id,
                    ),
                forall|id: u64| #[trigger]
                    has_sent_link(links@, id) <==> is_sent(outbounds@.take(i as int), key@, id),
            decreases outbounds.len() - i,
        {
            let ghost seen = outbounds@.take(i as int);
            let ghost row = outbounds@[i as int];
            assert(outbounds@.take(i + 1) == seen.push(row));
            proof {
                lemma_sent_push(seen, row, key@);
            }
            if same_text(outbounds[i].sender_id.as_str(), key) {
                put_link(&mut links, outbounds[i].message_id, true);
            }
            i += 1;
        }
        assert(outbounds@.take(outbounds@.len() as int) == outbounds@);
    }
    links
}

proof fn lemma_received_push(rows: Seq<Inbound>, row: Inbound, key: Seq<char>)
    ensures
        forall|id: u64| #[trigger]
            is_received(rows.push(row), key, id) <==> is_received(rows, key, id) || (row.message_id
                == id && row.rcpt_to@ == key),
{
    let all = rows.push(row);
    assert forall|id: u64| #[trigger]
        is_received(all, key, id) <==> is_received(rows, key, id) || (row.message_id == id
            && row.rcpt_to@ == key) by {
        if is_received(rows, key, id) {
            let i = choose|i: int|
                0 <= i < rows.len() && (#[trigger] rows[i]).message_id == id && rows[i].rcpt_to@
                    == key;
            assert(all[i] == rows[i]);
        }
        assert(all[rows.len() as int] == row);
        if is_received(all, key, id) {
            let i = choose|i: int|
                0 <= i < all.len() && (#[trigger] all[i]).message_id == id && all[i].rcpt_to@
                    == key;
            if i < rows.len() {
                assert(all[i] == rows[i]);
            }
        }
    }
}

proof fn lemma_sent_push(rows: Seq<Outbound>, row: Outbound, key: Seq<char>)
    ensures
        forall|id: u64| #[trigger]
            is_sent(rows.push(row), key, id) <==> is_sent(rows, key, id) || (row.message_id == id
                && row.sender_id@ == key),
{
    let all = rows.push(row);
    assert forall|id: u64| #[trigger]
        is_sent(all, key, id) <==> is_sent(rows, key, id) || (row.message_id == id
            && row.sender_id@ == key) by {
        if is_sent(rows, key, id) {
            let i = choose|i: int|
                0 <= i < rows.len() && (#[trigger] rows[i]).message_id == id && rows[i].sender_id@
                    == key;
            assert(all[i] == rows[i]);
        }
        assert(all[rows.len() as int] == row);
        if is_sent(all, key, id) {
            let i = choose|i: int|
                0 <= i < all.len() && (#[trigger] all[i]).message_id == id && all[i].sender_id@
                    == key;
            if i < rows.len() {
                assert(all[i] == rows[i]);
            }
        }
    }
}

/// The word for the way a message went.
pub open spec fn direction_word(link: MessageLink) -> Seq<char> {
    if link.sent {
        "outbound"@
    } else {
        "inbound"@
    }
}

/// The messages of `links` that were found, as the API shows them. A message
/// that is gone is left out.
pub open spec fn listed_messages(links: Seq<MessageLink>, found: Seq<Option<Message>>) -> Seq<
    MessageDTOView,
>
    decreases found.len(),
{
    if found.len() == 0 {
        Seq::empty()
    } else {
        let front = listed_messages(links, found.drop_last());
        match found.last() {
            Some(message) => front.push(
                message_dto(message, Some(direction_word(links[found.len() - 1]))),
            ),
            None => front,
        }
    }
}

/// What messages of the API hold.
pub open spec fn message_dto_views(items: Seq<MessageDTO>) -> Seq<MessageDTOView> {
    items.map_values(|m: MessageDTO| m@)
}

impl MessageListing {
    /// The address by which the mailbox and its messages are found.
    pub fn key(&self) -> (out: String)
        ensures
            out@ == text::lowercase(self.mailbox_id@),
    {
        to_lowercase(self.mailbox_id.as_str())
    }

    /// Whether there is a list, once the mailbox was looked up: an unknown
    /// mailbox is not an empty one.
    pub fn ensure_mailbox_exists(&self, found: &Option<Mailbox>) -> (out: Result<(), Failure>)
        ensures
            api::passes(out, api::present("mailbox"@, self.mailbox_id@, found is Some)),
    {
        check_present("mailbox", self.mailbox_id.as_str(), found.is_some())
    }

    /// The messages to look up, once the rows were read. Rows that are not
    /// listed need not be read.
    pub fn links(
        &self,
        key: &str,
        inbounds: Result<Vec<Inbound>, String>,
        outbounds: Result<Vec<Outbound>, String>,
    ) -> (out: Result<Vec<MessageLink>, Failure>)
        ensures
            (match out {
                Ok(links) => {
                    let received = match inbounds {
                        Ok(rows) => rows@,
                        Err(_) => Seq::empty(),
                    };
                    let sent = match outbounds {
                        Ok(rows) => rows@,
                        Err(_) => Seq::empty(),
                    };
                    &&& self.direction.received() ==> inbounds is Ok
                    &&& self.direction.sent() ==> outbounds is Ok
                    &&& links_of(links@, key@, self.direction, received, sent)
                },
                Err(f) => {
                    ||| self.direction.received() && (inbounds matches Err(e) && f@
                        == FailureView::server(e@))
                    ||| (self.direction.received() ==> inbounds is Ok) && self.direction.sent() && (
                    outbounds matches Err(e) && f@ == FailureView::server(e@))
                },
            }),
    {
        let received = match inbounds {
            Ok(rows) => rows,
            Err(e) => {
                if self.direction != MessageDirection::Outbound {
                    return Err(Failure::server(e.as_str()));
                }
                Vec::new()
            },
        };
        let sent = match outbounds {
            Ok(rows) => rows,
            Err(e) => {
                if self.direction != MessageDirection::Inbound {
                    return Err(Failure::server(e.as_str()));
                }
                Vec::new()
            },
        };
        Ok(load_mailbox_messages(key, self.direction, &received, &sent))
    }

    /// The answer once each message of `links` was looked up.
    pub fn page(&self, links: &Vec<MessageLink>, found: &Vec<Option<Message>>) -> (out: ApiResponse<
        Page<MessageDTO>,
    >)
        requires
            links@.len() == found@.len(),
            forall|i: int|
                0 <= i < found@.len() ==> (#[trigger] found@[i] matches Some(m) ==> m.wf()),
        ensures
            ({
                let all = listed_messages(links@, found@);
                &&& out.ok
                &&& message_dto_views(out.data.items@) == api::window(
                    all,
                    self.limit as int,
                    self.offset as int,
                )
                &&& out.data.is_page(all.len() as int, self.limit as int, self.offset as int)
            }),
            self.limit > 0 ==> forall|k: int|
                0 <= k < out.data.items@.len() ==> shows_some_link(
                    (#[trigger] out.data.items@[k])@,
                    links@,
                    found@,
                ),
    {
        let mut items: Vec<MessageDTO> = Vec::new();
        let mut i: usize = 0;
        while i < found.len()
            invariant
                i <= found.len(),
                links@.len() == found@.len(),
                forall|k: int|
                    0 <= k < found@.len() ==> (#[trigger] found@[k] matches Some(m) ==> m.wf()),
                message_dto_views(items@) == listed_messages(links@, found@.take(i as int)),
            decreases found.len() - i,
        {
            assert(found@.take(i + 1).drop_last() == found@.take(i as int));
            match &found[i] {
                Some(message) => {
                    let word = if links[i].sent {
                        "outbound"
                    } else {
                        "inbound"
                    };
                    let ghost shown = message_dto_views(items@);
                    let dto = MessageDTO::of(message, Some(word.to_owned()));
                    let ghost view = dto@;
                    items.push(dto);
                    assert(message_dto_views(items@) == shown.push(view));
                },
                None => {},
            }
            i += 1;
        }
        assert(found@.take(found@.len() as int) == found@);
        assert(message_dto_views(items@).len() == items@.len());
        let ghost all = items@;
        let page = Page::from_all(items, self.limit, self.offset);
        assert(message_dto_views(page.items@) == api::window(
            message_dto_views(all),
            self.limit as int,
            self.offset as int,
        ));
        proof {
            let shown = message_dto_views(page.items@);
            assert(shown.len() == page.items@.len());
            if self.limit > 0 {
                assert forall|k: int| 0 <= k < page.items@.len() implies shows_some_link(
                    (#[trigger] page.items@[k])@,
                    links@,
                    found@,
                ) by {
                    assert(shown[k] == page.items@[k]@);
                    law_pages_tell_the_direction(
                        links@,
                        found@,
                        self.limit as int,
                        self.offset as int,
                        k,
                    );
                }
            }
        }
        ApiResponse::ok(page)
    }
}

/// The answer that shows the message with that id.
pub open spec fn shown_message(id: u64, found: Option<Message>) -> Result<
    MessageDTOView,
    FailureView,
> {
    match found {
        Some(message) => Ok(message_dto(message, None)),
        None => Err(
            FailureView::absent(api::about("message"@, text::digits_of(id as nat), "not found"@)),
        ),
    }
}

/// `GET /messages/{message_id}`: the message that was looked up.
pub fn get_message(id: u64, found: Option<Message>) -> (out: Result<
    ApiResponse<MessageDTO>,
    Failure,
>)
    requires
        found matches Some(message) ==> message.wf(),
    ensures
        api::answers(out, shown_message(id, found)),
{
    match found {
        Some(message) => Ok(ApiResponse::ok(MessageDTO::of(&message, None))),
        None => Err(absent("message", number_text(id).as_str())),
    }
}

/// What a deletion removes next.
#[derive(Debug, Clone, Copy, PartialEq, Eq, Structural)]
pub enum DeletionStep {
    /// The rows that say for whom the message was received.
    Inbounds,
    /// The delivery jobs of the message.
    Outbounds,
    /// The message itself.
    Message,
    /// Nothing more.
    Done,
}

impl DeletionStep {
    /// The step after this one.
    pub open spec fn next(self) -> DeletionStep {
        match self {
            DeletionStep::Inbounds => DeletionStep::Outbounds,
            DeletionStep::Outbounds => DeletionStep::Message,
            DeletionStep::Message => DeletionStep::Done,
            DeletionStep::Done => DeletionStep::Done,
        }
    }
}

/// A message that is being deleted. The rows that refer to it go first.
#[derive(Debug, Clone)]
pub struct MessageDeletion {
    pub message_id: u64,
    pub step: DeletionStep,
}

/// `DELETE /messages/{message_id}`: begin to delete the message that was looked
/// up.
pub fn delete_message(id: u64, found: &Option<Message>) -> (out: Result<MessageDeletion, Failure>)
    ensures
        (match (found, out) {
            (Some(_), Ok(deletion)) => deletion == (MessageDeletion {
                message_id: id,
                step: DeletionStep::Inbounds,
            }),
            (None, Err(f)) => f@ == FailureView::absent(
                api::about("message"@, text::digits_of(id as nat), "not found"@),
            ),
            _ => false,
        }),
{
    match found {
        Some(_) => Ok(MessageDeletion { message_id: id, step: DeletionStep::Inbounds }),
        None => Err(absent("message", number_text(id).as_str())),
    }
}

impl MessageDeletion {
    /// What to remove next.
    pub fn action(&self) -> (out: DeletionStep)
        ensures
            out == self.step,
    {
        self.step
    }

    /// Go on once the store removed what it was told to, or could not; the
    /// answer, where there is one.
    pub fn advance(&mut self, outcome: Result<(), String>) -> (out: Option<
        Result<ApiResponse<()>, Failure>,
    >)
        ensures
            final(self).message_id == old(self).message_id,
            (match (outcome, out) {
                (Ok(_), Some(answer)) => {
                    &&& final(self).step == DeletionStep::Done
                    &&& old(self).step.next() == DeletionStep::Done
                    &&& api::answers(answer, Ok(()))
                },
                (Ok(_), None) => {
                    &&& final(self).step == old(self).step.next()
                    &&& final(self).step != DeletionStep::Done
                },
                (Err(e), Some(answer)) => {
                    &&& final(self).step == DeletionStep::Done
                    &&& api::answers(answer, Err::<(), FailureView>(FailureView::server(e@)))
                },
                (Err(_), None) => false,
            }),
    {
        if let Err(e) = outcome {
            self.step = DeletionStep::Done;
            return Some(Err(Failure::server(e.as_str())));
        }
        match self.step {
            DeletionStep::Inbounds => {
                self.step = DeletionStep::Outbounds;
                None
            },
            DeletionStep::Outbounds => {
                self.step = DeletionStep::Message;
                None
            },
            _ => {
                self.step = DeletionStep::Done;
                Some(Ok(ApiResponse::ok(())))
            },
        }
    }
}

proof fn lemma_links_are_determined(one: Seq<MessageLink>, other: Seq<MessageLink>)
    requires
        by_id(one),
        by_id(other),
        forall|id: u64| #[trigger] has_link(one, id) <==> has_link(other, id),
        forall|id: u64| #[trigger] has_sent_link(one, id) <==> has_sent_link(other, id),
    ensures
        one == other,
    decreases one.len() + other.len(),
{
    if one.len() == 0 {
        if other.len() > 0 {
            assert(has_link(other, other[0].message_id));
            assert(has_link(one, other[0].message_id));
        }
    } else if other.len() == 0 {
        assert(has_link(one, one[0].message_id));
        assert(has_link(other, one[0].message_id));
    } else {
        let m = one.len() - 1;
        let n = other.len() - 1;
        let a = one[m];
        let b = other[n];
        assert(has_link(one, a.message_id));
        assert(has_link(other, a.message_id));
        assert(has_link(other, b.message_id));
        assert(has_link(one, b.message_id));
        assert(a.message_id == b.message_id) by {
            let i = choose|i: int|
                0 <= i < other.len() && (#[trigger] other[i]).message_id == a.message_id;
            let j = choose|j: int|
                0 <= j < one.len() && (#[trigger] one[j]).message_id == b.message_id;
            assert(i <= n && j <= m);
        }
        assert(a.sent == b.sent) by {
            if a.sent {
                assert(has_sent_link(one, a.message_id));
                assert(has_sent_link(other, a.message_id));
            }
            if b.sent {
                assert(has_sent_link(other, b.message_id));
                assert(has_sent_link(one, b.message_id));
            }
        }
        let front = one.drop_last();
        let rest = other.drop_last();
        assert(forall|k: int| 0 <= k < m ==> #[trigger] front[k] == one[k]);
        assert(forall|k: int| 0 <= k < n ==> #[trigger] rest[k] == other[k]);
        assert forall|id: u64| #[trigger] has_link(front, id) <==> has_link(rest, id) by {
            lemma_links_without_last(one, id);
            lemma_links_without_last(other, id);
        }
        assert forall|id: u64| #[trigger] has_sent_link(front, id) <==> has_sent_link(rest, id) by {
            lemma_links_without_last(one, id);
            lemma_links_without_last(other, id);
        }
        lemma_links_are_determined(front, rest);
        assert(one == front.push(a));
        assert(other == rest.push(b));
    }
}

proof fn lemma_links_without_last(links: Seq<MessageLink>, id: u64)
    requires
        by_id(links),
        links.len() > 0,
    ensures
        has_link(links.drop_last(), id) <==> has_link(links, id) && id != links.last().message_id,
        has_sent_link(links.drop_last(), id) <==> has_sent_link(links, id) && id
            != links.last().message_id,
{
    let front = links.drop_last();
    if has_link(front, id) {
        let i = choose|i: int| 0 <= i < front.len() && (#[trigger] front[i]).message_id == id;
        assert(links[i].message_id == id);
        assert(links[i].message_id < links[links.len() - 1].message_id);
    }
    if has_link(links, id) && id != links.last().message_id {
        let i = choose|i: int| 0 <= i < links.len() && (#[trigger] links[i]).message_id == id;
        assert(front[i].message_id == id);
    }
    if has_sent_link(front, id) {
        let i = choose|i: int|
            0 <= i < front.len() && (#[trigger] front[i]).message_id == id && front[i].sent;
        assert(links[i].message_id == id && links[i].sent);
        assert(links[i].message_id < links[links.len() - 1].message_id);
    }
    if has_sent_link(links, id) && id != links.last().message_id {
        let i = choose|i: int|
            0 <= i < links.len() && (#[trigger] links[i]).message_id == id && links[i].sent;
        assert(front[i].message_id == id && front[i].sent);
    }
}

/// The messages of a mailbox and their order are determined by the rows: there
/// is one list that holds each of them once, by id, with its direction.
pub proof fn law_listing_is_determined(
    one: Seq<MessageLink>,
    other: Seq<MessageLink>,
    key: Seq<char>,
    direction: MessageDirection,
    inbounds: Seq<Inbound>,
    outbounds: Seq<Outbound>,
)
    requires
        links_of(one, key, direction, inbounds, outbounds),
        links_of(other, key, direction, inbounds, outbounds),
    ensures
        one == other,
{
    lemma_links_are_determined(one, other);
}

/// The list of both directions holds what the inbox and the sent messages hold,
/// and nothing else; what was sent is shown as sent.
pub proof fn law_both_directions_unite_inbox_and_sent(
    both: Seq<MessageLink>,
    inbox: Seq<MessageLink>,
    sent: Seq<MessageLink>,
    key: Seq<char>,
    inbounds: Seq<Inbound>,
    outbounds: Seq<Outbound>,
    id: u64,
)
    requires
        links_of(both, key, MessageDirection::Both, inbounds, outbounds),
        links_of(inbox, key, MessageDirection::Inbound, inbounds, outbounds),
        links_of(sent, key, MessageDirection::Outbound, inbounds, outbounds),
    ensures
        has_link(both, id) <==> has_link(inbox, id) || has_link(sent, id),
        has_sent_link(both, id) <==> has_link(sent, id),
        !has_sent_link(inbox, id),
{
    assert(has_sent_link(inbox, id) || !has_sent_link(inbox, id));
}

/// The steps that a deletion takes where the store succeeds at those that `ok`
/// names.
pub open spec fn deletion_steps(step: DeletionStep, ok: spec_fn(DeletionStep) -> bool) -> Seq<
    DeletionStep,
>
    decreases
            (match step {
                DeletionStep::Inbounds => 3nat,
                DeletionStep::Outbounds => 2,
                DeletionStep::Message => 1,
                DeletionStep::Done => 0,
            }),
{
    match step {
        DeletionStep::Done => Seq::empty(),
        _ => if ok(step) {
            seq![step] + deletion_steps(step.next(), ok)
        } else {
            seq![step]
        },
    }
}

/// A message is removed only after every row that refers to it, so that no row
/// is left that refers to a message that is gone.
pub proof fn law_references_go_before_the_message(ok: spec_fn(DeletionStep) -> bool)
    ensures
        ({
            let steps = deletion_steps(DeletionStep::Inbounds, ok);
            steps.contains(DeletionStep::Message) ==> {
                &&& steps == seq![
                    DeletionStep::Inbounds,
                    DeletionStep::Outbounds,
                    DeletionStep::Message,
                ]
                &&& ok(DeletionStep::Inbounds)
                &&& ok(DeletionStep::Outbounds)
            }
        }),
{
    reveal_with_fuel(deletion_steps, 4);
    let steps = deletion_steps(DeletionStep::Inbounds, ok);
    if !ok(DeletionStep::Inbounds) {
        assert(steps == seq![DeletionStep::Inbounds]);
    } else if !ok(DeletionStep::Outbounds) {
        assert(steps == seq![DeletionStep::Inbounds, DeletionStep::Outbounds]);
    } else {
        assert(steps == seq![
            DeletionStep::Inbounds,
            DeletionStep::Outbounds,
            DeletionStep::Message,
        ]);
    }
}

/// What the API shows of a message is the message: each part in its place, and
/// all of the addresses.
pub proof fn law_messages_are_shown_as_they_are(message: Message, direction: Option<Seq<char>>)
    ensures
        ({
            let shown = message_dto(message, direction);
            &&& shown.id == message.id
            &&& shown.direction == direction
            &&& shown.mail_from == message.mail_from@
            &&& shown.subject == text::view_of(message.subject)
            &&& shown.message_id_header == text::view_of(message.message_id_header)
            &&& shown.content_type == text::view_of(message.content_type)
            &&& shown.from_address == text::view_of(message.from_address)
            &&& shown.to == text::views(message.to@)
            &&& shown.cc == text::views(message.cc@)
            &&& shown.bcc == text::views(message.bcc@)
            &&& shown.created_at == time::timestamp_text(message.created_at.nanos)
            &&& shown.updated_at == time::timestamp_text(message.updated_at.nanos)
        }),
{
}

/// `item` shows the message that was found for a link, with the word for the
/// way it went.
pub open spec fn shows_link(
    item: MessageDTOView,
    link: MessageLink,
    found: Option<Message>,
) -> bool {
    &&& found matches Some(message) && item.id == message.id
    &&& item.direction == Some(
        if link.sent {
            "outbound"@
        } else {
            "inbound"@
        },
    )
}

/// `item` shows the message that was found for one of the links.
pub open spec fn shows_some_link(
    item: MessageDTOView,
    links: Seq<MessageLink>,
    found: Seq<Option<Message>>,
) -> bool {
    exists|i: int| 0 <= i < links.len() && #[trigger] shows_link(item, links[i], found[i])
}

/// Every message that was found is in the list, in the order of the links: one
/// that the mailbox sent with the word `outbound`, any other with the word
/// `inbound`. One that is gone is left out.
pub proof fn law_items_tell_the_direction(
    links: Seq<MessageLink>,
    found: Seq<Option<Message>>,
    next: Option<Message>,
)
    requires
        found.len() < links.len(),
    ensures
        ({
            let earlier = listed_messages(links, found);
            let all = listed_messages(links, found.push(next));
            match next {
                Some(message) => {
                    &&& all.len() == earlier.len() + 1
                    &&& all.drop_last() == earlier
                    &&& all.last().id == message.id
                    &&& links[found.len() as int].sent ==> all.last().direction == Some(
                        "outbound"@,
                    )
                    &&& !links[found.len() as int].sent ==> all.last().direction == Some(
                        "inbound"@,
                    )
                    &&& all.last().mail_from == message.mail_from@
                    &&& all.last().subject == text::view_of(message.subject)
                },
                None => all == earlier,
            }
        }),
        listed_messages(links, Seq::empty()).len() == 0,
{
    assert(found.push(next).drop_last() == found);
    let earlier = listed_messages(links, found);
    let all = listed_messages(links, found.push(next));
    if next is Some {
        assert(all == earlier.push(all.last()));
        assert(all.drop_last() == earlier);
    }
}

proof fn lemma_listed_item(
    links: Seq<MessageLink>,
    found: Seq<Option<Message>>,
    k: int,
) -> (i: int)
    requires
        links.len() >= found.len(),
        0 <= k < listed_messages(links, found).len(),
    ensures
        0 <= i < found.len(),
        shows_link(listed_messages(links, found)[k], links[i], found[i]),
    decreases found.len(),
{
    let front = listed_messages(links, found.drop_last());
    if found.last() is Some && k == front.len() {
        found.len() - 1
    } else {
        lemma_listed_item(links, found.drop_last(), k)
    }
}

/// Every item on a page of a mailbox shows one of its messages. One whose link
/// is sent has the direction `outbound`, and one whose link is not sent has the
/// direction `inbound`.
pub proof fn law_pages_tell_the_direction(
    links: Seq<MessageLink>,
    found: Seq<Option<Message>>,
    limit: int,
    offset: int,
    k: int,
)
    requires
        links.len() == found.len(),
        limit > 0,
        offset >= 0,
        0 <= k < api::window(listed_messages(links, found), limit, offset).len(),
    ensures
        ({
            let item = api::window(listed_messages(links, found), limit, offset)[k];
            exists|i: int|
                0 <= i < links.len() && #[trigger] shows_link(item, links[i], found[i])
        }),
{
    let all = listed_messages(links, found);
    api::law_pages_are_windows(all, limit, offset);
    let i = lemma_listed_item(links, found, offset + k);
    assert(shows_link(api::window(all, limit, offset)[k], links[i], found[i]));
}

/// Every item on a page of the inbox has the direction `inbound`, and every item
/// on a page of the sent messages has the direction `outbound`.
pub proof fn law_inbox_is_inbound(
    links: Seq<MessageLink>,
    found: Seq<Option<Message>>,
    key: Seq<char>,
    direction: MessageDirection,
    inbounds: Seq<Inbound>,
    outbounds: Seq<Outbound>,
    limit: int,
    offset: int,
    k: int,
)
    requires
        links_of(links, key, direction, inbounds, outbounds),
        links.len() == found.len(),
        limit > 0,
        offset >= 0,
        0 <= k < api::window(listed_messages(links, found), limit, offset).len(),
    ensures
        direction == MessageDirection::Inbound ==> api::window(
            listed_messages(links, found),
            limit,
            offset,
        )[k].direction == Some("inbound"@),
        direction == MessageDirection::Outbound ==> api::window(
            listed_messages(links, found),
            limit,
            offset,
        )[k].direction == Some("outbound"@),
{
    law_pages_tell_the_direction(links, found, limit, offset, k);
    let item = api::window(listed_messages(links, found), limit, offset)[k];
    let i = choose|i: int|
        0 <= i < links.len() && #[trigger] shows_link(item, links[i], found[i]);
    let id = links[i].message_id;
    law_links_come_from_rows(links, key, direction, inbounds, outbounds);
    assert(links[i].message_id == id);
}

/// The links of a mailbox are its rows: a message that was received for it is in
/// the list where received messages are listed, and one that it sent is in it as
/// sent where sent messages are listed. What is in the list as sent was sent by
/// it, anything else was received for it, and each message is there once, in the
/// order of the ids.
pub proof fn law_links_come_from_rows(
    links: Seq<MessageLink>,
    key: Seq<char>,
    direction: MessageDirection,
    inbounds: Seq<Inbound>,
    outbounds: Seq<Outbound>,
)
    requires
        links_of(links, key, direction, inbounds, outbounds),
    ensures
        direction != MessageDirection::Outbound ==> forall|i: int|
            0 <= i < inbounds.len() && (#[trigger] inbounds[i]).rcpt_to@ == key ==> exists|l: int|
                0 <= l < links.len() && (#[trigger] links[l]).message_id == inbounds[i].message_id,
        direction != MessageDirection::Inbound ==> forall|i: int|
            0 <= i < outbounds.len() && (#[trigger] outbounds[i]).sender_id@ == key ==> exists|
                l: int,
            |
                0 <= l < links.len() && (#[trigger] links[l]).message_id == outbounds[i].message_id
                    && links[l].sent,
        forall|l: int|
            0 <= l < links.len() && (#[trigger] links[l]).sent ==> direction
                != MessageDirection::Inbound && exists|i: int|
                0 <= i < outbounds.len() && (#[trigger] outbounds[i]).message_id
                    == links[l].message_id && outbounds[i].sender_id@ == key,
        forall|l: int|
            0 <= l < links.len() && !(#[trigger] links[l]).sent ==> direction
                != MessageDirection::Outbound && exists|i: int|
                0 <= i < inbounds.len() && (#[trigger] inbounds[i]).message_id
                    == links[l].message_id && inbounds[i].rcpt_to@ == key,
        forall|l: int, m: int|
            0 <= l < m < links.len() ==> (#[trigger] links[l]).message_id < (
            #[trigger] links[m]).message_id,
{
    if direction != MessageDirection::Outbound {
        assert forall|i: int|
            0 <= i < inbounds.len() && (#[trigger] inbounds[i]).rcpt_to@ == key implies exists|
            l: int,
        |
            0 <= l < links.len() && (#[trigger] links[l]).message_id == inbounds[i].message_id by {
            assert(is_received(inbounds, key, inbounds[i].message_id));
            assert(has_link(links, inbounds[i].message_id));
        }
    }
    if direction != MessageDirection::Inbound {
        assert forall|i: int|
            0 <= i < outbounds.len() && (#[trigger] outbounds[i]).sender_id@ == key implies exists|
            l: int,
        |
            0 <= l < links.len() && (#[trigger] links[l]).message_id == outbounds[i].message_id
                && links[l].sent by {
            assert(is_sent(outbounds, key, outbounds[i].message_id));
            assert(has_sent_link(links, outbounds[i].message_id));
        }
    }
    assert forall|l: int| 0 <= l < links.len() && (#[trigger] links[l]).sent implies direction
        != MessageDirection::Inbound && exists|i: int|
        0 <= i < outbounds.len() && (#[trigger] outbounds[i]).message_id == links[l].message_id
            && outbounds[i].sender_id@ == key by {
        assert(has_sent_link(links, links[l].message_id));
    }
    assert forall|l: int| 0 <= l < links.len() && !(#[trigger] links[l]).sent implies direction
        != MessageDirection::Outbound && exists|i: int|
        0 <= i < inbounds.len() && (#[trigger] inbounds[i]).message_id == links[l].message_id
            && inbounds[i].rcpt_to@ == key by {
        let id = links[l].message_id;
        assert(has_link(links, id));
        if has_sent_link(links, id) {
            let m = choose|m: int|
                0 <= m < links.len() && (#[trigger] links[m]).message_id == id && links[m].sent;
            assert(m == l);
        }
        assert(!has_sent_link(links, id));
        assert(is_received(inbounds, key, id));
    }
}

/// A message that is there is shown with its own id and without a direction; one
/// that is not is answered with 404 and its id.
pub proof fn law_single_messages_are_shown(id: u64, message: Message)
    ensures
        shown_message(id, Some(message)) matches Ok(shown) && shown.id == message.id
            && shown.direction is None && shown.mail_from == message.mail_from@ && shown.to
            == text::views(message.to@),
        shown_message(id, None) matches Err(f) && f.status == 404 && f.problem.detail == Some(
            "message '"@ + text::digits_of(id as nat) + "' not found"@,
        ),
{
    reveal_strlit("message");
    reveal_strlit(" '");
    reveal_strlit("message '");
    reveal_strlit("' ");
    reveal_strlit("not found");
    reveal_strlit("' not found");
    assert("message"@ + " '"@ == "message '"@);
    assert("' "@ + "not found"@ == "' not found"@);
    let head = "message '"@ + text::digits_of(id as nat);
    assert(head + "' "@ + "not found"@ == head + ("' "@ + "not found"@));
}

/// A deletion removes the rows that say for whom the message was received, then
/// its jobs, then the message, and stops at the first thing that the store does
/// not remove.
pub proof fn law_deletion_goes_to_the_end(ok: spec_fn(DeletionStep) -> bool)
    ensures
        deletion_steps(DeletionStep::Inbounds, ok) == (if !ok(DeletionStep::Inbounds) {
            seq![DeletionStep::Inbounds]
        } else if !ok(DeletionStep::Outbounds) {
            seq![DeletionStep::Inbounds, DeletionStep::Outbounds]
        } else {
            seq![DeletionStep::Inbounds, DeletionStep::Outbounds, DeletionStep::Message]
        }),
{
    reveal_with_fuel(deletion_steps, 4);
    let steps = deletion_steps(DeletionStep::Inbounds, ok);
    if !ok(DeletionStep::Inbounds) {
        assert(steps == seq![DeletionStep::Inbounds]);
    } else if !ok(DeletionStep::Outbounds) {
        assert(steps == seq![DeletionStep::Inbounds, DeletionStep::Outbounds]);
    } else {
        assert(steps == seq![
            DeletionStep::Inbounds,
            DeletionStep::Outbounds,
            DeletionStep::Message,
        ]);
    }
}

/// A listing is of the mailbox and the direction that were asked for, and of the
/// page: 50 messages from the first on where the request does not say.
pub proof fn law_listings_are_as_asked_for(
    listing: MessageListing,
    mailbox_id: Seq<char>,
    direction: MessageDirection,
    limit: Option<usize>,
    offset: Option<usize>,
)
    requires
        listing.is_for(mailbox_id, direction, limit, offset),
    ensures
        listing.mailbox_id@ == mailbox_id,
        listing.direction == direction,
        limit is None ==> listing.limit == 50,
        limit matches Some(n) && 1 <= n <= 200 ==> listing.limit == limit->0,
        1 <= listing.limit <= 200,
        offset is None ==> listing.offset == 0,
        (offset matches Some(n) && n <= 0x7fff_ffff_ffff_ffff) ==> listing.offset == offset->0,
{
    if let Some(n) = limit {
        api::law_pages_are_as_asked_for(n);
    }
    if let Some(n) = offset {
        api::law_pages_are_as_asked_for(n);
    }
}

} // verus!
