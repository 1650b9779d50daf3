//! Inbound mail: which recipients are accepted, and what is stored and
//! forwarded of a message that came in.
use vstd::prelude::*;
use mail_parser::{
    Addr as HeaderAddr, Address as HeaderAddress, HeaderName, Message as Mail, MessageParser,
};
use crate::db;
use crate::db::{Mailbox, NewInbound, NewMessage, NewOutbound};
use crate::send::enqueue_forward;
use crate::text;
use crate::text::{to_lowercase, trim, trim_both};

verus! {

// ---------------------------------------------------------------------------
// Addresses of a header
// ---------------------------------------------------------------------------

/// One entry of a header. An entry that shows a name alone has no address.
#[derive(Debug, Clone)]
pub struct Addr {
    pub address: Option<String>,
}

/// A group of entries.
#[derive(Debug, Clone)]
pub struct Group {
    pub addresses: Vec<Addr>,
}

/// The value of a `From:`, `To:`, `Cc:` or `Bcc:` header.
#[derive(Debug, Clone)]
pub enum Address {
    List(Vec<Addr>),
    Group(Vec<Group>),
}

/// What an [`Addr`] holds.
pub struct AddrView {
    pub address: Option<Seq<char>>,
}

/// What a [`Group`] holds.
pub struct GroupView {
    pub addresses: Seq<AddrView>,
}

/// What an [`Address`] holds.
pub enum AddressView {
    List(Seq<AddrView>),
    Group(Seq<GroupView>),
}

impl View for Addr {
    type V = AddrView;

    open spec fn view(&self) -> AddrView {
        AddrView { address: text::view_of(self.address) }
    }
}

impl View for Group {
    type V = GroupView;

    open spec fn view(&self) -> GroupView {
        GroupView { addresses: Seq::new(self.addresses@.len(), |i: int| self.addresses@[i]@) }
    }
}

impl View for Address {
    type V = AddressView;

    open spec fn view(&self) -> AddressView {
        match self {
            Address::List(list) => AddressView::List(Seq::new(list@.len(), |i: int| list@[i]@)),
            Address::Group(groups) => AddressView::Group(
                Seq::new(groups@.len(), |i: int| groups@[i]@),
            ),
        }
    }
}

/// The address of the first entry of a list, if it has one.
pub open spec fn head_address(list: Seq<AddrView>) -> Option<Seq<char>> {
    if list.len() == 0 {
        None
    } else {
        list[0].address
    }
}

/// The address of the first group whose first entry has one.
pub open spec fn head_of_groups(groups: Seq<GroupView>) -> Option<Seq<char>>
    decreases groups.len(),
{
    if groups.len() == 0 {
        None
    } else {
        match head_address(groups[0].addresses) {
            Some(a) => Some(a),
            None => head_of_groups(groups.drop_first()),
        }
    }
}

/// The address that stands for a header which names one person; empty where it
/// holds none.
pub open spec fn first_address(value: AddressView) -> Seq<char> {
    let first = match value {
        AddressView::List(list) => head_address(list),
        AddressView::Group(groups) => head_of_groups(groups),
    };
    match first {
        Some(a) => a,
        None => Seq::empty(),
    }
}

/// The addresses of a list, in order; entries without one are passed over.
pub open spec fn addresses_of(list: Seq<AddrView>) -> Seq<Seq<char>>
    decreases list.len(),
{
    if list.len() == 0 {
        Seq::empty()
    } else {
        let front = addresses_of(list.drop_last());
        match list.last().address {
            Some(a) => front.push(a),
            None => front,
        }
    }
}

/// The addresses of groups, in order.
pub open spec fn addresses_of_groups(groups: Seq<GroupView>) -> Seq<Seq<char>>
    decreases groups.len(),
{
    if groups.len() == 0 {
        Seq::empty()
    } else {
        addresses_of_groups(groups.drop_last()) + addresses_of(groups.last().addresses)
    }
}

/// Every address of a header, in order.
pub open spec fn all_addresses(value: AddressView) -> Seq<Seq<char>> {
    match value {
        AddressView::List(list) => addresses_of(list),
        AddressView::Group(groups) => addresses_of_groups(groups),
    }
}

/// The address that stands for a header which names one person, such as
/// `From:`; empty where the header holds none.
pub fn address_to_string(value: &Address) -> (out: String)
    ensures
        out@ == first_address(value@),
{
    match value {
        Address::List(list) => {
            if list.len() > 0 {
                match &list[0].address {
                    Some(a) => a.clone(),
                    None => String::new(),
                }
            } else {
                String::new()
            }
        },
        Address::Group(groups) => {
            let ghost all = Seq::new(groups@.len(), |i: int| groups@[i]@);
            let mut i: usize = 0;
            assert(all.skip(0) == all);
            while i < groups.len()
                invariant
                    i <= groups.len(),
                    all == Seq::new(groups@.len(), |i: int| groups@[i]@),
                    value@ == AddressView::Group(all),
                    head_of_groups(all.skip(i as int)) == head_of_groups(all),
                decreases groups.len() - i,
            {
                let group = &groups[i];
                proof {
                    assert(all.skip(i as int)[0] == group@);
                    assert(all.skip(i as int).drop_first() == all.skip(i + 1));
                }
                if group.addresses.len() > 0 {
                    if let Some(a) = &group.addresses[0].address {
                        assert(head_address(group@.addresses) == Some(a@));
                        return a.clone();
                    }
                }
                i += 1;
            }
            String::new()
        },
    }
}

/// Append the addresses of `list` to `out`.
fn push_addresses(list: &Vec<Addr>, out: &mut Vec<String>)
    ensures
        text::views(final(out)@) == text::views(old(out)@) + addresses_of(
            Seq::new(list@.len(), |i: int| list@[i]@),
        ),
{
    let ghost all = Seq::new(list@.len(), |i: int| list@[i]@);
    let ghost before = text::views(out@);
    let mut i: usize = 0;
    assert(all.take(0) == Seq::<AddrView>::empty());
    assert(before + addresses_of(all.take(0)) == before);
    while i < list.len()
        invariant
            i <= list.len(),
            all == Seq::new(list@.len(), |i: int| list@[i]@),
            text::views(out@) == before + addresses_of(all.take(i as int)),
        decreases list.len() - i,
    {
        proof {
            assert(all.take(i + 1).drop_last() == all.take(i as int));
            assert(all.take(i + 1).last() == list@[i as int]@);
        }
        if let Some(a) = &list[i].address {
            let ghost was = out@;
            out.push(a.clone());
            proof {
                assert(text::views(out@) == text::views(was).push(a@));
                assert(text::views(out@) == before + addresses_of(all.take(i + 1)));
            }
        }
        i += 1;
    }
    assert(all.take(all.len() as int) == all);
}

/// Every address of a header, in order.
pub fn address_list_to_strings(value: &Address) -> (out: Vec<String>)
    ensures
        text::views(out@) == all_addresses(value@),
{
    let mut out: Vec<String> = Vec::new();
    match value {
        Address::List(list) => {
            push_addresses(list, &mut out);
        },
        Address::Group(groups) => {
            let ghost all = Seq::new(groups@.len(), |i: int| groups@[i]@);
            let mut i: usize = 0;
            while i < groups.len()
                invariant
                    i <= groups.len(),
                    all == Seq::new(groups@.len(), |i: int| groups@[i]@),
                    text::views(out@) == addresses_of_groups(all.take(i as int)),
                decreases groups.len() - i,
            {
                push_addresses(&groups[i].addresses, &mut out);
                proof {
                    assert(all.take(i + 1).drop_last() == all.take(i as int));
                    assert(all.take(i + 1).last() == groups@[i as int]@);
                }
                i += 1;
            }
            assert(all.take(all.len() as int) == all);
        },
    }
    out
}

// ---------------------------------------------------------------------------
// The headers of a message
// ---------------------------------------------------------------------------

/// The headers of a message that hold addresses.
#[derive(Debug, Clone)]
pub struct MailAddresses {
    pub from: Option<Address>,
    pub to: Option<Address>,
    pub cc: Option<Address>,
    pub bcc: Option<Address>,
}

/// What [`MailAddresses`] hold.
pub struct MailAddressesView {
    pub from: Option<AddressView>,
    pub to: Option<AddressView>,
    pub cc: Option<AddressView>,
    pub bcc: Option<AddressView>,
}

/// What the value of a header holds, if the header is there.
pub open spec fn address_view(value: Option<Address>) -> Option<AddressView> {
    match value {
        Some(a) => Some(a@),
        None => None,
    }
}

impl View for MailAddresses {
    type V = MailAddressesView;

    open spec fn view(&self) -> MailAddressesView {
        MailAddressesView {
            from: address_view(self.from),
            to: address_view(self.to),
            cc: address_view(self.cc),
            bcc: address_view(self.bcc),
        }
    }
}

/// The headers of a message that hold text.
#[derive(Debug, Clone)]
pub struct MailTexts {
    pub subject: Option<String>,
    pub message_id: Option<String>,
    /// The `Content-Type:` header as it stands in the message.
    pub content_type: Option<String>,
}

/// What [`MailTexts`] hold.
pub struct MailTextsView {
    pub subject: Option<Seq<char>>,
    pub message_id: Option<Seq<char>>,
    pub content_type: Option<Seq<char>>,
}

impl View for MailTexts {
    type V = MailTextsView;

    open spec fn view(&self) -> MailTextsView {
        MailTextsView {
            subject: text::view_of(self.subject),
            message_id: text::view_of(self.message_id),
            content_type: text::view_of(self.content_type),
        }
    }
}

/// The headers that are kept with a message.
#[derive(Debug, Clone)]
pub struct MailHeaders {
    pub addresses: MailAddresses,
    pub texts: MailTexts,
}

/// What [`MailHeaders`] hold.
pub struct MailHeadersView {
    pub addresses: MailAddressesView,
    pub texts: MailTextsView,
}

impl View for MailHeaders {
    type V = MailHeadersView;

    open spec fn view(&self) -> MailHeadersView {
        MailHeadersView { addresses: self.addresses@, texts: self.texts@ }
    }
}

/// What the headers hold, if there are any.
pub open spec fn headers_view(headers: Option<MailHeaders>) -> Option<MailHeadersView> {
    match headers {
        Some(h) => Some(h@),
        None => None,
    }
}

/// `mail_parser::Message`, the collection of headers that is read from a
/// message.
#[verifier::external_type_specification]
#[verifier::external_body]
pub struct ExMail<'x>(Mail<'x>);

/// The headers of a message as `mail-parser` returns it; `None` for one that
/// was put together otherwise.
pub uninterp spec fn mail_headers(mail: Mail) -> Option<MailHeadersView>;

/// The headers that `mail-parser` finds in a message, if it finds any.
pub uninterp spec fn parsed_headers(data: Seq<u8>) -> Option<MailHeadersView>;

/// `mail_parser::MessageParser::parse_headers`, which reads the headers of a
/// message and nothing behind them. The headers that are kept are parsed as what
/// they hold; of every other one only the place and the text are kept. The
/// parser counts positions in 32 bits, so the message is no longer than that.
#[verifier::external_body]
fn parse_headers(data: &Vec<u8>) -> (out: Option<Mail<'_>>)
    requires
        data@.len() <= u32::MAX,
    ensures
        (match out {
            Some(mail) => parsed_headers(data@) is Some && mail_headers(mail) == parsed_headers(
                data@,
            ),
            None => parsed_headers(data@) is None,
        }),
{
    MessageParser::new()
        .header_address(HeaderName::From)
        .header_address(HeaderName::To)
        .header_address(HeaderName::Cc)
        .header_address(HeaderName::Bcc)
        .header_text(HeaderName::Subject)
        .header_id(HeaderName::MessageId)
        .default_header_raw()
        .parse_headers(data)
}

/// `From`, `To`, `Cc` and `Bcc` by the accessors of `mail_parser::Message` of
/// those names.
#[verifier::external_body]
fn mail_addresses(mail: &Mail<'_>) -> (out: MailAddresses)
    requires
        mail_headers(*mail) is Some,
    ensures
        out@ == mail_headers(*mail)->0.addresses,
{
    let list = |l: &[HeaderAddr]| {
        l.iter().map(|a| Addr { address: a.address().map(String::from) }).collect()
    };
    let own = |v: &HeaderAddress| match v {
        HeaderAddress::List(l) => Address::List(list(l)),
        HeaderAddress::Group(l) => Address::Group(
            l.iter().map(|g| Group { addresses: list(&g.addresses) }).collect(),
        ),
    };
    MailAddresses {
        from: mail.from().map(own),
        to: mail.to().map(own),
        cc: mail.cc().map(own),
        bcc: mail.bcc().map(own),
    }
}

/// `Subject`, `Message-ID` and the raw `Content-Type` by the accessors `subject`,
/// `message_id` and `header_raw` of `mail_parser::Message`.
#[verifier::external_body]
fn mail_texts(mail: &Mail<'_>) -> (out: MailTexts)
    requires
        mail_headers(*mail) is Some,
    ensures
        out@ == mail_headers(*mail)->0.texts,
{
    MailTexts {
        subject: mail.subject().map(String::from),
        message_id: mail.message_id().map(String::from),
        content_type: mail.header_raw("content-type").map(String::from),
    }
}

/// The headers that are kept with the message `data`, if it has any.
fn headers_of(data: &Vec<u8>) -> (out: Option<MailHeaders>)
    requires
        data@.len() <= u32::MAX,
    ensures
        headers_view(out) == parsed_headers(data@),
{
    match parse_headers(data) {
        Some(mail) => Some(
            MailHeaders { addresses: mail_addresses(&mail), texts: mail_texts(&mail) },
        ),
        None => None,
    }
}

/// The value of a header that names one person, if the header is there.
pub open spec fn one_address(value: Option<AddressView>) -> Option<Seq<char>> {
    match value {
        Some(v) => Some(first_address(v)),
        None => None,
    }
}

/// The addresses of a header; none where it is not there.
pub open spec fn address_list(value: Option<AddressView>) -> Seq<Seq<char>> {
    match value {
        Some(v) => all_addresses(v),
        None => Seq::empty(),
    }
}

/// The row for the message `raw` with the given headers. Without headers the
/// row still holds all of `raw`.
pub open spec fn message_row(
    mail_from: Seq<char>,
    raw: Seq<u8>,
    headers: Option<MailHeadersView>,
) -> db::NewMessageView {
    match headers {
        Some(h) => db::NewMessageView {
            mail_from,
            raw,
            subject: h.texts.subject,
            message_id_header: h.texts.message_id,
            content_type: h.texts.content_type,
            from_address: one_address(h.addresses.from),
            to: address_list(h.addresses.to),
            cc: address_list(h.addresses.cc),
            bcc: address_list(h.addresses.bcc),
        },
        None => db::NewMessageView {
            mail_from,
            raw,
            subject: None,
            message_id_header: None,
            content_type: None,
            from_address: None,
            to: Seq::empty(),
            cc: Seq::empty(),
            bcc: Seq::empty(),
        },
    }
}

fn strings_of(value: &Option<Address>) -> (out: Vec<String>)
    ensures
        text::views(out@) == address_list(address_view(*value)),
{
    match value {
        Some(v) => address_list_to_strings(v),
        None => Vec::new(),
    }
}

/// The row for the message `raw` with the given headers.
pub fn message_with(mail_from: String, raw: Vec<u8>, headers: Option<MailHeaders>) -> (out:
    NewMessage)
    ensures
        out@ == message_row(mail_from@, raw@, headers_view(headers)),
{
    match headers {
        Some(h) => NewMessage {
            mail_from,
            raw,
            from_address: match &h.addresses.from {
                Some(v) => Some(address_to_string(v)),
                None => None,
            },
            to: strings_of(&h.addresses.to),
            cc: strings_of(&h.addresses.cc),
            bcc: strings_of(&h.addresses.bcc),
            subject: h.texts.subject,
            message_id_header: h.texts.message_id,
            content_type: h.texts.content_type,
        },
        None => NewMessage {
            mail_from,
            raw,
            subject: None,
            message_id_header: None,
            content_type: None,
            from_address: None,
            to: Vec::new(),
            cc: Vec::new(),
            bcc: Vec::new(),
        },
    }
}

/// The sender that stands in the `From:` header; empty where there is none.
pub open spec fn header_sender(headers: Option<MailHeadersView>) -> Seq<char> {
    match headers {
        Some(h) => match one_address(h.addresses.from) {
            Some(s) => s,
            None => Seq::empty(),
        },
        None => Seq::empty(),
    }
}

/// The row for the message `raw` that `mail_from` sends, with the headers that
/// are found in it.
pub fn outgoing_message(mail_from: String, raw: Vec<u8>) -> (out: NewMessage)
    requires
        raw@.len() <= u32::MAX,
    ensures
        out@ == message_row(mail_from@, raw@, parsed_headers(raw@)),
{
    let headers = headers_of(&raw);
    message_with(mail_from, raw, headers)
}

/// The row for a message that came in with the given headers. The listener does
/// not tell the sender of the envelope, so the one of the `From:` header takes
/// its place.
pub fn received_with(raw: Vec<u8>, headers: Option<MailHeaders>) -> (out: NewMessage)
    ensures
        out@ == message_row(header_sender(headers_view(headers)), raw@, headers_view(headers)),
{
    let mail_from = match &headers {
        Some(h) => match &h.addresses.from {
            Some(v) => address_to_string(v),
            None => String::new(),
        },
        None => String::new(),
    };
    message_with(mail_from, raw, headers)
}

/// The row for a message that came in, with the headers that are found in it.
pub fn incoming_message(raw: Vec<u8>) -> (out: NewMessage)
    requires
        raw@.len() <= u32::MAX,
    ensures
        out@ == message_row(header_sender(parsed_headers(raw@)), raw@, parsed_headers(raw@)),
{
    let headers = headers_of(&raw);
    received_with(raw, headers)
}

// ---------------------------------------------------------------------------
// The session
// ---------------------------------------------------------------------------

/// What the listener answers.
#[derive(Debug, Clone, Copy, PartialEq, Eq, Structural)]
pub enum SmtpReply {
    /// The command is accepted.
    Accept,
    /// The command is refused.
    Abort,
}

/// The key under which the recipient of a `RCPT TO:` would be provisioned.
pub open spec fn recipient_key(to: Seq<char>) -> Seq<char> {
    text::lowercase(text::strip(to, seq!['<', '>', ' ']))
}

/// One connection of the inbound listener: the recipients accepted so far.
#[derive(Debug, Clone)]
pub struct ZonedMailHandler {
    pub recipients: Vec<String>,
}

impl ZonedMailHandler {
    /// A connection that has accepted nobody yet.
    pub fn new() -> (out: ZonedMailHandler)
        ensures
            out.recipients@.len() == 0,
    {
        ZonedMailHandler { recipients: Vec::new() }
    }

    /// The address to look up for a `RCPT TO:`.
    pub fn handle_rcpt(&self, to: &str) -> (key: String)
        ensures
            key@ == recipient_key(to@),
            text::all_ascii(text::strip(to@, seq!['<', '>', ' '])) ==> key@ == text::ascii_lower(
                text::strip(to@, seq!['<', '>', ' ']),
            ),
    {
        let set: Vec<char> = vec!['<', '>', ' '];
        assert(set@ == seq!['<', '>', ' ']);
        let bare = trim_both(to, &set);
        to_lowercase(bare.as_str())
    }

    /// The answer to a `RCPT TO:` once its address was looked up. Only a
    /// provisioned mailbox is accepted, so this is no open relay.
    pub fn rcpt_checked(&mut self, key: String, provisioned: bool) -> (out: SmtpReply)
        ensures
            out == (if provisioned {
                SmtpReply::Accept
            } else {
                SmtpReply::Abort
            }),
            final(self).recipients@ == (if provisioned {
                old(self).recipients@.push(key)
            } else {
                old(self).recipients@
            }),
    {
        if provisioned {
            self.recipients.push(key);
            SmtpReply::Accept
        } else {
            SmtpReply::Abort
        }
    }

    /// Take in a message for the accepted recipients, and forget those. What
    /// happens to the message is told step by step by [`Intake::action`].
    pub fn handle_email(&mut self, data: Vec<u8>) -> (out: Intake)
        requires
            data@.len() <= u32::MAX,
        ensures
            final(self).recipients@.len() == 0,
            out@ == intake_start(
                text::views(old(self).recipients@),
                message_row(
                    header_sender(parsed_headers(data@)),
                    data@,
                    parsed_headers(data@),
                ),
            ),
            out@.wf(),
    {
        let mut recipients: Vec<String> = Vec::new();
        std::mem::swap(&mut recipients, &mut self.recipients);
        Intake::start(recipients, incoming_message(data))
    }
}

// ---------------------------------------------------------------------------
// Taking a message in
// ---------------------------------------------------------------------------

/// How far the intake of a message has come.
#[derive(Debug, Clone)]
pub enum IntakeStage {
    /// Looking for an earlier copy by its `Message-ID`.
    Finding(String),
    /// Storing the message.
    Storing,
    /// Linking the message to the recipient of that index.
    Linking(u64, usize),
    /// Looking up the mailbox of the recipient of that index.
    Checking(u64, usize),
    /// Queueing the message for forwarding from the recipient of that index.
    Forwarding(u64, usize, String),
    /// Answering the sender.
    Finished(SmtpReply),
}

/// What an [`IntakeStage`] says.
pub enum IntakeStageView {
    Finding(Seq<char>),
    Storing,
    Linking(u64, int),
    Checking(u64, int),
    Forwarding(u64, int, Seq<char>),
    Finished(SmtpReply),
}

impl View for IntakeStage {
    type V = IntakeStageView;

    open spec fn view(&self) -> IntakeStageView {
        match self {
            IntakeStage::Finding(key) => IntakeStageView::Finding(key@),
            IntakeStage::Storing => IntakeStageView::Storing,
            IntakeStage::Linking(id, n) => IntakeStageView::Linking(*id, *n as int),
            IntakeStage::Checking(id, n) => IntakeStageView::Checking(*id, *n as int),
            IntakeStage::Forwarding(id, n, to) => IntakeStageView::Forwarding(*id, *n as int, to@),
            IntakeStage::Finished(reply) => IntakeStageView::Finished(*reply),
        }
    }
}

/// A message on its way into the store.
#[derive(Debug, Clone)]
pub struct Intake {
    pub recipients: Vec<String>,
    pub message: NewMessage,
    pub stage: IntakeStage,
}

/// What an [`Intake`] holds.
#[verifier::ext_equal]
pub struct IntakeView {
    pub recipients: Seq<Seq<char>>,
    pub message: db::NewMessageView,
    pub stage: IntakeStageView,
}

impl View for Intake {
    type V = IntakeView;

    open spec fn view(&self) -> IntakeView {
        IntakeView {
            recipients: text::views(self.recipients@),
            message: self.message@,
            stage: self.stage@,
        }
    }
}

/// What has to be done next with a message.
pub enum IntakeAction {
    /// Look for a stored message with that `Message-ID`.
    FindMessage(String),
    /// Store the message of the intake.
    StoreMessage,
    /// Store that the message was received.
    StoreInbound(NewInbound),
    /// Look up the mailbox of that address.
    FindMailbox(String),
    /// Store that delivery job.
    Enqueue(NewOutbound),
    /// Answer the sender; nothing is left to do.
    Reply(SmtpReply),
}

/// What an [`IntakeAction`] asks for.
pub enum IntakeActionView {
    FindMessage(Seq<char>),
    StoreMessage(db::NewMessageView),
    StoreInbound(db::NewInboundView),
    FindMailbox(Seq<char>),
    Enqueue(db::NewOutboundView),
    Reply(SmtpReply),
}

/// What came of an action.
pub enum IntakeEvent {
    /// The id of the stored message with that `Message-ID`, if one was found.
    MessageFound(Option<u64>),
    /// The id of the message, unless storing it failed.
    MessageStored(Option<u64>),
    /// Whether the link to the recipient was stored.
    InboundStored(bool),
    /// The mailbox of the recipient, if it was found.
    MailboxFound(Option<Mailbox>),
    /// Whether the job was stored.
    ForwardQueued(bool),
}

/// What an [`IntakeEvent`] says: of a mailbox, where its mail is forwarded.
pub enum IntakeEventView {
    MessageFound(Option<u64>),
    MessageStored(Option<u64>),
    InboundStored(bool),
    MailboxFound(Option<Seq<char>>),
    ForwardQueued(bool),
}

impl View for IntakeEvent {
    type V = IntakeEventView;

    open spec fn view(&self) -> IntakeEventView {
        match self {
            IntakeEvent::MessageFound(id) => IntakeEventView::MessageFound(*id),
            IntakeEvent::MessageStored(id) => IntakeEventView::MessageStored(*id),
            IntakeEvent::InboundStored(ok) => IntakeEventView::InboundStored(*ok),
            IntakeEvent::MailboxFound(Some(m)) => IntakeEventView::MailboxFound(
                text::view_of(m.forward_to),
            ),
            IntakeEvent::MailboxFound(None) => IntakeEventView::MailboxFound(None),
            IntakeEvent::ForwardQueued(ok) => IntakeEventView::ForwardQueued(*ok),
        }
    }
}

/// The `Message-ID` by which an earlier copy of a message is found: a header
/// that is there and not blank, without the white space around it.
pub open spec fn dedup_key(header: Option<Seq<char>>) -> Option<Seq<char>> {
    match header {
        Some(h) => if text::trimmed(h).len() == 0 {
            None
        } else {
            Some(text::trimmed(h))
        },
        None => None,
    }
}

/// Where the intake of a message begins. A message for nobody is kept under
/// the recipient `unknown`, so that it is not lost.
pub open spec fn intake_start(
    recipients: Seq<Seq<char>>,
    message: db::NewMessageView,
) -> IntakeView {
    IntakeView {
        recipients: if recipients.len() == 0 {
            seq!["unknown"@]
        } else {
            recipients
        },
        message,
        stage: match dedup_key(message.message_id_header) {
            Some(key) => IntakeStageView::Finding(key),
            None => IntakeStageView::Storing,
        },
    }
}

impl IntakeView {
    /// There is a recipient, and the stage is at one of them.
    pub open spec fn wf(self) -> bool {
        &&& 0 < self.recipients.len()
        &&& match self.stage {
            IntakeStageView::Linking(_, n) => 0 <= n < self.recipients.len(),
            IntakeStageView::Checking(_, n) => 0 <= n < self.recipients.len(),
            IntakeStageView::Forwarding(_, n, _) => 0 <= n < self.recipients.len(),
            _ => true,
        }
    }

    /// What has to be done at this stage.
    pub open spec fn action(self) -> IntakeActionView {
        match self.stage {
            IntakeStageView::Finding(key) => IntakeActionView::FindMessage(key),
            IntakeStageView::Storing => IntakeActionView::StoreMessage(self.message),
            IntakeStageView::Linking(id, n) => IntakeActionView::StoreInbound(
                link_row(id, self.recipients[n]),
            ),
            IntakeStageView::Checking(_, n) => IntakeActionView::FindMailbox(self.recipients[n]),
            IntakeStageView::Forwarding(id, n, to) => IntakeActionView::Enqueue(
                crate::send::queued_job(id, self.recipients[n], to),
            ),
            IntakeStageView::Finished(reply) => IntakeActionView::Reply(reply),
        }
    }

    /// The same intake at another stage.
    pub open spec fn at(self, stage: IntakeStageView) -> IntakeView {
        IntakeView { recipients: self.recipients, message: self.message, stage }
    }

    /// After the mailbox of recipient `n` was dealt with.
    pub open spec fn checked(self, id: u64, n: int) -> IntakeView {
        if n + 1 < self.recipients.len() {
            self.at(IntakeStageView::Checking(id, n + 1))
        } else {
            self.at(IntakeStageView::Finished(SmtpReply::Accept))
        }
    }

    /// The intake after `event`. A failure to store the message or a link to a
    /// recipient refuses the message; a failure to queue a forward does not.
    /// An event that does not belong to the stage changes nothing.
    pub open spec fn after(self, event: IntakeEventView) -> IntakeView {
        match (self.stage, event) {
            (IntakeStageView::Finding(_), IntakeEventView::MessageFound(Some(id))) => self.at(
                IntakeStageView::Linking(id, 0),
            ),
            (IntakeStageView::Finding(_), IntakeEventView::MessageFound(None)) => self.at(
                IntakeStageView::Storing,
            ),
            (IntakeStageView::Storing, IntakeEventView::MessageStored(Some(id))) => self.at(
                IntakeStageView::Linking(id, 0),
            ),
            (IntakeStageView::Storing, IntakeEventView::MessageStored(None)) => self.at(
                IntakeStageView::Finished(SmtpReply::Abort),
            ),
            (IntakeStageView::Linking(id, n), IntakeEventView::InboundStored(ok)) => if !ok {
                self.at(IntakeStageView::Finished(SmtpReply::Abort))
            } else if n + 1 < self.recipients.len() {
                self.at(IntakeStageView::Linking(id, n + 1))
            } else {
                self.at(IntakeStageView::Checking(id, 0))
            },
            (IntakeStageView::Checking(id, n), IntakeEventView::MailboxFound(Some(to))) => self.at(
                IntakeStageView::Forwarding(id, n, to),
            ),
            (IntakeStageView::Checking(id, n), IntakeEventView::MailboxFound(None)) => self.checked(
                id,
                n,
            ),
            (IntakeStageView::Forwarding(id, n, _), IntakeEventView::ForwardQueued(_)) =>
                self.checked(id, n),
            _ => self,
        }
    }
}

/// The row that says that the message `id` was received for `recipient`.
pub open spec fn link_row(id: u64, recipient: Seq<char>) -> db::NewInboundView {
    db::NewInboundView { message_id: id, rcpt_to: recipient }
}

impl View for IntakeAction {
    type V = Option<IntakeActionView>;

    /// `None` stands for storing the message of the intake.
    open spec fn view(&self) -> Option<IntakeActionView> {
        match self {
            IntakeAction::FindMessage(key) => Some(IntakeActionView::FindMessage(key@)),
            IntakeAction::StoreMessage => None,
            IntakeAction::StoreInbound(row) => Some(IntakeActionView::StoreInbound(row@)),
            IntakeAction::FindMailbox(id) => Some(IntakeActionView::FindMailbox(id@)),
            IntakeAction::Enqueue(job) => Some(IntakeActionView::Enqueue(job@)),
            IntakeAction::Reply(reply) => Some(IntakeActionView::Reply(*reply)),
        }
    }
}

impl Intake {
    /// Begin the intake of `message` for `recipients`.
    pub fn start(recipients: Vec<String>, message: NewMessage) -> (out: Intake)
        ensures
            out@ == intake_start(text::views(recipients@), message@),
            out@.wf(),
            out.message == message,
            (message.message_id_header matches Some(header) && header@.len() > 0 && text::is_bare(
                header@,
            )) ==> (out.stage matches IntakeStage::Finding(key) && text::view_of(
                message.message_id_header,
            ) == Some(key@)),
    {
        proof {
            let header = message@.message_id_header;
            if header is Some && text::is_bare(header->0) {
                text::law_trimming_leaves_the_inside(Seq::empty(), header->0, Seq::empty());
            }
        }
        let stage = match &message.message_id_header {
            Some(header) => {
                let key = trim(header.as_str());
                if key.as_str().is_empty() {
                    IntakeStage::Storing
                } else {
                    IntakeStage::Finding(key)
                }
            },
            None => IntakeStage::Storing,
        };
        let recipients = if recipients.len() == 0 {
            let mut unknown: Vec<String> = Vec::new();
            unknown.push("unknown".to_owned());
            assert(text::views(unknown@) == seq!["unknown"@]);
            unknown
        } else {
            recipients
        };
        Intake { recipients, message, stage }
    }

    /// What has to be done next.
    pub fn action(&self) -> (out: IntakeAction)
        requires
            self@.wf(),
        ensures
            (match out@ {
                Some(a) => a == self@.action(),
                None => self@.action() == IntakeActionView::StoreMessage(self.message@),
            }),
    {
        match &self.stage {
            IntakeStage::Finding(key) => IntakeAction::FindMessage(key.clone()),
            IntakeStage::Storing => IntakeAction::StoreMessage,
            IntakeStage::Linking(id, n) => IntakeAction::StoreInbound(
                NewInbound { message_id: *id, rcpt_to: self.recipients[*n].clone() },
            ),
            IntakeStage::Checking(_, n) => IntakeAction::FindMailbox(self.recipients[*n].clone()),
            IntakeStage::Forwarding(id, n, to) => IntakeAction::Enqueue(
                enqueue_forward(*id, self.recipients[*n].as_str(), to.as_str()),
            ),
            IntakeStage::Finished(reply) => IntakeAction::Reply(*reply),
        }
    }

    fn stage_checked(&self, id: u64, n: usize) -> (out: IntakeStage)
        requires
            n < self.recipients@.len(),
        ensures
            self@.at(out@) == self@.checked(id, n as int),
    {
        if self.recipients.len() - n > 1 {
            IntakeStage::Checking(id, n + 1)
        } else {
            IntakeStage::Finished(SmtpReply::Accept)
        }
    }

    /// Go on after what came of the action.
    pub fn advance(&mut self, event: IntakeEvent)
        requires
            old(self)@.wf(),
        ensures
            final(self)@ == old(self)@.after(event@),
            final(self)@.wf(),
    {
        let next = match (&self.stage, event) {
            (IntakeStage::Finding(_), IntakeEvent::MessageFound(Some(id))) => IntakeStage::Linking(
                id,
                0,
            ),
            (IntakeStage::Finding(_), IntakeEvent::MessageFound(None)) => IntakeStage::Storing,
            (IntakeStage::Storing, IntakeEvent::MessageStored(Some(id))) => IntakeStage::Linking(
                id,
                0,
            ),
            (IntakeStage::Storing, IntakeEvent::MessageStored(None)) => IntakeStage::Finished(
                SmtpReply::Abort,
            ),
            (IntakeStage::Linking(id, n), IntakeEvent::InboundStored(ok)) => if !ok {
                IntakeStage::Finished(SmtpReply::Abort)
            } else if self.recipients.len() - *n > 1 {
                IntakeStage::Linking(*id, *n + 1)
            } else {
                IntakeStage::Checking(*id, 0)
            },
            (IntakeStage::Checking(id, n), IntakeEvent::MailboxFound(Some(mailbox))) => {
                match mailbox.forward_to {
                    Some(to) => IntakeStage::Forwarding(*id, *n, to),
                    None => self.stage_checked(*id, *n),
                }
            },
            (IntakeStage::Checking(id, n), IntakeEvent::MailboxFound(None)) => self.stage_checked(
                *id,
                *n,
            ),
            (IntakeStage::Forwarding(id, n, _), IntakeEvent::ForwardQueued(_)) =>
                self.stage_checked(*id, *n),
            _ => return,
        };
        self.stage = next;
    }
}

// ---------------------------------------------------------------------------
// Laws
// ---------------------------------------------------------------------------

/// What the store answers in the course of one intake: the earlier copy of the
/// message, the id under which it is stored, and for each recipient whether
/// the link is stored, where its mail is forwarded and whether the job for
/// that is stored.
pub struct StoreAnswers {
    pub found: Option<u64>,
    pub stored: Option<u64>,
    pub linked: spec_fn(int) -> bool,
    pub forwards: spec_fn(int) -> Option<Seq<char>>,
    pub queued: spec_fn(int) -> bool,
}

impl StoreAnswers {
    /// What the store answers at a stage.
    pub open spec fn event(self, stage: IntakeStageView) -> IntakeEventView {
        match stage {
            IntakeStageView::Finding(_) => IntakeEventView::MessageFound(self.found),
            IntakeStageView::Storing => IntakeEventView::MessageStored(self.stored),
            IntakeStageView::Linking(_, n) => IntakeEventView::InboundStored((self.linked)(n)),
            IntakeStageView::Checking(_, n) => IntakeEventView::MailboxFound((self.forwards)(n)),
            IntakeStageView::Forwarding(_, n, _) => IntakeEventView::ForwardQueued(
                (self.queued)(n),
            ),
            IntakeStageView::Finished(_) => IntakeEventView::ForwardQueued(true),
        }
    }
}

impl IntakeView {
    /// An upper bound on the actions that are left.
    pub open spec fn rank(self) -> nat {
        let count = self.recipients.len();
        match self.stage {
            IntakeStageView::Finding(_) => (3 * count + 4) as nat,
            IntakeStageView::Storing => (3 * count + 3) as nat,
            IntakeStageView::Linking(_, n) => (2 * count + 2 + (count - n)) as nat,
            IntakeStageView::Checking(_, n) => (2 * (count - n) + 1) as nat,
            IntakeStageView::Forwarding(_, n, _) => (2 * (count - n)) as nat,
            IntakeStageView::Finished(_) => 0,
        }
    }

    /// All actions from here to the answer, the answer included.
    pub open spec fn actions(self, answers: StoreAnswers) -> Seq<IntakeActionView>
        decreases self.rank(),
    {
        if !self.wf() {
            Seq::empty()
        } else if self.stage is Finished {
            seq![self.action()]
        } else {
            seq![self.action()] + self.after(answers.event(self.stage)).actions(answers)
        }
    }
}

/// The actions that link the message to the recipients before `upto`.
pub open spec fn link_actions(
    id: u64,
    recipients: Seq<Seq<char>>,
    upto: int,
) -> Seq<IntakeActionView> {
    Seq::new(
        upto as nat,
        |i: int| IntakeActionView::StoreInbound(link_row(id, recipients[i])),
    )
}

/// The actions that look up each recipient from `n` on, and queue the message
/// for each that is forwarded.
pub open spec fn forward_actions(
    id: u64,
    recipients: Seq<Seq<char>>,
    forwards: spec_fn(int) -> Option<Seq<char>>,
    n: int,
) -> Seq<IntakeActionView>
    decreases recipients.len() - n,
{
    if n >= recipients.len() {
        Seq::empty()
    } else {
        seq![IntakeActionView::FindMailbox(recipients[n])] + (match forwards(n) {
            Some(to) => seq![
                IntakeActionView::Enqueue(crate::send::queued_job(id, recipients[n], to)),
            ],
            None => Seq::empty(),
        }) + forward_actions(id, recipients, forwards, n + 1)
    }
}

proof fn lemma_forwarding(intake: IntakeView, answers: StoreAnswers, id: u64, n: int)
    requires
        0 <= n < intake.recipients.len(),
        intake.stage == IntakeStageView::Checking(id, n),
    ensures
        intake.actions(answers) == forward_actions(id, intake.recipients, answers.forwards, n)
            + seq![IntakeActionView::Reply(SmtpReply::Accept)],
    decreases intake.recipients.len() - n,
{
    reveal_with_fuel(IntakeView::actions, 4);
    let accept = seq![IntakeActionView::Reply(SmtpReply::Accept)];
    let rest = forward_actions(id, intake.recipients, answers.forwards, n + 1);
    let next = intake.at(IntakeStageView::Checking(id, n + 1));
    if n + 1 < intake.recipients.len() {
        lemma_forwarding(next, answers, id, n + 1);
        assert(next.actions(answers) == rest + accept);
    } else {
        assert(rest == Seq::<IntakeActionView>::empty());
        assert(intake.checked(id, n).actions(answers) == accept);
    }
    assert(intake.checked(id, n).actions(answers) == rest + accept);
    match (answers.forwards)(n) {
        Some(to) => {
            let mid = intake.at(IntakeStageView::Forwarding(id, n, to));
            assert(intake.after(answers.event(intake.stage)) == mid);
            assert(mid.after(answers.event(mid.stage)) == intake.checked(id, n));
            assert(mid.actions(answers) == seq![mid.action()] + (rest + accept));
            assert(intake.actions(answers) == seq![intake.action()] + (seq![mid.action()] + (rest
                + accept)));
            assert(intake.actions(answers) == seq![intake.action()] + seq![mid.action()] + rest
                + accept);
        },
        None => {
            assert(intake.after(answers.event(intake.stage)) == intake.checked(id, n));
            assert(intake.actions(answers) == seq![intake.action()] + (rest + accept));
            assert(intake.actions(answers) == seq![intake.action()] + Seq::<
                IntakeActionView,
            >::empty() + rest + accept);
        },
    }
}

proof fn lemma_linking(intake: IntakeView, answers: StoreAnswers, id: u64, n: int)
    requires
        0 <= n < intake.recipients.len(),
        intake.stage == IntakeStageView::Linking(id, n),
        forall|i: int| 0 <= i < intake.recipients.len() ==> #[trigger] (answers.linked)(i),
    ensures
        intake.actions(answers) == link_actions(
            id,
            intake.recipients,
            intake.recipients.len() as int,
        ).skip(n) + forward_actions(id, intake.recipients, answers.forwards, 0)
            + seq![IntakeActionView::Reply(SmtpReply::Accept)],
    decreases intake.recipients.len() - n,
{
    reveal_with_fuel(IntakeView::actions, 2);
    let links = link_actions(id, intake.recipients, intake.recipients.len() as int);
    let end = forward_actions(id, intake.recipients, answers.forwards, 0) + seq![
        IntakeActionView::Reply(SmtpReply::Accept),
    ];
    assert((answers.linked)(n));
    let next = intake.after(answers.event(intake.stage));
    assert(links.skip(n) == seq![intake.action()] + links.skip(n + 1));
    if n + 1 < intake.recipients.len() {
        lemma_linking(next, answers, id, n + 1);
        assert(next.actions(answers) == links.skip(n + 1) + end);
    } else {
        lemma_forwarding(next, answers, id, 0);
        assert(links.skip(n + 1) == Seq::<IntakeActionView>::empty());
        assert(next.actions(answers) == links.skip(n + 1) + end);
    }
    assert(intake.actions(answers) == seq![intake.action()] + (links.skip(n + 1) + end));
    assert(intake.actions(answers) == links.skip(n) + end);
}

proof fn lemma_linking_fails(intake: IntakeView, answers: StoreAnswers, id: u64, n: int, k: int)
    requires
        0 <= n <= k < intake.recipients.len(),
        intake.stage == IntakeStageView::Linking(id, n),
        forall|i: int| 0 <= i < k ==> #[trigger] (answers.linked)(i),
        !(answers.linked)(k),
    ensures
        intake.actions(answers) == link_actions(id, intake.recipients, k + 1).skip(n) + seq![
            IntakeActionView::Reply(SmtpReply::Abort),
        ],
    decreases k - n,
{
    reveal_with_fuel(IntakeView::actions, 2);
    let links = link_actions(id, intake.recipients, k + 1);
    let abort = seq![IntakeActionView::Reply(SmtpReply::Abort)];
    let next = intake.after(answers.event(intake.stage));
    assert(links.skip(n) == seq![intake.action()] + links.skip(n + 1));
    if n < k {
        assert((answers.linked)(n));
        lemma_linking_fails(next, answers, id, n + 1, k);
    } else {
        assert(links.skip(n + 1) == Seq::<IntakeActionView>::empty());
        assert(next.actions(answers) == abort);
    }
    assert(intake.actions(answers) == seq![intake.action()] + (links.skip(n + 1) + abort));
}

/// Once the message has its id and the store keeps every link, the message is
/// linked to every recipient once and in order, then queued for forwarding
/// from exactly the mailboxes that forward, and then accepted.
pub proof fn law_every_recipient_is_linked(intake: IntakeView, answers: StoreAnswers, id: u64)
    requires
        0 < intake.recipients.len(),
        intake.stage == IntakeStageView::Linking(id, 0),
        forall|i: int| 0 <= i < intake.recipients.len() ==> #[trigger] (answers.linked)(i),
    ensures
        intake.actions(answers) == link_actions(
            id,
            intake.recipients,
            intake.recipients.len() as int,
        ) + forward_actions(id, intake.recipients, answers.forwards, 0) + seq![
            IntakeActionView::Reply(SmtpReply::Accept),
        ],
{
    lemma_linking(intake, answers, id, 0);
    let links = link_actions(id, intake.recipients, intake.recipients.len() as int);
    assert(links.skip(0) == links);
}

/// A link that cannot be stored refuses the message at once: nothing is
/// forwarded.
pub proof fn law_lost_link_refuses(intake: IntakeView, answers: StoreAnswers, id: u64, k: int)
    requires
        0 <= k < intake.recipients.len(),
        intake.stage == IntakeStageView::Linking(id, 0),
        forall|i: int| 0 <= i < k ==> #[trigger] (answers.linked)(i),
        !(answers.linked)(k),
    ensures
        intake.actions(answers) == link_actions(id, intake.recipients, k + 1) + seq![
            IntakeActionView::Reply(SmtpReply::Abort),
        ],
{
    lemma_linking_fails(intake, answers, id, 0, k);
    let links = link_actions(id, intake.recipients, k + 1);
    assert(links.skip(0) == links);
}

/// A message whose `Message-ID` is stored already is not stored again: all that
/// follows is about the stored copy.
pub proof fn law_known_message_is_reused(
    recipients: Seq<Seq<char>>,
    message: db::NewMessageView,
    answers: StoreAnswers,
    key: Seq<char>,
    id: u64,
)
    requires
        dedup_key(message.message_id_header) == Some(key),
        answers.found == Some(id),
    ensures
        intake_start(recipients, message).actions(answers) == seq![
            IntakeActionView::FindMessage(key),
        ] + intake_start(recipients, message).at(IntakeStageView::Linking(id, 0)).actions(answers),
{
    reveal_with_fuel(IntakeView::actions, 2);
}

/// A message that is not stored yet, or whose `Message-ID` tells nothing, is
/// stored once, and refused where it cannot be stored.
pub proof fn law_new_message_is_stored_once(
    recipients: Seq<Seq<char>>,
    message: db::NewMessageView,
    answers: StoreAnswers,
)
    requires
        dedup_key(message.message_id_header) is None || answers.found is None,
    ensures
        ({
            let start = intake_start(recipients, message);
            let head = match dedup_key(message.message_id_header) {
                Some(key) => seq![IntakeActionView::FindMessage(key)],
                None => Seq::empty(),
            };
            let end = match answers.stored {
                Some(id) => start.at(IntakeStageView::Linking(id, 0)).actions(answers),
                None => seq![IntakeActionView::Reply(SmtpReply::Abort)],
            };
            start.actions(answers) == head + seq![IntakeActionView::StoreMessage(message)] + end
        }),
{
    reveal_with_fuel(IntakeView::actions, 3);
    let start = intake_start(recipients, message);
    let storing = start.at(IntakeStageView::Storing);
    let end = match answers.stored {
        Some(id) => start.at(IntakeStageView::Linking(id, 0)).actions(answers),
        None => seq![IntakeActionView::Reply(SmtpReply::Abort)],
    };
    assert(storing.after(answers.event(storing.stage)).actions(answers) == end);
    assert(storing.actions(answers) == seq![IntakeActionView::StoreMessage(message)] + end);
    match dedup_key(message.message_id_header) {
        Some(key) => {
            assert(start.after(answers.event(start.stage)) == storing);
            assert(start.actions(answers) == seq![IntakeActionView::FindMessage(key)] + (seq![
                IntakeActionView::StoreMessage(message),
            ] + end));
        },
        None => {
            assert(start == storing);
        },
    }
}

/// The payload is kept whole, whatever the parser makes of its headers.
pub proof fn law_payload_is_kept(
    recipients: Seq<Seq<char>>,
    mail_from: Seq<char>,
    data: Seq<u8>,
    headers: Option<MailHeadersView>,
)
    ensures
        intake_start(recipients, message_row(mail_from, data, headers)).message.raw == data,
{
}

/// No message is lost for want of a recipient: there is always one to link to.
pub proof fn law_intake_has_a_recipient(recipients: Seq<Seq<char>>, message: db::NewMessageView)
    ensures
        intake_start(recipients, message).recipients.len() > 0,
        recipients.len() == 0 ==> intake_start(recipients, message).recipients == seq!["unknown"@],
        recipients.len() > 0 ==> intake_start(recipients, message).recipients == recipients,
{
}

/// The text by which an earlier copy of a message is looked for is its
/// `Message-ID` itself, letter for letter, without white space around it. That
/// is the text that is stored with the message: whoever takes the message in
/// again looks for exactly what the first intake stored.
pub proof fn law_copies_are_looked_for_by_what_is_stored(
    recipients: Seq<Seq<char>>,
    message: db::NewMessageView,
    others: Seq<Seq<char>>,
    again: db::NewMessageView,
    header: Seq<char>,
)
    requires
        header.len() > 0,
        text::is_bare(header),
        message.message_id_header == Some(header),
        again.message_id_header == message.message_id_header,
    ensures
        intake_start(recipients, message).action() == IntakeActionView::FindMessage(header),
        ({
            let unknown = intake_start(recipients, message).after(
                IntakeEventView::MessageFound(None),
            );
            unknown.action() matches IntakeActionView::StoreMessage(row) && row == message
                && row.message_id_header == Some(header)
        }),
        intake_start(others, again).action() == IntakeActionView::FindMessage(header),
        forall|id: u64| #[trigger]
            intake_start(others, again).after(IntakeEventView::MessageFound(Some(id))).action()
                == IntakeActionView::StoreInbound(
                db::NewInboundView {
                    message_id: id,
                    rcpt_to: if others.len() == 0 {
                        "unknown"@
                    } else {
                        others[0]
                    },
                },
            ),
{
    let none = Seq::<char>::empty();
    text::law_trimming_leaves_the_inside(none, header, none);
}

/// White space around a `Message-ID` is not looked for. A message without one,
/// or with nothing but white space in it, is stored without looking for a copy.
pub proof fn law_blank_message_ids_tell_nothing(
    recipients: Seq<Seq<char>>,
    message: db::NewMessageView,
    front: Seq<char>,
    header: Seq<char>,
    back: Seq<char>,
)
    requires
        text::is_blank(front),
        text::is_blank(back),
        text::is_bare(header),
        message.message_id_header is None || message.message_id_header == Some(
            front + header + back,
        ),
    ensures
        intake_start(recipients, message).action() == (if message.message_id_header is None
            || header.len() == 0 {
            IntakeActionView::StoreMessage(message)
        } else {
            IntakeActionView::FindMessage(header)
        }),
{
    text::law_trimming_leaves_the_inside(front, header, back);
}

proof fn lemma_forwards_are_made(
    id: u64,
    recipients: Seq<Seq<char>>,
    forwards: spec_fn(int) -> Option<Seq<char>>,
    n: int,
    i: int,
)
    requires
        0 <= n <= i < recipients.len(),
    ensures
        ({
            let actions = forward_actions(id, recipients, forwards, n);
            &&& actions.contains(IntakeActionView::FindMailbox(recipients[i]))
            &&& forwards(i) matches Some(to) ==> actions.contains(
                IntakeActionView::Enqueue(crate::send::queued_job(id, recipients[i], to)),
            )
        }),
    decreases i - n,
{
    let actions = forward_actions(id, recipients, forwards, n);
    let own = match forwards(n) {
        Some(to) => seq![
            IntakeActionView::Enqueue(crate::send::queued_job(id, recipients[n], to)),
        ],
        None => Seq::empty(),
    };
    let rest = forward_actions(id, recipients, forwards, n + 1);
    assert(actions == seq![IntakeActionView::FindMailbox(recipients[n])] + own + rest);
    if i == n {
        assert(actions[0] == IntakeActionView::FindMailbox(recipients[i]));
        if forwards(i) is Some {
            assert(actions[1] == own[0]);
        }
    } else {
        lemma_forwards_are_made(id, recipients, forwards, n + 1, i);
        let k = choose|k: int|
            0 <= k < rest.len() && rest[k] == IntakeActionView::FindMailbox(recipients[i]);
        assert(actions[1 + own.len() + k] == rest[k]);
        if let Some(to) = forwards(i) {
            let job = IntakeActionView::Enqueue(crate::send::queued_job(id, recipients[i], to));
            let j = choose|j: int| 0 <= j < rest.len() && rest[j] == job;
            assert(actions[1 + own.len() + j] == rest[j]);
        }
    }
}

proof fn lemma_only_forwards_are_made(
    id: u64,
    recipients: Seq<Seq<char>>,
    forwards: spec_fn(int) -> Option<Seq<char>>,
    n: int,
    k: int,
) -> (i: int)
    requires
        0 <= n,
        0 <= k < forward_actions(id, recipients, forwards, n).len(),
        forward_actions(id, recipients, forwards, n)[k] is Enqueue,
    ensures
        n <= i < recipients.len(),
        forwards(i) is Some,
        forward_actions(id, recipients, forwards, n)[k] == IntakeActionView::Enqueue(
            crate::send::queued_job(id, recipients[i], forwards(i)->0),
        ),
    decreases recipients.len() - n,
{
    let actions = forward_actions(id, recipients, forwards, n);
    let own = match forwards(n) {
        Some(to) => seq![
            IntakeActionView::Enqueue(crate::send::queued_job(id, recipients[n], to)),
        ],
        None => Seq::empty(),
    };
    let rest = forward_actions(id, recipients, forwards, n + 1);
    assert(actions == seq![IntakeActionView::FindMailbox(recipients[n])] + own + rest);
    if k < 1 + own.len() {
        n
    } else {
        assert(actions[k] == rest[k - 1 - own.len()]);
        lemma_only_forwards_are_made(id, recipients, forwards, n + 1, k - 1 - own.len())
    }
}

/// Once the message has its id and the store keeps every link, each recipient
/// in turn is linked to that id under its own address, its mailbox is looked up,
/// and where that forwards, a fresh job takes the message on from the recipient
/// to where the mailbox forwards. There are no other jobs. The last thing is
/// that the message is accepted, whether or not the jobs could be stored.
pub proof fn law_recipients_are_linked_and_forwarded(
    intake: IntakeView,
    answers: StoreAnswers,
    id: u64,
    i: int,
)
    requires
        intake.stage == IntakeStageView::Linking(id, 0),
        forall|k: int| 0 <= k < intake.recipients.len() ==> #[trigger] (answers.linked)(k),
        0 <= i < intake.recipients.len(),
    ensures
        ({
            let actions = intake.actions(answers);
            let who = intake.recipients[i];
            &&& actions.len() > intake.recipients.len()
            &&& actions[i] == IntakeActionView::StoreInbound(
                db::NewInboundView { message_id: id, rcpt_to: who },
            )
            &&& actions.contains(IntakeActionView::FindMailbox(who))
            &&& (answers.forwards)(i) matches Some(to) ==> actions.contains(
                IntakeActionView::Enqueue(
                    db::NewOutboundView {
                        message_id: id,
                        rcpt_to: to,
                        sender_id: who,
                        status: db::OutboundStatus::Queued,
                        attempts: 0,
                        next_attempt_at: None,
                        last_error: None,
                    },
                ),
            )
            &&& actions.last() == IntakeActionView::Reply(SmtpReply::Accept)
        }),
        forall|k: int|
            0 <= k < intake.actions(answers).len() && (#[trigger] intake.actions(
                answers,
            )[k]) is Enqueue ==> exists|j: int|
                0 <= j < intake.recipients.len() && #[trigger] (answers.forwards)(j) == Some(
                    intake.actions(answers)[k]->Enqueue_0.rcpt_to,
                ) && intake.actions(answers)[k]->Enqueue_0.sender_id == intake.recipients[j]
                    && intake.actions(answers)[k]->Enqueue_0.message_id == id,
{
    law_every_recipient_is_linked(intake, answers, id);
    let actions = intake.actions(answers);
    let links = link_actions(id, intake.recipients, intake.recipients.len() as int);
    let on = forward_actions(id, intake.recipients, answers.forwards, 0);
    assert(actions == links + on + seq![IntakeActionView::Reply(SmtpReply::Accept)]);
    assert(actions[i] == links[i]);
    lemma_forwards_are_made(id, intake.recipients, answers.forwards, 0, i);
    let who = intake.recipients[i];
    let k = choose|k: int| 0 <= k < on.len() && on[k] == IntakeActionView::FindMailbox(who);
    assert(actions[links.len() + k] == on[k]);
    if let Some(to) = (answers.forwards)(i) {
        let job = IntakeActionView::Enqueue(crate::send::queued_job(id, who, to));
        let j = choose|j: int| 0 <= j < on.len() && on[j] == job;
        assert(actions[links.len() + j] == on[j]);
    }
    assert forall|k: int| 0 <= k < actions.len() && (#[trigger] actions[k]) is Enqueue implies
        exists|j: int|
            0 <= j < intake.recipients.len() && #[trigger] (answers.forwards)(j) == Some(
                actions[k]->Enqueue_0.rcpt_to,
            ) && actions[k]->Enqueue_0.sender_id == intake.recipients[j]
                && actions[k]->Enqueue_0.message_id == id by {
        if k < links.len() {
            assert(actions[k] == links[k]);
        } else if k < links.len() + on.len() {
            assert(actions[k] == on[k - links.len()]);
            let j = lemma_only_forwards_are_made(
                id,
                intake.recipients,
                answers.forwards,
                0,
                k - links.len(),
            );
            assert((answers.forwards)(j) == Some(actions[k]->Enqueue_0.rcpt_to));
        }
    }
}

/// The row of a message holds its payload and its headers as they were found,
/// each in its place: the text of `Subject`, `Message-ID` and `Content-Type`,
/// and the addresses of `From`, `To`, `Cc` and `Bcc`.
pub proof fn law_headers_are_kept(
    mail_from: Seq<char>,
    raw: Seq<u8>,
    headers: MailHeadersView,
)
    ensures
        ({
            let row = message_row(mail_from, raw, Some(headers));
            &&& row.mail_from == mail_from
            &&& row.raw == raw
            &&& row.subject == headers.texts.subject
            &&& row.message_id_header == headers.texts.message_id
            &&& row.content_type == headers.texts.content_type
            &&& headers.addresses.from matches Some(from) ==> row.from_address == Some(
                first_address(from),
            )
            &&& headers.addresses.from is None ==> row.from_address is None
            &&& headers.addresses.to matches Some(to) ==> row.to == all_addresses(to)
            &&& headers.addresses.to is None ==> row.to.len() == 0
            &&& headers.addresses.cc matches Some(cc) ==> row.cc == all_addresses(cc)
            &&& headers.addresses.cc is None ==> row.cc.len() == 0
            &&& headers.addresses.bcc matches Some(bcc) ==> row.bcc == all_addresses(bcc)
            &&& headers.addresses.bcc is None ==> row.bcc.len() == 0
        }),
        ({
            let bare = message_row(mail_from, raw, None);
            &&& bare.mail_from == mail_from
            &&& bare.raw == raw
            &&& bare.subject is None
            &&& bare.message_id_header is None
            &&& bare.content_type is None
            &&& bare.from_address is None
            &&& bare.to.len() == 0
            &&& bare.cc.len() == 0
            &&& bare.bcc.len() == 0
        }),
{
}

/// A message that came in is from whom its `From:` header names; from nobody
/// where it has none.
pub proof fn law_sender_is_that_of_the_header(headers: MailHeadersView)
    ensures
        headers.addresses.from matches Some(from) ==> header_sender(Some(headers))
            == first_address(from),
        headers.addresses.from is None ==> header_sender(Some(headers)).len() == 0,
        header_sender(None).len() == 0,
{
}

/// Whom a header names is the address of its first entry. Of groups it is that
/// of the first one whose first entry has an address.
pub proof fn law_first_entry_stands_for_the_header(
    entry: AddrView,
    entries: Seq<AddrView>,
    silent: Seq<GroupView>,
    groups: Seq<GroupView>,
    address: Seq<char>,
)
    requires
        entry.address == Some(address),
        forall|i: int|
            0 <= i < silent.len() ==> (#[trigger] silent[i]).addresses.len() == 0
                || silent[i].addresses[0].address is None,
    ensures
        first_address(AddressView::List(seq![entry] + entries)) == address,
        first_address(
            AddressView::Group(
                silent + seq![GroupView { addresses: seq![entry] + entries }] + groups,
            ),
        ) == address,
        first_address(AddressView::Group(silent)).len() == 0,
    decreases silent.len(),
{
    assert((seq![entry] + entries)[0] == entry);
    let loud = seq![GroupView { addresses: seq![entry] + entries }];
    let all = silent + loud + groups;
    if silent.len() == 0 {
        assert(all[0] == loud[0]);
    } else {
        let rest = silent.drop_first();
        assert forall|i: int| 0 <= i < rest.len() implies (#[trigger] rest[i]).addresses.len() == 0
            || rest[i].addresses[0].address is None by {
            assert(rest[i] == silent[i + 1]);
        }
        law_first_entry_stands_for_the_header(entry, entries, rest, groups, address);
        assert(all[0] == silent[0]);
        assert(all.drop_first() == rest + loud + groups);
        assert(head_of_groups(all) == head_of_groups(rest + loud + groups));
        assert(head_of_groups(silent) == head_of_groups(rest));
    }
}

/// A header whose first entry has no address, or that has no entry, names nobody.
pub proof fn law_header_without_an_address_names_nobody(list: Seq<AddrView>)
    requires
        list.len() == 0 || list[0].address is None,
    ensures
        first_address(AddressView::List(list)).len() == 0,
{
}

/// Every address of a header is listed in its place: one more entry adds its
/// address behind the others, an entry without one adds nothing, and a group
/// adds what the list of its entries would.
pub proof fn law_every_address_is_listed(
    list: Seq<AddrView>,
    entry: AddrView,
    groups: Seq<GroupView>,
)
    ensures
        all_addresses(AddressView::List(list.push(entry))) == (match entry.address {
            Some(address) => all_addresses(AddressView::List(list)).push(address),
            None => all_addresses(AddressView::List(list)),
        }),
        all_addresses(AddressView::List(Seq::empty())).len() == 0,
        all_addresses(AddressView::Group(groups.push(GroupView { addresses: list })))
            == all_addresses(AddressView::Group(groups)) + all_addresses(AddressView::List(list)),
        all_addresses(AddressView::Group(Seq::empty())).len() == 0,
{
    assert(list.push(entry).drop_last() == list);
    let more = groups.push(GroupView { addresses: list });
    assert(more.drop_last() == groups);
    assert(more.last().addresses == list);
}

/// A recipient is looked up under its address in small letters, without the
/// angle brackets and the spaces around it.
pub proof fn law_brackets_are_not_looked_up(
    front: Seq<char>,
    address: Seq<char>,
    back: Seq<char>,
)
    requires
        forall|i: int|
            0 <= i < front.len() ==> #[trigger] front[i] == '<' || front[i] == '>' || front[i]
                == ' ',
        forall|i: int|
            0 <= i < back.len() ==> #[trigger] back[i] == '<' || back[i] == '>' || back[i] == ' ',
        address.len() > 0,
        address[0] != '<' && address[0] != '>' && address[0] != ' ',
        address.last() != '<' && address.last() != '>' && address.last() != ' ',
    ensures
        recipient_key(front + address + back) == text::lowercase(address),
{
    let set = seq!['<', '>', ' '];
    assert(set[0] == '<' && set[1] == '>' && set[2] == ' ');
    assert(text::made_of(front, set));
    assert(text::made_of(back, set));
    text::law_strip_leaves_the_inside(front, address, back, set);
}

/// An intake moves on only by the event that belongs to its stage, and a message
/// that was answered stays so.
pub proof fn law_stray_events_change_nothing(intake: IntakeView, event: IntakeEventView)
    requires
        intake.stage is Finding ==> event !is MessageFound,
        intake.stage is Storing ==> event !is MessageStored,
        intake.stage is Linking ==> event !is InboundStored,
        intake.stage is Checking ==> event !is MailboxFound,
        intake.stage is Forwarding ==> event !is ForwardQueued,
    ensures
        intake.after(event) == intake,
{
}

/// Whatever happens, an intake stays about its message and its recipients.
pub proof fn law_intake_keeps_the_message(intake: IntakeView, event: IntakeEventView)
    ensures
        intake.after(event).message == intake.message,
        intake.after(event).recipients == intake.recipients,
        intake.wf() ==> intake.after(event).wf(),
{
}

} // verus!
