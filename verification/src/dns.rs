//! The authoritative DNS server: what a query asks for, and the answer that
//! the stored records give.
use vstd::prelude::*;
use hickory_proto::op::{Message as Packet, MessageType, OpCode, Query};
use hickory_proto::rr::rdata::{A, MX, PTR, TXT};
use hickory_proto::rr::{Name, RData as WireData, Record as WireRecord};
use crate::db;
use crate::db::{wire_type, Record, RecordType, WireType};
use crate::text;
use crate::text::{parse_octet, parse_u16, same_text, split_once, split_words, trim_trailing};

verus! {

// ---------------------------------------------------------------------------
// Record data
// ---------------------------------------------------------------------------

/// The data of a record that can be answered with.
#[derive(Debug, Clone)]
pub enum RData {
    /// The four octets of an IPv4 address.
    A(u8, u8, u8, u8),
    Txt(String),
    /// The preference and the name of a mail host.
    Mx(u16, String),
    Ptr(String),
}

/// What [`RData`] holds.
pub enum RDataView {
    A(u8, u8, u8, u8),
    Txt(Seq<char>),
    Mx(u16, Seq<char>),
    Ptr(Seq<char>),
}

impl View for RData {
    type V = RDataView;

    open spec fn view(&self) -> RDataView {
        match self {
            RData::A(a, b, c, d) => RDataView::A(*a, *b, *c, *d),
            RData::Txt(t) => RDataView::Txt(t@),
            RData::Mx(p, name) => RDataView::Mx(*p, name@),
            RData::Ptr(name) => RDataView::Ptr(name@),
        }
    }
}

/// Whether `hickory-proto` takes `name` as a domain name.
pub uninterp spec fn is_dns_name(name: Seq<char>) -> bool;

/// Whether `hickory_proto::rr::Name::from_str` takes `name`.
#[verifier::external_body]
fn check_name(name: &str) -> (out: bool)
    ensures
        out == is_dns_name(name@),
{
    name.parse::<Name>().is_ok()
}

/// The IPv4 address that `value` writes: four octets with dots between them.
pub open spec fn ipv4_of(value: Seq<char>) -> Option<(u8, u8, u8, u8)> {
    match text::cut(value, '.') {
        None => None,
        Some((a, rest)) => match text::cut(rest, '.') {
            None => None,
            Some((b, rest)) => match text::cut(rest, '.') {
                None => None,
                Some((c, d)) => match (
                    text::octet_of(a),
                    text::octet_of(b),
                    text::octet_of(c),
                    text::octet_of(d),
                ) {
                    (Some(a), Some(b), Some(c), Some(d)) => Some((a, b, c, d)),
                    _ => None,
                },
            },
        },
    }
}

/// Read an IPv4 address.
pub fn parse_ipv4(value: &str) -> (out: Option<(u8, u8, u8, u8)>)
    ensures
        out == ipv4_of(value@),
{
    let (a, rest) = match split_once(value, '.') {
        Some(parts) => parts,
        None => return None,
    };
    let (b, rest) = match split_once(rest.as_str(), '.') {
        Some(parts) => parts,
        None => return None,
    };
    let (c, d) = match split_once(rest.as_str(), '.') {
        Some(parts) => parts,
        None => return None,
    };
    match (
        parse_octet(a.as_str()),
        parse_octet(b.as_str()),
        parse_octet(c.as_str()),
        parse_octet(d.as_str()),
    ) {
        (Some(a), Some(b), Some(c), Some(d)) => Some((a, b, c, d)),
        _ => None,
    }
}

/// The preference of a mail host as it is written; 10 where it is no number.
pub open spec fn preference_of(word: Seq<char>) -> u16 {
    match text::u16_of(word) {
        Some(p) => p,
        None => 10,
    }
}

/// The data that the stored `value` writes, whether or not a name in it is one.
/// Types other than `A`, `TXT`, `MX` and `PTR` have none.
pub open spec fn written_rdata(qtype: db::WireTypeView, value: Seq<char>) -> Option<RDataView> {
    if qtype == db::WireTypeView::Named("A"@) {
        match ipv4_of(value) {
            Some((a, b, c, d)) => Some(RDataView::A(a, b, c, d)),
            None => None,
        }
    } else if qtype == db::WireTypeView::Named("TXT"@) {
        Some(RDataView::Txt(value))
    } else if qtype == db::WireTypeView::Named("MX"@) {
        let parts = text::words(value);
        if parts.len() == 2 {
            Some(RDataView::Mx(preference_of(parts[0]), parts[1]))
        } else {
            None
        }
    } else if qtype == db::WireTypeView::Named("PTR"@) {
        Some(RDataView::Ptr(value))
    } else {
        None
    }
}

impl RDataView {
    /// A name in the data is a domain name.
    pub open spec fn named(self) -> bool {
        match self {
            RDataView::Mx(_, name) => is_dns_name(name),
            RDataView::Ptr(name) => is_dns_name(name),
            _ => true,
        }
    }
}

/// The data that the stored `value` stands for in an answer of type `qtype`.
pub open spec fn rdata_of(qtype: db::WireTypeView, value: Seq<char>) -> Option<RDataView> {
    match written_rdata(qtype, value) {
        Some(data) => if data.named() {
            Some(data)
        } else {
            None
        },
        None => None,
    }
}

/// What the record data says, if there is any.
pub open spec fn rdata_view(data: Option<RData>) -> Option<RDataView> {
    match data {
        Some(d) => Some(d@),
        None => None,
    }
}

/// Read the data that a stored value writes, and leave open whether a name in
/// it is one.
pub fn read_rdata(qtype: &WireType, value: &str) -> (out: Option<RData>)
    ensures
        rdata_view(out) == written_rdata(qtype@, value@),
{
    let name = match qtype {
        WireType::Named(name) => name.as_str(),
        WireType::Unknown(_) => return None,
    };
    if same_text(name, "A") {
        match parse_ipv4(value) {
            Some((a, b, c, d)) => Some(RData::A(a, b, c, d)),
            None => None,
        }
    } else if same_text(name, "TXT") {
        Some(RData::Txt(value.to_owned()))
    } else if same_text(name, "MX") {
        let parts = split_words(value);
        assert(text::views(parts@).len() == parts@.len());
        if parts.len() == 2 {
            assert(text::views(parts@)[0] == parts@[0]@);
            assert(text::views(parts@)[1] == parts@[1]@);
            let preference: u16 = match parse_u16(parts[0].as_str()) {
                Some(p) => p,
                None => 10,
            };
            Some(RData::Mx(preference, parts[1].clone()))
        } else {
            None
        }
    } else if same_text(name, "PTR") {
        Some(RData::Ptr(value.to_owned()))
    } else {
        None
    }
}

/// The data that a stored value stands for in an answer of type `qtype`.
pub fn parse_rdata(qtype: &WireType, value: &str) -> (out: Option<RData>)
    ensures
        rdata_view(out) == rdata_of(qtype@, value@),
{
    let data = match read_rdata(qtype, value) {
        Some(data) => data,
        None => return None,
    };
    let named = match &data {
        RData::Mx(_, name) => check_name(name.as_str()),
        RData::Ptr(name) => check_name(name.as_str()),
        _ => true,
    };
    if named {
        Some(data)
    } else {
        None
    }
}

// ---------------------------------------------------------------------------
// Requests
// ---------------------------------------------------------------------------

/// One question of a request.
#[derive(Debug, Clone)]
pub struct Question {
    /// The labels of the name that is asked about.
    pub labels: Vec<Vec<u8>>,
    /// The same name as text.
    pub name: String,
    pub qtype: u16,
    pub qclass: u16,
}

/// What a [`Question`] holds.
pub struct QuestionView {
    pub labels: Seq<Seq<u8>>,
    pub name: Seq<char>,
    pub qtype: u16,
    pub qclass: u16,
}

/// The bytes of each label.
pub open spec fn label_views(labels: Seq<Vec<u8>>) -> Seq<Seq<u8>> {
    Seq::new(labels.len(), |i: int| labels[i]@)
}

impl View for Question {
    type V = QuestionView;

    open spec fn view(&self) -> QuestionView {
        QuestionView {
            labels: label_views(self.labels@),
            name: self.name@,
            qtype: self.qtype,
            qclass: self.qclass,
        }
    }
}

/// A request as far as it is answered.
#[derive(Debug, Clone)]
pub struct DnsRequest {
    pub id: u16,
    pub op_code: u8,
    pub recursion_desired: bool,
    pub questions: Vec<Question>,
}

/// What a [`DnsRequest`] holds.
#[verifier::ext_equal]
pub struct DnsRequestView {
    pub id: u16,
    pub op_code: u8,
    pub recursion_desired: bool,
    pub questions: Seq<QuestionView>,
}

/// What each question holds.
pub open spec fn question_views(questions: Seq<Question>) -> Seq<QuestionView> {
    Seq::new(questions.len(), |i: int| questions[i]@)
}

impl View for DnsRequest {
    type V = DnsRequestView;

    open spec fn view(&self) -> DnsRequestView {
        DnsRequestView {
            id: self.id,
            op_code: self.op_code,
            recursion_desired: self.recursion_desired,
            questions: question_views(self.questions@),
        }
    }
}

/// The bytes of all labels together.
pub open spec fn label_bytes(labels: Seq<Seq<u8>>) -> nat
    decreases labels.len(),
{
    if labels.len() == 0 {
        0
    } else {
        label_bytes(labels.drop_last()) + labels.last().len()
    }
}

/// The labels make a name that fits a DNS message.
pub open spec fn name_fits(labels: Seq<Seq<u8>>) -> bool {
    &&& label_bytes(labels) + labels.len() <= 255
    &&& forall|i: int| 0 <= i < labels.len() ==> 1 <= (#[trigger] labels[i]).len() <= 63
}

/// The code of an operation that DNS knows.
pub open spec fn known_op_code(code: u8) -> bool {
    code == 0 || code == 2 || code == 4 || code == 5
}

impl DnsRequestView {
    /// The operation is a known one and every name fits a message.
    pub open spec fn wf(self) -> bool {
        &&& known_op_code(self.op_code)
        &&& forall|i: int|
            0 <= i < self.questions.len() ==> name_fits((#[trigger] self.questions[i]).labels)
    }
}

/// The request that `hickory-proto` reads from a packet, if it can.
pub uninterp spec fn dns_request(packet: Seq<u8>) -> Option<DnsRequestView>;

/// `hickory_proto::op::Message::from_vec`, and of the message that it gives
/// the id, the operation, whether recursion is desired, and the questions. The
/// operations are those of the enum `OpCode`, and a name that was read has
/// labels of 1 to 63 bytes and at most 255 bytes in all.
#[verifier::external_body]
fn parse_request(packet: &Vec<u8>) -> (out: Option<DnsRequest>)
    ensures
        (match out {
            Some(r) => dns_request(packet@) == Some(r@) && r@.wf(),
            None => dns_request(packet@) is None,
        }),
{
    let message = Packet::from_vec(packet).ok()?;
    Some(DnsRequest {
        id: message.id(),
        op_code: message.op_code().into(),
        recursion_desired: message.recursion_desired(),
        questions: message.queries().iter().map(|q| Question {
            labels: q.name().iter().map(|label| label.to_vec()).collect(),
            name: q.name().to_string(),
            qtype: q.query_type().into(),
            qclass: q.query_class().into(),
        }).collect(),
    })
}

/// The name under which the records for a question are stored.
pub open spec fn clean_name(name: Seq<char>) -> Seq<char> {
    text::drop_trailing(name, seq!['.'])
}

/// The records that a question asks for: those of a name and a type.
#[derive(Debug, Clone)]
pub struct RecordLookup {
    pub name: String,
    pub wire: WireType,
    pub record_type: RecordType,
}

impl Question {
    /// The records that this question asks for.
    pub fn lookup(&self) -> (out: RecordLookup)
        ensures
            out.name@ == clean_name(self.name@),
            out.wire@ == db::wire_type_of_code(self.qtype),
            Some(out.record_type) == RecordType::of_wire(out.wire@),
    {
        let dot: Vec<char> = vec!['.'];
        assert(dot@ == seq!['.']);
        let name = trim_trailing(self.name.as_str(), &dot);
        let wire = wire_type(self.qtype);
        let record_type = RecordType::from(&wire);
        RecordLookup { name, wire, record_type }
    }
}

/// The record is of that name and type.
pub open spec fn record_matches(record: Record, name: Seq<char>, record_type: RecordType) -> bool {
    record.domain_id@ == name && record.record_type == record_type
}

/// The records of `rows` with that name and type, in order.
pub open spec fn matching(rows: Seq<Record>, name: Seq<char>, record_type: RecordType) -> Seq<
    Record,
>
    decreases rows.len(),
{
    if rows.len() == 0 {
        Seq::empty()
    } else {
        let front = matching(rows.drop_last(), name, record_type);
        if record_matches(rows.last(), name, record_type) {
            front.push(rows.last())
        } else {
            front
        }
    }
}

/// The records of `rows` with exactly that name and type, in order.
pub fn query_records<'a>(rows: &'a Vec<Record>, name: &str, record_type: RecordType) -> (out: Vec<
    &'a Record,
>)
    ensures
        out@.len() == matching(rows@, name@, record_type).len(),
        forall|i: int|
            0 <= i < out@.len() ==> *(#[trigger] out@[i]) == matching(rows@, name@, record_type)[i],
{
    let mut out: Vec<&'a Record> = Vec::new();
    let mut i: usize = 0;
    while i < rows.len()
        invariant
            i <= rows.len(),
            out@.len() == matching(rows@.take(i as int), name@, record_type).len(),
            forall|k: int|
                0 <= k < out@.len() ==> *(#[trigger] out@[k]) == matching(
                    rows@.take(i as int),
                    name@,
                    record_type,
                )[k],
        decreases rows.len() - i,
    {
        assert(rows@.take(i + 1).drop_last() == rows@.take(i as int));
        if same_text(rows[i].domain_id.as_str(), name) && rows[i].record_type == record_type {
            out.push(&rows[i]);
        }
        i += 1;
    }
    assert(rows@.take(rows@.len() as int) == rows@);
    out
}

// ---------------------------------------------------------------------------
// Responses
// ---------------------------------------------------------------------------

/// How a request was answered.
#[derive(Debug, Clone, Copy, PartialEq, Eq, Structural)]
pub enum ResponseCode {
    NoError,
    NXDomain,
}

/// One record of an answer.
#[derive(Debug, Clone)]
pub struct Answer {
    pub labels: Vec<Vec<u8>>,
    pub ttl: u32,
    pub data: RData,
}

/// What an [`Answer`] holds.
pub struct AnswerView {
    pub labels: Seq<Seq<u8>>,
    pub ttl: u32,
    pub data: RDataView,
}

impl View for Answer {
    type V = AnswerView;

    open spec fn view(&self) -> AnswerView {
        AnswerView { labels: label_views(self.labels@), ttl: self.ttl, data: self.data@ }
    }
}

/// The header of a response.
#[derive(Debug, Clone, Copy, PartialEq, Eq, Structural)]
pub struct Head {
    pub id: u16,
    pub op_code: u8,
    pub recursion_desired: bool,
    pub recursion_available: bool,
    pub authoritative: bool,
    pub code: ResponseCode,
}

/// A response: the questions of the request again, and the answers.
#[derive(Debug, Clone)]
pub struct DnsResponse {
    pub head: Head,
    pub questions: Vec<Question>,
    pub answers: Vec<Answer>,
}

/// What a [`DnsResponse`] holds.
#[verifier::ext_equal]
pub struct DnsResponseView {
    pub head: Head,
    pub questions: Seq<QuestionView>,
    pub answers: Seq<AnswerView>,
}

/// What each answer holds.
pub open spec fn answer_views(answers: Seq<Answer>) -> Seq<AnswerView> {
    Seq::new(answers.len(), |i: int| answers[i]@)
}

impl View for DnsResponse {
    type V = DnsResponseView;

    open spec fn view(&self) -> DnsResponseView {
        DnsResponseView {
            head: self.head,
            questions: question_views(self.questions@),
            answers: answer_views(self.answers@),
        }
    }
}

/// The answers that `records` give to `question`: one for each record whose
/// value can be read, in order.
pub open spec fn answers_from(question: QuestionView, records: Seq<Record>) -> Seq<AnswerView>
    decreases records.len(),
{
    if records.len() == 0 {
        Seq::empty()
    } else {
        let front = answers_from(question, records.drop_last());
        match rdata_of(db::wire_type_of_code(question.qtype), records.last().value@) {
            Some(data) => front.push(
                AnswerView { labels: question.labels, ttl: records.last().ttl, data },
            ),
            None => front,
        }
    }
}

/// The records among `rows` that `question` asks for.
pub open spec fn asked_records(question: QuestionView, rows: Seq<Record>) -> Seq<Record> {
    match RecordType::of_wire(db::wire_type_of_code(question.qtype)) {
        Some(t) => matching(rows, clean_name(question.name), t),
        None => Seq::empty(),
    }
}

/// The code of the response after the first `n` questions, where `rows[i]` are
/// the stored records for question `i`: that of the last one, which is
/// `NXDomain` where there is no record.
pub open spec fn code_after(questions: Seq<QuestionView>, rows: Seq<Seq<Record>>, n: int) ->
    ResponseCode {
    if n <= 0 {
        ResponseCode::NoError
    } else if asked_records(questions[n - 1], rows[n - 1]).len() == 0 {
        ResponseCode::NXDomain
    } else {
        ResponseCode::NoError
    }
}

/// The answers to the first `n` questions.
pub open spec fn answers_after(
    questions: Seq<QuestionView>,
    rows: Seq<Seq<Record>>,
    n: int,
) -> Seq<AnswerView>
    decreases n,
{
    if n <= 0 {
        Seq::empty()
    } else {
        answers_after(questions, rows, n - 1) + answers_from(
            questions[n - 1],
            asked_records(questions[n - 1], rows[n - 1]),
        )
    }
}

/// The response to a request, where `rows[i]` are the stored records for
/// question `i`.
pub open spec fn response_to(request: DnsRequestView, rows: Seq<Seq<Record>>) -> DnsResponseView {
    DnsResponseView {
        head: Head {
            id: request.id,
            op_code: request.op_code,
            recursion_desired: request.recursion_desired,
            recursion_available: false,
            authoritative: true,
            code: code_after(request.questions, rows, request.questions.len() as int),
        },
        questions: request.questions,
        answers: answers_after(request.questions, rows, request.questions.len() as int),
    }
}

/// The stored records for each question.
pub open spec fn row_views(rows: Seq<Vec<Record>>) -> Seq<Seq<Record>> {
    Seq::new(rows.len(), |i: int| rows[i]@)
}

/// Read a request; `None` where the packet is not one, and then it is ignored.
pub fn handle_dns_query(packet: &Vec<u8>) -> (out: Option<DnsRequest>)
    ensures
        (match out {
            Some(r) => dns_request(packet@) == Some(r@) && r@.wf(),
            None => dns_request(packet@) is None,
        }),
{
    parse_request(packet)
}

fn copy_labels(labels: &Vec<Vec<u8>>) -> (out: Vec<Vec<u8>>)
    ensures
        label_views(out@) == label_views(labels@),
{
    let mut out: Vec<Vec<u8>> = Vec::new();
    let mut i: usize = 0;
    while i < labels.len()
        invariant
            i <= labels.len(),
            out@.len() == i,
            forall|k: int| 0 <= k < i ==> (#[trigger] out@[k])@ == labels@[k]@,
        decreases labels.len() - i,
    {
        let label = vstd::slice::slice_to_vec(labels[i].as_slice());
        out.push(label);
        i += 1;
    }
    out
}

/// Append the answers that `rows` give to `question`; say whether any of them
/// is what it asks for.
fn answer_question(question: &Question, rows: &Vec<Record>, answers: &mut Vec<Answer>) -> (
    found: bool)
    ensures
        answer_views(final(answers)@) == answer_views(old(answers)@) + answers_from(
            question@,
            asked_records(question@, rows@),
        ),
        found == (asked_records(question@, rows@).len() > 0),
{
    let lookup = question.lookup();
    let records = query_records(rows, lookup.name.as_str(), lookup.record_type);
    let ghost asked = asked_records(question@, rows@);
    let ghost before = answer_views(answers@);
    let mut i: usize = 0;
    assert(asked.take(0) == Seq::<Record>::empty());
    assert(before + Seq::<AnswerView>::empty() == before);
    while i < records.len()
        invariant
            i <= records.len(),
            records@.len() == asked.len(),
            forall|k: int| 0 <= k < asked.len() ==> *(#[trigger] records@[k]) == asked[k],
            lookup.wire@ == db::wire_type_of_code(question.qtype),
            answer_views(answers@) == before + answers_from(question@, asked.take(i as int)),
        decreases records.len() - i,
    {
        proof {
            assert(asked.take(i + 1).drop_last() == asked.take(i as int));
            assert(asked.take(i + 1).last() == *records@[i as int]);
        }
        let record = records[i];
        if let Some(data) = parse_rdata(&lookup.wire, record.value.as_str()) {
            let answer = Answer { labels: copy_labels(&question.labels), ttl: record.ttl, data };
            let ghost was = answers@;
            let ghost shown = answer@;
            answers.push(answer);
            proof {
                assert(answer_views(answers@) == answer_views(was).push(shown));
                assert(answer_views(answers@) == before + answers_from(
                    question@,
                    asked.take(i + 1),
                ));
            }
        }
        i += 1;
    }
    assert(asked.take(asked.len() as int) == asked);
    records.len() > 0
}

impl DnsRequest {
    /// The response, where `rows[i]` are the stored records for question `i`.
    pub fn respond(self, rows: &Vec<Vec<Record>>) -> (out: DnsResponse)
        requires
            rows@.len() == self.questions@.len(),
        ensures
            out@ == response_to(self@, row_views(rows@)),
    {
        let ghost questions = self@.questions;
        let ghost tables = row_views(rows@);
        let mut code = ResponseCode::NoError;
        let mut answers: Vec<Answer> = Vec::new();
        let mut i: usize = 0;
        assert(answer_views(answers@) == answers_after(questions, tables, 0));
        while i < self.questions.len()
            invariant
                i <= self.questions.len(),
                rows@.len() == self.questions@.len(),
                questions == self@.questions,
                tables == row_views(rows@),
                code == code_after(questions, tables, i as int),
                answer_views(answers@) == answers_after(questions, tables, i as int),
            decreases self.questions.len() - i,
        {
            assert(questions[i as int] == self.questions@[i as int]@);
            assert(tables[i as int] == rows@[i as int]@);
            let found = answer_question(&self.questions[i], &rows[i], &mut answers);
            code = if found {
                ResponseCode::NoError
            } else {
                ResponseCode::NXDomain
            };
            i += 1;
        }
        let head = Head {
            id: self.id,
            op_code: self.op_code,
            recursion_desired: self.recursion_desired,
            recursion_available: false,
            authoritative: true,
            code,
        };
        DnsResponse { head, questions: self.questions, answers }
    }
}

// ---------------------------------------------------------------------------
// Encoding
// ---------------------------------------------------------------------------

/// `hickory_proto::op::Message`, the collection of questions and answers from
/// which a response is encoded.
#[verifier::external_type_specification]
#[verifier::external_body]
pub struct ExPacket(Packet);

/// The header of a message that holds nothing beside a header, questions and
/// answers; `None` for any other message.
pub uninterp spec fn message_head(message: Packet) -> Option<Head>;

/// The questions of a message, in order, by the labels of the name, the type
/// and the class.
pub uninterp spec fn message_questions(message: Packet) -> Seq<
    (Seq<Seq<u8>>, u16, u16),
>;

/// The answers of a message, in order.
pub uninterp spec fn message_answers(message: Packet) -> Seq<AnswerView>;

/// The packet that `hickory-proto` encodes from a header, questions and
/// answers, if it can.
pub uninterp spec fn encoded(
    head: Head,
    questions: Seq<(Seq<Seq<u8>>, u16, u16)>,
    answers: Seq<AnswerView>,
) -> Option<Seq<u8>>;

/// A response without questions and answers: `Message::new` with the fields of
/// `head` set. `OpCode::from_u8` knows only the codes that are asked for.
#[verifier::external_body]
fn new_message(head: Head) -> (out: Packet)
    requires
        known_op_code(head.op_code),
    ensures
        message_head(out) == Some(head),
        message_questions(out).len() == 0,
        message_answers(out).len() == 0,
{
    let mut out = Packet::new();
    out.set_message_type(MessageType::Response);
    out.set_id(head.id);
    out.set_op_code(OpCode::from_u8(head.op_code).unwrap());
    out.set_recursion_desired(head.recursion_desired);
    out.set_recursion_available(head.recursion_available);
    out.set_authoritative(head.authoritative);
    out.set_response_code(match head.code {
        ResponseCode::NoError => hickory_proto::op::ResponseCode::NoError,
        ResponseCode::NXDomain => hickory_proto::op::ResponseCode::NXDomain,
    });
    out
}

/// `Message::add_query` appends a question. `Name::from_labels` takes labels
/// that fit a message.
#[verifier::external_body]
fn add_question(message: &mut Packet, question: &Question)
    requires
        name_fits(question@.labels),
    ensures
        message_head(*final(message)) == message_head(*old(message)),
        message_questions(*final(message)) == message_questions(*old(message)).push(
            (question@.labels, question.qtype, question.qclass),
        ),
        message_answers(*final(message)) == message_answers(*old(message)),
{
    let name = Name::from_labels(question.labels.iter().map(|label| label.as_slice())).unwrap();
    let mut query = Query::query(name, question.qtype.into());
    query.set_query_class(question.qclass.into());
    message.add_query(query);
}

/// `Message::add_answer` appends a record of class `IN`, made by
/// `Record::from_rdata`. `Name::from_labels` takes labels that fit a message,
/// and `Name::from_str` the names that it was asked about before.
#[verifier::external_body]
fn add_answer(message: &mut Packet, answer: &Answer)
    requires
        name_fits(answer@.labels),
        answer@.data.named(),
    ensures
        message_head(*final(message)) == message_head(*old(message)),
        message_questions(*final(message)) == message_questions(*old(message)),
        message_answers(*final(message)) == message_answers(*old(message)).push(answer@),
{
    let name = Name::from_labels(answer.labels.iter().map(|label| label.as_slice())).unwrap();
    let data = match &answer.data {
        RData::A(a, b, c, d) => WireData::A(A([*a, *b, *c, *d].into())),
        RData::Txt(t) => WireData::TXT(TXT::new(vec![t.clone()])),
        RData::Mx(p, n) => WireData::MX(MX::new(*p, n.parse::<Name>().unwrap())),
        RData::Ptr(n) => WireData::PTR(PTR(n.parse::<Name>().unwrap())),
    };
    message.add_answer(WireRecord::from_rdata(name, answer.ttl, data));
}

/// `Message::to_vec` encodes a message, or fails; a message that holds nothing
/// beside a header, questions and answers is encoded from those alone.
#[verifier::external_body]
fn encode_message(message: &Packet) -> (out: Result<Vec<u8>, String>)
    requires
        message_head(*message) is Some,
    ensures
        (match out {
            Ok(packet) => encoded(
                message_head(*message)->0,
                message_questions(*message),
                message_answers(*message),
            ) == Some(packet@),
            Err(_) => encoded(
                message_head(*message)->0,
                message_questions(*message),
                message_answers(*message),
            ) is None,
        }),
{
    message.to_vec().map_err(|e| e.to_string())
}

/// The questions as a message holds them.
pub open spec fn asked(questions: Seq<QuestionView>) -> Seq<(Seq<Seq<u8>>, u16, u16)> {
    Seq::new(
        questions.len(),
        |i: int| (questions[i].labels, questions[i].qtype, questions[i].qclass),
    )
}

impl DnsResponseView {
    /// The operation is a known one, every name fits a message, and every name
    /// in an answer is a domain name.
    pub open spec fn wf(self) -> bool {
        &&& known_op_code(self.head.op_code)
        &&& forall|i: int|
            0 <= i < self.questions.len() ==> name_fits((#[trigger] self.questions[i]).labels)
        &&& forall|i: int|
            0 <= i < self.answers.len() ==> name_fits((#[trigger] self.answers[i]).labels)
                && self.answers[i].data.named()
    }
}

impl DnsResponse {
    /// The packet to send, or why there is none.
    pub fn to_packet(&self) -> (out: Result<Vec<u8>, String>)
        requires
            self@.wf(),
        ensures
            (match out {
                Ok(packet) => encoded(self.head, asked(self@.questions), self@.answers) == Some(
                    packet@,
                ),
                Err(_) => encoded(self.head, asked(self@.questions), self@.answers) is None,
            }),
    {
        let mut message = new_message(self.head);
        let ghost all = asked(self@.questions);
        let mut i: usize = 0;
        assert(message_questions(message) == all.take(0));
        while i < self.questions.len()
            invariant
                i <= self.questions.len(),
                self@.wf(),
                all == asked(self@.questions),
                message_head(message) == Some(self.head),
                message_questions(message) == all.take(i as int),
                message_answers(message).len() == 0,
            decreases self.questions.len() - i,
        {
            assert(self@.questions[i as int] == self.questions@[i as int]@);
            add_question(&mut message, &self.questions[i]);
            assert(all.take(i + 1) == all.take(i as int).push(all[i as int]));
            i += 1;
        }
        assert(all.take(all.len() as int) == all);
        let mut k: usize = 0;
        assert(message_answers(message) == self@.answers.take(0));
        while k < self.answers.len()
            invariant
                k <= self.answers.len(),
                self@.wf(),
                message_head(message) == Some(self.head),
                message_questions(message) == all,
                message_answers(message) == self@.answers.take(k as int),
            decreases self.answers.len() - k,
        {
            assert(self@.answers[k as int] == self.answers@[k as int]@);
            add_answer(&mut message, &self.answers[k]);
            assert(self@.answers.take(k + 1) == self@.answers.take(k as int).push(
                self@.answers[k as int],
            ));
            k += 1;
        }
        assert(self@.answers.take(self@.answers.len() as int) == self@.answers);
        encode_message(&message)
    }
}

impl DnsRequest {
    /// The packet that answers this request, where `rows[i]` are the stored
    /// records for question `i`; or why there is none.
    pub fn reply(self, rows: &Vec<Vec<Record>>) -> (out: Result<Vec<u8>, String>)
        requires
            self@.wf(),
            rows@.len() == self.questions@.len(),
        ensures
            ({
                let response = response_to(self@, row_views(rows@));
                match out {
                    Ok(packet) => encoded(
                        response.head,
                        asked(response.questions),
                        response.answers,
                    ) == Some(packet@),
                    Err(_) => encoded(
                        response.head,
                        asked(response.questions),
                        response.answers,
                    ) is None,
                }
            }),
    {
        proof {
            law_response_can_be_encoded(self@, row_views(rows@));
        }
        let response = self.respond(rows);
        response.to_packet()
    }
}

// ---------------------------------------------------------------------------
// Laws
// ---------------------------------------------------------------------------

proof fn lemma_answers_from(question: QuestionView, records: Seq<Record>)
    requires
        name_fits(question.labels),
    ensures
        forall|i: int|
            0 <= i < answers_from(question, records).len() ==> {
                let a = #[trigger] answers_from(question, records)[i];
                name_fits(a.labels) && a.data.named() && a.labels == question.labels && (exists|
                    k: int,
                |
                    0 <= k < records.len() && (#[trigger] records[k]).ttl == a.ttl && rdata_of(
                        db::wire_type_of_code(question.qtype),
                        records[k].value@,
                    ) == Some(a.data))
            },
    decreases records.len(),
{
    if records.len() > 0 {
        let front = records.drop_last();
        lemma_answers_from(question, front);
        assert forall|i: int| 0 <= i < answers_from(question, records).len() implies {
            let a = #[trigger] answers_from(question, records)[i];
            name_fits(a.labels) && a.data.named() && a.labels == question.labels && (exists|
                k: int,
            |
                0 <= k < records.len() && (#[trigger] records[k]).ttl == a.ttl && rdata_of(
                    db::wire_type_of_code(question.qtype),
                    records[k].value@,
                ) == Some(a.data))
        } by {
            let a = answers_from(question, records)[i];
            if i < answers_from(question, front).len() {
                assert(a == answers_from(question, front)[i]);
                let k = choose|k: int|
                    0 <= k < front.len() && (#[trigger] front[k]).ttl == a.ttl && rdata_of(
                        db::wire_type_of_code(question.qtype),
                        front[k].value@,
                    ) == Some(a.data);
                assert(records[k] == front[k]);
            } else {
                assert(records[records.len() - 1].ttl == a.ttl);
            }
        }
    }
}

proof fn lemma_answers_after(questions: Seq<QuestionView>, rows: Seq<Seq<Record>>, n: int)
    requires
        0 <= n <= questions.len(),
        forall|i: int| 0 <= i < questions.len() ==> name_fits((#[trigger] questions[i]).labels),
    ensures
        forall|i: int|
            0 <= i < answers_after(questions, rows, n).len() ==> name_fits(
                (#[trigger] answers_after(questions, rows, n)[i]).labels,
            ) && answers_after(questions, rows, n)[i].data.named(),
    decreases n,
{
    if n > 0 {
        lemma_answers_after(questions, rows, n - 1);
        lemma_answers_from(questions[n - 1], asked_records(questions[n - 1], rows[n - 1]));
        let front = answers_after(questions, rows, n - 1);
        let back = answers_from(questions[n - 1], asked_records(questions[n - 1], rows[n - 1]));
        assert forall|i: int| 0 <= i < answers_after(questions, rows, n).len() implies name_fits(
            (#[trigger] answers_after(questions, rows, n)[i]).labels,
        ) && answers_after(questions, rows, n)[i].data.named() by {
            if i < front.len() {
                assert(answers_after(questions, rows, n)[i] == front[i]);
            } else {
                assert(answers_after(questions, rows, n)[i] == back[i - front.len()]);
            }
        }
    }
}

/// The response to a request that was read can be encoded: it meets what
/// [`DnsResponse::to_packet`] asks for.
pub proof fn law_response_can_be_encoded(request: DnsRequestView, rows: Seq<Seq<Record>>)
    requires
        request.wf(),
    ensures
        response_to(request, rows).wf(),
{
    lemma_answers_after(request.questions, rows, request.questions.len() as int);
}

/// The response repeats the id, the operation, the wish for recursion and the
/// questions of the request, is authoritative and offers no recursion.
pub proof fn law_response_mirrors_request(request: DnsRequestView, rows: Seq<Seq<Record>>)
    ensures
        ({
            let response = response_to(request, rows);
            &&& response.head.id == request.id
            &&& response.head.op_code == request.op_code
            &&& response.head.recursion_desired == request.recursion_desired
            &&& response.head.authoritative
            &&& !response.head.recursion_available
            &&& response.questions == request.questions
        }),
{
}

proof fn lemma_matching(rows: Seq<Record>, name: Seq<char>, record_type: RecordType)
    ensures
        forall|i: int|
            0 <= i < matching(rows, name, record_type).len() ==> record_matches(
                #[trigger] matching(rows, name, record_type)[i],
                name,
                record_type,
            ) && rows.contains(matching(rows, name, record_type)[i]),
        forall|k: int|
            0 <= k < rows.len() && record_matches(#[trigger] rows[k], name, record_type)
                ==> matching(rows, name, record_type).contains(rows[k]),
    decreases rows.len(),
{
    if rows.len() > 0 {
        let front = rows.drop_last();
        lemma_matching(front, name, record_type);
        let was = matching(front, name, record_type);
        let all = matching(rows, name, record_type);
        assert forall|i: int| 0 <= i < all.len() implies record_matches(
            #[trigger] all[i],
            name,
            record_type,
        ) && rows.contains(all[i]) by {
            if i < was.len() {
                assert(all[i] == was[i]);
                let k = choose|k: int| 0 <= k < front.len() && front[k] == was[i];
                assert(rows[k] == all[i]);
            } else {
                assert(rows[rows.len() - 1] == all[i]);
            }
        }
        assert forall|k: int|
            0 <= k < rows.len() && record_matches(#[trigger] rows[k], name, record_type) implies
            all.contains(rows[k]) by {
            if k < rows.len() - 1 {
                assert(front[k] == rows[k]);
                let i = choose|i: int| 0 <= i < was.len() && was[i] == front[k];
                assert(all[i] == rows[k]);
            } else {
                assert(all[all.len() - 1] == rows[k]);
            }
        }
    }
}

/// A request with one question is answered `NXDomain` exactly when no stored
/// record has its name and type.
pub proof fn law_unknown_name_is_nxdomain(
    request: DnsRequestView,
    rows: Seq<Seq<Record>>,
    record_type: RecordType,
)
    requires
        request.questions.len() == 1,
        RecordType::of_wire(db::wire_type_of_code(request.questions[0].qtype)) == Some(record_type),
    ensures
        response_to(request, rows).head.code == ResponseCode::NXDomain <==> forall|k: int|
            0 <= k < rows[0].len() ==> !record_matches(
                #[trigger] rows[0][k],
                clean_name(request.questions[0].name),
                record_type,
            ),
{
    let name = clean_name(request.questions[0].name);
    lemma_matching(rows[0], name, record_type);
    let found = matching(rows[0], name, record_type);
    if found.len() > 0 {
        assert(rows[0].contains(found[0]));
        assert(record_matches(found[0], name, record_type));
    }
}

/// Every answer to a question bears its name, and the data and the lifetime of
/// one stored record that has its name and type.
pub proof fn law_answers_come_from_records(
    question: QuestionView,
    rows: Seq<Record>,
    record_type: RecordType,
    i: int,
)
    requires
        name_fits(question.labels),
        RecordType::of_wire(db::wire_type_of_code(question.qtype)) == Some(record_type),
        0 <= i < answers_from(question, asked_records(question, rows)).len(),
    ensures
        ({
            let a = answers_from(question, asked_records(question, rows))[i];
            &&& a.labels == question.labels
            &&& exists|k: int|
                0 <= k < rows.len() && record_matches(
                    #[trigger] rows[k],
                    clean_name(question.name),
                    record_type,
                ) && rows[k].ttl == a.ttl && rdata_of(
                    db::wire_type_of_code(question.qtype),
                    rows[k].value@,
                ) == Some(a.data)
        }),
{
    let asked = asked_records(question, rows);
    let a = answers_from(question, asked)[i];
    lemma_answers_from(question, asked);
    lemma_matching(rows, clean_name(question.name), record_type);
    let j = choose|j: int|
        0 <= j < asked.len() && (#[trigger] asked[j]).ttl == a.ttl && rdata_of(
            db::wire_type_of_code(question.qtype),
            asked[j].value@,
        ) == Some(a.data);
    assert(rows.contains(asked[j]));
    let k = choose|k: int| 0 <= k < rows.len() && rows[k] == asked[j];
    assert(record_matches(rows[k], clean_name(question.name), record_type));
}

/// Only `A`, `TXT`, `MX` and `PTR` are ever answered with data.
pub proof fn law_other_types_have_no_data(qtype: db::WireTypeView, value: Seq<char>)
    requires
        qtype != db::WireTypeView::Named("A"@),
        qtype != db::WireTypeView::Named("TXT"@),
        qtype != db::WireTypeView::Named("MX"@),
        qtype != db::WireTypeView::Named("PTR"@),
    ensures
        rdata_of(qtype, value) is None,
{
}

proof fn lemma_type_names_differ()
    ensures
        "A"@ != "TXT"@,
        "A"@ != "MX"@,
        "A"@ != "PTR"@,
        "TXT"@ != "MX"@,
        "TXT"@ != "PTR"@,
        "MX"@ != "PTR"@,
{
    reveal_strlit("A");
    reveal_strlit("TXT");
    reveal_strlit("MX");
    reveal_strlit("PTR");
    assert("A"@.len() == 1);
    assert("MX"@.len() == 2);
    assert("TXT"@.len() == 3);
    assert("PTR"@.len() == 3);
    assert("TXT"@[0] == 'T');
    assert("PTR"@[0] == 'P');
}

proof fn lemma_digits_are_solid(n: nat)
    ensures
        text::is_solid(text::digits_of(n)),
        text::digits_of(n).len() > 0,
        !text::digits_of(n).contains('.'),
{
    text::law_digits_write_the_number(n);
    let s = text::digits_of(n);
    assert forall|i: int| 0 <= i < s.len() implies !text::is_space(#[trigger] s[i]) by {
        assert('0' <= s[i] <= '9');
    }
    if s.contains('.') {
        let i = choose|i: int| 0 <= i < s.len() && s[i] == '.';
        assert('0' <= s[i] <= '9');
    }
}

/// The data of type `MX` is the number that the first of two words writes and
/// the second word, whatever white space stands around them: every preference
/// is read as it is written. The name has to be a domain name.
pub proof fn law_mail_hosts_are_read(
    front: Seq<char>,
    preference: u16,
    gap: Seq<char>,
    name: Seq<char>,
    back: Seq<char>,
)
    requires
        text::is_blank(front),
        text::is_blank(gap),
        text::is_blank(back),
        gap.len() > 0,
        text::is_solid(name),
        name.len() > 0,
    ensures
        ({
            let value = front + text::digits_of(preference as nat) + gap + name + back;
            let mx = db::WireTypeView::Named("MX"@);
            &&& written_rdata(mx, value) == Some(RDataView::Mx(preference, name))
            &&& is_dns_name(name) ==> rdata_of(mx, value) == Some(RDataView::Mx(preference, name))
            &&& !is_dns_name(name) ==> rdata_of(mx, value) is None
        }),
        written_rdata(
            db::WireTypeView::Named("MX"@),
            text::digits_of(preference as nat) + " "@ + name,
        ) == Some(RDataView::Mx(preference, name)),
{
    let none = Seq::<char>::empty();
    let digits = text::digits_of(preference as nat);
    lemma_type_names_differ();
    lemma_digits_are_solid(preference as nat);
    text::law_numbers_are_read_back(none, preference as nat);
    text::law_two_words_are_told_apart(front, digits, gap, name, back);
    reveal_strlit(" ");
    assert(" "@[0] == ' ');
    assert(text::is_blank(" "@));
    text::law_two_words_are_told_apart(none, digits, " "@, name, none);
    assert(none + digits + " "@ + name + none == digits + " "@ + name);
}

/// The preference 10 stands in only where the first word is not the text of a
/// 16-bit number: digits, with any zeros and at most one plus sign in front.
pub proof fn law_preference_is_ten_without_a_number(
    front: Seq<char>,
    word: Seq<char>,
    gap: Seq<char>,
    name: Seq<char>,
    back: Seq<char>,
)
    requires
        text::is_blank(front),
        text::is_blank(gap),
        text::is_blank(back),
        gap.len() > 0,
        text::is_solid(word),
        word.len() > 0,
        text::is_solid(name),
        name.len() > 0,
    ensures
        written_rdata(
            db::WireTypeView::Named("MX"@),
            front + word + gap + name + back,
        ) matches Some(RDataView::Mx(preference, host)) && host == name && (if exists|n: u16|
            #[trigger] writes_number(word, n) {
            writes_number(word, preference)
        } else {
            preference == 10
        }),
{
    lemma_type_names_differ();
    text::law_two_words_are_told_apart(front, word, gap, name, back);
    if exists|n: u16| #[trigger] writes_number(word, n) {
        let n = choose|n: u16| #[trigger] writes_number(word, n);
        let (sign, zeros) = choose|sign: Seq<char>, zeros: Seq<char>|
            (sign.len() == 0 || sign == seq!['+']) && (forall|i: int|
                0 <= i < zeros.len() ==> #[trigger] zeros[i] == '0') && word == #[trigger] (sign
                + zeros + text::digits_of(n as nat));
        text::law_numbers_are_read_back(zeros, n as nat);
        if sign.len() == 0 {
            assert(word == zeros + text::digits_of(n as nat));
        }
    } else if text::u16_of(word) is Some {
        text::law_only_numbers_are_read(word, text::u16_of(word)->0);
        assert(writes_number(word, text::u16_of(word)->0));
    }
}

/// `word` is the text of `n`: its digits, with any zeros and at most one plus
/// sign in front.
pub open spec fn writes_number(word: Seq<char>, n: u16) -> bool {
    exists|sign: Seq<char>, zeros: Seq<char>|
        (sign.len() == 0 || sign == seq!['+']) && (forall|i: int|
            0 <= i < zeros.len() ==> #[trigger] zeros[i] == '0') && word == #[trigger] (sign
            + zeros + text::digits_of(n as nat))
}

/// A value of more or fewer words than two is no mail host.
pub proof fn law_mail_hosts_have_two_words(value: Seq<char>)
    requires
        text::words(value).len() != 2,
    ensures
        rdata_of(db::WireTypeView::Named("MX"@), value) is None,
{
    lemma_type_names_differ();
}

/// The data of type `A` is read from four numbers with dots between them, each
/// the digits of an octet, and from no other text.
pub proof fn law_addresses_are_read(value: Seq<char>, a: u8, b: u8, c: u8, d: u8)
    ensures
        rdata_of(db::WireTypeView::Named("A"@), value) == Some(RDataView::A(a, b, c, d)) <==> value
            == text::digits_of(a as nat) + "."@ + text::digits_of(b as nat) + "."@
            + text::digits_of(c as nat) + "."@ + text::digits_of(d as nat),
        rdata_of(db::WireTypeView::Named("A"@), value) matches Some(data) ==> data is A,
{
    lemma_type_names_differ();
    reveal_strlit(".");
    assert("."@ == seq!['.']);
    let (x, y, z, w) = (
        text::digits_of(a as nat),
        text::digits_of(b as nat),
        text::digits_of(c as nat),
        text::digits_of(d as nat),
    );
    lemma_digits_are_solid(a as nat);
    lemma_digits_are_solid(b as nat);
    lemma_digits_are_solid(c as nat);
    lemma_digits_are_solid(d as nat);
    text::law_octets_are_read_back(x, a);
    text::law_octets_are_read_back(y, b);
    text::law_octets_are_read_back(z, c);
    text::law_octets_are_read_back(w, d);
    let dot = seq!['.'];
    let whole = x + dot + y + dot + z + dot + w;
    assert(whole == x + dot + (y + dot + z + dot + w));
    assert(y + dot + z + dot + w == y + dot + (z + dot + w));
    text::law_cut_is_at_the_first_separator(x, '.', y + dot + z + dot + w);
    text::law_cut_is_at_the_first_separator(y, '.', z + dot + w);
    text::law_cut_is_at_the_first_separator(z, '.', w);
    if ipv4_of(value) == Some((a, b, c, d)) {
        text::law_cut_loses_nothing(value, '.');
        let (x1, r1) = text::cut(value, '.')->0;
        text::law_cut_loses_nothing(r1, '.');
        let (y1, r2) = text::cut(r1, '.')->0;
        text::law_cut_loses_nothing(r2, '.');
        let (z1, w1) = text::cut(r2, '.')->0;
        text::law_octets_are_read_back(x1, a);
        text::law_octets_are_read_back(y1, b);
        text::law_octets_are_read_back(z1, c);
        text::law_octets_are_read_back(w1, d);
        assert(value == whole);
    }
}

/// The data of type `TXT` is the whole value, and so is that of type `PTR`,
/// where the value is a domain name.
pub proof fn law_texts_are_kept_whole(value: Seq<char>)
    ensures
        rdata_of(db::WireTypeView::Named("TXT"@), value) == Some(RDataView::Txt(value)),
        is_dns_name(value) ==> rdata_of(db::WireTypeView::Named("PTR"@), value) == Some(
            RDataView::Ptr(value),
        ),
        !is_dns_name(value) ==> rdata_of(db::WireTypeView::Named("PTR"@), value) is None,
{
    lemma_type_names_differ();
}

/// Records are stored under a name without the dots of the DNS root, and the
/// rest of the name is as it was asked for.
pub proof fn law_root_dots_are_dropped(name: Seq<char>, dots: Seq<char>)
    requires
        forall|i: int| 0 <= i < dots.len() ==> #[trigger] dots[i] == '.',
        name.len() > 0 ==> name.last() != '.',
    ensures
        clean_name(name + dots) == name,
        clean_name(name) == name,
{
    let dot = seq!['.'];
    assert(dot[0] == '.');
    assert(text::made_of(dots, dot));
    text::law_trailing_characters_are_dropped(name, dots, dot);
    text::law_trailing_characters_are_dropped(name, Seq::empty(), dot);
    assert(name + Seq::<char>::empty() == name);
}

/// One more stored record adds an answer exactly where it has the name and the
/// type of the question and its value can be read: an answer with the name of
/// the question and with the lifetime and the data of the record, behind those
/// that were there.
pub proof fn law_each_record_adds_its_answer(
    question: QuestionView,
    rows: Seq<Record>,
    record: Record,
    record_type: RecordType,
    name: Seq<char>,
    dots: Seq<char>,
)
    requires
        RecordType::of_wire(db::wire_type_of_code(question.qtype)) == Some(record_type),
        question.name == name + dots,
        forall|i: int| 0 <= i < dots.len() ==> #[trigger] dots[i] == '.',
        name.len() > 0 ==> name.last() != '.',
    ensures
        ({
            let earlier = answers_from(question, asked_records(question, rows));
            let all = answers_from(question, asked_records(question, rows.push(record)));
            let data = rdata_of(db::wire_type_of_code(question.qtype), record.value@);
            if record.domain_id@ == name && record.record_type == record_type && data is Some {
                all == earlier.push(
                    AnswerView { labels: question.labels, ttl: record.ttl, data: data->0 },
                )
            } else {
                all == earlier
            }
        }),
        answers_from(question, asked_records(question, Seq::empty())).len() == 0,
{
    law_root_dots_are_dropped(name, dots);
    let all = rows.push(record);
    assert(all.drop_last() == rows);
    let found = asked_records(question, rows);
    if record.domain_id@ == name && record.record_type == record_type {
        assert(asked_records(question, all) == found.push(record));
        assert(found.push(record).drop_last() == found);
    }
}

proof fn lemma_earlier_answers(
    questions: Seq<QuestionView>,
    rows: Seq<Seq<Record>>,
    question: QuestionView,
    more: Seq<Record>,
    n: int,
)
    requires
        0 <= n <= questions.len(),
        questions.len() == rows.len(),
    ensures
        answers_after(questions.push(question), rows.push(more), n) == answers_after(
            questions,
            rows,
            n,
        ),
    decreases n,
{
    if n > 0 {
        lemma_earlier_answers(questions, rows, question, more, n - 1);
        assert(questions.push(question)[n - 1] == questions[n - 1]);
        assert(rows.push(more)[n - 1] == rows[n - 1]);
    }
}

/// One more question adds its answers behind those of the others and decides
/// the code: that no such name exists where none of its records has its name
/// and type, and else that there was no error. Without a question there is
/// neither an answer nor an error.
pub proof fn law_each_question_is_answered(
    request: DnsRequestView,
    rows: Seq<Seq<Record>>,
    question: QuestionView,
    more: Seq<Record>,
    record_type: RecordType,
    name: Seq<char>,
    dots: Seq<char>,
)
    requires
        request.questions.len() == rows.len(),
        RecordType::of_wire(db::wire_type_of_code(question.qtype)) == Some(record_type),
        question.name == name + dots,
        forall|i: int| 0 <= i < dots.len() ==> #[trigger] dots[i] == '.',
        name.len() > 0 ==> name.last() != '.',
    ensures
        ({
            let longer = DnsRequestView { questions: request.questions.push(question), ..request };
            let response = response_to(longer, rows.push(more));
            &&& response.answers == response_to(request, rows).answers + answers_from(
                question,
                asked_records(question, more),
            )
            &&& response.questions == request.questions.push(question)
            &&& response.head.code == (if exists|k: int|
                0 <= k < more.len() && (#[trigger] more[k]).domain_id@ == name
                    && more[k].record_type == record_type {
                ResponseCode::NoError
            } else {
                ResponseCode::NXDomain
            })
        }),
        request.questions.len() == 0 ==> response_to(request, rows).answers.len() == 0
            && response_to(request, rows).head.code == ResponseCode::NoError,
{
    let n = request.questions.len() as int;
    lemma_earlier_answers(request.questions, rows, question, more, n);
    assert(request.questions.push(question)[n] == question);
    assert(rows.push(more)[n] == more);
    law_root_dots_are_dropped(name, dots);
    lemma_matching(more, name, record_type);
    let found = matching(more, name, record_type);
    if found.len() > 0 {
        assert(record_matches(found[0], name, record_type));
        let k = choose|k: int| 0 <= k < more.len() && more[k] == found[0];
        assert(more[k].domain_id@ == name);
    } else if exists|k: int|
        0 <= k < more.len() && (#[trigger] more[k]).domain_id@ == name && more[k].record_type
            == record_type {
        let k = choose|k: int|
            0 <= k < more.len() && (#[trigger] more[k]).domain_id@ == name && more[k].record_type
                == record_type;
        assert(record_matches(more[k], name, record_type));
        assert(found.contains(more[k]));
    }
}

/// The records of a name and a type are found whatever other records stand
/// among them, in order, and no others are.
pub proof fn law_records_are_found_by_name_and_type(
    rows: Seq<Record>,
    record: Record,
    name: Seq<char>,
    record_type: RecordType,
)
    ensures
        matching(rows.push(record), name, record_type) == (if record.domain_id@ == name
            && record.record_type == record_type {
            matching(rows, name, record_type).push(record)
        } else {
            matching(rows, name, record_type)
        }),
        matching(Seq::empty(), name, record_type).len() == 0,
{
    assert(rows.push(record).drop_last() == rows);
}

/// The packet asks again for what was asked: each question in its place, with
/// its name, its type and its class.
pub proof fn law_questions_are_repeated(questions: Seq<QuestionView>, i: int)
    requires
        0 <= i < questions.len(),
    ensures
        asked(questions).len() == questions.len(),
        asked(questions)[i].0 == questions[i].labels,
        asked(questions)[i].1 == questions[i].qtype,
        asked(questions)[i].2 == questions[i].qclass,
{
}

} // verus!
