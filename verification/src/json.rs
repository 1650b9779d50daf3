//! Values of JSON, as far as claims and documents are read.
use vstd::prelude::*;
use crate::text::same_text;

verus! {

/// A value of JSON. Numbers, truth values and null are told apart from the rest
/// alone.
#[derive(Debug)]
pub enum Json {
    Text(String),
    List(Vec<Json>),
    Object(Vec<(String, Json)>),
    Other,
}

/// The first of `members` with that name.
pub open spec fn first_member(members: Seq<(String, Json)>, name: Seq<char>) -> Option<Json>
    decreases members.len(),
{
    if members.len() == 0 {
        None
    } else if members[0].0@ == name {
        Some(members[0].1)
    } else {
        first_member(members.drop_first(), name)
    }
}

impl Json {
    /// The member of an object with that name.
    pub open spec fn member_view(self, name: Seq<char>) -> Option<Json> {
        match self {
            Json::Object(members) => first_member(members@, name),
            _ => None,
        }
    }

    /// The string that this value is.
    pub open spec fn text_view(self) -> Option<Seq<char>> {
        match self {
            Json::Text(s) => Some(s@),
            _ => None,
        }
    }

    /// The member of an object with that name; `None` where there is none or
    /// where this is no object.
    pub fn member(&self, name: &str) -> (out: Option<&Json>)
        ensures
            (match out {
                Some(value) => self.member_view(name@) == Some(*value),
                None => self.member_view(name@) is None,
            }),
    {
        let members = match self {
            Json::Object(members) => members,
            _ => return None,
        };
        let mut i: usize = 0;
        assert(members@.skip(0) == members@);
        while i < members.len()
            invariant
                i <= members.len(),
                *self == Json::Object(*members),
                first_member(members@, name@) == first_member(members@.skip(i as int), name@),
            decreases members.len() - i,
        {
            assert(members@.skip(i as int).drop_first() == members@.skip(i + 1));
            if same_text(members[i].0.as_str(), name) {
                return Some(&members[i].1);
            }
            i += 1;
        }
        None
    }

    /// The string that this value is, if it is one.
    pub fn text(&self) -> (out: Option<String>)
        ensures
            crate::text::view_of(out) == self.text_view(),
    {
        match self {
            Json::Text(s) => Some(s.clone()),
            _ => None,
        }
    }
}

// ---------------------------------------------------------------------------
// Reading
// ---------------------------------------------------------------------------

/// Why `serde_json` cannot read `text` as JSON; `None` where it can.
pub uninterp spec fn json_error(text: Seq<char>) -> Option<Seq<char>>;

/// The string that `text` writes; `None` where it writes something else.
pub uninterp spec fn json_string(text: Seq<char>) -> Option<Seq<char>>;

/// The items of the array that `text` writes, as texts; `None` where it writes
/// something else.
pub uninterp spec fn json_items(text: Seq<char>) -> Option<Seq<Seq<char>>>;

/// The members of the object that `text` writes, their values as texts; `None`
/// where it writes something else.
pub uninterp spec fn json_members(text: Seq<char>) -> Option<Seq<(Seq<char>, Seq<char>)>>;

/// Whether `serde_json::from_str` reads `text`, or the text of its error.
#[verifier::external_body]
fn check_json(text: &str) -> (out: Result<(), String>)
    ensures
        (match out {
            Ok(_) => json_error(text@) is None,
            Err(e) => json_error(text@) == Some(e@),
        }),
{
    match serde_json::from_str::<serde_json::Value>(text) {
        Ok(_) => Ok(()),
        Err(e) => Err(e.to_string()),
    }
}

/// The string that `text` writes, by `serde_json::Value::as_str`.
#[verifier::external_body]
fn string(text: &str) -> (out: Option<String>)
    ensures
        (match out {
            Some(s) => json_string(text@) == Some(s@),
            None => json_string(text@) is None,
        }),
{
    let value = serde_json::from_str::<serde_json::Value>(text).ok()?;
    value.as_str().map(|s| s.to_string())
}

/// The items of the array that `text` writes, by `serde_json::Value::as_array`.
/// A value is no array and a string at once.
#[verifier::external_body]
fn items(text: &str) -> (out: Option<Vec<String>>)
    ensures
        (match out {
            Some(list) => json_items(text@) == Some(crate::text::views(list@))
                && json_string(text@) is None,
            None => json_items(text@) is None,
        }),
{
    let value = serde_json::from_str::<serde_json::Value>(text).ok()?;
    value.as_array().map(|list| list.iter().map(|item| item.to_string()).collect())
}

/// The names and the texts of members.
pub open spec fn member_texts(members: Seq<(String, String)>) -> Seq<(Seq<char>, Seq<char>)> {
    members.map_values(|m: (String, String)| (m.0@, m.1@))
}

/// The members of the object that `text` writes, by
/// `serde_json::Value::as_object`. A value is no object and a string or an array
/// at once.
#[verifier::external_body]
fn members(text: &str) -> (out: Option<Vec<(String, String)>>)
    ensures
        (match out {
            Some(list) => json_members(text@) == Some(member_texts(list@)) && json_string(
                text@,
            ) is None && json_items(text@) is None,
            None => json_members(text@) is None,
        }),
{
    let value = serde_json::from_str::<serde_json::Value>(text).ok()?;
    let pairs = value.as_object()?.iter().map(|(name, item)| (name.clone(), item.to_string()));
    Some(pairs.collect())
}

/// The deepest nesting that `serde_json` reads.
pub const DEPTH: u64 = 128;

/// `value` is what `text` writes, down to that depth.
pub open spec fn is_read(value: Json, text: Seq<char>, depth: nat) -> bool
    decreases depth,
{
    match value {
        Json::Text(s) => json_string(text) == Some(s@),
        Json::List(list) => {
            &&& depth > 0
            &&& json_items(text) matches Some(texts) && texts.len() == list@.len() && forall|i: int|
                0 <= i < list@.len() ==> is_read(
                    #[trigger] list@[i],
                    texts[i],
                    (depth - 1) as nat,
                )
        },
        Json::Object(members) => {
            &&& depth > 0
            &&& json_members(text) matches Some(texts) && texts.len() == members@.len() && forall|
                i: int,
            |
                0 <= i < members@.len() ==> (#[trigger] members@[i]).0@ == texts[i].0 && is_read(
                    members@[i].1,
                    texts[i].1,
                    (depth - 1) as nat,
                )
        },
        Json::Other => {
            &&& json_string(text) is None
            &&& depth > 0 ==> json_items(text) is None && json_members(text) is None
        },
    }
}

/// The value that `text` writes, down to that depth.
fn read_value(text: &str, depth: u64) -> (out: Json)
    ensures
        is_read(out, text@, depth as nat),
    decreases depth,
{
    if let Some(s) = string(text) {
        return Json::Text(s);
    }
    if depth == 0 {
        return Json::Other;
    }
    if let Some(texts) = items(text) {
        let ghost all = crate::text::views(texts@);
        let mut list: Vec<Json> = Vec::new();
        let mut i: usize = 0;
        while i < texts.len()
            invariant
                i <= texts.len(),
                depth > 0,
                all == crate::text::views(texts@),
                list@.len() == i,
                forall|k: int|
                    0 <= k < i ==> is_read(#[trigger] list@[k], all[k], (depth - 1) as nat),
            decreases texts.len() - i,
        {
            assert(all[i as int] == texts@[i as int]@);
            list.push(read_value(texts[i].as_str(), depth - 1));
            i += 1;
        }
        return Json::List(list);
    }
    if let Some(texts) = members(text) {
        let ghost all = member_texts(texts@);
        let mut list: Vec<(String, Json)> = Vec::new();
        let mut i: usize = 0;
        while i < texts.len()
            invariant
                i <= texts.len(),
                depth > 0,
                all == member_texts(texts@),
                list@.len() == i,
                forall|k: int|
                    0 <= k < i ==> (#[trigger] list@[k]).0@ == all[k].0 && is_read(
                        list@[k].1,
                        all[k].1,
                        (depth - 1) as nat,
                    ),
            decreases texts.len() - i,
        {
            assert(all[i as int] == (texts@[i as int].0@, texts@[i as int].1@));
            let value = read_value(texts[i].1.as_str(), depth - 1);
            list.push((texts[i].0.clone(), value));
            i += 1;
        }
        return Json::Object(list);
    }
    Json::Other
}

/// The value that `text` writes, or why it cannot be read.
pub fn read_json(text: &str) -> (out: Result<Json, String>)
    ensures
        (match out {
            Ok(value) => json_error(text@) is None && is_read(value, text@, DEPTH as nat),
            Err(e) => json_error(text@) == Some(e@),
        }),
{
    match check_json(text) {
        Ok(_) => Ok(read_value(text, DEPTH)),
        Err(e) => Err(e),
    }
}

/// The first of `members` with that name.
pub open spec fn member_text(members: Seq<(Seq<char>, Seq<char>)>, name: Seq<char>) -> Option<
    Seq<char>,
>
    decreases members.len(),
{
    if members.len() == 0 {
        None
    } else if members[0].0 == name {
        Some(members[0].1)
    } else {
        member_text(members.drop_first(), name)
    }
}

/// The member `name` of the object that `text` writes, as text.
pub open spec fn json_member(text: Seq<char>, name: Seq<char>) -> Option<Seq<char>> {
    match json_members(text) {
        Some(members) => member_text(members, name),
        None => None,
    }
}

/// The string that the member `name` of the object that `text` writes is, if it
/// is one.
pub open spec fn json_text(text: Seq<char>, name: Seq<char>) -> Option<Seq<char>> {
    match json_member(text, name) {
        Some(member) => json_string(member),
        None => None,
    }
}

/// The string that the member `name` of the object that `text` writes is.
pub fn read_text(text: &str, name: &str) -> (out: Option<String>)
    ensures
        crate::text::view_of(out) == json_text(text@, name@),
{
    let list = match members(text) {
        Some(list) => list,
        None => return None,
    };
    let ghost all = member_texts(list@);
    let mut i: usize = 0;
    assert(all.skip(0) == all);
    while i < list.len()
        invariant
            i <= list.len(),
            all == member_texts(list@),
            json_members(text@) == Some(all),
            member_text(all, name@) == member_text(all.skip(i as int), name@),
        decreases list.len() - i,
    {
        assert(all[i as int] == (list@[i as int].0@, list@[i as int].1@));
        assert(all.skip(i as int).drop_first() == all.skip(i + 1));
        if same_text(list[i].0.as_str(), name) {
            return string(list[i].1.as_str());
        }
        i += 1;
    }
    None
}

// ---------------------------------------------------------------------------
// Laws
// ---------------------------------------------------------------------------

/// Of the members of an object the first with a name is the one that has it;
/// where none has it there is none. What is no object has no members.
pub proof fn law_first_member_counts(
    before: Seq<(String, Json)>,
    member: (String, Json),
    after: Seq<(String, Json)>,
    object: Json,
)
    requires
        forall|i: int| 0 <= i < before.len() ==> (#[trigger] before[i]).0@ != member.0@,
    ensures
        first_member(before + seq![member] + after, member.0@) == Some(member.1),
        first_member(before, member.0@) is None,
        object matches Json::Object(members) ==> object.member_view(member.0@) == first_member(
            members@,
            member.0@,
        ),
        object !is Object ==> object.member_view(member.0@) is None,
    decreases before.len(),
{
    let all = before + seq![member] + after;
    if before.len() == 0 {
        assert(all[0] == member);
    } else {
        let rest = before.drop_first();
        assert forall|i: int| 0 <= i < rest.len() implies (#[trigger] rest[i]).0@ != member.0@ by {
            assert(rest[i] == before[i + 1]);
        }
        law_first_member_counts(rest, member, after, object);
        assert(all[0] == before[0]);
        assert(all.drop_first() == rest + seq![member] + after);
    }
}

/// Only a string is read as one, letter for letter.
pub proof fn law_only_strings_are_texts(value: Json, s: String)
    ensures
        Json::Text(s).text_view() == Some(s@),
        value !is Text ==> value.text_view() is None,
{
}

/// Of the members that a text writes the first with a name is the one that has
/// it; where none has it there is none.
pub proof fn law_first_written_member_counts(
    before: Seq<(Seq<char>, Seq<char>)>,
    member: (Seq<char>, Seq<char>),
    after: Seq<(Seq<char>, Seq<char>)>,
)
    requires
        forall|i: int| 0 <= i < before.len() ==> (#[trigger] before[i]).0 != member.0,
    ensures
        member_text(before + seq![member] + after, member.0) == Some(member.1),
        member_text(before, member.0) is None,
    decreases before.len(),
{
    let all = before + seq![member] + after;
    if before.len() == 0 {
        assert(all[0] == member);
    } else {
        let rest = before.drop_first();
        assert forall|i: int| 0 <= i < rest.len() implies (#[trigger] rest[i]).0 != member.0 by {
            assert(rest[i] == before[i + 1]);
        }
        law_first_written_member_counts(rest, member, after);
        assert(all[0] == before[0]);
        assert(all.drop_first() == rest + seq![member] + after);
    }
}

/// A string is read as that string, an array as the list of its items in order,
/// and an object as its members in order, each item and member read in turn.
/// Anything else is read as neither.
pub proof fn law_values_are_read_as_written(value: Json, text: Seq<char>, depth: nat)
    requires
        is_read(value, text, depth),
        depth > 0,
    ensures
        json_string(text) is Some && json_items(text) is None && json_members(text) is None
            ==> value.text_view() == json_string(text),
        json_items(text) is Some && json_string(text) is None && json_members(text) is None ==> (
        value matches Json::List(list) && list@.len() == json_items(text)->0.len() && forall|i: int|
            0 <= i < list@.len() ==> is_read(
                #[trigger] list@[i],
                json_items(text)->0[i],
                (depth - 1) as nat,
            )),
        json_members(text) is Some && json_string(text) is None && json_items(text) is None ==> (
        value matches Json::Object(members) && members@.len() == json_members(text)->0.len()
            && forall|i: int|
            0 <= i < members@.len() ==> (#[trigger] members@[i]).0@ == json_members(text)->0[i].0
                && is_read(members@[i].1, json_members(text)->0[i].1, (depth - 1) as nat)),
        json_string(text) is None && json_items(text) is None && json_members(text) is None
            ==> value is Other,
{
}

proof fn lemma_members_agree(
    members: Seq<(String, Json)>,
    texts: Seq<(Seq<char>, Seq<char>)>,
    name: Seq<char>,
    depth: nat,
)
    requires
        members.len() == texts.len(),
        forall|i: int|
            0 <= i < members.len() ==> (#[trigger] members[i]).0@ == texts[i].0 && is_read(
                members[i].1,
                texts[i].1,
                depth,
            ),
    ensures
        first_member(members, name) is Some <==> member_text(texts, name) is Some,
        first_member(members, name) matches Some(value) ==> is_read(
            value,
            member_text(texts, name)->0,
            depth,
        ),
    decreases members.len(),
{
    if members.len() > 0 {
        assert(members[0].0@ == texts[0].0);
        let rest = members.drop_first();
        let others = texts.drop_first();
        assert forall|i: int| 0 <= i < rest.len() implies (#[trigger] rest[i]).0@ == others[i].0
            && is_read(rest[i].1, others[i].1, depth) by {
            assert(rest[i] == members[i + 1]);
            assert(others[i] == texts[i + 1]);
        }
        lemma_members_agree(rest, others, name, depth);
    }
}

/// The member of an object that was read is there exactly where the text writes
/// one of that name, and where that is a string it is that string.
pub proof fn law_members_are_read_as_written(
    value: Json,
    text: Seq<char>,
    depth: nat,
    name: Seq<char>,
)
    requires
        is_read(value, text, depth),
        depth > 1,
        json_members(text) is Some,
        json_string(text) is None,
        json_items(text) is None,
    ensures
        value.member_view(name) is Some <==> json_member(text, name) is Some,
        (json_member(text, name) matches Some(member) && json_string(member) is Some && json_items(
            member,
        ) is None && json_members(member) is None) ==> (value.member_view(name) matches Some(inner)
            && inner.text_view() == json_text(text, name)),
{
    if let Json::Object(members) = value {
        let texts = json_members(text)->0;
        lemma_members_agree(members@, texts, name, (depth - 1) as nat);
        if let Some(inner) = value.member_view(name) {
            law_values_are_read_as_written(inner, json_member(text, name)->0, (depth - 1) as nat);
        }
    }
}

} // verus!
