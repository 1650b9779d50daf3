//! Role to permission policy.
//!
//! Roles and the permissions each is granted are fixed in configuration; an
//! upstream authority mints the tokens that name one of those roles. A
//! permission is `resource:verb`, and an [`AuthPolicy`] answers one question:
//! is a `(resource, verb)` pair allowed for a caller's set of roles?
use vstd::prelude::*;
use crate::config::RoleConfig;
use crate::text;
use crate::text::{contains_text, same_text, split_once, to_ascii_lower, trim, trim_leading};

verus! {

/// A class of request, derived from its HTTP method.
#[derive(Debug, Clone, Copy, PartialEq, Eq, Hash, Structural)]
pub enum Verb {
    Read,
    Write,
    Delete,
}

/// The name of a verb in a grant.
pub open spec fn verb_name(verb: Verb) -> Seq<char> {
    match verb {
        Verb::Read => "read"@,
        Verb::Write => "write"@,
        Verb::Delete => "delete"@,
    }
}

/// The verb that an HTTP method asks for: `GET`, `HEAD` and `OPTIONS` read,
/// `DELETE` deletes, and every other method writes.
pub open spec fn method_verb(method: Seq<char>) -> Verb {
    if method == "GET"@ || method == "HEAD"@ || method == "OPTIONS"@ {
        Verb::Read
    } else if method == "DELETE"@ {
        Verb::Delete
    } else {
        Verb::Write
    }
}

/// The verb that a word of a grant stands for, if it stands for one.
pub open spec fn verb_of(token: Seq<char>) -> Option<Verb> {
    let word = text::ascii_lower(text::trimmed(token));
    if word == "read"@ || word == "get"@ || word == "r"@ {
        Some(Verb::Read)
    } else if word == "write"@ || word == "post"@ || word == "put"@ || word == "patch"@ || word
        == "w"@ {
        Some(Verb::Write)
    } else if word == "delete"@ || word == "del"@ || word == "d"@ {
        Some(Verb::Delete)
    } else {
        None
    }
}

impl Verb {
    /// The canonical name of this verb in a grant.
    pub fn name(self) -> (out: &'static str)
        ensures
            out@ == verb_name(self),
    {
        match self {
            Verb::Read => "read",
            Verb::Write => "write",
            Verb::Delete => "delete",
        }
    }

    /// Classify an HTTP method. A method that is not listed is a write, so it
    /// is never silently allowed as a read.
    pub fn from_method(method: &str) -> (out: Verb)
        ensures
            out == method_verb(method@),
    {
        if same_text(method, "GET") || same_text(method, "HEAD") || same_text(method, "OPTIONS") {
            Verb::Read
        } else if same_text(method, "DELETE") {
            Verb::Delete
        } else {
            Verb::Write
        }
    }

    /// Read the verb of a grant; `None` for a word that names no verb.
    pub fn parse(token: &str) -> (out: Option<Verb>)
        ensures
            out == verb_of(token@),
    {
        let clean = trim(token);
        let lowered = to_ascii_lower(clean.as_str());
        let word = lowered.as_str();
        if same_text(word, "read") || same_text(word, "get") || same_text(word, "r") {
            Some(Verb::Read)
        } else if same_text(word, "write") || same_text(word, "post") || same_text(word, "put")
            || same_text(word, "patch") || same_text(word, "w") {
            Some(Verb::Write)
        } else if same_text(word, "delete") || same_text(word, "del") || same_text(word, "d") {
            Some(Verb::Delete)
        } else {
            None
        }
    }
}

// ---------------------------------------------------------------------------
// Grants
// ---------------------------------------------------------------------------

/// One permission of a role, normalized from configuration.
#[derive(Debug, Clone)]
pub enum Grant {
    /// `"*"`: every resource and verb.
    All,
    /// `"res:*"`: any verb on one resource.
    AnyVerb(String),
    /// `"*:verb"`: one verb on any resource.
    AnyResource(Verb),
    /// `"res:verb"`: one resource and one verb.
    Exact(String, Verb),
}

/// What a [`Grant`] says.
pub enum GrantView {
    All,
    AnyVerb(Seq<char>),
    AnyResource(Verb),
    Exact(Seq<char>, Verb),
}

impl View for Grant {
    type V = GrantView;

    open spec fn view(&self) -> GrantView {
        match self {
            Grant::All => GrantView::All,
            Grant::AnyVerb(r) => GrantView::AnyVerb(r@),
            Grant::AnyResource(v) => GrantView::AnyResource(*v),
            Grant::Exact(r, v) => GrantView::Exact(r@, *v),
        }
    }
}

/// The grant that a token of the configuration stands for. A token whose verb
/// is not known stands for none.
pub open spec fn grant_of(token: Seq<char>) -> Option<GrantView> {
    let raw = text::trimmed(token);
    if raw == "*"@ || raw == "*:*"@ || text::ascii_lower(raw) == "all"@ {
        Some(GrantView::All)
    } else {
        match text::cut(raw, ':') {
            None => Some(GrantView::AnyVerb(text::ascii_lower(raw))),
            Some((left, right)) => pair_grant(text::trimmed(left), text::trimmed(right)),
        }
    }
}

/// The grant written as `lhs:rhs`.
pub open spec fn pair_grant(lhs: Seq<char>, rhs: Seq<char>) -> Option<GrantView> {
    if rhs == "*"@ || rhs.len() == 0 {
        Some(
            if lhs == "*"@ {
                GrantView::All
            } else {
                GrantView::AnyVerb(text::ascii_lower(lhs))
            },
        )
    } else {
        match verb_of(rhs) {
            None => None,
            Some(v) => Some(
                if lhs == "*"@ {
                    GrantView::AnyResource(v)
                } else {
                    GrantView::Exact(text::ascii_lower(lhs), v)
                },
            ),
        }
    }
}

/// Whether a grant covers `(resource, verb)`.
pub open spec fn covers(grant: GrantView, resource: Seq<char>, verb: Verb) -> bool {
    match grant {
        GrantView::All => true,
        GrantView::AnyVerb(r) => r == resource,
        GrantView::AnyResource(v) => v == verb,
        GrantView::Exact(r, v) => r == resource && v == verb,
    }
}

impl Grant {
    /// Read one grant, such as `"domains:read"`. A word that names no verb
    /// gives `None`: such a grant is ignored, never broadened.
    pub fn parse(token: &str) -> (out: Option<Grant>)
        ensures
            (match out {
                Some(g) => grant_of(token@) == Some(g@),
                None => grant_of(token@) is None,
            }),
    {
        let raw = trim(token);
        if same_text(raw.as_str(), "*") || same_text(raw.as_str(), "*:*") || same_text(
            to_ascii_lower(raw.as_str()).as_str(),
            "all",
        ) {
            return Some(Grant::All);
        }
        let (lhs, rhs) = match split_once(raw.as_str(), ':') {
            Some((l, r)) => (trim(l.as_str()), trim(r.as_str())),
            None => return Some(Grant::AnyVerb(to_ascii_lower(raw.as_str()))),
        };
        let any_resource = same_text(lhs.as_str(), "*");
        if same_text(rhs.as_str(), "*") || rhs.as_str().is_empty() {
            return Some(
                if any_resource {
                    Grant::All
                } else {
                    Grant::AnyVerb(to_ascii_lower(lhs.as_str()))
                },
            );
        }
        match Verb::parse(rhs.as_str()) {
            None => None,
            Some(v) => if any_resource {
                Some(Grant::AnyResource(v))
            } else {
                Some(Grant::Exact(to_ascii_lower(lhs.as_str()), v))
            },
        }
    }

    /// Whether this grant covers `(resource, verb)`.
    pub fn matches(&self, resource: &str, verb: Verb) -> (out: bool)
        ensures
            out == covers(self@, resource@, verb),
    {
        match self {
            Grant::All => true,
            Grant::AnyVerb(r) => same_text(r.as_str(), resource),
            Grant::AnyResource(v) => *v == verb,
            Grant::Exact(r, v) => same_text(r.as_str(), resource) && *v == verb,
        }
    }

    fn same(&self, other: &Grant) -> (out: bool)
        ensures
            out == (self@ == other@),
    {
        match (self, other) {
            (Grant::All, Grant::All) => true,
            (Grant::AnyVerb(a), Grant::AnyVerb(b)) => same_text(a.as_str(), b.as_str()),
            (Grant::AnyResource(v), Grant::AnyResource(w)) => *v == *w,
            (Grant::Exact(a, v), Grant::Exact(b, w)) => same_text(a.as_str(), b.as_str()) && *v
                == *w,
            _ => false,
        }
    }
}

// ---------------------------------------------------------------------------
// Routes
// ---------------------------------------------------------------------------

/// What a request asks for, as far as authorization is concerned.
#[derive(Debug, Clone)]
pub struct RouteTarget {
    pub resource: String,
    pub verb: Verb,
}

/// The resources of the API.
pub open spec fn is_resource(name: Seq<char>) -> bool {
    ||| name == "domains"@
    ||| name == "mailboxes"@
    ||| name == "records"@
    ||| name == "mail"@
    ||| name == "services"@
    ||| name == "messages"@
    ||| name == "health"@
    ||| name == "doc"@
}

/// The resource that a path belongs to: its first segment, in small letters,
/// where that is a resource of the API.
pub open spec fn path_resource(path: Seq<char>) -> Option<Seq<char>> {
    let segment = text::ascii_lower(text::before(text::drop_leading(path, seq!['/']), '/'));
    if is_resource(segment) {
        Some(segment)
    } else {
        None
    }
}

fn is_api_resource(name: &str) -> (out: bool)
    ensures
        out == is_resource(name@),
{
    same_text(name, "domains") || same_text(name, "mailboxes") || same_text(name, "records")
        || same_text(name, "mail") || same_text(name, "services") || same_text(name, "messages")
        || same_text(name, "health") || same_text(name, "doc")
}

/// The resource that a request path belongs to, or `None` where the path
/// belongs to none of the API. Only the first segment matters.
pub fn resource_for_path(path: &str) -> (out: Option<String>)
    ensures
        (match out {
            Some(r) => path_resource(path@) == Some(r@),
            None => path_resource(path@) is None,
        }),
{
    let slash: Vec<char> = vec!['/'];
    let rest = trim_leading(path, &slash);
    assert(slash@ == seq!['/']);
    let segment = match split_once(rest.as_str(), '/') {
        Some((front, _)) => front,
        None => rest,
    };
    let resource = to_ascii_lower(segment.as_str());
    if is_api_resource(resource.as_str()) {
        Some(resource)
    } else {
        None
    }
}

/// The `(resource, verb)` target of a request; `None` where its path belongs
/// to no resource.
pub fn route_target(path: &str, method: &str) -> (out: Option<RouteTarget>)
    ensures
        (match out {
            Some(t) => path_resource(path@) == Some(t.resource@) && t.verb == method_verb(method@),
            None => path_resource(path@) is None,
        }),
{
    match resource_for_path(path) {
        Some(resource) => Some(RouteTarget { resource, verb: Verb::from_method(method) }),
        None => None,
    }
}

// ---------------------------------------------------------------------------
// The policy
// ---------------------------------------------------------------------------

/// The name of a role, in small letters.
pub open spec fn role_key(roles: Seq<(String, RoleConfig)>, i: int) -> Seq<char> {
    text::ascii_lower(roles[i].0@)
}

/// Entry `i` of `roles` grants `grant` by its `j`th grant.
pub open spec fn grants_at(
    roles: Seq<(String, RoleConfig)>,
    i: int,
    j: int,
    grant: GrantView,
) -> bool {
    &&& 0 <= i < roles.len()
    &&& 0 <= j < roles[i].1.grants@.len()
    &&& grant_of(roles[i].1.grants@[j]@) == Some(grant)
}

/// Entry `i` of `roles` inherits, by the `j`th role that it extends, from `target`.
pub open spec fn extends_at(
    roles: Seq<(String, RoleConfig)>,
    i: int,
    j: int,
    target: Seq<char>,
) -> bool {
    &&& 0 <= i < roles.len()
    &&& 0 <= j < roles[i].1.extends@.len()
    &&& text::ascii_lower(roles[i].1.extends@[j]@) == target
}

/// The configuration grants `grant` to the role `key` itself.
pub open spec fn grants_directly(
    roles: Seq<(String, RoleConfig)>,
    key: Seq<char>,
    grant: GrantView,
) -> bool {
    exists|i: int, j: int| #[trigger] grants_at(roles, i, j, grant) && role_key(roles, i) == key
}

/// The configuration says that the role `key` extends the role `target`.
pub open spec fn extends_directly(
    roles: Seq<(String, RoleConfig)>,
    key: Seq<char>,
    target: Seq<char>,
) -> bool {
    exists|i: int, j: int| #[trigger] extends_at(roles, i, j, target) && role_key(roles, i) == key
}

/// Step `k` of `path` goes from a role to one that it extends.
pub open spec fn step_extends(
    roles: Seq<(String, RoleConfig)>,
    path: Seq<Seq<char>>,
    k: int,
) -> bool {
    extends_directly(roles, path[k], path[k + 1])
}

/// `path` leads from `from` to `to` along `extends`.
pub open spec fn leads(
    roles: Seq<(String, RoleConfig)>,
    path: Seq<Seq<char>>,
    from: Seq<char>,
    to: Seq<char>,
) -> bool {
    &&& path.len() > 0
    &&& path.first() == from
    &&& path.last() == to
    &&& forall|k: int| 0 <= k < path.len() - 1 ==> #[trigger] step_extends(roles, path, k)
}

/// `to` is `from`, or is inherited from by `from` in any number of steps.
pub open spec fn inherits(
    roles: Seq<(String, RoleConfig)>,
    from: Seq<char>,
    to: Seq<char>,
) -> bool {
    exists|path: Seq<Seq<char>>| leads(roles, path, from, to)
}

/// `key` has `grant`, of its own or from a role that it inherits from.
pub open spec fn has_effective(
    roles: Seq<(String, RoleConfig)>,
    key: Seq<char>,
    grant: GrantView,
) -> bool {
    exists|source: Seq<char>| #[trigger]
        inherits(roles, key, source) && grants_directly(roles, source, grant)
}

/// Whether `list` holds the grant `grant`.
pub open spec fn has_grant(list: Seq<Grant>, grant: GrantView) -> bool {
    exists|i: int| 0 <= i < list.len() && (#[trigger] list[i])@ == grant
}

/// No two of the strings are equal.
pub open spec fn texts_distinct(list: Seq<String>) -> bool {
    forall|i: int, j: int| 0 <= i < j < list.len() ==> (#[trigger] list[i])@ != (#[trigger] list[j])@
}

/// No two of the grants are equal.
pub open spec fn grants_distinct(list: Seq<Grant>) -> bool {
    forall|i: int, j: int| 0 <= i < j < list.len() ==> (#[trigger] list[i])@ != (#[trigger] list[j])@
}

/// The compiled role to permission table, and the resources that stay open
/// whatever the role.
#[derive(Debug, Clone)]
pub struct AuthPolicy {
    role_grants: Vec<(String, Vec<Grant>)>,
    public: Vec<String>,
}

impl AuthPolicy {
    /// The policy grants `grant` to the role `key`.
    pub closed spec fn grants(self, key: Seq<char>, grant: GrantView) -> bool {
        exists|i: int|
            0 <= i < self.role_grants@.len() && (#[trigger] self.role_grants@[i]).0@ == key
                && has_grant(self.role_grants@[i].1@, grant)
    }

    /// The policy leaves `resource` open to every caller.
    pub closed spec fn opens(self, resource: Seq<char>) -> bool {
        text::has_text(self.public@, resource)
    }

    /// Each role, each grant of a role and each open resource stands once.
    pub closed spec fn wf(self) -> bool {
        &&& forall|i: int, j: int|
            0 <= i < j < self.role_grants@.len() ==> (#[trigger] self.role_grants@[i]).0@ != (
            #[trigger] self.role_grants@[j]).0@
        &&& forall|i: int|
            0 <= i < self.role_grants@.len() ==> grants_distinct(
                (#[trigger] self.role_grants@[i]).1@,
            )
        &&& texts_distinct(self.public@)
    }

    /// Whether a caller with `roles` may do `verb` on `resource`.
    pub open spec fn permits(self, roles: Seq<String>, resource: Seq<char>, verb: Verb) -> bool {
        ||| self.opens(text::ascii_lower(resource))
        ||| exists|i: int, g: GrantView|
            #![trigger roles[i], covers(g, text::ascii_lower(resource), verb)]
            0 <= i < roles.len() && self.grants(text::ascii_lower(roles[i]@), g) && covers(
                g,
                text::ascii_lower(resource),
                verb,
            )
    }
}

// The marks of the entries that a role inherits from.

/// How many entries are not marked.
spec fn unmarked(marks: Seq<bool>) -> nat
    decreases marks.len(),
{
    if marks.len() == 0 {
        0
    } else {
        unmarked(marks.drop_last()) + if marks.last() {
            0nat
        } else {
            1nat
        }
    }
}

proof fn lemma_mark_counts(marks: Seq<bool>, k: int)
    requires
        0 <= k < marks.len(),
        !marks[k],
    ensures
        unmarked(marks.update(k, true)) + 1 == unmarked(marks),
    decreases marks.len(),
{
    let after = marks.update(k, true);
    if k == marks.len() - 1 {
        assert(after.drop_last() == marks.drop_last());
    } else {
        assert(after.drop_last() == marks.drop_last().update(k, true));
        lemma_mark_counts(marks.drop_last(), k);
    }
}

/// Every marked entry is one that `start` inherits from.
spec fn marks_sound(
    roles: Seq<(String, RoleConfig)>,
    start: Seq<char>,
    marks: Seq<bool>,
) -> bool {
    &&& marks.len() == roles.len()
    &&& forall|k: int|
        0 <= k < marks.len() && #[trigger] marks[k] ==> inherits(roles, start, role_key(roles, k))
}

/// The entries that the marked entry `i` extends by `j` are marked.
spec fn closed_at(roles: Seq<(String, RoleConfig)>, marks: Seq<bool>, i: int, j: int) -> bool {
    marks[i] ==> forall|k: int|
        0 <= k < roles.len() && #[trigger] role_key(roles, k) == text::ascii_lower(
            roles[i].1.extends@[j]@,
        ) ==> marks[k]
}

/// The entries that a marked entry extends are marked too.
spec fn marks_closed(roles: Seq<(String, RoleConfig)>, marks: Seq<bool>) -> bool {
    forall|i: int, j: int|
        0 <= i < roles.len() && 0 <= j < roles[i].1.extends@.len() ==> #[trigger] closed_at(
            roles,
            marks,
            i,
            j,
        )
}

proof fn lemma_inherits_self(roles: Seq<(String, RoleConfig)>, key: Seq<char>)
    ensures
        inherits(roles, key, key),
{
    assert(leads(roles, seq![key], key, key));
}

proof fn lemma_inherits_further(
    roles: Seq<(String, RoleConfig)>,
    from: Seq<char>,
    mid: Seq<char>,
    to: Seq<char>,
)
    requires
        inherits(roles, from, mid),
        extends_directly(roles, mid, to),
    ensures
        inherits(roles, from, to),
{
    let path = choose|path: Seq<Seq<char>>| leads(roles, path, from, mid);
    let longer = path.push(to);
    assert forall|k: int| 0 <= k < longer.len() - 1 implies #[trigger] step_extends(
        roles,
        longer,
        k,
    ) by {
        if k < path.len() - 1 {
            assert(step_extends(roles, path, k));
        }
    }
    assert(leads(roles, longer, from, to));
}

/// A closed set of marks with all entries of `start` has every entry of a role
/// that `start` inherits from.
proof fn lemma_marks_complete(
    roles: Seq<(String, RoleConfig)>,
    marks: Seq<bool>,
    path: Seq<Seq<char>>,
    start: Seq<char>,
    to: Seq<char>,
)
    requires
        marks.len() == roles.len(),
        marks_closed(roles, marks),
        forall|k: int| 0 <= k < roles.len() && #[trigger] role_key(roles, k) == start ==> marks[k],
        leads(roles, path, start, to),
    ensures
        forall|k: int| 0 <= k < roles.len() && #[trigger] role_key(roles, k) == to ==> marks[k],
    decreases path.len(),
{
    if path.len() > 1 {
        let shorter = path.drop_last();
        let mid = shorter.last();
        assert forall|k: int| 0 <= k < shorter.len() - 1 implies #[trigger] step_extends(
            roles,
            shorter,
            k,
        ) by {
            assert(step_extends(roles, path, k));
        }
        lemma_marks_complete(roles, marks, shorter, start, mid);
        assert(step_extends(roles, path, path.len() - 2));
        let (i, j) = choose|i: int, j: int| #[trigger]
            extends_at(roles, i, j, to) && role_key(roles, i) == mid;
        assert(closed_at(roles, marks, i, j));
    }
}

fn lowered_all(list: &Vec<String>) -> (out: Vec<String>)
    ensures
        out@.len() == list@.len(),
        forall|i: int| 0 <= i < list@.len() ==> (#[trigger] out@[i])@ == text::ascii_lower(list@[i]@),
{
    let mut out: Vec<String> = Vec::new();
    let mut i: usize = 0;
    while i < list.len()
        invariant
            i <= list.len(),
            out@.len() == i,
            forall|k: int| 0 <= k < i ==> (#[trigger] out@[k])@ == text::ascii_lower(list@[k]@),
        decreases list.len() - i,
    {
        out.push(to_ascii_lower(list[i].as_str()));
        i += 1;
    }
    out
}

/// The keys of `roles`, and for each the keys of the roles that it extends.
spec fn tables_of(
    roles: Seq<(String, RoleConfig)>,
    keys: Seq<String>,
    parents: Seq<Vec<String>>,
) -> bool {
    &&& keys.len() == roles.len()
    &&& parents.len() == roles.len()
    &&& forall|i: int| 0 <= i < roles.len() ==> (#[trigger] keys[i])@ == role_key(roles, i)
    &&& forall|i: int|
        0 <= i < roles.len() ==> (#[trigger] parents[i])@.len() == roles[i].1.extends@.len()
    &&& forall|i: int, j: int|
        0 <= i < roles.len() && 0 <= j < roles[i].1.extends@.len() ==> (
        #[trigger] parents[i]@[j])@ == text::ascii_lower(roles[i].1.extends@[j]@)
}

/// Mark the entries named by a role that the marked entry `i` extends by `j`.
fn spread_from(
    roles: &Vec<(String, RoleConfig)>,
    keys: &Vec<String>,
    parents: &Vec<Vec<String>>,
    start: &str,
    marks: &mut Vec<bool>,
    i: usize,
    j: usize,
) -> (changed: bool)
    requires
        tables_of(roles@, keys@, parents@),
        marks_sound(roles@, start@, old(marks)@),
        i < roles@.len(),
        j < roles@[i as int].1.extends@.len(),
        old(marks)@[i as int],
    ensures
        marks_sound(roles@, start@, final(marks)@),
        changed ==> unmarked(final(marks)@) < unmarked(old(marks)@),
        !changed ==> final(marks)@ == old(marks)@ && closed_at(
            roles@,
            final(marks)@,
            i as int,
            j as int,
        ),
        forall|k: int| 0 <= k < roles@.len() && #[trigger] old(marks)@[k] ==> final(marks)@[k],
{
    let ghost before = marks@;
    let ghost target = text::ascii_lower(roles@[i as int].1.extends@[j as int]@);
    let mut changed = false;
    let mut k: usize = 0;
    while k < keys.len()
        invariant
            k <= keys.len(),
            tables_of(roles@, keys@, parents@),
            marks_sound(roles@, start@, marks@),
            i < roles@.len(),
            j < roles@[i as int].1.extends@.len(),
            target == text::ascii_lower(roles@[i as int].1.extends@[j as int]@),
            before[i as int],
            before.len() == roles@.len(),
            forall|m: int| 0 <= m < before.len() && #[trigger] before[m] ==> marks@[m],
            changed ==> unmarked(marks@) < unmarked(before),
            !changed ==> marks@ == before,
            !changed ==> forall|m: int|
                0 <= m < k && #[trigger] role_key(roles@, m) == target ==> marks@[m],
        decreases keys.len() - k,
    {
        if !marks[k] && same_text(keys[k].as_str(), parents[i][j].as_str()) {
            proof {
                assert(keys@[k as int]@ == role_key(roles@, k as int));
                assert(parents@[i as int]@[j as int]@ == target);
                assert(marks@[i as int]);
                assert(inherits(roles@, start@, role_key(roles@, i as int)));
                assert(extends_at(roles@, i as int, j as int, target));
                lemma_inherits_further(
                    roles@,
                    start@,
                    role_key(roles@, i as int),
                    role_key(roles@, k as int),
                );
                lemma_mark_counts(marks@, k as int);
            }
            marks.set(k, true);
            changed = true;
        }
        proof {
            assert(keys@[k as int]@ == role_key(roles@, k as int));
            assert(parents@[i as int]@[j as int]@ == target);
        }
        k += 1;
    }
    changed
}

/// Mark what the marked entries extend; say whether that marked anything.
fn spread(
    roles: &Vec<(String, RoleConfig)>,
    keys: &Vec<String>,
    parents: &Vec<Vec<String>>,
    start: &str,
    marks: &mut Vec<bool>,
) -> (changed: bool)
    requires
        tables_of(roles@, keys@, parents@),
        marks_sound(roles@, start@, old(marks)@),
    ensures
        marks_sound(roles@, start@, final(marks)@),
        changed ==> unmarked(final(marks)@) < unmarked(old(marks)@),
        !changed ==> final(marks)@ == old(marks)@ && marks_closed(roles@, final(marks)@),
        forall|k: int| 0 <= k < roles@.len() && #[trigger] old(marks)@[k] ==> final(marks)@[k],
{
    let ghost before = marks@;
    let mut changed = false;
    let mut i: usize = 0;
    while i < keys.len()
        invariant
            i <= keys.len(),
            tables_of(roles@, keys@, parents@),
            marks_sound(roles@, start@, marks@),
            before.len() == roles@.len(),
            forall|m: int| 0 <= m < before.len() && #[trigger] before[m] ==> marks@[m],
            changed ==> unmarked(marks@) < unmarked(before),
            !changed ==> marks@ == before,
            !changed ==> forall|a: int, b: int|
                0 <= a < i && 0 <= b < roles@[a].1.extends@.len() ==> #[trigger] closed_at(
                    roles@,
                    marks@,
                    a,
                    b,
                ),
        decreases keys.len() - i,
    {
        if marks[i] {
            let mut j: usize = 0;
            while j < parents[i].len()
                invariant
                    i < keys.len(),
                    marks@[i as int],
                    j <= parents@[i as int]@.len(),
                    parents@[i as int]@.len() == roles@[i as int].1.extends@.len(),
                    tables_of(roles@, keys@, parents@),
                    marks_sound(roles@, start@, marks@),
                    before.len() == roles@.len(),
                    forall|m: int| 0 <= m < before.len() && #[trigger] before[m] ==> marks@[m],
                    changed ==> unmarked(marks@) < unmarked(before),
                    !changed ==> marks@ == before,
                    !changed ==> forall|a: int, b: int|
                        0 <= a < i && 0 <= b < roles@[a].1.extends@.len() ==> #[trigger] closed_at(
                            roles@,
                            marks@,
                            a,
                            b,
                        ),
                    !changed ==> forall|b: int|
                        0 <= b < j ==> #[trigger] closed_at(roles@, marks@, i as int, b),
                decreases parents@[i as int]@.len() - j,
            {
                let more = spread_from(roles, keys, parents, start, marks, i, j);
                changed = changed || more;
                j += 1;
            }
        }
        i += 1;
    }
    changed
}

/// Mark every entry of a role that `start` inherits from.
fn mark_inherited(
    roles: &Vec<(String, RoleConfig)>,
    keys: &Vec<String>,
    parents: &Vec<Vec<String>>,
    start: &str,
) -> (marks: Vec<bool>)
    requires
        tables_of(roles@, keys@, parents@),
    ensures
        marks@.len() == roles@.len(),
        forall|k: int|
            0 <= k < roles@.len() ==> (#[trigger] marks@[k] <==> inherits(
                roles@,
                start@,
                role_key(roles@, k),
            )),
{
    let mut marks: Vec<bool> = Vec::new();
    let mut k: usize = 0;
    while k < keys.len()
        invariant
            k <= keys.len(),
            marks@.len() == k,
            forall|m: int| 0 <= m < k ==> #[trigger] marks@[m] == (keys@[m]@ == start@),
        decreases keys.len() - k,
    {
        marks.push(same_text(keys[k].as_str(), start));
        k += 1;
    }
    proof {
        lemma_inherits_self(roles@, start@);
        assert forall|m: int| 0 <= m < marks@.len() && #[trigger] marks@[m] implies inherits(
            roles@,
            start@,
            role_key(roles@, m),
        ) by {
            assert(keys@[m]@ == role_key(roles@, m));
        }
        assert forall|m: int|
            0 <= m < roles@.len() && #[trigger] role_key(roles@, m) == start@ implies marks@[m] by {
            assert(keys@[m]@ == role_key(roles@, m));
        }
    }
    let mut changed = true;
    while changed
        invariant
            tables_of(roles@, keys@, parents@),
            marks_sound(roles@, start@, marks@),
            forall|m: int|
                0 <= m < roles@.len() && #[trigger] role_key(roles@, m) == start@ ==> marks@[m],
            !changed ==> marks_closed(roles@, marks@),
        decreases unmarked(marks@) + if changed { 1nat } else { 0nat },
    {
        changed = spread(roles, keys, parents, start, &mut marks);
    }
    proof {
        assert forall|m: int|
            0 <= m < roles@.len() && inherits(roles@, start@, role_key(roles@, m)) implies
            #[trigger] marks@[m] by {
            let path = choose|path: Seq<Seq<char>>| leads(roles@, path, start@, role_key(roles@, m));
            lemma_marks_complete(roles@, marks@, path, start@, role_key(roles@, m));
        }
    }
    marks
}

/// Put `grant` into `list` unless it is there.
fn add_grant(list: &mut Vec<Grant>, grant: Grant)
    requires
        grants_distinct(old(list)@),
    ensures
        grants_distinct(final(list)@),
        forall|g: GrantView| #[trigger]
            has_grant(final(list)@, g) <==> has_grant(old(list)@, g) || g == grant@,
{
    let mut i: usize = 0;
    while i < list.len()
        invariant
            i <= list.len(),
            list@ == old(list)@,
            grants_distinct(list@),
            forall|k: int| 0 <= k < i ==> (#[trigger] list@[k])@ != grant@,
        decreases list.len() - i,
    {
        if list[i].same(&grant) {
            assert(has_grant(list@, grant@));
            return;
        }
        i += 1;
    }
    let ghost before = list@;
    list.push(grant);
    proof {
        assert(list@.last()@ == grant@);
        assert forall|g: GrantView| #[trigger] has_grant(list@, g) <==> has_grant(before, g) || g
            == grant@ by {
            if has_grant(before, g) {
                let k = choose|k: int| 0 <= k < before.len() && (#[trigger] before[k])@ == g;
                assert(list@[k]@ == g);
            }
            if has_grant(list@, g) && g != grant@ {
                let k = choose|k: int| 0 <= k < list@.len() && (#[trigger] list@[k])@ == g;
                assert(before[k]@ == g);
            }
        }
    }
}

/// Put the grants of the configuration `tokens` into `list`.
fn add_grants(list: &mut Vec<Grant>, tokens: &Vec<String>)
    requires
        grants_distinct(old(list)@),
    ensures
        grants_distinct(final(list)@),
        forall|g: GrantView| #[trigger]
            has_grant(final(list)@, g) <==> has_grant(old(list)@, g) || exists|j: int|
                0 <= j < tokens@.len() && grant_of((#[trigger] tokens@[j])@) == Some(g),
{
    let ghost before = list@;
    let mut j: usize = 0;
    while j < tokens.len()
        invariant
            j <= tokens.len(),
            grants_distinct(list@),
            forall|g: GrantView| #[trigger]
                has_grant(list@, g) <==> has_grant(before, g) || exists|m: int|
                    0 <= m < j && grant_of((#[trigger] tokens@[m])@) == Some(g),
        decreases tokens.len() - j,
    {
        let ghost mid = list@;
        if let Some(grant) = Grant::parse(tokens[j].as_str()) {
            add_grant(list, grant);
        }
        proof {
            assert forall|g: GrantView| #[trigger] has_grant(list@, g) <==> has_grant(before, g)
                || exists|m: int|
                0 <= m < j + 1 && grant_of((#[trigger] tokens@[m])@) == Some(g) by {
                assert(has_grant(list@, g) <==> has_grant(mid, g) || grant_of(
                    tokens@[j as int]@,
                ) == Some(g));
            }
        }
        j += 1;
    }
}

/// The grants of `start` and of every role that it inherits from.
fn collect_grants(
    roles: &Vec<(String, RoleConfig)>,
    keys: &Vec<String>,
    parents: &Vec<Vec<String>>,
    start: &str,
) -> (out: Vec<Grant>)
    requires
        tables_of(roles@, keys@, parents@),
    ensures
        grants_distinct(out@),
        forall|g: GrantView| #[trigger] has_grant(out@, g) <==> has_effective(roles@, start@, g),
{
    let marks = mark_inherited(roles, keys, parents, start);
    let mut out: Vec<Grant> = Vec::new();
    let mut i: usize = 0;
    while i < roles.len()
        invariant
            i <= roles.len(),
            marks@.len() == roles@.len(),
            forall|k: int|
                0 <= k < roles@.len() ==> (#[trigger] marks@[k] <==> inherits(
                    roles@,
                    start@,
                    role_key(roles@, k),
                )),
            grants_distinct(out@),
            forall|g: GrantView| #[trigger]
                has_grant(out@, g) <==> exists|k: int, j: int|
                    k < i && #[trigger] grants_at(roles@, k, j, g) && marks@[k],
        decreases roles.len() - i,
    {
        let ghost before = out@;
        if marks[i] {
            add_grants(&mut out, &roles[i].1.grants);
        }
        proof {
            assert forall|g: GrantView| #[trigger] has_grant(out@, g) <==> exists|k: int, j: int|
                k < i + 1 && #[trigger] grants_at(roles@, k, j, g) && marks@[k] by {
                if has_grant(out@, g) && !has_grant(before, g) {
                    let j = choose|j: int|
                        0 <= j < roles@[i as int].1.grants@.len() && grant_of(
                            (#[trigger] roles@[i as int].1.grants@[j])@,
                        ) == Some(g);
                    assert(grants_at(roles@, i as int, j, g));
                }
                if exists|k: int, j: int|
                    k < i + 1 && #[trigger] grants_at(roles@, k, j, g) && marks@[k] {
                    let (k, j) = choose|k: int, j: int|
                        k < i + 1 && #[trigger] grants_at(roles@, k, j, g) && marks@[k];
                    if k < i {
                        assert(has_grant(before, g));
                    } else {
                        assert(grant_of(roles@[i as int].1.grants@[j]@) == Some(g));
                    }
                }
                if has_grant(before, g) {
                    let (k, j) = choose|k: int, j: int|
                        k < i && #[trigger] grants_at(roles@, k, j, g) && marks@[k];
                    assert(grants_at(roles@, k, j, g));
                }
            }
        }
        i += 1;
    }
    proof {
        assert forall|g: GrantView| #[trigger] has_grant(out@, g) <==> has_effective(
            roles@,
            start@,
            g,
        ) by {
            if has_grant(out@, g) {
                let (k, j) = choose|k: int, j: int|
                    k < roles@.len() && #[trigger] grants_at(roles@, k, j, g) && marks@[k];
                assert(inherits(roles@, start@, role_key(roles@, k)));
                assert(grants_directly(roles@, role_key(roles@, k), g));
            }
            if has_effective(roles@, start@, g) {
                let source = choose|source: Seq<char>| #[trigger]
                    inherits(roles@, start@, source) && grants_directly(roles@, source, g);
                let (k, j) = choose|k: int, j: int| #[trigger]
                    grants_at(roles@, k, j, g) && role_key(roles@, k) == source;
                assert(marks@[k]);
            }
        }
    }
    out
}

proof fn lemma_undeclared_has_nothing(
    roles: Seq<(String, RoleConfig)>,
    key: Seq<char>,
    grant: GrantView,
)
    requires
        forall|i: int| 0 <= i < roles.len() ==> #[trigger] role_key(roles, i) != key,
    ensures
        !has_effective(roles, key, grant),
{
    if has_effective(roles, key, grant) {
        let source = choose|source: Seq<char>| #[trigger]
            inherits(roles, key, source) && grants_directly(roles, source, grant);
        let path = choose|path: Seq<Seq<char>>| leads(roles, path, key, source);
        if path.len() > 1 {
            assert(step_extends(roles, path, 0));
        }
    }
}

fn distinct_lowered(list: &Vec<String>) -> (out: Vec<String>)
    ensures
        texts_distinct(out@),
        forall|s: Seq<char>| #[trigger]
            text::has_text(out@, s) <==> exists|i: int|
                0 <= i < list@.len() && text::ascii_lower((#[trigger] list@[i])@) == s,
{
    let mut out: Vec<String> = Vec::new();
    let mut i: usize = 0;
    while i < list.len()
        invariant
            i <= list.len(),
            texts_distinct(out@),
            forall|s: Seq<char>| #[trigger]
                text::has_text(out@, s) <==> exists|k: int|
                    0 <= k < i && text::ascii_lower((#[trigger] list@[k])@) == s,
        decreases list.len() - i,
    {
        let ghost before = out@;
        let low = to_ascii_lower(list[i].as_str());
        let known = contains_text(&out, low.as_str());
        if !known {
            out.push(low);
        }
        proof {
            assert forall|s: Seq<char>| #[trigger] text::has_text(out@, s) <==> text::has_text(
                before,
                s,
            ) || s == low@ by {
                if text::has_text(before, s) {
                    let k = choose|k: int| 0 <= k < before.len() && (#[trigger] before[k])@ == s;
                    assert(out@[k]@ == s);
                }
                if s == low@ && !known {
                    assert(out@.last()@ == s);
                }
                if text::has_text(out@, s) && s != low@ {
                    let k = choose|k: int| 0 <= k < out@.len() && (#[trigger] out@[k])@ == s;
                    assert(before[k]@ == s);
                }
            }
            assert forall|s: Seq<char>| #[trigger] text::has_text(out@, s) <==> exists|k: int|
                0 <= k < i + 1 && text::ascii_lower((#[trigger] list@[k])@) == s by {
                assert(text::has_text(out@, s) <==> text::has_text(before, s) || s == low@);
                assert(text::ascii_lower(list@[i as int]@) == low@);
            }
        }
        i += 1;
    }
    out
}

impl AuthPolicy {
    /// Compile the roles, what they inherit by `extends`, and the list of open
    /// resources. A role that is extended but not declared gives nothing, and
    /// roles may extend each other in a circle.
    pub fn build(roles: &Vec<(String, RoleConfig)>, public: &Vec<String>) -> (out: AuthPolicy)
        ensures
            out.wf(),
            forall|key: Seq<char>, g: GrantView| #[trigger]
                out.grants(key, g) <==> has_effective(roles@, key, g),
            forall|resource: Seq<char>| #[trigger]
                out.opens(resource) <==> exists|i: int|
                    0 <= i < public@.len() && text::ascii_lower((#[trigger] public@[i])@)
                        == resource,
    {
        let mut keys: Vec<String> = Vec::new();
        let mut parents: Vec<Vec<String>> = Vec::new();
        let mut i: usize = 0;
        while i < roles.len()
            invariant
                i <= roles.len(),
                keys@.len() == i,
                parents@.len() == i,
                forall|k: int| 0 <= k < i ==> (#[trigger] keys@[k])@ == role_key(roles@, k),
                forall|k: int|
                    0 <= k < i ==> (#[trigger] parents@[k])@.len() == roles@[k].1.extends@.len(),
                forall|k: int, j: int|
                    0 <= k < i && 0 <= j < roles@[k].1.extends@.len() ==> (
                    #[trigger] parents@[k]@[j])@ == text::ascii_lower(roles@[k].1.extends@[j]@),
            decreases roles.len() - i,
        {
            keys.push(to_ascii_lower(roles[i].0.as_str()));
            parents.push(lowered_all(&roles[i].1.extends));
            i += 1;
        }
        assert(tables_of(roles@, keys@, parents@));
        let mut table: Vec<(String, Vec<Grant>)> = Vec::new();
        let mut done: Vec<String> = Vec::new();
        let mut n: usize = 0;
        while n < keys.len()
            invariant
                n <= keys.len(),
                tables_of(roles@, keys@, parents@),
                done@.len() == table@.len(),
                forall|k: int| 0 <= k < done@.len() ==> (#[trigger] done@[k])@ == table@[k].0@,
                texts_distinct(done@),
                forall|k: int| 0 <= k < table@.len() ==> grants_distinct((#[trigger] table@[k]).1@),
                forall|k: int, g: GrantView|
                    0 <= k < table@.len() ==> (#[trigger] has_grant(table@[k].1@, g)
                        <==> has_effective(roles@, table@[k].0@, g)),
                forall|k: int| 0 <= k < n ==> text::has_text(done@, #[trigger] role_key(roles@, k)),
            decreases keys.len() - n,
        {
            let ghost before = done@;
            assert(keys@[n as int]@ == role_key(roles@, n as int));
            if !contains_text(&done, keys[n].as_str()) {
                let grants = collect_grants(roles, &keys, &parents, keys[n].as_str());
                done.push(keys[n].clone());
                table.push((keys[n].clone(), grants));
                proof {
                    assert(done@.last()@ == role_key(roles@, n as int));
                    assert forall|s: Seq<char>| #[trigger] text::has_text(before, s) implies
                        text::has_text(done@, s) by {
                        let k = choose|k: int|
                            0 <= k < before.len() && (#[trigger] before[k])@ == s;
                        assert(done@[k]@ == s);
                    }
                    assert forall|k: int| 0 <= k < n + 1 implies text::has_text(
                        done@,
                        #[trigger] role_key(roles@, k),
                    ) by {
                        if k < n {
                            assert(text::has_text(before, role_key(roles@, k)));
                        }
                    }
                }
            }
            n += 1;
        }
        let out = AuthPolicy { role_grants: table, public: distinct_lowered(public) };
        proof {
            assert forall|key: Seq<char>, g: GrantView| #[trigger] out.grants(key, g)
                <==> has_effective(roles@, key, g) by {
                if text::has_text(done@, key) {
                    let k = choose|k: int| 0 <= k < done@.len() && (#[trigger] done@[k])@ == key;
                    assert(out.role_grants@[k].0@ == key);
                    assert(has_grant(table@[k].1@, g) <==> has_effective(roles@, key, g));
                } else {
                    lemma_undeclared_has_nothing(roles@, key, g);
                }
                if out.grants(key, g) {
                    let k = choose|k: int|
                        0 <= k < out.role_grants@.len() && (#[trigger] out.role_grants@[k]).0@
                            == key && has_grant(out.role_grants@[k].1@, g);
                    assert(has_grant(table@[k].1@, g));
                    assert(done@[k]@ == key);
                }
            }
            assert forall|i: int, j: int| 0 <= i < j < out.role_grants@.len() implies (
            #[trigger] out.role_grants@[i]).0@ != (#[trigger] out.role_grants@[j]).0@ by {
                assert(done@[i]@ != done@[j]@);
            }
        }
        out
    }

    /// Whether `resource` is open to every caller.
    pub fn is_public(&self, resource: &str) -> (out: bool)
        ensures
            out == self.opens(text::ascii_lower(resource@)),
    {
        contains_text(&self.public, to_ascii_lower(resource).as_str())
    }

    /// Whether `key` has a grant that covers `(resource, verb)`.
    fn role_covers(&self, key: &str, resource: &str, verb: Verb) -> (out: bool)
        ensures
            out <==> exists|g: GrantView|
                self.grants(key@, g) && #[trigger] covers(g, resource@, verb),
    {
        let mut i: usize = 0;
        while i < self.role_grants.len()
            invariant
                i <= self.role_grants.len(),
                forall|k: int, g: GrantView|
                    0 <= k < i && self.role_grants@[k].0@ == key@ && #[trigger] has_grant(
                        self.role_grants@[k].1@,
                        g,
                    ) ==> !covers(g, resource@, verb),
            decreases self.role_grants.len() - i,
        {
            let entry = &self.role_grants[i];
            if same_text(entry.0.as_str(), key) {
                let mut j: usize = 0;
                while j < entry.1.len()
                    invariant
                        i < self.role_grants.len(),
                        *entry == self.role_grants@[i as int],
                        entry.0@ == key@,
                        j <= entry.1@.len(),
                        forall|m: int|
                            0 <= m < j ==> !covers((#[trigger] entry.1@[m])@, resource@, verb),
                    decreases entry.1@.len() - j,
                {
                    if entry.1[j].matches(resource, verb) {
                        proof {
                            assert(has_grant(self.role_grants@[i as int].1@, entry.1@[j as int]@));
                            assert(self.grants(key@, entry.1@[j as int]@));
                        }
                        return true;
                    }
                    j += 1;
                }
            }
            i += 1;
        }
        proof {
            assert forall|g: GrantView| self.grants(key@, g) implies !#[trigger] covers(
                g,
                resource@,
                verb,
            ) by {
                let k = choose|k: int|
                    0 <= k < self.role_grants@.len() && (#[trigger] self.role_grants@[k]).0@ == key@
                        && has_grant(self.role_grants@[k].1@, g);
                assert(has_grant(self.role_grants@[k].1@, g));
            }
        }
        false
    }

    /// Whether any of the caller's roles permits the target.
    pub fn allows(&self, roles: &Vec<String>, target: &RouteTarget) -> (out: bool)
        ensures
            out == self.permits(roles@, target.resource@, target.verb),
    {
        let resource = to_ascii_lower(target.resource.as_str());
        if contains_text(&self.public, resource.as_str()) {
            return true;
        }
        let mut i: usize = 0;
        while i < roles.len()
            invariant
                i <= roles.len(),
                resource@ == text::ascii_lower(target.resource@),
                !self.opens(resource@),
                forall|k: int, g: GrantView|
                    #![trigger roles@[k], covers(g, resource@, target.verb)]
                    0 <= k < i && self.grants(text::ascii_lower(roles@[k]@), g) ==> !covers(
                        g,
                        resource@,
                        target.verb,
                    ),
            decreases roles.len() - i,
        {
            let key = to_ascii_lower(roles[i].as_str());
            if self.role_covers(key.as_str(), resource.as_str(), target.verb) {
                return true;
            }
            i += 1;
        }
        false
    }
}

impl Default for AuthPolicy {
    /// The policy that permits nothing.
    fn default() -> (out: AuthPolicy)
        ensures
            out.wf(),
            forall|key: Seq<char>, g: GrantView| !#[trigger] out.grants(key, g),
            forall|resource: Seq<char>| !#[trigger] out.opens(resource),
    {
        AuthPolicy { role_grants: Vec::new(), public: Vec::new() }
    }
}

// ---------------------------------------------------------------------------
// Laws
// ---------------------------------------------------------------------------

/// A role that extends another has every grant of the other.
pub proof fn law_extends_inherits(
    roles: Seq<(String, RoleConfig)>,
    key: Seq<char>,
    target: Seq<char>,
    grant: GrantView,
)
    requires
        extends_directly(roles, key, target),
        has_effective(roles, target, grant),
    ensures
        has_effective(roles, key, grant),
{
    let source = choose|source: Seq<char>| #[trigger]
        inherits(roles, target, source) && grants_directly(roles, source, grant);
    let path = choose|path: Seq<Seq<char>>| leads(roles, path, target, source);
    let longer = seq![key] + path;
    assert forall|k: int| 0 <= k < longer.len() - 1 implies #[trigger] step_extends(
        roles,
        longer,
        k,
    ) by {
        if k > 0 {
            assert(step_extends(roles, path, k - 1));
            assert(longer[k] == path[k - 1]);
            assert(longer[k + 1] == path[k]);
        }
    }
    assert(leads(roles, longer, key, source));
    assert(inherits(roles, key, source));
}

/// A role has the grants that the configuration gives it itself.
pub proof fn law_direct_grants_hold(
    roles: Seq<(String, RoleConfig)>,
    key: Seq<char>,
    grant: GrantView,
)
    requires
        grants_directly(roles, key, grant),
    ensures
        has_effective(roles, key, grant),
{
    lemma_inherits_self(roles, key);
}

/// No role comes by a grant that no role of the configuration states.
pub proof fn law_grants_come_from_configuration(
    roles: Seq<(String, RoleConfig)>,
    key: Seq<char>,
    grant: GrantView,
)
    requires
        has_effective(roles, key, grant),
    ensures
        exists|i: int, j: int| #[trigger] grants_at(roles, i, j, grant),
        exists|i: int| 0 <= i < roles.len() && #[trigger] role_key(roles, i) == key,
{
    let source = choose|source: Seq<char>| #[trigger]
        inherits(roles, key, source) && grants_directly(roles, source, grant);
    let (i, j) = choose|i: int, j: int| #[trigger]
        grants_at(roles, i, j, grant) && role_key(roles, i) == source;
    assert(grants_at(roles, i, j, grant));
    if forall|i: int| 0 <= i < roles.len() ==> #[trigger] role_key(roles, i) != key {
        lemma_undeclared_has_nothing(roles, key, grant);
    }
}

/// Roles that extend each other in a circle have the same grants.
pub proof fn law_circle_shares_grants(
    roles: Seq<(String, RoleConfig)>,
    a: Seq<char>,
    b: Seq<char>,
    grant: GrantView,
)
    requires
        extends_directly(roles, a, b),
        extends_directly(roles, b, a),
    ensures
        has_effective(roles, a, grant) <==> has_effective(roles, b, grant),
{
    if has_effective(roles, a, grant) {
        law_extends_inherits(roles, b, a, grant);
    }
    if has_effective(roles, b, grant) {
        law_extends_inherits(roles, a, b, grant);
    }
}

/// A grant whose verb is not known grants nothing.
pub proof fn law_unknown_verb_grants_nothing(left: Seq<char>, right: Seq<char>)
    requires
        right != "*"@,
        right.len() > 0,
        verb_of(right) is None,
    ensures
        pair_grant(left, right) is None,
{
}

/// Where a resource is not open, a caller without a role is denied.
pub proof fn law_deny_by_default(policy: AuthPolicy, resource: Seq<char>, verb: Verb)
    requires
        !policy.opens(text::ascii_lower(resource)),
    ensures
        !policy.permits(Seq::<String>::empty(), resource, verb),
{
}

/// An open resource needs no role.
pub proof fn law_open_needs_no_role(
    policy: AuthPolicy,
    roles: Seq<String>,
    resource: Seq<char>,
    verb: Verb,
)
    requires
        policy.opens(text::ascii_lower(resource)),
    ensures
        policy.permits(roles, resource, verb),
{
}

/// The letter case of roles and resources makes no difference.
pub proof fn law_case_insensitive(
    policy: AuthPolicy,
    roles: Seq<String>,
    others: Seq<String>,
    resource: Seq<char>,
    other_resource: Seq<char>,
    verb: Verb,
)
    requires
        roles.len() == others.len(),
        forall|i: int|
            0 <= i < roles.len() ==> text::ascii_lower((#[trigger] roles[i])@) == text::ascii_lower(
                others[i]@,
            ),
        text::ascii_lower(resource) == text::ascii_lower(other_resource),
    ensures
        policy.permits(roles, resource, verb) == policy.permits(others, other_resource, verb),
{
    if policy.permits(roles, resource, verb) && !policy.opens(text::ascii_lower(resource)) {
        let (i, g) = choose|i: int, g: GrantView|
            #![trigger roles[i], covers(g, text::ascii_lower(resource), verb)]
            0 <= i < roles.len() && policy.grants(text::ascii_lower(roles[i]@), g) && covers(
                g,
                text::ascii_lower(resource),
                verb,
            );
        assert(policy.grants(text::ascii_lower(others[i]@), g));
    }
    if policy.permits(others, other_resource, verb) && !policy.opens(
        text::ascii_lower(other_resource),
    ) {
        let (i, g) = choose|i: int, g: GrantView|
            #![trigger others[i], covers(g, text::ascii_lower(other_resource), verb)]
            0 <= i < others.len() && policy.grants(text::ascii_lower(others[i]@), g) && covers(
                g,
                text::ascii_lower(other_resource),
                verb,
            );
        assert(policy.grants(text::ascii_lower(roles[i]@), g));
    }
}

/// More roles permit more: what a caller may do, it may do with further roles.
pub proof fn law_roles_add_up(
    policy: AuthPolicy,
    roles: Seq<String>,
    more: Seq<String>,
    resource: Seq<char>,
    verb: Verb,
)
    requires
        policy.permits(roles, resource, verb),
    ensures
        policy.permits(roles + more, resource, verb),
{
    if !policy.opens(text::ascii_lower(resource)) {
        let (i, g) = choose|i: int, g: GrantView|
            #![trigger roles[i], covers(g, text::ascii_lower(resource), verb)]
            0 <= i < roles.len() && policy.grants(text::ascii_lower(roles[i]@), g) && covers(
                g,
                text::ascii_lower(resource),
                verb,
            );
        assert((roles + more)[i] == roles[i]);
    }
}

/// `GET`, `HEAD` and `OPTIONS` read, `DELETE` deletes, and every other method
/// writes.
pub proof fn law_methods_ask_for_verbs(method: Seq<char>)
    ensures
        method_verb(method) == Verb::Read <==> method == "GET"@ || method == "HEAD"@ || method
            == "OPTIONS"@,
        method_verb(method) == Verb::Delete <==> method == "DELETE"@,
        method_verb(method) == Verb::Write <==> method != "GET"@ && method != "HEAD"@ && method
            != "OPTIONS"@ && method != "DELETE"@,
{
    reveal_strlit("GET");
    reveal_strlit("HEAD");
    reveal_strlit("OPTIONS");
    reveal_strlit("DELETE");
    assert("GET"@.len() == 3);
    assert("HEAD"@.len() == 4);
    assert("OPTIONS"@.len() == 7);
    assert("DELETE"@.len() == 6);
}

/// A verb goes by its names, in whatever letter case and with whatever white
/// space around it; nothing else names one.
pub proof fn law_verbs_are_read_by_name(front: Seq<char>, word: Seq<char>, back: Seq<char>)
    requires
        text::is_blank(front),
        text::is_blank(back),
        text::is_bare(word),
    ensures
        ({
            let verb = verb_of(front + word + back);
            let name = text::ascii_lower(word);
            &&& verb == Some(Verb::Read) <==> name == "read"@ || name == "get"@ || name == "r"@
            &&& verb == Some(Verb::Write) <==> name == "write"@ || name == "post"@ || name
                == "put"@ || name == "patch"@ || name == "w"@
            &&& verb == Some(Verb::Delete) <==> name == "delete"@ || name == "del"@ || name == "d"@
        }),
        verb_name(Verb::Read) == "read"@,
        verb_name(Verb::Write) == "write"@,
        verb_name(Verb::Delete) == "delete"@,
{
    text::law_trimming_leaves_the_inside(front, word, back);
    reveal_strlit("read");
    reveal_strlit("get");
    reveal_strlit("r");
    reveal_strlit("write");
    reveal_strlit("post");
    reveal_strlit("put");
    reveal_strlit("patch");
    reveal_strlit("w");
    reveal_strlit("delete");
    reveal_strlit("del");
    reveal_strlit("d");
    assert("read"@.len() == 4 && "read"@[0] == 'r');
    assert("get"@.len() == 3 && "get"@[0] == 'g');
    assert("r"@.len() == 1 && "r"@[0] == 'r');
    assert("write"@.len() == 5 && "write"@[0] == 'w');
    assert("post"@.len() == 4 && "post"@[0] == 'p');
    assert("put"@.len() == 3 && "put"@[0] == 'p');
    assert("patch"@.len() == 5 && "patch"@[0] == 'p');
    assert("w"@.len() == 1 && "w"@[0] == 'w');
    assert("delete"@.len() == 6);
    assert("del"@.len() == 3 && "del"@[0] == 'd');
    assert("d"@.len() == 1 && "d"@[0] == 'd');
}

proof fn lemma_not_all(s: Seq<char>, i: int)
    requires
        0 <= i < s.len(),
        s[i] == ':',
    ensures
        text::ascii_lower(s) != "all"@,
{
    reveal_strlit("all");
    let all = "all"@;
    assert(all.len() == 3 && all[0] == 'a' && all[1] == 'l' && all[2] == 'l');
    text::law_only_capital_letters_change(s, i);
    assert(text::ascii_lower(s)[i] == ':');
}

/// A grant `resource:verb`, with whatever white space around its parts, covers
/// what its two sides name: the resource in any letter case, or every one for
/// `*`, and the verb, or every one for `*`. It covers nothing else, and where
/// the right side names no verb there is no grant.
pub proof fn law_grants_cover_what_they_name(
    front: Seq<char>,
    left: Seq<char>,
    before: Seq<char>,
    behind: Seq<char>,
    right: Seq<char>,
    back: Seq<char>,
)
    requires
        text::is_blank(front),
        text::is_blank(before),
        text::is_blank(behind),
        text::is_blank(back),
        text::is_bare(left),
        text::is_bare(right),
        left.len() > 0,
        right.len() > 0,
        !left.contains(':'),
    ensures
        (match grant_of(front + left + before + ":"@ + behind + right + back) {
            Some(grant) => forall|resource: Seq<char>, verb: Verb| #[trigger]
                covers(grant, resource, verb) <==> (left == "*"@ || text::ascii_lower(left)
                    == resource) && (right == "*"@ || verb_of(right) == Some(verb)),
            None => right != "*"@ && verb_of(right) is None,
        }),
        right == "*"@ || verb_of(right) is Some ==> grant_of(
            front + left + before + ":"@ + behind + right + back,
        ) is Some,
{
    reveal_strlit(":");
    reveal_strlit("*");
    reveal_strlit("*:*");
    assert(":"@ == seq![':']);
    assert("*"@ == seq!['*']);
    assert("*:*"@ == seq!['*', ':', '*']);
    let head = left + before;
    let tail = behind + right;
    let raw = head + seq![':'] + tail;
    let token = front + left + before + ":"@ + behind + right + back;
    assert(token == front + raw + back);
    assert(raw[0] == left[0]);
    assert(raw.last() == right.last());
    text::law_trimming_leaves_the_inside(front, raw, back);
    assert(text::trimmed(token) == raw);
    let none = Seq::<char>::empty();
    text::law_trimming_leaves_the_inside(none, left, before);
    assert(none + left + before == head);
    text::law_trimming_leaves_the_inside(behind, right, none);
    assert(behind + right + none == tail);
    assert(!head.contains(':')) by {
        if head.contains(':') {
            let i = choose|i: int| 0 <= i < head.len() && head[i] == ':';
            if i < left.len() {
                assert(left[i] == ':');
            } else {
                assert(before[i - left.len()] == ':');
                assert(text::is_space(before[i - left.len()]));
            }
        }
    }
    text::law_cut_is_at_the_first_separator(head, ':', tail);
    assert(raw[head.len() as int] == ':');
    lemma_not_all(raw, head.len() as int);
    assert(raw.len() >= 3);
    assert(raw != "*"@);
    if raw == "*:*"@ {
        assert(left == "*"@ && right == "*"@) by {
            assert(head.len() == 1 && tail.len() == 1) by {
                assert(raw.len() == 3);
            }
            assert(left.len() == 1 && right.len() == 1);
            assert(left[0] == raw[0]);
            assert(right[0] == raw[2]);
        }
    }
}

/// A grant without a colon covers every verb on the resource of that name, in
/// any letter case; `*` and `all` cover everything.
pub proof fn law_bare_grants_cover_every_verb(front: Seq<char>, name: Seq<char>, back: Seq<char>)
    requires
        text::is_blank(front),
        text::is_blank(back),
        text::is_bare(name),
        !name.contains(':'),
    ensures
        grant_of(front + name + back) matches Some(grant) && forall|
            resource: Seq<char>,
            verb: Verb,
        | #[trigger]
            covers(grant, resource, verb) <==> name == "*"@ || text::ascii_lower(name) == "all"@
                || text::ascii_lower(name) == resource,
{
    reveal_strlit("*:*");
    text::law_trimming_leaves_the_inside(front, name, back);
    text::law_cut_is_at_the_first_separator(name, ':', Seq::empty());
    assert("*:*"@[1] == ':');
}

/// The resource of a path is its first segment in small letters, whatever
/// follows it, where that is one of the resources of the API; other paths belong
/// to none.
pub proof fn law_paths_belong_to_their_first_segment(
    slashes: Seq<char>,
    segment: Seq<char>,
    rest: Seq<char>,
)
    requires
        forall|i: int| 0 <= i < slashes.len() ==> #[trigger] slashes[i] == '/',
        segment.len() > 0,
        !segment.contains('/'),
    ensures
        ({
            let name = text::ascii_lower(segment);
            let known = name == "domains"@ || name == "mailboxes"@ || name == "records"@ || name
                == "mail"@ || name == "services"@ || name == "messages"@ || name == "health"@
                || name == "doc"@;
            let resource = if known {
                Some(name)
            } else {
                None
            };
            &&& path_resource(slashes + segment) == resource
            &&& path_resource(slashes + segment + "/"@ + rest) == resource
        }),
{
    reveal_strlit("/");
    assert("/"@ == seq!['/']);
    let slash = seq!['/'];
    assert(slash[0] == '/');
    assert(text::made_of(slashes, slash));
    if slash.contains(segment[0]) {
        assert(segment.contains('/'));
    }
    text::law_leading_characters_are_dropped(slashes, segment, slash);
    let long = segment + slash + rest;
    assert(long[0] == segment[0]);
    text::law_leading_characters_are_dropped(slashes, long, slash);
    assert(slashes + segment + slash + rest == slashes + long);
    text::law_cut_is_at_the_first_separator(segment, '/', rest);
}

/// What a role of the configuration is granted, its callers may do, however the
/// letters of the role and of the resource are written.
pub proof fn law_granted_roles_are_permitted(
    policy: AuthPolicy,
    roles: Seq<(String, RoleConfig)>,
    i: int,
    j: int,
    grant: GrantView,
    callers: Seq<String>,
    k: int,
    resource: Seq<char>,
    verb: Verb,
)
    requires
        forall|key: Seq<char>, g: GrantView| #[trigger]
            policy.grants(key, g) <==> has_effective(roles, key, g),
        0 <= i < roles.len(),
        0 <= j < roles[i].1.grants@.len(),
        grant_of(roles[i].1.grants@[j]@) == Some(grant),
        covers(grant, text::ascii_lower(resource), verb),
        0 <= k < callers.len(),
        text::ascii_lower(callers[k]@) == text::ascii_lower(roles[i].0@),
    ensures
        policy.permits(callers, resource, verb),
{
    let key = text::ascii_lower(callers[k]@);
    assert(grants_at(roles, i, j, grant));
    assert(role_key(roles, i) == key);
    assert(grants_directly(roles, key, grant));
    law_direct_grants_hold(roles, key, grant);
    assert(policy.grants(key, grant));
    assert(covers(grant, text::ascii_lower(resource), verb));
    assert(callers[k] == callers[k]);
}

/// What a role may do, every role that extends it may do.
pub proof fn law_extending_roles_are_permitted(
    policy: AuthPolicy,
    roles: Seq<(String, RoleConfig)>,
    i: int,
    j: int,
    callers: Seq<String>,
    k: int,
    others: Seq<String>,
    resource: Seq<char>,
    verb: Verb,
)
    requires
        forall|key: Seq<char>, g: GrantView| #[trigger]
            policy.grants(key, g) <==> has_effective(roles, key, g),
        0 <= i < roles.len(),
        0 <= j < roles[i].1.extends@.len(),
        0 <= k < callers.len(),
        text::ascii_lower(callers[k]@) == text::ascii_lower(roles[i].0@),
        others.len() == 1,
        text::ascii_lower(others[0]@) == text::ascii_lower(roles[i].1.extends@[j]@),
        policy.permits(others, resource, verb),
    ensures
        policy.permits(callers, resource, verb),
{
    if !policy.opens(text::ascii_lower(resource)) {
        let (n, g) = choose|n: int, g: GrantView|
            #![trigger others[n], covers(g, text::ascii_lower(resource), verb)]
            0 <= n < others.len() && policy.grants(text::ascii_lower(others[n]@), g) && covers(
                g,
                text::ascii_lower(resource),
                verb,
            );
        let key = text::ascii_lower(callers[k]@);
        let target = text::ascii_lower(others[0]@);
        assert(n == 0);
        assert(extends_at(roles, i, j, target));
        assert(role_key(roles, i) == key);
        assert(extends_directly(roles, key, target));
        assert(has_effective(roles, target, g));
        law_extends_inherits(roles, key, target, g);
        assert(policy.grants(key, g));
        assert(callers[k] == callers[k]);
    }
}

/// Nothing is permitted that is neither open nor covered by a grant that some
/// role of the configuration states, and a caller whose roles the configuration
/// does not know is permitted nothing but what is open.
pub proof fn law_nothing_else_is_permitted(
    policy: AuthPolicy,
    roles: Seq<(String, RoleConfig)>,
    callers: Seq<String>,
    resource: Seq<char>,
    verb: Verb,
)
    requires
        forall|key: Seq<char>, g: GrantView| #[trigger]
            policy.grants(key, g) <==> has_effective(roles, key, g),
        policy.permits(callers, resource, verb),
        !policy.opens(text::ascii_lower(resource)),
    ensures
        exists|i: int, j: int, g: GrantView| #[trigger]
            grants_at(roles, i, j, g) && covers(g, text::ascii_lower(resource), verb),
        exists|i: int, k: int|
            #![trigger roles[i], callers[k]]
            0 <= i < roles.len() && 0 <= k < callers.len() && text::ascii_lower(roles[i].0@)
                == text::ascii_lower(callers[k]@),
{
    let (k, g) = choose|k: int, g: GrantView|
        #![trigger callers[k], covers(g, text::ascii_lower(resource), verb)]
        0 <= k < callers.len() && policy.grants(text::ascii_lower(callers[k]@), g) && covers(
            g,
            text::ascii_lower(resource),
            verb,
        );
    let key = text::ascii_lower(callers[k]@);
    assert(has_effective(roles, key, g));
    law_grants_come_from_configuration(roles, key, g);
    let (i, j) = choose|i: int, j: int| #[trigger] grants_at(roles, i, j, g);
    assert(grants_at(roles, i, j, g) && covers(g, text::ascii_lower(resource), verb));
    let n = choose|n: int| 0 <= n < roles.len() && #[trigger] role_key(roles, n) == key;
    assert(text::ascii_lower(roles[n].0@) == text::ascii_lower(callers[k]@));
}

} // verus!
