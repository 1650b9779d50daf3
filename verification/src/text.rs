//! Text handling over the characters of a string.
//!
//! Contracts speak of a string by its view, the sequence of its characters.
use vstd::prelude::*;

verus! {

/// `String::push` appends one character to the string.
pub assume_specification[ String::push ](s: &mut String, c: char)
    ensures
        final(s)@ == old(s)@.push(c),
;

/// The characters of `s`, in order.
pub fn chars_of(s: &str) -> (out: Vec<char>)
    ensures
        out@ == s@,
{
    let mut out: Vec<char> = Vec::new();
    for c in iter: s.chars()
        invariant
            iter.seq() == s@,
            out@ == s@.take(iter.index()),
    {
        out.push(c);
    }
    out
}

/// The string made of `chars[from..to]`.
pub fn string_of(chars: &Vec<char>, from: usize, to: usize) -> (out: String)
    requires
        from <= to <= chars@.len(),
    ensures
        out@ == chars@.subrange(from as int, to as int),
{
    let mut out = String::new();
    let mut i: usize = from;
    while i < to
        invariant
            from <= i <= to <= chars@.len(),
            out@ == chars@.subrange(from as int, i as int),
        decreases to - i,
    {
        out.push(chars[i]);
        i += 1;
    }
    out
}

/// Whether two strings hold the same characters.
pub fn same_text(a: &str, b: &str) -> (same: bool)
    ensures
        same == (a@ == b@),
{
    a.to_owned() == b.to_owned()
}

// ---------------------------------------------------------------------------
// Letter case
// ---------------------------------------------------------------------------

/// `c`, or its small letter when `c` is one of `A` to `Z`.
pub open spec fn small_letter(c: char) -> char {
    if 'A' <= c <= 'Z' {
        (c as u8 + 32) as char
    } else {
        c
    }
}

/// `s` with every ASCII capital letter made small.
pub open spec fn ascii_lower(s: Seq<char>) -> Seq<char> {
    s.map_values(|c: char| small_letter(c))
}

fn small_letter_exec(c: char) -> (out: char)
    ensures
        out == small_letter(c),
{
    if 'A' <= c && c <= 'Z' {
        (c as u8 + 32) as char
    } else {
        c
    }
}

/// `s` with every ASCII capital letter made small.
pub fn to_ascii_lower(s: &str) -> (out: String)
    ensures
        out@ == ascii_lower(s@),
{
    let chars = chars_of(s);
    let mut out = String::new();
    let mut i: usize = 0;
    while i < chars.len()
        invariant
            i <= chars.len(),
            chars@ == s@,
            out@ == ascii_lower(s@.take(i as int)),
        decreases chars.len() - i,
    {
        out.push(small_letter_exec(chars[i]));
        proof {
            assert(s@.take(i + 1) == s@.take(i as int).push(s@[i as int]));
            assert(ascii_lower(s@.take(i + 1)) == ascii_lower(s@.take(i as int)).push(
                small_letter(s@[i as int]),
            ));
        }
        i += 1;
    }
    assert(s@.take(s@.len() as int) == s@);
    out
}

/// `s` in small letters, by the Unicode rules of `str::to_lowercase`.
pub uninterp spec fn lowercase(s: Seq<char>) -> Seq<char>;

/// Every character is one of ASCII.
pub open spec fn all_ascii(s: Seq<char>) -> bool {
    forall|i: int| 0 <= i < s.len() ==> #[trigger] s[i] as u32 <= 127
}

/// `str::to_lowercase`: `s` in small letters by the rules of Unicode, which
/// turn only `A` to `Z` into other characters where all of `s` is ASCII.
#[verifier::external_body]
pub(crate) fn to_lowercase(s: &str) -> (out: String)
    ensures
        out@ == lowercase(s@),
        all_ascii(s@) ==> out@ == ascii_lower(s@),
{
    s.to_lowercase()
}

// ---------------------------------------------------------------------------
// Trimming
// ---------------------------------------------------------------------------

/// `s` without the characters of `set` at its start.
pub open spec fn drop_leading(s: Seq<char>, set: Seq<char>) -> Seq<char>
    decreases s.len(),
{
    if s.len() > 0 && set.contains(s[0]) {
        drop_leading(s.drop_first(), set)
    } else {
        s
    }
}

/// `s` without the characters of `set` at its end.
pub open spec fn drop_trailing(s: Seq<char>, set: Seq<char>) -> Seq<char>
    decreases s.len(),
{
    if s.len() > 0 && set.contains(s.last()) {
        drop_trailing(s.drop_last(), set)
    } else {
        s
    }
}

/// `s` without the characters of `set` at its two ends.
pub open spec fn strip(s: Seq<char>, set: Seq<char>) -> Seq<char> {
    drop_trailing(drop_leading(s, set), set)
}

/// The characters with the Unicode property White_Space.
pub open spec fn white_space() -> Seq<char> {
    seq![
        '\u{0009}', '\u{000A}', '\u{000B}', '\u{000C}', '\u{000D}',
        '\u{0020}', '\u{0085}', '\u{00A0}', '\u{1680}', '\u{2000}',
        '\u{2001}', '\u{2002}', '\u{2003}', '\u{2004}', '\u{2005}',
        '\u{2006}', '\u{2007}', '\u{2008}', '\u{2009}', '\u{200A}',
        '\u{2028}', '\u{2029}', '\u{202F}', '\u{205F}', '\u{3000}',
    ]
}

/// `s` without the white space at its two ends.
pub open spec fn trimmed(s: Seq<char>) -> Seq<char> {
    strip(s, white_space())
}

fn in_set(c: char, set: &Vec<char>) -> (found: bool)
    ensures
        found == set@.contains(c),
{
    let mut i: usize = 0;
    while i < set.len()
        invariant
            i <= set.len(),
            forall|k: int| 0 <= k < i ==> set@[k] != c,
        decreases set.len() - i,
    {
        if set[i] == c {
            return true;
        }
        i += 1;
    }
    false
}

/// `s` without the characters of `set` at its start.
pub fn trim_leading(s: &str, set: &Vec<char>) -> (out: String)
    ensures
        out@ == drop_leading(s@, set@),
{
    let chars = chars_of(s);
    let mut i: usize = 0;
    assert(s@.subrange(0, s@.len() as int) == s@);
    while i < chars.len() && in_set(chars[i], set)
        invariant
            i <= chars.len(),
            chars@ == s@,
            drop_leading(s@.subrange(i as int, s@.len() as int), set@) == drop_leading(s@, set@),
        decreases chars.len() - i,
    {
        assert(s@.subrange(i as int, s@.len() as int).drop_first() == s@.subrange(
            i + 1,
            s@.len() as int,
        ));
        i += 1;
    }
    string_of(&chars, i, chars.len())
}

/// `s` without the characters of `set` at its end.
pub fn trim_trailing(s: &str, set: &Vec<char>) -> (out: String)
    ensures
        out@ == drop_trailing(s@, set@),
{
    let chars = chars_of(s);
    let mut n: usize = chars.len();
    assert(s@.subrange(0, s@.len() as int) == s@);
    while n > 0 && in_set(chars[n - 1], set)
        invariant
            n <= chars.len(),
            chars@ == s@,
            drop_trailing(s@.subrange(0, n as int), set@) == drop_trailing(s@, set@),
        decreases n,
    {
        assert(s@.subrange(0, n as int).drop_last() == s@.subrange(0, n - 1));
        n -= 1;
    }
    string_of(&chars, 0, n)
}

/// `s` without the characters of `set` at its two ends.
pub fn trim_both(s: &str, set: &Vec<char>) -> (out: String)
    ensures
        out@ == strip(s@, set@),
{
    let front = trim_leading(s, set);
    trim_trailing(front.as_str(), set)
}

fn white_space_set() -> (set: Vec<char>)
    ensures
        set@ == white_space(),
{
    vec![
        '\u{0009}', '\u{000A}', '\u{000B}', '\u{000C}', '\u{000D}',
        '\u{0020}', '\u{0085}', '\u{00A0}', '\u{1680}', '\u{2000}',
        '\u{2001}', '\u{2002}', '\u{2003}', '\u{2004}', '\u{2005}',
        '\u{2006}', '\u{2007}', '\u{2008}', '\u{2009}', '\u{200A}',
        '\u{2028}', '\u{2029}', '\u{202F}', '\u{205F}', '\u{3000}',
    ]
}

/// `s` without the white space at its two ends.
pub fn trim(s: &str) -> (out: String)
    ensures
        out@ == trimmed(s@),
{
    let set = white_space_set();
    trim_both(s, &set)
}

// ---------------------------------------------------------------------------
// Searching and cutting
// ---------------------------------------------------------------------------

/// `i` is where `c` first occurs in `s`.
pub open spec fn first_at(s: Seq<char>, c: char, i: int) -> bool {
    &&& 0 <= i < s.len()
    &&& s[i] == c
    &&& forall|k: int| 0 <= k < i ==> s[k] != c
}

/// The parts of `s` before and after the first `c`, if `c` occurs.
pub open spec fn cut(s: Seq<char>, c: char) -> Option<(Seq<char>, Seq<char>)> {
    if exists|i: int| first_at(s, c, i) {
        let i = choose|i: int| first_at(s, c, i);
        Some((s.take(i), s.skip(i + 1)))
    } else {
        None
    }
}

/// The part of `s` before the first `c`; all of `s` if `c` does not occur.
pub open spec fn before(s: Seq<char>, c: char) -> Seq<char> {
    match cut(s, c) {
        Some((front, _)) => front,
        None => s,
    }
}

/// What `cut` gives when the place of the first `c` is known.
pub proof fn lemma_cut_at(s: Seq<char>, c: char, i: int)
    requires
        first_at(s, c, i),
    ensures
        cut(s, c) == Some((s.take(i), s.skip(i + 1))),
{
    let j = choose|j: int| first_at(s, c, j);
    assert(first_at(s, c, j));
    assert(i == j);
}

/// What `cut` gives when `c` does not occur.
pub proof fn lemma_cut_none(s: Seq<char>, c: char)
    requires
        !s.contains(c),
    ensures
        cut(s, c) is None,
{
    if exists|i: int| first_at(s, c, i) {
        let j = choose|j: int| first_at(s, c, j);
        assert(s[j] == c);
    }
}

/// The parts of `s` before and after the first `c`, if `c` occurs.
pub fn split_once(s: &str, c: char) -> (out: Option<(String, String)>)
    ensures
        (match out {
            Some((a, b)) => cut(s@, c) == Some((a@, b@)),
            None => cut(s@, c) is None,
        }),
{
    let chars = chars_of(s);
    let mut i: usize = 0;
    while i < chars.len()
        invariant
            i <= chars.len(),
            chars@ == s@,
            forall|k: int| 0 <= k < i ==> s@[k] != c,
        decreases chars.len() - i,
    {
        if chars[i] == c {
            proof {
                lemma_cut_at(s@, c, i as int);
                assert(s@.take(i as int) == s@.subrange(0, i as int));
                assert(s@.skip(i + 1) == s@.subrange(i + 1, s@.len() as int));
            }
            return Some((string_of(&chars, 0, i), string_of(&chars, i + 1, chars.len())));
        }
        i += 1;
    }
    proof {
        lemma_cut_none(s@, c);
    }
    None
}

/// Whether `s` begins with `head`.
pub fn starts_with(s: &str, head: &str) -> (out: bool)
    ensures
        out == head@.is_prefix_of(s@),
{
    let a = chars_of(s);
    let b = chars_of(head);
    if b.len() > a.len() {
        return false;
    }
    let mut i: usize = 0;
    while i < b.len()
        invariant
            i <= b.len() <= a.len(),
            a@ == s@,
            b@ == head@,
            forall|k: int| 0 <= k < i ==> a@[k] == b@[k],
        decreases b.len() - i,
    {
        if a[i] != b[i] {
            assert(s@.subrange(0, head@.len() as int)[i as int] != head@[i as int]);
            return false;
        }
        i += 1;
    }
    assert(s@.subrange(0, head@.len() as int) == head@);
    true
}

// ---------------------------------------------------------------------------
// Joining
// ---------------------------------------------------------------------------

/// `a` followed by `b`.
pub fn joined(a: &str, b: &str) -> (out: String)
    ensures
        out@ == a@ + b@,
{
    let mut out = a.to_owned();
    out.append(b);
    out
}

/// The characters of each string of `list`.
pub open spec fn views(list: Seq<String>) -> Seq<Seq<char>> {
    Seq::new(list.len(), |i: int| list[i]@)
}

/// The characters of the string, if there is one.
pub open spec fn view_of(s: Option<String>) -> Option<Seq<char>> {
    match s {
        Some(s) => Some(s@),
        None => None,
    }
}

/// Whether `list` holds a string with the characters of `s`.
pub open spec fn has_text(list: Seq<String>, s: Seq<char>) -> bool {
    exists|i: int| 0 <= i < list.len() && (#[trigger] list[i])@ == s
}

/// Whether `list` holds a string with the characters of `s`.
pub fn contains_text(list: &Vec<String>, s: &str) -> (found: bool)
    ensures
        found == has_text(list@, s@),
{
    let mut i: usize = 0;
    while i < list.len()
        invariant
            i <= list.len(),
            forall|k: int| 0 <= k < i ==> (#[trigger] list@[k])@ != s@,
        decreases list.len() - i,
    {
        if same_text(list[i].as_str(), s) {
            assert(list@[i as int]@ == s@);
            return true;
        }
        i += 1;
    }
    false
}

// ---------------------------------------------------------------------------
// Words and numbers
// ---------------------------------------------------------------------------

/// The words of `s`: its longest stretches without white space, in order.
pub open spec fn words(s: Seq<char>) -> Seq<Seq<char>>
    decreases s.len(),
{
    if s.len() == 0 {
        Seq::empty()
    } else {
        let front = words(s.drop_last());
        if white_space().contains(s.last()) {
            front
        } else if s.len() == 1 || white_space().contains(s[s.len() - 2]) {
            front.push(seq![s.last()])
        } else {
            front.drop_last().push(front.last().push(s.last()))
        }
    }
}

/// The words of `s`, in order.
pub fn split_words(s: &str) -> (out: Vec<String>)
    ensures
        views(out@) == words(s@),
{
    let chars = chars_of(s);
    let set = white_space_set();
    let mut done: Vec<String> = Vec::new();
    let mut word = String::new();
    let mut open = false;
    let mut i: usize = 0;
    assert(views(done@) == words(s@.take(0)));
    while i < chars.len()
        invariant
            i <= chars.len(),
            chars@ == s@,
            set@ == white_space(),
            open == (i > 0 && !white_space().contains(s@[i - 1])),
            open ==> words(s@.take(i as int)) == views(done@).push(word@),
            !open ==> words(s@.take(i as int)) == views(done@) && word@.len() == 0,
        decreases chars.len() - i,
    {
        let c = chars[i];
        let ghost upto = s@.take(i + 1);
        proof {
            assert(upto.drop_last() == s@.take(i as int));
            assert(upto.last() == c);
            if i > 0 {
                assert(upto[upto.len() - 2] == s@[i - 1]);
            }
        }
        if in_set(c, &set) {
            if open {
                let ghost was = done@;
                let ghost shown = word@;
                done.push(word);
                word = String::new();
                assert(views(done@) == views(was).push(shown));
            }
            open = false;
        } else {
            let ghost before = word@;
            word.push(c);
            proof {
                if !open {
                    assert(word@ == seq![c]);
                } else {
                    let front = views(done@).push(before);
                    assert(front.drop_last() == views(done@));
                    assert(front.last() == before);
                }
            }
            open = true;
        }
        i += 1;
    }
    assert(s@.take(s@.len() as int) == s@);
    if open {
        let ghost was = done@;
        let ghost shown = word@;
        done.push(word);
        assert(views(done@) == views(was).push(shown));
    }
    done
}

/// Every character is one of `0` to `9`.
pub open spec fn all_digits(s: Seq<char>) -> bool {
    forall|i: int| 0 <= i < s.len() ==> '0' <= #[trigger] s[i] <= '9'
}

/// The number that the digits of `s` write.
pub open spec fn decimal(s: Seq<char>) -> nat
    decreases s.len(),
{
    if s.len() == 0 {
        0
    } else {
        10 * decimal(s.drop_last()) + (s.last() as nat - '0' as nat) as nat
    }
}

proof fn lemma_decimal_grows(s: Seq<char>, n: int)
    requires
        0 <= n <= s.len(),
    ensures
        decimal(s.take(n)) <= decimal(s),
    decreases s.len() - n,
{
    if n < s.len() {
        lemma_decimal_grows(s, n + 1);
        assert(s.take(n + 1).drop_last() == s.take(n));
    } else {
        assert(s.take(n) == s);
    }
}

/// The number that `chars[from..]` writes, if those are digits, at least one,
/// and the number is at most `max`.
fn number_up_to(chars: &Vec<char>, from: usize, max: u32) -> (out: Option<u32>)
    requires
        from <= chars@.len(),
        max <= 1_000_000,
    ensures
        ({
            let s = chars@.skip(from as int);
            let fits = s.len() > 0 && all_digits(s) && decimal(s) <= max;
            match out {
                Some(n) => fits && n == decimal(s),
                None => !fits,
            }
        }),
{
    let ghost s = chars@.skip(from as int);
    if from == chars.len() {
        return None;
    }
    let mut n: u32 = 0;
    let mut i: usize = from;
    assert(s.take(0) == Seq::<char>::empty());
    while i < chars.len()
        invariant
            from <= i <= chars.len(),
            s == chars@.skip(from as int),
            max <= 1_000_000,
            n <= max,
            n == decimal(s.take(i - from)),
            forall|k: int| 0 <= k < i - from ==> '0' <= #[trigger] s[k] <= '9',
        decreases chars.len() - i,
    {
        let c = chars[i];
        assert(s[i - from] == c);
        if !('0' <= c && c <= '9') {
            return None;
        }
        proof {
            assert(s.take(i - from + 1).drop_last() == s.take(i - from));
            lemma_decimal_grows(s, i - from + 1);
        }
        n = 10 * n + (c as u32 - 48);
        if n > max {
            return None;
        }
        i += 1;
    }
    assert(s.take(s.len() as int) == s);
    Some(n)
}

/// The 16-bit number that `s` writes: digits, at least one, after an optional
/// plus sign.
pub open spec fn u16_of(s: Seq<char>) -> Option<u16> {
    let digits = if s.len() > 0 && s[0] == '+' {
        s.skip(1)
    } else {
        s
    };
    if digits.len() > 0 && all_digits(digits) && decimal(digits) <= u16::MAX {
        Some(decimal(digits) as u16)
    } else {
        None
    }
}

/// Read a 16-bit number.
pub fn parse_u16(s: &str) -> (out: Option<u16>)
    ensures
        out == u16_of(s@),
{
    let chars = chars_of(s);
    let from: usize = if chars.len() > 0 && chars[0] == '+' {
        1
    } else {
        0
    };
    assert(s@.skip(0) == s@);
    match number_up_to(&chars, from, 65_535) {
        Some(n) => Some(n as u16),
        None => None,
    }
}

/// The octet that `s` writes: one to three digits without a leading zero.
pub open spec fn octet_of(s: Seq<char>) -> Option<u8> {
    if 0 < s.len() <= 3 && all_digits(s) && (s.len() > 1 ==> s[0] != '0') && decimal(s)
        <= u8::MAX {
        Some(decimal(s) as u8)
    } else {
        None
    }
}

/// Read an octet of an IPv4 address.
pub fn parse_octet(s: &str) -> (out: Option<u8>)
    ensures
        out == octet_of(s@),
{
    let chars = chars_of(s);
    assert(s@.skip(0) == s@);
    if chars.len() > 3 || (chars.len() > 1 && chars[0] == '0') {
        return None;
    }
    match number_up_to(&chars, 0, 255) {
        Some(n) => Some(n as u8),
        None => None,
    }
}

fn digit_char(d: u64) -> (out: char)
    requires
        d < 10,
    ensures
        out as nat == '0' as nat + d,
{
    (48 + d as u8) as char
}

/// The digits of `n`.
pub open spec fn digits_of(n: nat) -> Seq<char>
    decreases n,
{
    if n < 10 {
        seq![('0' as nat + n) as char]
    } else {
        digits_of(n / 10).push(('0' as nat + n % 10) as char)
    }
}

/// The digits of `n`.
pub fn number_text(n: u64) -> (out: String)
    ensures
        out@ == digits_of(n as nat),
    decreases n,
{
    if n < 10 {
        let mut out = String::new();
        out.push(digit_char(n));
        assert(out@ == digits_of(n as nat));
        out
    } else {
        let mut out = number_text(n / 10);
        out.push(digit_char(n % 10));
        out
    }
}

// ---------------------------------------------------------------------------
// Order
// ---------------------------------------------------------------------------

/// `a` stands before `b` in the order of the characters, first to last.
pub open spec fn precedes(a: Seq<char>, b: Seq<char>) -> bool
    decreases a.len(),
{
    if b.len() == 0 {
        false
    } else if a.len() == 0 {
        true
    } else if a[0] != b[0] {
        a[0] < b[0]
    } else {
        precedes(a.drop_first(), b.drop_first())
    }
}

/// Of two different texts one stands before the other, and not the other way.
pub proof fn lemma_precedes_total(a: Seq<char>, b: Seq<char>)
    ensures
        a == b ==> !precedes(a, b),
        a != b ==> (precedes(a, b) <==> !precedes(b, a)),
    decreases a.len(),
{
    if a.len() > 0 && b.len() > 0 && a[0] == b[0] {
        lemma_precedes_total(a.drop_first(), b.drop_first());
        if a.drop_first() == b.drop_first() {
            assert(a == seq![a[0]] + a.drop_first());
            assert(b == seq![b[0]] + b.drop_first());
        }
    } else if a.len() == 0 && b.len() == 0 {
        assert(a == b);
    }
}

/// What stands before something stands before all that follows it.
pub proof fn lemma_precedes_transitive(a: Seq<char>, b: Seq<char>, c: Seq<char>)
    requires
        precedes(a, b),
        precedes(b, c),
    ensures
        precedes(a, c),
    decreases a.len(),
{
    if a.len() > 0 && a[0] == b[0] && b[0] == c[0] {
        lemma_precedes_transitive(a.drop_first(), b.drop_first(), c.drop_first());
    }
}

/// Whether `a` stands before `b`.
pub fn text_precedes(a: &str, b: &str) -> (out: bool)
    ensures
        out == precedes(a@, b@),
{
    let x = chars_of(a);
    let y = chars_of(b);
    let mut i: usize = 0;
    assert(a@.skip(0) == a@);
    assert(b@.skip(0) == b@);
    while i < x.len() && i < y.len() && x[i] == y[i]
        invariant
            i <= x.len(),
            i <= y.len(),
            x@ == a@,
            y@ == b@,
            precedes(a@, b@) == precedes(a@.skip(i as int), b@.skip(i as int)),
        decreases x.len() - i,
    {
        proof {
            assert(a@.skip(i as int).drop_first() == a@.skip(i + 1));
            assert(b@.skip(i as int).drop_first() == b@.skip(i + 1));
        }
        i += 1;
    }
    if i == y.len() {
        false
    } else if i == x.len() {
        true
    } else {
        x[i] < y[i]
    }
}

/// The texts of `list` stand in strict order.
pub open spec fn ascending(list: Seq<String>) -> bool {
    forall|i: int, j: int|
        0 <= i < j < list.len() ==> precedes((#[trigger] list[i])@, (#[trigger] list[j])@)
}

/// Put `item` into the ordered `list`, unless it is there.
pub fn insert_ordered(list: &mut Vec<String>, item: String)
    requires
        ascending(old(list)@),
    ensures
        ascending(final(list)@),
        forall|s: Seq<char>| #[trigger]
            has_text(final(list)@, s) <==> has_text(old(list)@, s) || s == item@,
{
    let ghost before = list@;
    let ghost shown = item@;
    let mut at: usize = 0;
    while at < list.len() && text_precedes(list[at].as_str(), item.as_str())
        invariant
            at <= list.len(),
            list@ == before,
            ascending(before),
            item@ == shown,
            forall|k: int| 0 <= k < at ==> precedes((#[trigger] before[k])@, shown),
        decreases list.len() - at,
    {
        at += 1;
    }
    if at < list.len() && same_text(list[at].as_str(), item.as_str()) {
        assert(has_text(before, shown));
        return;
    }
    list.insert(at, item);
    proof {
        assert(list@ == before.insert(at as int, item));
        if at < before.len() {
            lemma_precedes_total(before[at as int]@, shown);
        }
        assert forall|j: int| at <= j < before.len() implies precedes(
            shown,
            (#[trigger] before[j])@,
        ) by {
            if j > at {
                lemma_precedes_transitive(shown, before[at as int]@, before[j]@);
            }
        }
        assert forall|i: int, j: int| 0 <= i < j < list@.len() implies precedes(
            (#[trigger] list@[i])@,
            (#[trigger] list@[j])@,
        ) by {
            if j < at {
                assert(list@[i] == before[i] && list@[j] == before[j]);
            } else if j == at {
                assert(list@[i] == before[i]);
            } else if i < at {
                assert(list@[i] == before[i] && list@[j] == before[j - 1]);
            } else if i == at {
                assert(list@[j] == before[j - 1]);
            } else {
                assert(list@[i] == before[i - 1] && list@[j] == before[j - 1]);
            }
        }
        assert forall|s: Seq<char>| #[trigger] has_text(list@, s) <==> has_text(before, s) || s
            == shown by {
            if has_text(before, s) {
                let k = choose|k: int| 0 <= k < before.len() && (#[trigger] before[k])@ == s;
                if k < at {
                    assert(list@[k]@ == s);
                } else {
                    assert(list@[k + 1]@ == s);
                }
            }
            if s == shown {
                assert(list@[at as int]@ == s);
            }
            if has_text(list@, s) && s != shown {
                let k = choose|k: int| 0 <= k < list@.len() && (#[trigger] list@[k])@ == s;
                if k < at {
                    assert(before[k]@ == s);
                } else {
                    assert(before[k - 1]@ == s);
                }
            }
        }
    }
}

/// A copy of a string, if there is one.
pub fn copy_text(s: &Option<String>) -> (out: Option<String>)
    ensures
        view_of(out) == view_of(*s),
{
    match s {
        Some(s) => Some(s.clone()),
        None => None,
    }
}

/// A copy of the strings.
pub fn copy_texts(list: &Vec<String>) -> (out: Vec<String>)
    ensures
        views(out@) == views(list@),
{
    let mut out: Vec<String> = Vec::new();
    let mut i: usize = 0;
    while i < list.len()
        invariant
            i <= list.len(),
            out@.len() == i,
            forall|k: int| 0 <= k < i ==> (#[trigger] out@[k])@ == list@[k]@,
        decreases list.len() - i,
    {
        out.push(list[i].clone());
        i += 1;
    }
    assert(views(out@) == views(list@));
    out
}

// ---------------------------------------------------------------------------
// Laws
// ---------------------------------------------------------------------------

/// `c` is white space, by its number in Unicode.
pub open spec fn is_space(c: char) -> bool {
    let n = c as u32;
    ||| 0x9 <= n <= 0xD
    ||| n == 0x20 || n == 0x85 || n == 0xA0 || n == 0x1680
    ||| 0x2000 <= n <= 0x200A
    ||| n == 0x2028 || n == 0x2029 || n == 0x202F || n == 0x205F || n == 0x3000
}

/// All of `s` is white space.
pub open spec fn is_blank(s: Seq<char>) -> bool {
    forall|i: int| 0 <= i < s.len() ==> is_space(#[trigger] s[i])
}

/// Nothing of `s` is white space.
pub open spec fn is_solid(s: Seq<char>) -> bool {
    forall|i: int| 0 <= i < s.len() ==> !is_space(#[trigger] s[i])
}

/// Neither end of `s` is white space.
pub open spec fn is_bare(s: Seq<char>) -> bool {
    s.len() > 0 ==> !is_space(s[0]) && !is_space(s.last())
}

/// What is trimmed off and what separates words is white space, nothing else.
pub proof fn law_white_space_is_that_of_unicode(c: char)
    ensures
        white_space().contains(c) <==> is_space(c),
{
    let w = white_space();
    assert(w.len() == 25);
    assert(w[0] == '\u{0009}' && w[1] == '\u{000A}' && w[2] == '\u{000B}' && w[3] == '\u{000C}');
    assert(w[4] == '\u{000D}' && w[5] == '\u{0020}' && w[6] == '\u{0085}' && w[7] == '\u{00A0}');
    assert(w[8] == '\u{1680}' && w[9] == '\u{2000}' && w[10] == '\u{2001}' && w[11] == '\u{2002}');
    assert(w[12] == '\u{2003}' && w[13] == '\u{2004}' && w[14] == '\u{2005}' && w[15]
        == '\u{2006}');
    assert(w[16] == '\u{2007}' && w[17] == '\u{2008}' && w[18] == '\u{2009}' && w[19]
        == '\u{200A}');
    assert(w[20] == '\u{2028}' && w[21] == '\u{2029}' && w[22] == '\u{202F}' && w[23]
        == '\u{205F}');
    assert(w[24] == '\u{3000}');
}

/// `s` is made of characters of `set` alone.
pub open spec fn made_of(s: Seq<char>, set: Seq<char>) -> bool {
    forall|i: int| 0 <= i < s.len() ==> set.contains(#[trigger] s[i])
}

/// Characters of the set in front of a text are dropped from it, and nothing
/// else is: what begins with another character is kept whole.
pub proof fn law_leading_characters_are_dropped(front: Seq<char>, s: Seq<char>, set: Seq<char>)
    requires
        made_of(front, set),
        s.len() > 0 ==> !set.contains(s[0]),
    ensures
        drop_leading(front + s, set) == s,
    decreases front.len(),
{
    if front.len() == 0 {
        assert(front + s == s);
    } else {
        assert((front + s)[0] == front[0]);
        assert((front + s).drop_first() == front.drop_first() + s);
        law_leading_characters_are_dropped(front.drop_first(), s, set);
    }
}

/// Characters of the set behind a text are dropped from it, and nothing else is:
/// what ends with another character is kept whole.
pub proof fn law_trailing_characters_are_dropped(s: Seq<char>, back: Seq<char>, set: Seq<char>)
    requires
        made_of(back, set),
        s.len() > 0 ==> !set.contains(s.last()),
    ensures
        drop_trailing(s + back, set) == s,
    decreases back.len(),
{
    if back.len() == 0 {
        assert(s + back == s);
    } else {
        assert((s + back).last() == back.last());
        assert((s + back).drop_last() == s + back.drop_last());
        law_trailing_characters_are_dropped(s, back.drop_last(), set);
    }
}

/// Stripping takes the characters of the set off the two ends and leaves what
/// stands between them as it is.
pub proof fn law_strip_leaves_the_inside(
    front: Seq<char>,
    s: Seq<char>,
    back: Seq<char>,
    set: Seq<char>,
)
    requires
        made_of(front, set),
        made_of(back, set),
        s.len() > 0 ==> !set.contains(s[0]) && !set.contains(s.last()),
    ensures
        strip(front + s + back, set) == s,
{
    if s.len() > 0 {
        assert(front + s + back == front + (s + back));
        law_leading_characters_are_dropped(front, s + back, set);
        law_trailing_characters_are_dropped(s, back, set);
    } else {
        assert(front + s + back == (front + back) + s);
        law_leading_characters_are_dropped(front + back, s, set);
        law_trailing_characters_are_dropped(s, s, set);
        assert(s + s == s);
    }
}

/// Trimming takes the white space off the two ends of a text, of whatever kind
/// and however much, and leaves the text between as it is. A text without white
/// space at its ends is left whole; of a blank one nothing is left.
pub proof fn law_trimming_leaves_the_inside(front: Seq<char>, s: Seq<char>, back: Seq<char>)
    requires
        is_blank(front),
        is_blank(back),
        is_bare(s),
    ensures
        trimmed(front + s + back) == s,
        trimmed(s) == s,
        trimmed(front).len() == 0,
{
    assert forall|c: char| white_space().contains(c) <==> #[trigger] is_space(c) by {
        law_white_space_is_that_of_unicode(c);
    }
    assert(made_of(front, white_space()));
    assert(made_of(back, white_space()));
    law_strip_leaves_the_inside(front, s, back, white_space());
    let none = Seq::<char>::empty();
    law_strip_leaves_the_inside(none, s, none, white_space());
    assert(none + s + none == s);
    law_strip_leaves_the_inside(front, none, none, white_space());
    assert(front + none + none == front);
}

/// Every text is what trimming leaves of it with white space before and behind,
/// and what is left has none at its ends. Only of a blank text nothing is left.
pub proof fn law_trimming_takes_white_space_only(s: Seq<char>)
    ensures
        is_bare(trimmed(s)),
        trimmed(s).len() == 0 <==> is_blank(s),
        exists|front: Seq<char>, back: Seq<char>|
            is_blank(front) && is_blank(back) && s == #[trigger] (front + trimmed(s) + back),
{
    assert forall|c: char| white_space().contains(c) <==> #[trigger] is_space(c) by {
        law_white_space_is_that_of_unicode(c);
    }
    let set = white_space();
    let inner = drop_leading(s, set);
    let front = lemma_leading_part(s, set);
    let back = lemma_trailing_part(inner, set);
    assert(s == front + trimmed(s) + back);
    assert(is_blank(front) && is_blank(back));
    if trimmed(s).len() > 0 {
        assert(trimmed(s)[0] == inner[0]);
        assert(s[front.len() as int] == trimmed(s)[0]);
    }
}

proof fn lemma_leading_part(s: Seq<char>, set: Seq<char>) -> (front: Seq<char>)
    ensures
        s == front + drop_leading(s, set),
        made_of(front, set),
        drop_leading(s, set).len() > 0 ==> !set.contains(drop_leading(s, set)[0]),
    decreases s.len(),
{
    if s.len() > 0 && set.contains(s[0]) {
        let rest = lemma_leading_part(s.drop_first(), set);
        assert(s == seq![s[0]] + s.drop_first());
        assert(s == seq![s[0]] + rest + drop_leading(s, set));
        seq![s[0]] + rest
    } else {
        assert(s == Seq::<char>::empty() + s);
        Seq::empty()
    }
}

proof fn lemma_trailing_part(s: Seq<char>, set: Seq<char>) -> (back: Seq<char>)
    ensures
        s == drop_trailing(s, set) + back,
        made_of(back, set),
        drop_trailing(s, set).len() > 0 ==> !set.contains(drop_trailing(s, set).last()),
    decreases s.len(),
{
    if s.len() > 0 && set.contains(s.last()) {
        let rest = lemma_trailing_part(s.drop_last(), set);
        assert(s == s.drop_last().push(s.last()));
        assert(s == drop_trailing(s, set) + rest.push(s.last()));
        rest.push(s.last())
    } else {
        assert(s == s + Seq::<char>::empty());
        Seq::empty()
    }
}

/// A text is cut at the first separator, which goes into neither part; a text
/// without one is not cut.
pub proof fn law_cut_is_at_the_first_separator(front: Seq<char>, c: char, rest: Seq<char>)
    requires
        !front.contains(c),
    ensures
        cut(front + seq![c] + rest, c) == Some((front, rest)),
        before(front + seq![c] + rest, c) == front,
        cut(front, c) is None,
        before(front, c) == front,
{
    let s = front + seq![c] + rest;
    assert(s[front.len() as int] == c);
    assert forall|k: int| 0 <= k < front.len() implies s[k] != c by {
        assert(s[k] == front[k]);
    }
    assert(first_at(s, c, front.len() as int));
    lemma_cut_at(s, c, front.len() as int);
    assert(s.take(front.len() as int) == front);
    assert(s.skip(front.len() as int + 1) == rest);
    lemma_cut_none(front, c);
}

/// The parts of a text that is cut make up the text again.
pub proof fn law_cut_loses_nothing(s: Seq<char>, c: char)
    ensures
        (match cut(s, c) {
            Some((front, rest)) => !front.contains(c) && s == front + seq![c] + rest,
            None => !s.contains(c),
        }),
{
    if exists|i: int| first_at(s, c, i) {
        let i = choose|i: int| first_at(s, c, i);
        assert(s == s.take(i) + seq![c] + s.skip(i + 1));
        if s.take(i).contains(c) {
            let k = choose|k: int| 0 <= k < i && s.take(i)[k] == c;
            assert(s[k] == c);
        }
    } else if s.contains(c) {
        lemma_first_at(s, c, s.index_of(c));
    }
}

proof fn lemma_first_at(s: Seq<char>, c: char, k: int)
    requires
        0 <= k < s.len(),
        s[k] == c,
    ensures
        exists|i: int| first_at(s, c, i),
    decreases k,
{
    if exists|j: int| 0 <= j < k && s[j] == c {
        let j = choose|j: int| 0 <= j < k && s[j] == c;
        lemma_first_at(s, c, j);
    } else {
        assert(first_at(s, c, k));
    }
}

/// A text without white space is one word; a text without any characters has none.
pub proof fn law_solid_text_is_a_word(s: Seq<char>)
    requires
        is_solid(s),
    ensures
        words(s) == if s.len() == 0 {
            Seq::<Seq<char>>::empty()
        } else {
            seq![s]
        },
    decreases s.len(),
{
    if s.len() > 0 {
        law_white_space_is_that_of_unicode(s.last());
        let front = s.drop_last();
        assert forall|i: int| 0 <= i < front.len() implies !is_space(#[trigger] front[i]) by {
            assert(front[i] == s[i]);
        }
        law_solid_text_is_a_word(front);
        if s.len() > 1 {
            law_white_space_is_that_of_unicode(s[s.len() - 2]);
            assert(front.push(s.last()) == s);
            assert(words(s) == words(front).drop_last().push(words(front).last().push(s.last())));
            assert(words(s) == seq![s]);
        } else {
            assert(s == seq![s.last()]);
            assert(words(s) == seq![s]);
        }
    }
}

/// White space anywhere in a text parts its words: they are the words before it
/// and then the words behind it.
pub proof fn law_white_space_parts_words(a: Seq<char>, c: char, b: Seq<char>)
    requires
        is_space(c),
    ensures
        words(a + seq![c] + b) == words(a) + words(b),
    decreases b.len(),
{
    let s = a + seq![c] + b;
    law_white_space_is_that_of_unicode(c);
    if b.len() == 0 {
        assert(s.drop_last() == a);
        assert(s.last() == c);
        assert(words(s) == words(a) + words(b));
    } else {
        let front = b.drop_last();
        assert(s.drop_last() == a + seq![c] + front);
        assert(s.last() == b.last());
        law_white_space_parts_words(a, c, front);
        if b.len() == 1 {
            assert(s[s.len() - 2] == c);
        } else {
            assert(s[s.len() - 2] == b[b.len() - 2]);
            if !white_space().contains(b.last()) && !white_space().contains(b[b.len() - 2]) {
                lemma_open_word(front);
                let early = words(a) + words(front);
                assert(early.last() == words(front).last());
                assert(early.drop_last() == words(a) + words(front).drop_last());
            }
        }
        assert(words(s) == words(a) + words(b));
    }
}

proof fn lemma_open_word(s: Seq<char>)
    requires
        s.len() > 0,
        !white_space().contains(s.last()),
    ensures
        words(s).len() > 0,
    decreases s.len(),
{
}

/// White space before and behind a text adds no word.
pub proof fn law_outer_white_space_adds_no_word(front: Seq<char>, s: Seq<char>, back: Seq<char>)
    requires
        is_blank(front),
        is_blank(back),
    ensures
        words(front + s + back) == words(s),
    decreases front.len() + back.len(),
{
    let none = Seq::<char>::empty();
    if front.len() > 0 {
        let rest = front.drop_first();
        law_outer_white_space_adds_no_word(rest, s, back);
        law_white_space_parts_words(none, front[0], rest + s + back);
        assert(front + s + back == none + seq![front[0]] + (rest + s + back));
        assert(words(none) + words(s) == words(s));
    } else if back.len() > 0 {
        let rest = back.drop_last();
        law_outer_white_space_adds_no_word(front, s, rest);
        law_white_space_parts_words(front + s + rest, back.last(), none);
        assert(front + s + back == (front + s + rest) + seq![back.last()] + none);
        assert(words(s) + words(none) == words(s));
    } else {
        assert(front + s + back == s);
    }
}

/// Two words are told apart by the white space between them, whatever stands
/// around them.
pub proof fn law_two_words_are_told_apart(
    front: Seq<char>,
    first: Seq<char>,
    gap: Seq<char>,
    second: Seq<char>,
    back: Seq<char>,
)
    requires
        is_blank(front),
        is_blank(gap),
        is_blank(back),
        gap.len() > 0,
        is_solid(first),
        is_solid(second),
        first.len() > 0,
        second.len() > 0,
    ensures
        words(front + first + gap + second + back) == seq![first, second],
{
    let none = Seq::<char>::empty();
    let value = front + first + gap + second + back;
    let rest = gap.drop_first();
    assert forall|i: int| 0 <= i < rest.len() implies is_space(#[trigger] rest[i]) by {
        assert(rest[i] == gap[i + 1]);
    }
    assert(is_space(gap[0]));
    law_white_space_parts_words(front + first, gap[0], rest + second + back);
    assert(value == (front + first) + seq![gap[0]] + (rest + second + back));
    law_outer_white_space_adds_no_word(front, first, none);
    assert(front + first + none == front + first);
    law_outer_white_space_adds_no_word(rest, second, back);
    law_solid_text_is_a_word(first);
    law_solid_text_is_a_word(second);
    assert(seq![first] + seq![second] == seq![first, second]);
}

/// The digits of a number write that number, without a sign and without a zero
/// in front.
pub proof fn law_digits_write_the_number(n: nat)
    ensures
        decimal(digits_of(n)) == n,
        all_digits(digits_of(n)),
        digits_of(n).len() > 0,
        digits_of(n).len() > 1 ==> digits_of(n)[0] != '0',
        n > 0 ==> digits_of(n)[0] != '0',
    decreases n,
{
    let s = digits_of(n);
    if n < 10 {
        assert(s.drop_last() == Seq::<char>::empty());
        assert(decimal(s.drop_last()) == 0);
    } else {
        law_digits_write_the_number(n / 10);
        assert(s.drop_last() == digits_of(n / 10));
        assert(s[0] == digits_of(n / 10)[0]);
    }
}

/// Digits that write a number are the digits of the number, after any zeros.
pub proof fn law_numbers_have_one_text(s: Seq<char>) -> (zeros: Seq<char>)
    requires
        all_digits(s),
        s.len() > 0,
    ensures
        s == zeros + digits_of(decimal(s)),
        forall|i: int| 0 <= i < zeros.len() ==> #[trigger] zeros[i] == '0',
    decreases s.len(),
{
    let front = s.drop_last();
    let d = (s.last() as nat - '0' as nat) as nat;
    assert('0' <= s[s.len() - 1] <= '9');
    assert(s == front.push(s.last()));
    if front.len() == 0 {
        assert(decimal(front) == 0);
        assert(s == Seq::<char>::empty() + digits_of(decimal(s)));
        Seq::empty()
    } else {
        assert forall|i: int| 0 <= i < front.len() implies '0' <= #[trigger] front[i] <= '9' by {
            assert(front[i] == s[i]);
        }
        let zeros = law_numbers_have_one_text(front);
        if decimal(front) == 0 {
            assert(digits_of(0) == seq!['0']);
            assert(s == front + digits_of(decimal(s)));
            front
        } else {
            assert(decimal(s) / 10 == decimal(front));
            assert(decimal(s) % 10 == d);
            assert(s == zeros + digits_of(decimal(s)));
            zeros
        }
    }
}

proof fn lemma_leading_zeros(zeros: Seq<char>, s: Seq<char>)
    requires
        forall|i: int| 0 <= i < zeros.len() ==> #[trigger] zeros[i] == '0',
        all_digits(s),
    ensures
        decimal(zeros + s) == decimal(s),
        all_digits(zeros + s),
    decreases s.len() + zeros.len(),
{
    let all = zeros + s;
    assert forall|i: int| 0 <= i < all.len() implies '0' <= #[trigger] all[i] <= '9' by {
        if i < zeros.len() {
            assert(all[i] == zeros[i]);
        } else {
            assert(all[i] == s[i - zeros.len()]);
        }
    }
    if s.len() > 0 {
        assert(all.drop_last() == zeros + s.drop_last());
        assert(all.last() == s.last());
        assert forall|i: int| 0 <= i < s.drop_last().len() implies '0'
            <= #[trigger] s.drop_last()[i] <= '9' by {
            assert(s.drop_last()[i] == s[i]);
        }
        lemma_leading_zeros(zeros, s.drop_last());
    } else if zeros.len() > 0 {
        assert(all.drop_last() == zeros.drop_last() + s);
        assert(all.last() == zeros[zeros.len() - 1]);
        lemma_leading_zeros(zeros.drop_last(), s);
    }
}

/// A 16-bit number is read back from its digits, whatever zeros stand in front
/// and whether or not a plus sign stands before these; a larger number is not read.
pub proof fn law_numbers_are_read_back(zeros: Seq<char>, n: nat)
    requires
        forall|i: int| 0 <= i < zeros.len() ==> #[trigger] zeros[i] == '0',
    ensures
        n <= 65_535 ==> u16_of(digits_of(n)) == Some(n as u16),
        n <= 65_535 ==> u16_of(zeros + digits_of(n)) == Some(n as u16),
        n <= 65_535 ==> u16_of(seq!['+'] + zeros + digits_of(n)) == Some(n as u16),
        n > 65_535 ==> u16_of(zeros + digits_of(n)) is None,
        n > 65_535 ==> u16_of(seq!['+'] + zeros + digits_of(n)) is None,
{
    law_digits_write_the_number(n);
    lemma_leading_zeros(zeros, digits_of(n));
    let s = zeros + digits_of(n);
    assert('0' <= s[0] <= '9');
    assert('0' <= digits_of(n)[0] <= '9');
    let signed = seq!['+'] + zeros + digits_of(n);
    assert(signed[0] == '+');
    assert(signed.skip(1) == s);
}

/// Nothing but digits, with at most one plus sign in front, is read as a number.
pub proof fn law_only_numbers_are_read(s: Seq<char>, n: u16)
    requires
        u16_of(s) == Some(n),
    ensures
        exists|sign: Seq<char>, zeros: Seq<char>|
            (sign.len() == 0 || sign == seq!['+']) && (forall|i: int|
                0 <= i < zeros.len() ==> #[trigger] zeros[i] == '0') && s == #[trigger] (sign
                + zeros + digits_of(n as nat)),
{
    if s[0] == '+' {
        let digits = s.skip(1);
        let zeros = law_numbers_have_one_text(digits);
        assert(s == seq!['+'] + digits);
        assert(s == seq!['+'] + zeros + digits_of(n as nat));
    } else {
        let zeros = law_numbers_have_one_text(s);
        assert(s == Seq::<char>::empty() + zeros + digits_of(n as nat));
    }
}

/// An octet is read back from its digits, and from no other text.
pub proof fn law_octets_are_read_back(s: Seq<char>, o: u8)
    ensures
        octet_of(s) == Some(o) <==> s == digits_of(o as nat),
{
    law_digits_write_the_number(o as nat);
    if octet_of(s) == Some(o) {
        let zeros = law_numbers_have_one_text(s);
        if zeros.len() > 0 {
            assert(s[0] == zeros[0]);
            assert(s.len() > 1);
        }
        assert(zeros + digits_of(o as nat) == digits_of(o as nat));
    }
    assert(digits_of(o as nat).len() <= 3) by {
        reveal_with_fuel(digits_of, 4);
    }
}

/// Making letters small keeps the length, takes each of `A` to `Z` to its small
/// letter and keeps every other character.
pub proof fn law_only_capital_letters_change(s: Seq<char>, i: int)
    requires
        0 <= i < s.len(),
    ensures
        ascii_lower(s).len() == s.len(),
        0x41 <= s[i] as u32 <= 0x5A ==> ascii_lower(s)[i] as u32 == s[i] as u32 + 0x20,
        !(0x41 <= s[i] as u32 <= 0x5A) ==> ascii_lower(s)[i] == s[i],
{
}

/// Small letters stay as they are.
pub proof fn law_small_letters_stay(s: Seq<char>)
    ensures
        ascii_lower(ascii_lower(s)) == ascii_lower(s),
        (forall|i: int| 0 <= i < s.len() ==> !('A' <= #[trigger] s[i] <= 'Z')) ==> ascii_lower(s)
            == s,
{
    assert forall|i: int| 0 <= i < s.len() implies ascii_lower(ascii_lower(s))[i] == ascii_lower(
        s,
    )[i] by {
        law_only_capital_letters_change(s, i);
        law_only_capital_letters_change(ascii_lower(s), i);
    }
    assert(ascii_lower(ascii_lower(s)) == ascii_lower(s));
    if forall|i: int| 0 <= i < s.len() ==> !('A' <= #[trigger] s[i] <= 'Z') {
        assert(ascii_lower(s) == s);
    }
}

/// The first character in which two texts differ decides their order, and a
/// text stands before all that it begins.
pub proof fn law_first_difference_decides(common: Seq<char>, a: Seq<char>, b: Seq<char>)
    ensures
        a.len() > 0 && b.len() > 0 && a[0] != b[0] ==> (precedes(common + a, common + b)
            <==> a[0] < b[0]),
        b.len() > 0 ==> precedes(common, common + b),
        !precedes(common + a, common),
    decreases common.len(),
{
    if common.len() == 0 {
        assert(common + a == a);
        assert(common + b == b);
    } else {
        let rest = common.drop_first();
        law_first_difference_decides(rest, a, b);
        assert((common + a).drop_first() == rest + a);
        assert((common + b).drop_first() == rest + b);
        assert((common + a)[0] == common[0]);
        assert((common + b)[0] == common[0]);
    }
}

} // verus!
