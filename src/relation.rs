use vstd::prelude::*;

verus! {

/// The text that `String::from_utf8_lossy` makes of the bytes `b`.
pub uninterp spec fn lossy_text(b: Seq<u8>) -> Seq<char>;

/// Relies on `String::from_utf8_lossy`, which decodes `b` as UTF-8 and puts
/// U+FFFD in place of each invalid sequence: the text depends on the bytes
/// alone, and no bytes give no text.
#[verifier::external_body]
pub(crate) fn decode_lossy(b: &[u8]) -> (r: Vec<char>)
    ensures
        r@ == lossy_text(b@),
        b@.len() == 0 ==> r@.len() == 0,
{
    String::from_utf8_lossy(b).chars().collect()
}

/// `t` stands in `s` from position `i` on.
pub open spec fn occurs_at<A>(s: Seq<A>, t: Seq<A>, i: int) -> bool {
    0 <= i && i + t.len() <= s.len() && s.subrange(i, i + t.len()) == t
}

/// `t` stands in `s` from position `i` on, and is bounded on each side by
/// the end of `s` or by Unicode white space.
pub open spec fn word_at(s: Seq<char>, t: Seq<char>, i: int) -> bool {
    &&& occurs_at(s, t, i)
    &&& (i == 0 || is_space(s[i - 1]))
    &&& (i + t.len() == s.len() || is_space(s[i + t.len()]))
}

/// `t` is one of the words that splitting `s` at Unicode white space leaves,
/// empty words dropped.
pub open spec fn is_word(s: Seq<char>, t: Seq<char>) -> bool {
    &&& t.len() > 0
    &&& forall|j: int| 0 <= j < t.len() ==> !is_space(#[trigger] t[j])
    &&& exists|i: int| word_at(s, t, i)
}

/// `t` stands in `s` from position `i` on, and is bounded on each side by
/// the end of `s` or by ASCII white space.
pub open spec fn ascii_word_at(s: Seq<u8>, t: Seq<u8>, i: int) -> bool {
    &&& occurs_at(s, t, i)
    &&& (i == 0 || is_ascii_space(s[i - 1]))
    &&& (i + t.len() == s.len() || is_ascii_space(s[i + t.len()]))
}

/// `t` is one of the words that splitting `s` at ASCII white space leaves,
/// empty words dropped.
pub open spec fn is_ascii_word(s: Seq<u8>, t: Seq<u8>) -> bool {
    &&& t.len() > 0
    &&& forall|j: int| 0 <= j < t.len() ==> !is_ascii_space(#[trigger] t[j])
    &&& exists|i: int| ascii_word_at(s, t, i)
}

/// Unicode white space, as `char::is_whitespace` has it.
pub open spec fn is_space(c: char) -> bool {
    let u = c as u32;
    ||| 0x09 <= u <= 0x0d
    ||| u == 0x20
    ||| u == 0x85
    ||| u == 0xa0
    ||| u == 0x1680
    ||| 0x2000 <= u <= 0x200a
    ||| u == 0x2028
    ||| u == 0x2029
    ||| u == 0x202f
    ||| u == 0x205f
    ||| u == 0x3000
}

/// ASCII white space, as `u8::is_ascii_whitespace` has it.
pub open spec fn is_ascii_space(b: u8) -> bool {
    b == 0x20 || b == 0x09 || b == 0x0a || b == 0x0c || b == 0x0d
}

/// Whether `c` is Unicode white space.
pub fn char_is_space(c: char) -> (r: bool)
    ensures
        r == is_space(c),
{
    let u = c as u32;
    (0x09 <= u && u <= 0x0d) || u == 0x20 || u == 0x85 || u == 0xa0 || u == 0x1680 || (0x2000
        <= u && u <= 0x200a) || u == 0x2028 || u == 0x2029 || u == 0x202f || u == 0x205f || u
        == 0x3000
}

/// Whether `b` is ASCII white space.
pub fn byte_is_space(b: u8) -> (r: bool)
    ensures
        r == is_ascii_space(b),
{
    b == 0x20 || b == 0x09 || b == 0x0a || b == 0x0c || b == 0x0d
}

/// Whether the characters `t` stand in `s` from position `i` on.
fn chars_at(s: &[char], t: &[char], i: usize) -> (r: bool)
    ensures
        r == occurs_at(s@, t@, i as int),
{
    if t.len() > s.len() || i > s.len() - t.len() {
        return false;
    }
    let n = s.len();
    let mut k: usize = 0;
    while k < t.len()
        invariant
            n == s@.len(),
            i + t@.len() <= s@.len(),
            k <= t@.len(),
            forall|j: int| 0 <= j < k ==> s@[i + j] == t@[j],
        decreases t@.len() - k,
    {
        if s[i + k] != t[k] {
            assert(s@.subrange(i as int, i + t@.len())[k as int] != t@[k as int]);
            return false;
        }
        k = k + 1;
    }
    assert(s@.subrange(i as int, i + t@.len()) =~= t@);
    true
}

/// Whether the bytes `t` stand in `s` from position `i` on.
fn bytes_at(s: &[u8], t: &[u8], i: usize) -> (r: bool)
    ensures
        r == occurs_at(s@, t@, i as int),
{
    if t.len() > s.len() || i > s.len() - t.len() {
        return false;
    }
    let n = s.len();
    let mut k: usize = 0;
    while k < t.len()
        invariant
            n == s@.len(),
            i + t@.len() <= s@.len(),
            k <= t@.len(),
            forall|j: int| 0 <= j < k ==> s@[i + j] == t@[j],
        decreases t@.len() - k,
    {
        if s[i + k] != t[k] {
            assert(s@.subrange(i as int, i + t@.len())[k as int] != t@[k as int]);
            return false;
        }
        k = k + 1;
    }
    assert(s@.subrange(i as int, i + t@.len()) =~= t@);
    true
}

/// Whether the characters `t` stand somewhere in `s`.
fn contains_chars(s: &[char], t: &[char]) -> (r: bool)
    ensures
        r == exists|i: int| occurs_at(s@, t@, i),
{
    if t.len() > s.len() {
        return false;
    }
    let last = s.len() - t.len();
    let mut i: usize = 0;
    while i <= last
        invariant
            i <= last,
            last == s@.len() - t@.len(),
            forall|k: int| 0 <= k < i ==> !occurs_at(s@, t@, k),
        decreases last - i,
    {
        if chars_at(s, t, i) {
            assert(occurs_at(s@, t@, i as int));
            return true;
        }
        if i == last {
            assert forall|k: int| !occurs_at(s@, t@, k) by {
                if 0 <= k < i {
                }
            }
            return false;
        }
        i = i + 1;
    }
    false
}

/// Whether `t` is one of the words of `s`, words being separated by Unicode
/// white space.
pub fn has_word(s: &[char], t: &[char]) -> (r: bool)
    ensures
        r == is_word(s@, t@),
{
    if t.len() == 0 {
        return false;
    }
    let mut j: usize = 0;
    while j < t.len()
        invariant
            j <= t@.len(),
            forall|k: int| 0 <= k < j ==> !is_space(#[trigger] t@[k]),
        decreases t@.len() - j,
    {
        if char_is_space(t[j]) {
            assert(!(forall|k: int| 0 <= k < t@.len() ==> !is_space(#[trigger] t@[k])));
            return false;
        }
        j = j + 1;
    }
    if t.len() > s.len() {
        return false;
    }
    let last = s.len() - t.len();
    let mut i: usize = 0;
    while i <= last
        invariant
            i <= last,
            t@.len() > 0,
            last == s@.len() - t@.len(),
            forall|k: int| 0 <= k < t@.len() ==> !is_space(#[trigger] t@[k]),
            forall|k: int| 0 <= k < i ==> !word_at(s@, t@, k),
        decreases last - i,
    {
        let starts = i == 0 || char_is_space(s[i - 1]);
        let ends = i == last || char_is_space(s[i + t.len()]);
        if starts && ends && chars_at(s, t, i) {
            assert(word_at(s@, t@, i as int));
            return true;
        }
        if i == last {
            return false;
        }
        i = i + 1;
    }
    false
}

/// Whether `t` is one of the words of `s`, words being separated by ASCII
/// white space.
pub fn has_ascii_word(s: &[u8], t: &[u8]) -> (r: bool)
    ensures
        r == is_ascii_word(s@, t@),
{
    if t.len() == 0 {
        return false;
    }
    let mut j: usize = 0;
    while j < t.len()
        invariant
            j <= t@.len(),
            forall|k: int| 0 <= k < j ==> !is_ascii_space(#[trigger] t@[k]),
        decreases t@.len() - j,
    {
        if byte_is_space(t[j]) {
            assert(!(forall|k: int| 0 <= k < t@.len() ==> !is_ascii_space(#[trigger] t@[k])));
            return false;
        }
        j = j + 1;
    }
    if t.len() > s.len() {
        return false;
    }
    let last = s.len() - t.len();
    let mut i: usize = 0;
    while i <= last
        invariant
            i <= last,
            t@.len() > 0,
            last == s@.len() - t@.len(),
            forall|k: int| 0 <= k < t@.len() ==> !is_ascii_space(#[trigger] t@[k]),
            forall|k: int| 0 <= k < i ==> !ascii_word_at(s@, t@, k),
        decreases last - i,
    {
        let starts = i == 0 || byte_is_space(s[i - 1]);
        let ends = i == last || byte_is_space(s[i + t.len()]);
        if starts && ends && bytes_at(s, t, i) {
            assert(ascii_word_at(s@, t@, i as int));
            return true;
        }
        if i == last {
            return false;
        }
        i = i + 1;
    }
    false
}

/// A relation between the text of an attribute's value and the text that a
/// selector gives.
#[derive(Debug, Clone, Copy, PartialEq, Eq, Structural)]
pub enum Relation {
    /// The value is the text.
    Equals,
    /// The value begins with the text.
    StartsWith,
    /// The value ends with the text.
    EndsWith,
    /// The text stands somewhere in the value.
    Contains,
    /// The text is one of the white-space separated words of the value.
    WhitespaceToken,
}

impl Relation {
    pub open spec fn holds(self, value: Seq<char>, text: Seq<char>) -> bool {
        match self {
            Relation::Equals => value == text,
            Relation::StartsWith => occurs_at(value, text, 0),
            Relation::EndsWith => occurs_at(value, text, value.len() - text.len()),
            Relation::Contains => exists|i: int| occurs_at(value, text, i),
            Relation::WhitespaceToken => is_word(value, text),
        }
    }

    /// Whether this relation holds between `value` and `text`.
    pub fn test(&self, value: &[char], text: &[char]) -> (r: bool)
        ensures
            r == self.holds(value@, text@),
    {
        match self {
            Relation::Equals => {
                let r = value.len() == text.len() && chars_at(value, text, 0);
                if r {
                    assert(value@ =~= value@.subrange(0, text@.len() as int));
                } else if value.len() == text.len() {
                    assert(value@.subrange(0, text@.len() as int) =~= value@);
                }
                r
            },
            Relation::StartsWith => chars_at(value, text, 0),
            Relation::EndsWith => {
                if text.len() > value.len() {
                    false
                } else {
                    chars_at(value, text, value.len() - text.len())
                }
            },
            Relation::Contains => contains_chars(value, text),
            Relation::WhitespaceToken => has_word(value, text),
        }
    }
}

} // verus!
