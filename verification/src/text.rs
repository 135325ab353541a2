//! Text helpers: most of them operations of the standard library on strings
//! that the engine relies on without proof.

use vstd::prelude::*;

verus! {

/// The lower-case form of a text, as `str::to_lowercase` gives it.
pub uninterp spec fn lowercase_of(s: Seq<char>) -> Seq<char>;

/// Whether `needle` occurs in `hay` as a run of consecutive characters.
pub open spec fn has_substring(hay: Seq<char>, needle: Seq<char>) -> bool {
    exists|i: int|
        0 <= i && i + needle.len() <= hay.len() && #[trigger] hay.subrange(i, i + needle.len())
            == needle
}

/// Whether a character is white space: one with the Unicode property
/// `White_Space`.
pub open spec fn is_white_space(c: char) -> bool {
    let n = c as u32;
    9 <= n <= 13 || n == 0x20 || n == 0x85 || n == 0xA0 || n == 0x1680 || 0x2000 <= n <= 0x200A
        || n == 0x2028 || n == 0x2029 || n == 0x202F || n == 0x205F || n == 0x3000
}

/// How many characters of white space a text begins with.
pub open spec fn leading_space(s: Seq<char>) -> nat
    decreases s.len(),
{
    if s.len() > 0 && is_white_space(s[0]) {
        1 + leading_space(s.drop_first())
    } else {
        0
    }
}

/// How many characters of white space a text ends with.
pub open spec fn trailing_space(s: Seq<char>) -> nat
    decreases s.len(),
{
    if s.len() > 0 && is_white_space(s.last()) {
        1 + trailing_space(s.drop_last())
    } else {
        0
    }
}

/// A text without the white space at its ends.
pub open spec fn trimmed_of(s: Seq<char>) -> Seq<char> {
    if leading_space(s) == s.len() {
        Seq::empty()
    } else {
        s.subrange(leading_space(s) as int, s.len() - trailing_space(s))
    }
}

/// `str::trim`: the text without its leading and trailing white space,
/// where white space is what the Unicode property `White_Space` says.
#[verifier::external_body]
pub(crate) fn trimmed(s: &str) -> (r: &str)
    ensures
        r@ == trimmed_of(s@),
{
    s.trim()
}

/// `std::str::from_utf8`: the text that bytes encode, if they are valid UTF-8.
#[verifier::external_body]
pub(crate) fn utf8_text(bytes: &[u8]) -> (r: Option<String>)
    ensures
        match r {
            Some(s) => vstd::utf8::valid_utf8(bytes@) && s@ == vstd::utf8::decode_utf8(bytes@),
            None => !vstd::utf8::valid_utf8(bytes@),
        },
{
    std::str::from_utf8(bytes).ok().map(|s| s.to_string())
}

/// `String::push`: appends one character to a text.
#[verifier::external_body]
pub(crate) fn push_char(s: &mut String, c: char)
    ensures
        final(s)@ == old(s)@.push(c),
{
    s.push(c);
}

/// Whether `head` is what comes before the first occurrence of `mark` in
/// `text`: the whole text if `mark` does not occur.
pub open spec fn is_head_of(head: Seq<char>, text: Seq<char>, mark: Seq<char>) -> bool {
    if has_substring(text, mark) {
        &&& head.len() + mark.len() <= text.len()
        &&& text.subrange(0, head.len() as int) == head
        &&& text.subrange(head.len() as int, (head.len() + mark.len()) as int) == mark
        &&& forall|i: int|
            0 <= i < head.len() && i + mark.len() <= text.len() ==> #[trigger] text.subrange(
                i,
                i + mark.len(),
            ) != mark
    } else {
        head == text
    }
}

/// `str::split_once` with a text as the delimiter, then the part before
/// it: what comes before the first occurrence of the mark, none if the mark
/// does not occur.
#[verifier::external_body]
fn before_first<'a>(text: &'a str, mark: &str) -> (head: Option<&'a str>)
    ensures
        match head {
            Some(h) => has_substring(text@, mark@) && is_head_of(h@, text@, mark@),
            None => !has_substring(text@, mark@),
        },
{
    text.split_once(mark).map(|parts| parts.0)
}

/// What comes before the first occurrence of `mark` in `text`: the whole
/// text if `mark` does not occur.
pub(crate) fn head_before<'a>(text: &'a str, mark: &str) -> (head: &'a str)
    ensures
        is_head_of(head@, text@, mark@),
{
    match before_first(text, mark) {
        Some(h) => h,
        None => text,
    }
}

/// Whether two texts hold the same characters.
pub(crate) fn same_text(a: &str, b: &str) -> (r: bool)
    ensures
        r == (a@ == b@),
{
    let x = a.to_owned();
    let y = b.to_owned();
    x == y
}

/// `str::to_lowercase`: the lower-case form of a text, which depends on the
/// text alone.
#[verifier::external_body]
pub(crate) fn lowercase(s: &str) -> (r: String)
    ensures
        r@ == lowercase_of(s@),
{
    s.to_lowercase()
}

/// `str::contains` with a text as the pattern: whether the pattern occurs
/// in the text.
#[verifier::external_body]
pub(crate) fn contains_text(hay: &str, needle: &str) -> (r: bool)
    ensures
        r == has_substring(hay@, needle@),
{
    hay.contains(needle)
}

} // verus!
