//! Text as the protocol carries it: fixed 64-byte fields decoded as UTF-8,
//! with invalid sequences replaced and surrounding whitespace dropped.

use vstd::prelude::*;
use vstd::utf8::*;

verus! {

/// The characters that `String::from_utf8_lossy` decodes from `bytes`.
pub uninterp spec fn lossy_utf8_of(bytes: Seq<u8>) -> Seq<char>;

/// The characters with Unicode's White_Space property, by which `str::trim`
/// goes: U+0009 to U+000D, U+0020, U+0085, U+00A0, U+1680, U+2000 to
/// U+200A, U+2028, U+2029, U+202F, U+205F and U+3000.
pub open spec fn is_white_space(c: char) -> bool {
    let u = c as u32;
    ||| 0x09 <= u <= 0x0d
    ||| u == 0x20
    ||| u == 0x85
    ||| u == 0xa0
    ||| u == 0x1680
    ||| 0x2000 <= u <= 0x200a
    ||| u == 0x2028
    ||| u == 0x2029
    ||| u == 0x202f
    ||| u == 0x205f
    ||| u == 0x3000
}

/// `s` without its leading whitespace.
pub open spec fn trim_start(s: Seq<char>) -> Seq<char>
    decreases s.len(),
{
    if s.len() > 0 && is_white_space(s[0]) {
        trim_start(s.drop_first())
    } else {
        s
    }
}

/// `s` without its trailing whitespace.
pub open spec fn trim_end(s: Seq<char>) -> Seq<char>
    decreases s.len(),
{
    if s.len() > 0 && is_white_space(s.last()) {
        trim_end(s.drop_last())
    } else {
        s
    }
}

/// `s` without its leading and trailing whitespace.
pub open spec fn trimmed(s: Seq<char>) -> Seq<char> {
    trim_end(trim_start(s))
}

/// `n` spaces.
pub open spec fn spaces(n: nat) -> Seq<char> {
    Seq::new(n, |_i: int| ' ')
}

/// Trailing spaces go, and what ends in something else stays.
proof fn lemma_trim_end_padding(s: Seq<char>, n: nat)
    requires
        s.len() == 0 || !is_white_space(s.last()),
    ensures
        trim_end(s + spaces(n)) == s,
    decreases n,
{
    if n == 0 {
        assert(s + spaces(0) =~= s);
    } else {
        let t = s + spaces(n);
        assert(t.last() == ' ');
        assert(t.drop_last() =~= s + spaces((n - 1) as nat));
        lemma_trim_end_padding(s, (n - 1) as nat);
    }
}

/// Leading whitespace of spaces goes entirely.
proof fn lemma_trim_start_spaces(n: nat)
    ensures
        trim_start(spaces(n)) == Seq::<char>::empty(),
    decreases n,
{
    if n > 0 {
        assert(spaces(n).drop_first() =~= spaces((n - 1) as nat));
        lemma_trim_start_spaces((n - 1) as nat);
    }
}

/// A text padded with spaces, as the protocol pads its fields, trims back
/// to itself, when it neither starts nor ends with whitespace.
pub proof fn lemma_trim_padded(s: Seq<char>, n: nat)
    requires
        s.len() > 0 ==> !is_white_space(s[0]) && !is_white_space(s.last()),
    ensures
        trimmed(s + spaces(n)) == s,
{
    if s.len() == 0 {
        assert(s + spaces(n) =~= spaces(n));
        lemma_trim_start_spaces(n);
    } else {
        assert((s + spaces(n))[0] == s[0]);
        lemma_trim_end_padding(s, n);
    }
}

/// `String::from_utf8_lossy`, made owned: `bytes` decoded as UTF-8, each
/// invalid sequence replaced by U+FFFD.  Its documentation says that valid
/// UTF-8 comes back unchanged; that much is stated, the replacement itself
/// is left to the name `lossy_utf8_of`.
#[verifier::external_body]
pub(crate) fn lossy_utf8(bytes: &[u8]) -> (s: String)
    ensures
        s@ == lossy_utf8_of(bytes@),
        valid_utf8(bytes@) ==> s@ == decode_utf8(bytes@),
{
    String::from_utf8_lossy(bytes).into_owned()
}

/// `str::trim`: `s` without its leading and trailing whitespace, whitespace
/// being the characters with Unicode's White_Space property.
#[verifier::external_body]
pub(crate) fn trim(s: &str) -> (t: &str)
    ensures
        t@ == trimmed(s@),
{
    s.trim()
}

/// `s` decoded leniently from UTF-8 and trimmed: how the server reads the
/// 64-byte text fields of client packets that name something.
pub fn decode_name(bytes: &[u8]) -> (name: String)
    ensures
        name@ == trimmed(lossy_utf8_of(bytes@)),
{
    let decoded = lossy_utf8(bytes);
    let trimmed = trim(decoded.as_str());
    String::from_str(trimmed)
}

} // verus!
