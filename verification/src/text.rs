//! Text that the tool prints or reads, where std decides the characters:
//! the quoted form of a string, letter case, white space and UTF-8.

use vstd::prelude::*;
use vstd::string::*;

verus! {

/// The characters that `{:?}` (the `Debug` form of `str`) prints for a
/// string: the string in double quotes, with escapes.
pub uninterp spec fn debug_text(s: Seq<char>) -> Seq<char>;

/// `format!("{:?}", s)`, the `Debug` form of a string slice. Its result is
/// named `debug_text` of the string; the escaping rules of std are not
/// written out.
#[verifier::external_body]
pub(crate) fn debug_quote(s: &str) -> (r: String)
    ensures
        r@ == debug_text(s@),
{
    format!("{:?}", s)
}

/// The characters that `{:?}` prints for the path that `s` names (the
/// `Debug` form of `std::path::Path`): the path in double quotes, with
/// escapes.
pub uninterp spec fn path_debug_text(s: Seq<char>) -> Seq<char>;

/// `format!("{:?}", Path::new(s))`, the `Debug` form of a path. Its result is
/// named `path_debug_text` of the string; the escaping rules of std are not
/// written out.
#[verifier::external_body]
pub(crate) fn path_debug_quote(s: &str) -> (r: String)
    ensures
        r@ == path_debug_text(s@),
{
    format!("{:?}", std::path::Path::new(s))
}

/// The lower-case form of a string, as `str::to_lowercase` gives it.
pub uninterp spec fn lowercase(s: Seq<char>) -> Seq<char>;

/// `str::to_lowercase`. Its result is named `lowercase` of the string; the
/// Unicode case mappings are not written out. The lower-case form of the
/// empty string is empty.
#[verifier::external_body]
pub(crate) fn to_lowercase(s: &str) -> (r: String)
    ensures
        r@ == lowercase(s@),
        s@.len() == 0 ==> r@.len() == 0,
{
    s.to_lowercase()
}

/// Whether a character has the Unicode `White_Space` property: the 25 code
/// points U+0009 to U+000D, U+0020, U+0085, U+00A0, U+1680, U+2000 to
/// U+200A, U+2028, U+2029, U+202F, U+205F and U+3000.
pub open spec fn whitespace(c: char) -> bool {
    let u = c as u32;
    ||| 0x09 <= u <= 0x0d
    ||| u == 0x20
    ||| u == 0x85
    ||| u == 0xa0
    ||| u == 0x1680
    ||| 0x2000 <= u <= 0x200a
    ||| u == 0x2028
    ||| u == 0x2029
    ||| u == 0x202f
    ||| u == 0x205f
    ||| u == 0x3000
}

/// Whether a character is white space, as `char::is_whitespace` tells: it
/// has the Unicode `White_Space` property that `whitespace` lists.
pub fn is_whitespace(c: char) -> (r: bool)
    ensures
        r == whitespace(c),
{
    let u = c as u32;
    (0x09 <= u && u <= 0x0d) || u == 0x20 || u == 0x85 || u == 0xa0 || u == 0x1680
        || (0x2000 <= u && u <= 0x200a) || u == 0x2028 || u == 0x2029 || u == 0x202f || u == 0x205f
        || u == 0x3000
}

/// `String::from_utf8`: the text that the bytes encode, where they are valid
/// UTF-8, and `None` elsewhere (the error is dropped).
#[verifier::external_body]
pub(crate) fn decode_utf8(bytes: Vec<u8>) -> (r: Option<String>)
    ensures
        r is Some == vstd::utf8::valid_utf8(bytes@),
        r matches Some(s) ==> s@ == vstd::utf8::decode_utf8(bytes@),
{
    match String::from_utf8(bytes) {
        Ok(s) => Some(s),
        Err(_) => None,
    }
}

/// The characters of `s` that are not white space, in order.
pub open spec fn strip_whitespace(s: Seq<char>) -> Seq<char> {
    s.filter(|c: char| !whitespace(c))
}

/// Drops every white-space character of `s`.
pub fn without_whitespace(s: &str) -> (r: String)
    ensures
        r@ == strip_whitespace(s@),
{
    let n = s.unicode_len();
    let mut out = String::new();
    let mut i: usize = 0;
    while i < n
        invariant
            n == s@.len(),
            i <= n,
            out@ == strip_whitespace(s@.take(i as int)),
        decreases n - i,
    {
        let c = s.get_char(i);
        proof {
            reveal_with_fuel(Seq::filter, 1);
            assert(s@.take(i + 1).drop_last() == s@.take(i as int));
        }
        if !is_whitespace(c) {
            out.append(s.substring_char(i, i + 1));
            proof {
                assert(s@.subrange(i as int, i + 1) == seq![c]);
            }
        }
        i = i + 1;
    }
    assert(s@.take(n as int) == s@);
    out
}

/// `n` levels of indentation, two spaces each.
pub open spec fn indent(n: nat) -> Seq<char> {
    Seq::new(2 * n, |i: int| ' ')
}

/// The indentation for `n` levels.
pub fn indentation(n: usize) -> (r: String)
    ensures
        r@ == indent(n as nat),
{
    let mut out = String::new();
    let mut i: usize = 0;
    while i < n
        invariant
            i <= n,
            out@ == indent(i as nat),
        decreases n - i,
    {
        out.append("  ");
        proof {
            reveal_strlit("  ");
            assert(out@ =~= indent((i + 1) as nat));
        }
        i = i + 1;
    }
    out
}

/// `s` padded on the right with spaces to `width` characters, as `{:<width}`
/// prints it.
pub open spec fn pad_right(s: Seq<char>, width: nat) -> Seq<char> {
    if s.len() >= width {
        s
    } else {
        s + Seq::new((width - s.len()) as nat, |i: int| ' ')
    }
}

/// Pads `s` on the right with spaces to `width` characters.
pub fn padded(s: &str, width: usize) -> (r: String)
    ensures
        r@ == pad_right(s@, width as nat),
{
    let mut out = String::from_str(s);
    let mut len = s.unicode_len();
    if len >= width {
        return out;
    }
    while len < width
        invariant
            len <= width,
            s@.len() <= len,
            out@ == s@ + Seq::new((len - s@.len()) as nat, |i: int| ' '),
        decreases width - len,
    {
        out.append(" ");
        proof {
            reveal_strlit(" ");
            assert(out@ =~= s@ + Seq::new((len + 1 - s@.len()) as nat, |i: int| ' '));
        }
        len = len + 1;
    }
    out
}

} // verus!
