//! Operations on text that the standard library performs.

use vstd::prelude::*;

verus! {

/// Whether two strings hold the same characters.
///
/// Calls `==` on `str`, which compares the characters.
#[verifier::external_body]
pub(crate) fn same_text(a: &str, b: &str) -> (r: bool)
    ensures
        r == (a@ == b@),
{
    a == b
}

/// Whether `a` comes before `b` in the order of their characters' code
/// points, a proper prefix coming first.
pub open spec fn text_precedes(a: Seq<char>, b: Seq<char>) -> bool
    decreases a.len(),
{
    if a.len() == 0 {
        b.len() > 0
    } else if b.len() == 0 {
        false
    } else if a[0] != b[0] {
        (a[0] as u32) < (b[0] as u32)
    } else {
        text_precedes(a.drop_first(), b.drop_first())
    }
}

/// Whether `a` sorts before `b`.
///
/// Calls `<` on `str`, which compares the UTF-8 bytes lexicographically; as
/// UTF-8 keeps the order of code points, that is the order of the
/// characters' code points, a proper prefix coming first.
#[verifier::external_body]
pub(crate) fn precedes(a: &str, b: &str) -> (r: bool)
    ensures
        r == text_precedes(a@, b@),
{
    a < b
}

/// `s` without the prefix `p`, when `s` starts with it.
///
/// Calls `str::strip_prefix`, which returns the rest of the string after the
/// prefix, or `None` when the string does not start with it.
#[verifier::external_body]
pub(crate) fn strip_prefix<'a>(s: &'a str, p: &str) -> (r: Option<&'a str>)
    ensures
        match r {
            Some(rest) => p@.len() <= s@.len() && s@.take(p@.len() as int) == p@ && rest@ == s@.skip(p@.len() as int),
            None => !(p@.len() <= s@.len() && s@.take(p@.len() as int) == p@),
        },
{
    s.strip_prefix(p)
}

/// Whether a character ends a line: a carriage return or a line feed.
pub open spec fn is_line_break(c: char) -> bool {
    c == '\r' || c == '\n'
}

/// `s` without its trailing carriage returns and line feeds.
pub open spec fn trim_line_breaks(s: Seq<char>) -> Seq<char>
    decreases s.len(),
{
    if s.len() > 0 && is_line_break(s.last()) {
        trim_line_breaks(s.drop_last())
    } else {
        s
    }
}

/// `s` without trailing `'\r'` and `'\n'` characters.
///
/// Calls `str::trim_end_matches` with the two characters as the pattern,
/// which removes every trailing character that is one of them.
#[verifier::external_body]
pub(crate) fn trim_end_line_breaks(s: &str) -> (r: &str)
    ensures
        r@ == trim_line_breaks(s@),
{
    s.trim_end_matches(['\r', '\n'])
}

/// The characters `char::is_whitespace` accepts: Unicode's `White_Space`.
pub open spec fn is_white_space(c: char) -> bool {
    ||| '\u{9}' <= c <= '\u{d}'
    ||| c == ' '
    ||| c == '\u{85}'
    ||| c == '\u{a0}'
    ||| c == '\u{1680}'
    ||| '\u{2000}' <= c <= '\u{200a}'
    ||| c == '\u{2028}'
    ||| c == '\u{2029}'
    ||| c == '\u{202f}'
    ||| c == '\u{205f}'
    ||| c == '\u{3000}'
}

/// `s` without trailing white space.
pub open spec fn trim_end_white(s: Seq<char>) -> Seq<char>
    decreases s.len(),
{
    if s.len() > 0 && is_white_space(s.last()) {
        trim_end_white(s.drop_last())
    } else {
        s
    }
}

/// `s` without leading white space.
pub open spec fn trim_start_white(s: Seq<char>) -> Seq<char>
    decreases s.len(),
{
    if s.len() > 0 && is_white_space(s[0]) {
        trim_start_white(s.drop_first())
    } else {
        s
    }
}

/// `s` without leading and trailing white space.
///
/// Calls `str::trim`, which removes leading and trailing characters with the
/// `White_Space` property.
#[verifier::external_body]
pub(crate) fn trim(s: &str) -> (r: &str)
    ensures
        r@ == trim_start_white(trim_end_white(s@)),
{
    s.trim()
}

/// How many characters come before the first `'\n'` of `s`, or all of them.
pub open spec fn line_length(s: Seq<char>) -> nat
    decreases s.len(),
{
    if s.len() == 0 || s[0] == '\n' {
        0
    } else {
        1 + line_length(s.drop_first())
    }
}

/// A line is never longer than the text it starts.
pub proof fn lemma_line_length(s: Seq<char>)
    ensures
        line_length(s) <= s.len(),
        line_length(s) < s.len() ==> s[line_length(s) as int] == '\n',
    decreases s.len(),
{
    if s.len() > 0 && s[0] != '\n' {
        lemma_line_length(s.drop_first());
    }
}

/// The lines of a text: split at `'\n'`, a line that a line feed ends
/// losing one `'\r'` just before it, and no empty last line after a final
/// line feed.
pub open spec fn split_lines(s: Seq<char>) -> Seq<Seq<char>>
    decreases s.len(),
{
    if s.len() == 0 {
        Seq::empty()
    } else {
        let n = line_length(s);
        proof {
            lemma_line_length(s);
        }
        if n < s.len() {
            seq![drop_carriage_return(s.take(n as int))] + split_lines(s.skip(n as int + 1))
        } else {
            seq![s]
        }
    }
}

/// A line without one trailing `'\r'`.
pub open spec fn drop_carriage_return(line: Seq<char>) -> Seq<char> {
    if line.len() > 0 && line.last() == '\r' {
        line.drop_last()
    } else {
        line
    }
}

/// The lines of `s`.
///
/// Calls `str::lines`, which splits at line feeds, drops one carriage
/// return before each, and yields no empty line after a final line feed. A
/// carriage return that ends the text stays in its last line.
#[verifier::external_body]
pub(crate) fn lines(s: &str) -> (r: Vec<&str>)
    ensures
        r@.len() == split_lines(s@).len(),
        forall|i: int| 0 <= i < r@.len() ==> #[trigger] r@[i]@ == split_lines(s@)[i],
{
    s.lines().collect()
}

} // verus!
