//! Character classes and string building shared by the validators.

use vstd::prelude::*;

verus! {

/// Relies on `String::push`: appends one character to the end of the string.
pub assume_specification[ String::push ](s: &mut String, ch: char)
    ensures
        final(s)@ == old(s)@.push(ch),
;

/// ASCII letters and digits.
pub open spec fn is_ascii_alnum(c: char) -> bool {
    ('a' <= c && c <= 'z') || ('A' <= c && c <= 'Z') || ('0' <= c && c <= '9')
}

/// The characters that survive message sanitization.
pub open spec fn is_message_char(c: char) -> bool {
    is_ascii_alnum(c) || c == ' ' || c == '.' || c == '-' || c == '_'
}

/// Executable form of [`is_message_char`].
pub fn message_char(c: char) -> (r: bool)
    ensures
        r == is_message_char(c),
{
    ('a' <= c && c <= 'z') || ('A' <= c && c <= 'Z') || ('0' <= c && c <= '9') || c == ' '
        || c == '.' || c == '-' || c == '_'
}

/// Whether `c` is alphanumeric in the Unicode sense of `char::is_alphanumeric`.
pub uninterp spec fn unicode_alphanumeric(c: char) -> bool;

/// Relies on `char::is_alphanumeric`: the answer depends on the character alone.
#[verifier::external_body]
pub fn alphanumeric_char(c: char) -> (r: bool)
    ensures
        r == unicode_alphanumeric(c),
{
    c.is_alphanumeric()
}

/// Whether `c` is white space in the Unicode sense of `char::is_whitespace`.
pub uninterp spec fn unicode_whitespace(c: char) -> bool;

/// Relies on `char::is_whitespace`: the answer depends on the character alone.
#[verifier::external_body]
pub fn whitespace_char(c: char) -> (r: bool)
    ensures
        r == unicode_whitespace(c),
{
    c.is_whitespace()
}

/// Whether `c` separates pieces: white space when `ws`, else the character `sep`.
pub open spec fn is_sep(ws: bool, sep: char, c: char) -> bool {
    if ws {
        unicode_whitespace(c)
    } else {
        c == sep
    }
}

/// Splits `p` at separators: the pieces completed so far, and the one still open.
pub open spec fn scan(p: Seq<char>, ws: bool, sep: char) -> (Seq<Seq<char>>, Seq<char>)
    decreases p.len(),
{
    if p.len() == 0 {
        (Seq::empty(), Seq::empty())
    } else {
        let (done, cur) = scan(p.drop_last(), ws, sep);
        if is_sep(ws, sep, p.last()) {
            if cur.len() == 0 {
                (done, cur)
            } else {
                (done.push(cur), Seq::empty())
            }
        } else {
            (done, cur.push(p.last()))
        }
    }
}

/// The non-empty runs of `p` between separators, in order.
pub open spec fn pieces(p: Seq<char>, ws: bool, sep: char) -> Seq<Seq<char>> {
    let (done, cur) = scan(p, ws, sep);
    if cur.len() == 0 {
        done
    } else {
        done.push(cur)
    }
}

/// The whitespace-separated words of `p`.
pub open spec fn words(p: Seq<char>) -> Seq<Seq<char>> {
    pieces(p, true, ' ')
}

/// The non-empty lines of `p`.
pub open spec fn lines(p: Seq<char>) -> Seq<Seq<char>> {
    pieces(p, false, '\n')
}

pub open spec fn views(v: Seq<String>) -> Seq<Seq<char>> {
    v.map_values(|s: String| s@)
}

/// Splits `text` into the non-empty runs between separators: white space when
/// `ws`, else the character `sep`.
pub fn split_pieces(text: &str, ws: bool, sep: char) -> (r: Vec<String>)
    ensures
        views(r@) == pieces(text@, ws, sep),
{
    let mut done: Vec<String> = Vec::new();
    let mut cur = String::new();
    let mut cur_open = false;
    for c in it: text.chars()
        invariant
            it.seq() == text@,
            (views(done@), cur@) == scan(text@.take(it.index() as int), ws, sep),
            cur_open == (cur@.len() > 0),
    {
        let ghost pre = text@.take(it.index() as int);
        proof {
            assert(text@.take(it.index() + 1).drop_last() == pre);
        }
        let at_sep = if ws {
            whitespace_char(c)
        } else {
            c == sep
        };
        if at_sep {
            if cur_open {
                let piece = cur;
                done.push(piece);
                cur = String::new();
                cur_open = false;
                proof {
                    assert(views(done@) == views(done@.drop_last()).push(piece@));
                }
            }
        } else {
            cur.push(c);
            cur_open = true;
        }
    }
    proof {
        assert(text@.take(text@.len() as int) == text@);
    }
    if cur_open {
        let ghost before = done@;
        done.push(cur);
        proof {
            assert(views(done@) == views(before).push(cur@));
        }
    }
    done
}

/// `s` begins with `prefix`.
pub open spec fn has_prefix(s: Seq<char>, prefix: Seq<char>) -> bool {
    prefix.len() <= s.len() && s.take(prefix.len() as int) == prefix
}

/// Executable form of [`has_prefix`].
pub fn starts_with_text(s: &str, prefix: &str) -> (r: bool)
    ensures
        r == has_prefix(s@, prefix@),
{
    let n = prefix.unicode_len();
    if n > s.unicode_len() {
        return false;
    }
    let mut i: usize = 0;
    while i < n
        invariant
            n == prefix@.len(),
            n <= s@.len(),
            i <= n,
            s@.take(i as int) == prefix@.take(i as int),
        decreases n - i,
    {
        if s.get_char(i) != prefix.get_char(i) {
            assert(s@.take(n as int)[i as int] != prefix@[i as int]);
            return false;
        }
        proof {
            assert(s@.take(i + 1) == s@.take(i as int).push(s@[i as int]));
            assert(prefix@.take(i + 1) == prefix@.take(i as int).push(prefix@[i as int]));
        }
        i = i + 1;
    }
    proof {
        assert(prefix@.take(n as int) == prefix@);
    }
    true
}

} // verus!
