//! Scanning text: lines, whitespace-separated tokens, prefixes and decimal
//! integers, each with the meaning that Rust's `str` gives them.

use crate::text::{occurs_at, push_char, string_from_chars};
use vstd::prelude::*;

verus! {

/// The pieces of `s` between line feeds, as `split('\n')` gives them: there
/// is always at least one piece, and a line feed at the end leaves an empty
/// last piece.
pub open spec fn newline_pieces(s: Seq<char>) -> Seq<Seq<char>>
    decreases s.len(),
{
    if s.len() == 0 {
        seq![Seq::empty()]
    } else {
        let p = newline_pieces(s.drop_last());
        if s.last() == '\n' {
            p.push(Seq::empty())
        } else {
            p.update(p.len() - 1, p.last().push(s.last()))
        }
    }
}

/// A line without the carriage return that ends it, if one does.
pub open spec fn strip_cr(line: Seq<char>) -> Seq<char> {
    if line.len() > 0 && line.last() == '\r' {
        line.drop_last()
    } else {
        line
    }
}

/// The lines of `s` as `str::lines` gives them: split at line feeds, a line
/// feed at the very end starts no further line, and a carriage return is
/// removed from the end of each line that a line feed ends.
#[verifier::opaque]
pub open spec fn lines(s: Seq<char>) -> Seq<Seq<char>> {
    if s.len() == 0 {
        Seq::empty()
    } else {
        let p = newline_pieces(s);
        if s.last() == '\n' {
            p.drop_last().map_values(|l: Seq<char>| strip_cr(l))
        } else {
            p.drop_last().map_values(|l: Seq<char>| strip_cr(l)).push(p.last())
        }
    }
}

/// There is always at least one piece between line feeds.
pub proof fn lemma_newline_pieces_nonempty(s: Seq<char>)
    ensures
        newline_pieces(s).len() >= 1,
    decreases s.len(),
{
    if s.len() > 0 {
        lemma_newline_pieces_nonempty(s.drop_last());
    }
}

/// Splits `v` into the pieces between line feeds.
pub fn split_newlines(v: &Vec<char>) -> (r: Vec<Vec<char>>)
    ensures
        r@.len() == newline_pieces(v@).len(),
        forall|i: int| 0 <= i < r@.len() ==> (#[trigger] r@[i])@ == newline_pieces(v@)[i],
{
    let mut done: Vec<Vec<char>> = Vec::new();
    let mut current: Vec<char> = Vec::new();
    let mut i: usize = 0;
    while i < v.len()
        invariant
            i <= v@.len(),
            newline_pieces(v@.take(i as int)).len() == done@.len() + 1,
            forall|k: int| 0 <= k < done@.len() ==> (#[trigger] done@[k])@ == newline_pieces(
                v@.take(i as int),
            )[k],
            current@ == newline_pieces(v@.take(i as int)).last(),
        decreases v.len() - i,
    {
        let c = v[i];
        assert(v@.take(i + 1).drop_last() =~= v@.take(i as int));
        assert(v@.take(i + 1).last() == c);
        if c == '\n' {
            let finished = current;
            done.push(finished);
            current = Vec::new();
        } else {
            current.push(c);
        }
        i = i + 1;
    }
    assert(v@.take(v@.len() as int) =~= v@);
    done.push(current);
    done
}

/// Whether `s` begins with `prefix`.
pub open spec fn starts_with(s: Seq<char>, prefix: Seq<char>) -> bool {
    prefix.len() <= s.len() && s.take(prefix.len() as int) == prefix
}

/// Whether `v` begins with `prefix`.
pub fn has_prefix(v: &Vec<char>, prefix: &Vec<char>) -> (r: bool)
    ensures
        r == starts_with(v@, prefix@),
{
    if prefix.len() > v.len() {
        return false;
    }
    let mut k: usize = 0;
    while k < prefix.len()
        invariant
            prefix@.len() <= v@.len(),
            k <= prefix@.len(),
            forall|j: int| 0 <= j < k ==> v@[j] == prefix@[j],
        decreases prefix.len() - k,
    {
        if v[k] != prefix[k] {
            assert(v@.take(prefix@.len() as int)[k as int] != prefix@[k as int]);
            return false;
        }
        k = k + 1;
    }
    assert(v@.take(prefix@.len() as int) =~= prefix@);
    true
}

/// Whether a character is white space in the sense of `char::is_whitespace`:
/// it has the Unicode `White_Space` property.
pub open spec fn is_white_space(c: char) -> bool {
    let u = c as u32;
    ||| 0x09 <= u <= 0x0d
    ||| u == 0x20
    ||| u == 0x85
    ||| u == 0xa0
    ||| u == 0x1680
    ||| 0x2000 <= u <= 0x200a
    ||| u == 0x2028
    ||| u == 0x2029
    ||| u == 0x202f
    ||| u == 0x205f
    ||| u == 0x3000
}

/// Whether a character has the Unicode `White_Space` property.
pub fn white_space(c: char) -> (r: bool)
    ensures
        r == is_white_space(c),
{
    let u = c as u32;
    (0x09 <= u && u <= 0x0d) || u == 0x20 || u == 0x85 || u == 0xa0 || u == 0x1680 || (0x2000 <= u
        && u <= 0x200a) || u == 0x2028 || u == 0x2029 || u == 0x202f || u == 0x205f || u == 0x3000
}

/// The non-empty runs of characters between white space, as
/// `str::split_whitespace` gives them.
pub open spec fn ws_tokens(s: Seq<char>) -> Seq<Seq<char>>
    decreases s.len(),
{
    if s.len() == 0 {
        Seq::empty()
    } else {
        let t = ws_tokens(s.drop_last());
        let c = s.last();
        if is_white_space(c) {
            t
        } else if s.len() >= 2 && !is_white_space(s[s.len() - 2]) {
            t.update(t.len() - 1, t.last().push(c))
        } else {
            t.push(seq![c])
        }
    }
}

proof fn lemma_ws_tokens_continue(s: Seq<char>)
    requires
        s.len() > 0,
        !is_white_space(s.last()),
    ensures
        ws_tokens(s).len() >= 1,
        ws_tokens(s).last().len() >= 1,
    decreases s.len(),
{
    let d = s.drop_last();
    if s.len() >= 2 && !is_white_space(s[s.len() - 2]) {
        assert(d.last() == s[s.len() - 2]);
        lemma_ws_tokens_continue(d);
    }
}

/// Splits `v` into its white-space-separated tokens.
pub fn split_white_space(v: &Vec<char>) -> (r: Vec<Vec<char>>)
    ensures
        r@.len() == ws_tokens(v@).len(),
        forall|i: int| 0 <= i < r@.len() ==> (#[trigger] r@[i])@ == ws_tokens(v@)[i],
{
    let mut done: Vec<Vec<char>> = Vec::new();
    let mut current: Vec<char> = Vec::new();
    let mut i: usize = 0;
    while i < v.len()
        invariant
            i <= v@.len(),
            current@.len() == 0 ==> ws_tokens(v@.take(i as int)).len() == done@.len(),
            current@.len() > 0 ==> ws_tokens(v@.take(i as int)).len() == done@.len() + 1
                && ws_tokens(v@.take(i as int)).last() == current@,
            current@.len() > 0 <==> (i > 0 && !is_white_space(v@[i - 1])),
            forall|k: int| 0 <= k < done@.len() ==> (#[trigger] done@[k])@ == ws_tokens(
                v@.take(i as int),
            )[k],
        decreases v.len() - i,
    {
        let c = v[i];
        let ghost prefix = v@.take(i + 1);
        assert(prefix.drop_last() =~= v@.take(i as int));
        assert(prefix.last() == c);
        if i > 0 {
            assert(prefix[prefix.len() - 2] == v@[i - 1]);
        }
        if white_space(c) {
            if current.len() > 0 {
                let finished = current;
                done.push(finished);
                current = Vec::new();
            }
        } else {
            if current.len() == 0 {
                current.push(c);
                assert(current@ =~= seq![c]);
            } else {
                current.push(c);
            }
        }
        i = i + 1;
    }
    assert(v@.take(v@.len() as int) =~= v@);
    if current.len() > 0 {
        done.push(current);
    }
    done
}

/// The value of a decimal digit character.
pub open spec fn digit_value(c: char) -> int {
    (c as u32) - 48
}

/// Whether a character is an ASCII decimal digit.
pub open spec fn is_digit(c: char) -> bool {
    48 <= c as u32 <= 57
}

/// Whether every character is an ASCII decimal digit.
pub open spec fn all_digits(s: Seq<char>) -> bool {
    forall|i: int| 0 <= i < s.len() ==> is_digit(#[trigger] s[i])
}

/// The number that decimal digits spell.
pub open spec fn digits_value(s: Seq<char>) -> nat
    decreases s.len(),
{
    if s.len() == 0 {
        0
    } else {
        (digits_value(s.drop_last()) * 10 + digit_value(s.last())) as nat
    }
}

/// The `i64` that text spells as `i64::from_str` reads it: an optional `+`
/// or `-` sign, then one or more ASCII digits, with a value in range.
pub open spec fn parse_i64_text(s: Seq<char>) -> Option<i64> {
    let negative = s.len() > 0 && s[0] == '-';
    let body = if s.len() > 0 && (s[0] == '-' || s[0] == '+') {
        s.skip(1)
    } else {
        s
    };
    if body.len() == 0 || !all_digits(body) {
        None
    } else {
        let v: int = if negative {
            -digits_value(body)
        } else {
            digits_value(body) as int
        };
        if i64::MIN <= v <= i64::MAX {
            Some(v as i64)
        } else {
            None
        }
    }
}

/// Reads a decimal `i64` as `i64::from_str` does.
pub fn parse_i64(v: &Vec<char>) -> (r: Option<i64>)
    ensures
        r == parse_i64_text(v@),
{
    let negative = v.len() > 0 && v[0] == '-';
    let start: usize = if v.len() > 0 && (v[0] == '-' || v[0] == '+') {
        1
    } else {
        0
    };
    let ghost body = v@.skip(start as int);
    assert(v@.skip(0) =~= v@);
    if start >= v.len() {
        assert(body.len() == 0);
        return None;
    }
    let cap: u128 = 0x1_0000_0000_0000_0000;
    let mut acc: u128 = 0;
    let mut i: usize = start;
    while i < v.len()
        invariant
            start <= i <= v@.len(),
            body == v@.skip(start as int),
            negative == (v@.len() > 0 && v@[0] == '-'),
            start == (if v@.len() > 0 && (v@[0] == '-' || v@[0] == '+') {
                1usize
            } else {
                0usize
            }),
            cap == 0x1_0000_0000_0000_0000,
            all_digits(v@.subrange(start as int, i as int)),
            acc == (if digits_value(v@.subrange(start as int, i as int)) < cap {
                digits_value(v@.subrange(start as int, i as int))
            } else {
                cap as nat
            }),
        decreases v.len() - i,
    {
        let c = v[i];
        let ghost prefix = v@.subrange(start as int, i + 1);
        assert(prefix.drop_last() =~= v@.subrange(start as int, i as int));
        let cu = c as u32;
        if !(48 <= cu && cu <= 57) {
            assert(body[i - start] == c);
            assert(!is_digit(body[i - start]));
            return None;
        }
        let d: u128 = (cu - 48) as u128;
        if acc >= cap {
            acc = cap;
        } else {
            let next = acc * 10 + d;
            acc = if next >= cap {
                cap
            } else {
                next
            };
        }
        i = i + 1;
    }
    assert(v@.subrange(start as int, v@.len() as int) =~= body);
    assert(all_digits(body));
    assert(body.len() > 0);
    let ghost dv = digits_value(body);
    assert(acc == (if dv < cap { dv } else { cap as nat }));
    if negative {
        assert(v@[0] == '-');
        if acc > 0x8000_0000_0000_0000u128 {
            assert(-dv < i64::MIN);
            None
        } else {
            assert(dv == acc);
            let r: i64 = if acc == 0x8000_0000_0000_0000u128 {
                i64::MIN
            } else {
                -(acc as i64)
            };
            assert(r == -dv);
            assert(parse_i64_text(v@) == Some((-dv) as i64));
            Some(r)
        }
    } else {
        if acc > 0x7fff_ffff_ffff_ffffu128 {
            assert(dv > i64::MAX);
            None
        } else {
            assert(dv == acc);
            assert(parse_i64_text(v@) == Some(dv as i64));
            Some(acc as i64)
        }
    }
}

/// The last position where `pattern` occurs in `s`, if any.
pub open spec fn last_occurrence(s: Seq<char>, pattern: Seq<char>) -> Option<int> {
    if exists|i: int| occurs_at(s, pattern, i) {
        Some(
            choose|i: int|
                occurs_at(s, pattern, i) && forall|j: int| i < j ==> !occurs_at(s, pattern, j),
        )
    } else {
        None
    }
}

/// The characters of `v[from..to]` as a new vector.
pub fn slice_chars(v: &Vec<char>, from: usize, to: usize) -> (r: Vec<char>)
    requires
        from <= to <= v@.len(),
    ensures
        r@ == v@.subrange(from as int, to as int),
{
    let mut out: Vec<char> = Vec::new();
    let mut i = from;
    while i < to
        invariant
            from <= i <= to <= v@.len(),
            out@ == v@.subrange(from as int, i as int),
        decreases to - i,
    {
        out.push(v[i]);
        assert(v@.subrange(from as int, i + 1) =~= v@.subrange(from as int, i as int).push(
            v@[i as int],
        ));
        i = i + 1;
    }
    out
}

/// A string holding the characters of `v`.
pub fn chars_to_string(v: &Vec<char>) -> (r: String)
    ensures
        r@ == v@,
{
    let r = string_from_chars(v, 0, v.len());
    assert(v@.subrange(0, v@.len() as int) =~= v@);
    r
}

/// The pieces of `s` between occurrences of `sep`, as `split(sep)` gives
/// them: there is always at least one piece.
pub open spec fn pieces_between(s: Seq<char>, sep: char) -> Seq<Seq<char>>
    decreases s.len(),
{
    if s.len() == 0 {
        seq![Seq::empty()]
    } else {
        let p = pieces_between(s.drop_last(), sep);
        if s.last() == sep {
            p.push(Seq::empty())
        } else {
            p.update(p.len() - 1, p.last().push(s.last()))
        }
    }
}

/// There is always at least one piece between separators.
pub proof fn lemma_pieces_between_nonempty(s: Seq<char>, sep: char)
    ensures
        pieces_between(s, sep).len() >= 1,
    decreases s.len(),
{
    if s.len() > 0 {
        lemma_pieces_between_nonempty(s.drop_last(), sep);
    }
}

/// Splits `v` into the pieces between occurrences of `sep`.
pub fn split_at_char(v: &Vec<char>, sep: char) -> (r: Vec<Vec<char>>)
    ensures
        r@.len() == pieces_between(v@, sep).len(),
        forall|i: int| 0 <= i < r@.len() ==> (#[trigger] r@[i])@ == pieces_between(v@, sep)[i],
{
    let mut done: Vec<Vec<char>> = Vec::new();
    let mut current: Vec<char> = Vec::new();
    let mut i: usize = 0;
    while i < v.len()
        invariant
            i <= v@.len(),
            pieces_between(v@.take(i as int), sep).len() == done@.len() + 1,
            forall|k: int| 0 <= k < done@.len() ==> (#[trigger] done@[k])@ == pieces_between(
                v@.take(i as int),
                sep,
            )[k],
            current@ == pieces_between(v@.take(i as int), sep).last(),
        decreases v.len() - i,
    {
        let c = v[i];
        assert(v@.take(i + 1).drop_last() =~= v@.take(i as int));
        assert(v@.take(i + 1).last() == c);
        if c == sep {
            let finished = current;
            done.push(finished);
            current = Vec::new();
        } else {
            current.push(c);
        }
        i = i + 1;
    }
    assert(v@.take(v@.len() as int) =~= v@);
    done.push(current);
    done
}

/// The `u8` that text spells as `u8::from_str` reads it: an optional `+`
/// sign, then one or more ASCII digits, with a value below 256.
pub open spec fn parse_u8_text(s: Seq<char>) -> Option<u8> {
    let body = if s.len() > 0 && s[0] == '+' {
        s.skip(1)
    } else {
        s
    };
    if body.len() == 0 || !all_digits(body) || digits_value(body) > 255 {
        None
    } else {
        Some(digits_value(body) as u8)
    }
}

/// Reads a decimal `u8` as `u8::from_str` does.
pub fn parse_u8(v: &Vec<char>) -> (r: Option<u8>)
    ensures
        r == parse_u8_text(v@),
{
    let start: usize = if v.len() > 0 && v[0] == '+' {
        1
    } else {
        0
    };
    let ghost body = v@.skip(start as int);
    assert(v@.skip(0) =~= v@);
    if start >= v.len() {
        assert(body.len() == 0);
        return None;
    }
    let mut acc: u32 = 0;
    let mut i: usize = start;
    while i < v.len()
        invariant
            start <= i <= v@.len(),
            body == v@.skip(start as int),
            start == (if v@.len() > 0 && v@[0] == '+' {
                1usize
            } else {
                0usize
            }),
            all_digits(v@.subrange(start as int, i as int)),
            acc == (if digits_value(v@.subrange(start as int, i as int)) < 256 {
                digits_value(v@.subrange(start as int, i as int))
            } else {
                256
            }),
        decreases v.len() - i,
    {
        let c = v[i];
        let ghost prefix = v@.subrange(start as int, i + 1);
        assert(prefix.drop_last() =~= v@.subrange(start as int, i as int));
        let cu = c as u32;
        if !(48 <= cu && cu <= 57) {
            assert(body[i - start] == c);
            assert(!is_digit(body[i - start]));
            return None;
        }
        let next = acc * 10 + (cu - 48);
        acc = if acc >= 256 || next >= 256 {
            256
        } else {
            next
        };
        i = i + 1;
    }
    assert(v@.subrange(start as int, v@.len() as int) =~= body);
    if acc > 255 {
        None
    } else {
        Some(acc as u8)
    }
}

} // verus!
