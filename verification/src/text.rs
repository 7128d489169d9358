//! Sequences of characters: scanning, trimming and decimal numerals.

use vstd::prelude::*;
use vstd::std_specs::iter::IteratorSpec;

verus! {

/// Whether Unicode counts `c` as white space (`White_Space`), as
/// `char::is_whitespace` reports it.
pub uninterp spec fn is_white_space(c: char) -> bool;

/// `char::is_whitespace` tells whether Unicode counts a character as white
/// space (`White_Space`); its answer depends on the character alone and is the
/// meaning of `is_white_space`.
pub assume_specification[ char::is_whitespace ](c: char) -> (b: bool)
    ensures
        b == is_white_space(c),
;

/// `String::push` appends one character at the end of the string.
pub assume_specification[ String::push ](s: &mut String, c: char)
    ensures
        final(s)@ == old(s)@.push(c),
;

/// The character at index `i`, if there is one.
pub open spec fn char_at(text: Seq<char>, i: int) -> Option<char> {
    if 0 <= i < text.len() {
        Some(text[i])
    } else {
        None
    }
}

/// The characters from `from` up to `to`, or nothing where that is no range
/// of `text`.
pub open spec fn slice(text: Seq<char>, from: int, to: int) -> Seq<char> {
    if 0 <= from <= to <= text.len() {
        text.subrange(from, to)
    } else {
        Seq::empty()
    }
}

/// The first index at or after `from` that holds `c`; the length of `text`
/// where none does, and `from` itself where `from` lies outside `text`.
pub open spec fn find_char(text: Seq<char>, c: char, from: int) -> int
    decreases text.len() - from,
{
    if from < 0 || from >= text.len() {
        from
    } else if text[from] == c {
        from
    } else {
        find_char(text, c, from + 1)
    }
}

/// `find_char` stops at the first occurrence and nowhere before it.
pub proof fn lemma_find_char(text: Seq<char>, c: char, from: int)
    requires
        0 <= from <= text.len(),
    ensures
        from <= find_char(text, c, from) <= text.len(),
        forall|i: int| from <= i < find_char(text, c, from) ==> text[i] != c,
        find_char(text, c, from) < text.len() ==> text[find_char(text, c, from)] == c,
    decreases text.len() - from,
{
    if from < text.len() && text[from] != c {
        lemma_find_char(text, c, from + 1);
    }
}

/// The first index at or after `from` that holds no white space; `from`
/// itself where `from` lies outside `text`.
pub open spec fn skip_white(text: Seq<char>, from: int) -> int
    decreases text.len() - from,
{
    if from < 0 || from >= text.len() {
        from
    } else if !is_white_space(text[from]) {
        from
    } else {
        skip_white(text, from + 1)
    }
}

/// The end of `text` between `lo` and `hi` once the white space before `hi`
/// is taken off.
pub open spec fn drop_white(text: Seq<char>, lo: int, hi: int) -> int
    decreases hi - lo,
{
    if hi <= lo || hi > text.len() {
        lo
    } else if !is_white_space(text[hi - 1]) {
        hi
    } else {
        drop_white(text, lo, hi - 1)
    }
}

/// `text` without the white space at its start and at its end.
pub open spec fn trim(text: Seq<char>) -> Seq<char> {
    let lo = skip_white(text, 0);
    slice(text, lo, drop_white(text, lo, text.len() as int))
}

/// What `skip_white` passes over is white space, and it stops at the first
/// character that is not.
pub proof fn lemma_skip_white(text: Seq<char>, from: int)
    requires
        0 <= from <= text.len(),
    ensures
        from <= skip_white(text, from) <= text.len(),
        forall|i: int| from <= i < skip_white(text, from) ==> is_white_space(text[i]),
        skip_white(text, from) < text.len() ==> !is_white_space(text[skip_white(text, from)]),
    decreases text.len() - from,
{
    if from < text.len() && is_white_space(text[from]) {
        lemma_skip_white(text, from + 1);
    }
}

/// What `drop_white` takes off is white space, and what it leaves does not
/// end in white space.
pub proof fn lemma_drop_white(text: Seq<char>, lo: int, hi: int)
    requires
        0 <= lo <= hi <= text.len(),
    ensures
        lo <= drop_white(text, lo, hi) <= hi,
        forall|i: int| drop_white(text, lo, hi) <= i < hi ==> is_white_space(text[i]),
        lo < drop_white(text, lo, hi) ==> !is_white_space(text[drop_white(text, lo, hi) - 1]),
    decreases hi - lo,
{
    if lo < hi && is_white_space(text[hi - 1]) {
        lemma_drop_white(text, lo, hi - 1);
    }
}

/// The decimal digit for `d`, a number below ten.
pub open spec fn digit_char(d: nat) -> char {
    if d == 0 {
        '0'
    } else if d == 1 {
        '1'
    } else if d == 2 {
        '2'
    } else if d == 3 {
        '3'
    } else if d == 4 {
        '4'
    } else if d == 5 {
        '5'
    } else if d == 6 {
        '6'
    } else if d == 7 {
        '7'
    } else if d == 8 {
        '8'
    } else {
        '9'
    }
}

/// The decimal numeral of `n`, without leading zeros.
pub open spec fn decimal(n: nat) -> Seq<char>
    decreases n,
{
    if n < 10 {
        seq![digit_char(n)]
    } else {
        decimal(n / 10).push(digit_char(n % 10))
    }
}

/// The characters of a string slice, in order.
pub fn chars_of(s: &str) -> (v: Vec<char>)
    ensures
        v@ == s@,
{
    broadcast use vstd::string::group_string_axioms;

    let mut v: Vec<char> = Vec::new();
    let mut it = s.chars();
    loop
        invariant
            v@ + it.remaining() == s@,
            it.obeys_prophetic_iter_laws(),
            it.decrease() is Some,
        ensures
            it.remaining().len() == 0,
        decreases it.decrease()->0,
    {
        match it.next() {
            Some(c) => {
                v.push(c);
            },
            None => {
                break ;
            },
        }
    }
    assert(v@ =~= v@ + it.remaining());
    v
}

/// Appends the characters of `chars` from `from` up to `to` to `out`.
pub fn push_range(out: &mut String, chars: &Vec<char>, from: usize, to: usize)
    requires
        from <= to <= chars@.len(),
    ensures
        final(out)@ == old(out)@ + chars@.subrange(from as int, to as int),
{
    let mut i: usize = from;
    while i < to
        invariant
            from <= i <= to <= chars@.len(),
            out@ == old(out)@ + chars@.subrange(from as int, i as int),
        decreases to - i,
    {
        out.push(chars[i]);
        i += 1;
        assert(chars@.subrange(from as int, i as int) =~= chars@.subrange(
            from as int,
            i - 1,
        ).push(chars@[i - 1]));
        assert(out@ =~= old(out)@ + chars@.subrange(from as int, i as int));
    }
}

/// The string slice without the white space at its start and at its end.
pub fn trimmed(s: &str) -> (r: String)
    ensures
        r@ == trim(s@),
{
    let chars = chars_of(s);
    let n: usize = chars.len();
    let mut lo: usize = 0;
    while lo < n && chars[lo].is_whitespace()
        invariant
            lo <= n == chars@.len(),
            skip_white(chars@, lo as int) == skip_white(chars@, 0),
        decreases n - lo,
    {
        lo += 1;
    }
    let mut hi: usize = n;
    while lo < hi && chars[hi - 1].is_whitespace()
        invariant
            lo <= hi <= n == chars@.len(),
            drop_white(chars@, lo as int, hi as int) == drop_white(chars@, lo as int, n as int),
        decreases hi - lo,
    {
        hi -= 1;
    }
    let mut r = String::new();
    push_range(&mut r, &chars, lo, hi);
    assert(r@ =~= chars@.subrange(lo as int, hi as int));
    r
}

/// The decimal digit for `d`.
fn digit(d: usize) -> (c: char)
    requires
        d < 10,
    ensures
        c == digit_char(d as nat),
{
    if d == 0 {
        '0'
    } else if d == 1 {
        '1'
    } else if d == 2 {
        '2'
    } else if d == 3 {
        '3'
    } else if d == 4 {
        '4'
    } else if d == 5 {
        '5'
    } else if d == 6 {
        '6'
    } else if d == 7 {
        '7'
    } else if d == 8 {
        '8'
    } else {
        '9'
    }
}

/// Appends the decimal numeral of `n` to `out`.
pub fn push_decimal(out: &mut String, n: usize)
    ensures
        final(out)@ == old(out)@ + decimal(n as nat),
    decreases n,
{
    if n < 10 {
        out.push(digit(n));
        assert(out@ =~= old(out)@ + decimal(n as nat));
    } else {
        push_decimal(out, n / 10);
        out.push(digit(n % 10));
        assert(out@ =~= old(out)@ + decimal(n as nat));
    }
}

} // verus!
