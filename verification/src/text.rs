//! Character-level helpers shared by the parsers of this crate.
//!
//! Text is modelled as `Seq<char>`; executable code works on `Vec<char>` so that
//! every position is one character, whatever its width in UTF-8.

use vstd::prelude::*;

verus! {

/// `String::push` appends one character.
pub assume_specification[ String::push ](s: &mut String, c: char)
    ensures
        final(s)@ == old(s)@.push(c),
;

/// Whether `u` is a Unicode scalar value, that is, a code point outside the surrogate range.
pub open spec fn is_scalar_value(u: u32) -> bool {
    u < 0xD800 || (0xE000 <= u && u <= 0x10FFFF)
}

/// `char::from_u32` yields the character with code point `i`, and `None` exactly
/// when `i` is no scalar value.
pub assume_specification[ char::from_u32 ](i: u32) -> (r: Option<char>)
    ensures
        is_scalar_value(i) ==> r == Some(i as char),
        !is_scalar_value(i) ==> r is None,
;

/// `str`'s `==` compares the characters.
pub assume_specification[ <str as PartialEq>::eq ](a: &str, b: &str) -> (r: bool)
    ensures
        r == (a@ == b@),
;

/// The text that an optional string holds.
pub open spec fn option_string_view(r: Option<String>) -> Option<Seq<char>> {
    match r {
        Some(s) => Some(s@),
        None => None,
    }
}

/// Whether two texts are the same.
pub fn str_eq(a: &str, b: &str) -> (r: bool)
    ensures
        r == (a@ == b@),
{
    a.eq(b)
}

/// The characters of `s`, in order.
pub fn chars_of(s: &str) -> (v: Vec<char>)
    ensures
        v@ == s@,
{
    let mut v: Vec<char> = Vec::new();
    for c in it: s.chars()
        invariant
            it.seq() == s@,
            v@ == it.seq().take(it.index() as int),
    {
        v.push(c);
    }
    v
}

/// The string made of the characters `v[from..to]`.
pub fn string_of_range(v: &Vec<char>, from: usize, to: usize) -> (s: String)
    requires
        from <= to <= v.len(),
    ensures
        s@ == v@.subrange(from as int, to as int),
{
    let mut s = String::new();
    let mut i: usize = from;
    while i < to
        invariant
            from <= i <= to <= v.len(),
            s@ == v@.subrange(from as int, i as int),
        decreases to - i,
    {
        s.push(v[i]);
        i += 1;
    }
    s
}

/// The string made of the characters of `v`.
pub fn string_of(v: &Vec<char>) -> (s: String)
    ensures
        s@ == v@,
{
    let s = string_of_range(v, 0, v.len());
    assert(v@.subrange(0, v.len() as int) == v@);
    s
}

/// The characters with the Unicode property `White_Space`.
pub open spec fn is_whitespace(c: char) -> bool {
    let u: u32 = c as u32;
    (0x09 <= u && u <= 0x0D) || u == 0x20 || u == 0x85 || u == 0xA0 || u == 0x1680 || (0x2000 <= u
        && u <= 0x200A) || u == 0x2028 || u == 0x2029 || u == 0x202F || u == 0x205F || u == 0x3000
}

/// Whether `c` has the Unicode property `White_Space`.
pub fn char_is_whitespace(c: char) -> (b: bool)
    ensures
        b == is_whitespace(c),
{
    let u: u32 = c as u32;
    (0x09 <= u && u <= 0x0D) || u == 0x20 || u == 0x85 || u == 0xA0 || u == 0x1680 || (0x2000 <= u
        && u <= 0x200A) || u == 0x2028 || u == 0x2029 || u == 0x202F || u == 0x205F || u == 0x3000
}

/// `s` without its leading white space.
pub open spec fn trim_start(s: Seq<char>) -> Seq<char>
    decreases s.len(),
{
    if s.len() > 0 && is_whitespace(s.first()) {
        trim_start(s.drop_first())
    } else {
        s
    }
}

/// `s` without its trailing white space.
pub open spec fn trim_end(s: Seq<char>) -> Seq<char>
    decreases s.len(),
{
    if s.len() > 0 && is_whitespace(s.last()) {
        trim_end(s.drop_last())
    } else {
        s
    }
}

/// `s` without leading and trailing white space.
pub open spec fn trim(s: Seq<char>) -> Seq<char> {
    trim_end(trim_start(s))
}

/// Whether `s` holds white space only.
pub open spec fn all_whitespace(s: Seq<char>) -> bool {
    forall|i: int| 0 <= i < s.len() ==> is_whitespace(#[trigger] s[i])
}

/// Nothing is left of white space when its beginning is trimmed.
pub proof fn lemma_trim_start_of_whitespace(s: Seq<char>)
    requires
        all_whitespace(s),
    ensures
        trim_start(s) == Seq::<char>::empty(),
    decreases s.len(),
{
    if s.len() > 0 {
        assert(is_whitespace(s[0]));
        assert forall|i: int| 0 <= i < s.drop_first().len() implies is_whitespace(
            #[trigger] s.drop_first()[i],
        ) by {
            assert(is_whitespace(s[i + 1]));
        }
        lemma_trim_start_of_whitespace(s.drop_first());
    }
}

/// Trimming the beginning of a text with something behind it trims the text
/// and leaves what is behind, unless nothing is left of the text.
pub proof fn lemma_trim_start_before(s: Seq<char>, b: Seq<char>)
    ensures
        trim_start(s + b) == if trim_start(s).len() > 0 {
            trim_start(s) + b
        } else {
            trim_start(b)
        },
    decreases s.len(),
{
    if s.len() == 0 {
        assert(s + b == b);
    } else {
        assert((s + b).first() == s.first());
        assert((s + b).drop_first() == s.drop_first() + b);
        if is_whitespace(s.first()) {
            lemma_trim_start_before(s.drop_first(), b);
        }
    }
}

/// White space behind a text does not change what trimming its end gives.
pub proof fn lemma_trim_end_of_space_behind(s: Seq<char>, b: Seq<char>)
    requires
        all_whitespace(b),
    ensures
        trim_end(s + b) == trim_end(s),
    decreases b.len(),
{
    if b.len() == 0 {
        assert(s + b == s);
    } else {
        assert(is_whitespace(b[b.len() - 1]));
        assert((s + b).last() == b.last());
        assert((s + b).drop_last() == s + b.drop_last());
        assert forall|i: int| 0 <= i < b.drop_last().len() implies is_whitespace(
            #[trigger] b.drop_last()[i],
        ) by {
            assert(is_whitespace(b[i]));
        }
        lemma_trim_end_of_space_behind(s, b.drop_last());
    }
}

/// White space around a text does not change what trimming gives.
pub proof fn lemma_trim_ignores_surrounding_space(a: Seq<char>, s: Seq<char>, b: Seq<char>)
    requires
        all_whitespace(a),
        all_whitespace(b),
    ensures
        trim(a + s + b) == trim(s),
{
    assert(a + s + b == a + (s + b));
    lemma_trim_start_before(a, s + b);
    lemma_trim_start_of_whitespace(a);
    lemma_trim_start_before(s, b);
    lemma_trim_start_of_whitespace(b);
    if trim_start(s).len() > 0 {
        lemma_trim_end_of_space_behind(trim_start(s), b);
    }
}

/// The bounds of `trim(s[from..to])` within `s`.
pub fn trim_range(s: &Vec<char>, from: usize, to: usize) -> (r: (usize, usize))
    requires
        from <= to <= s.len(),
    ensures
        from <= r.0 <= r.1 <= to,
        s@.subrange(r.0 as int, r.1 as int) == trim(s@.subrange(from as int, to as int)),
{
    let ghost whole = s@.subrange(from as int, to as int);
    let mut i: usize = from;
    assert(whole.skip(0) == whole);
    while i < to && char_is_whitespace(s[i])
        invariant
            from <= i <= to <= s.len(),
            whole == s@.subrange(from as int, to as int),
            trim_start(whole) == trim_start(whole.skip(i - from)),
        decreases to - i,
    {
        assert(whole.skip(i - from).drop_first() == whole.skip(i - from + 1));
        i += 1;
    }
    let ghost t = whole.skip(i - from);
    assert(trim_start(whole) == t);
    let mut j: usize = to;
    assert(t.take(to - i) == t);
    while j > i && char_is_whitespace(s[j - 1])
        invariant
            from <= i <= j <= to <= s.len(),
            whole == s@.subrange(from as int, to as int),
            t == whole.skip(i - from),
            trim_end(t) == trim_end(t.take(j - i)),
        decreases j,
    {
        assert(t.take(j - i).drop_last() == t.take(j - i - 1));
        j -= 1;
    }
    assert(t.take(j - i) == s@.subrange(i as int, j as int));
    (i, j)
}

/// The bounds `(from, to)` of `trim(s)` within `s`.
pub fn trim_bounds(s: &Vec<char>) -> (r: (usize, usize))
    ensures
        r.0 <= r.1 <= s.len(),
        s@.subrange(r.0 as int, r.1 as int) == trim(s@),
{
    assert(s@.subrange(0, s.len() as int) == s@);
    trim_range(s, 0, s.len())
}

/// The upper-case form of an ASCII letter; any other character is left as it is.
pub open spec fn ascii_upper(c: char) -> char {
    if 'a' <= c && c <= 'z' {
        ((c as u8 - 32) as u8) as char
    } else {
        c
    }
}

/// The upper-case form of an ASCII letter; any other character is left as it is.
pub fn char_ascii_upper(c: char) -> (r: char)
    ensures
        r == ascii_upper(c),
{
    if 'a' <= c && c <= 'z' {
        let b: u8 = c as u8;
        (b - 32) as char
    } else {
        c
    }
}

/// `s` with every ASCII letter in upper case.
pub open spec fn ascii_upper_seq(s: Seq<char>) -> Seq<char> {
    Seq::new(s.len(), |i: int| ascii_upper(s[i]))
}

/// The pieces of `s` between the occurrences of `sep`: one more than there are
/// occurrences, some of them empty where separators stand side by side or at an end.
pub open spec fn split(s: Seq<char>, sep: char) -> Seq<Seq<char>>
    decreases s.len(),
{
    if s.len() == 0 {
        seq![Seq::empty()]
    } else {
        let init: Seq<Seq<char>> = split(s.drop_last(), sep);
        if s.last() == sep {
            init.push(Seq::empty())
        } else {
            init.update(init.len() - 1, init.last().push(s.last()))
        }
    }
}

/// There is always a piece.
pub proof fn lemma_split_len(s: Seq<char>, sep: char)
    ensures
        split(s, sep).len() >= 1,
    decreases s.len(),
{
    if s.len() > 0 {
        lemma_split_len(s.drop_last(), sep);
    }
}

/// Where the pieces of `s[from..to]` lie in `s`: for each piece its bounds.
pub fn split_range(s: &Vec<char>, from: usize, to: usize, sep: char) -> (bounds: Vec<
    (usize, usize),
>)
    requires
        from <= to <= s.len(),
    ensures
        bounds.len() == split(s@.subrange(from as int, to as int), sep).len(),
        forall|k: int|
            0 <= k < bounds.len() ==> from <= (#[trigger] bounds[k]).0 <= bounds[k].1 <= to
                && s@.subrange(bounds[k].0 as int, bounds[k].1 as int) == split(
                s@.subrange(from as int, to as int),
                sep,
            )[k],
{
    let ghost whole = s@.subrange(from as int, to as int);
    let mut bounds: Vec<(usize, usize)> = Vec::new();
    let mut start: usize = from;
    let mut i: usize = from;
    assert(whole.take(0) == Seq::<char>::empty());
    assert(s@.subrange(from as int, from as int) == Seq::<char>::empty());
    while i < to
        invariant
            from <= start <= i <= to <= s.len(),
            whole == s@.subrange(from as int, to as int),
            bounds.len() + 1 == split(whole.take(i - from), sep).len(),
            split(whole.take(i - from), sep).last() == s@.subrange(start as int, i as int),
            forall|k: int|
                0 <= k < bounds.len() ==> from <= (#[trigger] bounds[k]).0 <= bounds[k].1 <= to
                    && s@.subrange(bounds[k].0 as int, bounds[k].1 as int) == split(
                    whole.take(i - from),
                    sep,
                )[k],
        decreases to - i,
    {
        let ghost before = split(whole.take(i - from), sep);
        let ghost next = whole.take(i - from + 1);
        assert(next.drop_last() == whole.take(i - from));
        assert(next.last() == s@[i as int]);
        if s[i] == sep {
            bounds.push((start, i));
            start = i + 1;
            assert(s@.subrange(start as int, start as int) == Seq::<char>::empty());
        } else {
            assert(s@.subrange(start as int, i as int).push(s@[i as int]) == s@.subrange(
                start as int,
                i as int + 1,
            ));
        }
        i += 1;
    }
    assert(whole.take(to - from) == whole);
    bounds.push((start, to));
    bounds
}

/// Whether `s` begins with `prefix`.
pub open spec fn starts_with(s: Seq<char>, prefix: Seq<char>) -> bool {
    prefix.len() <= s.len() && s.take(prefix.len() as int) == prefix
}

/// Whether `s[from..to]` begins with `prefix`.
pub fn range_starts_with(s: &Vec<char>, from: usize, to: usize, prefix: &Vec<char>) -> (r: bool)
    requires
        from <= to <= s.len(),
    ensures
        r == starts_with(s@.subrange(from as int, to as int), prefix@),
{
    let ghost whole = s@.subrange(from as int, to as int);
    let n: usize = prefix.len();
    if n > to - from {
        return false;
    }
    let mut i: usize = 0;
    while i < n
        invariant
            from <= to <= s.len(),
            n == prefix.len(),
            n <= to - from,
            i <= n,
            whole == s@.subrange(from as int, to as int),
            forall|k: int| 0 <= k < i ==> whole[k] == prefix[k],
        decreases n - i,
    {
        if s[from + i] != prefix[i] {
            assert(whole.take(n as int)[i as int] != prefix[i as int]);
            return false;
        }
        i += 1;
    }
    assert(whole.take(n as int) =~= prefix@);
    true
}

/// `s` without a carriage return at its end.
pub open spec fn strip_carriage_return(s: Seq<char>) -> Seq<char> {
    if s.len() > 0 && s.last() == '\r' {
        s.drop_last()
    } else {
        s
    }
}

/// The lines of `s`. A line ends with a line feed, or with a carriage return and
/// a line feed; neither belongs to the line. What follows the last line feed is
/// a line too, unless it is empty.
pub open spec fn lines(s: Seq<char>) -> Seq<Seq<char>> {
    let pieces: Seq<Seq<char>> = split(s, '\n');
    let count: int = if pieces.last().len() == 0 {
        pieces.len() - 1
    } else {
        pieces.len() as int
    };
    Seq::new(
        count as nat,
        |k: int|
            if k < pieces.len() - 1 {
                strip_carriage_return(pieces[k])
            } else {
                pieces[k]
            },
    )
}

/// Where the lines of `s` lie in `s`: for each line its bounds.
pub fn line_bounds(s: &Vec<char>) -> (bounds: Vec<(usize, usize)>)
    ensures
        bounds.len() == lines(s@).len(),
        forall|k: int|
            0 <= k < bounds.len() ==> (#[trigger] bounds[k]).0 <= bounds[k].1 <= s.len()
                && s@.subrange(bounds[k].0 as int, bounds[k].1 as int) == lines(s@)[k],
{
    assert(s@.subrange(0, s.len() as int) == s@);
    let mut bounds = split_range(s, 0, s.len(), '\n');
    let ghost pieces = split(s@, '\n');
    let n: usize = bounds.len();
    proof {
        lemma_split_len(s@, '\n');
    }
    let mut k: usize = 0;
    while k + 1 < n
        invariant
            n == bounds.len(),
            n == pieces.len(),
            k < n,
            forall|i: int|
                0 <= i < n ==> (#[trigger] bounds[i]).0 <= bounds[i].1 <= s.len() && s@.subrange(
                    bounds[i].0 as int,
                    bounds[i].1 as int,
                ) == (if i < k {
                    strip_carriage_return(pieces[i])
                } else {
                    pieces[i]
                }),
        decreases n - k,
    {
        let (from, to) = bounds[k];
        if to > from && s[to - 1] == '\r' {
            let ghost piece = s@.subrange(from as int, to as int);
            assert(piece.last() == '\r');
            assert(piece.drop_last() == s@.subrange(from as int, to as int - 1));
            bounds.set(k, (from, to - 1));
        } else {
            let ghost piece = s@.subrange(from as int, to as int);
            if to > from {
                assert(piece.last() == s@[to as int - 1]);
            }
        }
        k += 1;
    }
    let (from, to) = bounds[n - 1];
    if from == to {
        assert(s@.subrange(from as int, to as int).len() == 0);
        let _ = bounds.pop();
    } else {
        assert(s@.subrange(from as int, to as int).len() > 0);
    }
    bounds
}

/// Trimming never makes a text longer.
pub proof fn lemma_trim_len(s: Seq<char>)
    ensures
        trim(s).len() <= s.len(),
{
    lemma_trim_start_len(s);
    lemma_trim_end_len(trim_start(s));
}

proof fn lemma_trim_start_len(s: Seq<char>)
    ensures
        trim_start(s).len() <= s.len(),
    decreases s.len(),
{
    if s.len() > 0 && is_whitespace(s.first()) {
        lemma_trim_start_len(s.drop_first());
    }
}

proof fn lemma_trim_end_len(s: Seq<char>)
    ensures
        trim_end(s).len() <= s.len(),
    decreases s.len(),
{
    if s.len() > 0 && is_whitespace(s.last()) {
        lemma_trim_end_len(s.drop_last());
    }
}

proof fn lemma_trim_start_of_upper(s: Seq<char>)
    ensures
        trim_start(ascii_upper_seq(s)) == ascii_upper_seq(trim_start(s)),
    decreases s.len(),
{
    let u = ascii_upper_seq(s);
    if s.len() > 0 && is_whitespace(s.first()) {
        assert(u.first() == ascii_upper(s.first()));
        assert(u.drop_first() == ascii_upper_seq(s.drop_first()));
        lemma_trim_start_of_upper(s.drop_first());
    } else if s.len() > 0 {
        assert(u.first() == ascii_upper(s.first()));
    }
}

proof fn lemma_trim_end_of_upper(s: Seq<char>)
    ensures
        trim_end(ascii_upper_seq(s)) == ascii_upper_seq(trim_end(s)),
    decreases s.len(),
{
    let u = ascii_upper_seq(s);
    if s.len() > 0 && is_whitespace(s.last()) {
        assert(u.last() == ascii_upper(s.last()));
        assert(u.drop_last() == ascii_upper_seq(s.drop_last()));
        lemma_trim_end_of_upper(s.drop_last());
    } else if s.len() > 0 {
        assert(u.last() == ascii_upper(s.last()));
    }
}

/// Raising the ASCII letters of a text does not change where its white space
/// is: trimming and raising may be done in either order.
pub proof fn lemma_trim_of_upper(s: Seq<char>)
    ensures
        trim(ascii_upper_seq(s)) == ascii_upper_seq(trim(s)),
{
    lemma_trim_start_of_upper(s);
    lemma_trim_end_of_upper(trim_start(s));
}

} // verus!
