//! Text as sequences of characters: the string building blocks of the endpoint.
//!
//! A `String` or `&str` stands for the sequence of characters it holds. The
//! functions here build, take apart and compare text, each with its result
//! stated over those sequences.
use vstd::prelude::*;
use vstd::utf8::{decode_utf8, valid_utf8};

verus! {

/// `String::push`: the character goes to the end of the text.
pub assume_specification[ String::push ](s: &mut String, c: char)
    ensures
        final(s)@ == old(s)@.push(c),
;

/// `std::str::from_utf8`: the text that the bytes encode, or else the length of
/// the longest prefix that is valid UTF-8 (`Utf8Error::valid_up_to`).
#[verifier::external_body]
pub(crate) fn decoded(bytes: &[u8]) -> (r: Result<String, usize>)
    ensures
        match r {
            Ok(t) => valid_utf8(bytes@) && t@ == decode_utf8(bytes@),
            Err(n) => !valid_utf8(bytes@) && n < bytes@.len() && valid_utf8(bytes@.take(n as int))
                && forall|m: int| n < m <= bytes@.len() ==> !valid_utf8(#[trigger] bytes@.take(m)),
        },
{
    match std::str::from_utf8(bytes) {
        Ok(t) => Ok(t.to_owned()),
        Err(e) => Err(e.valid_up_to()),
    }
}

/// What `{:?}` prints for a text: the text quoted and escaped.
pub uninterp spec fn quoted_text(s: Seq<char>) -> Seq<char>;

/// `format!("{:?}", s)` for a `&str`, which quotes and escapes the text. The
/// result is a function of the characters alone.
#[verifier::external_body]
pub(crate) fn quoted(s: &str) -> (r: String)
    ensures
        r@ == quoted_text(s@),
{
    format!("{:?}", s)
}

/// What `str::to_lowercase` gives for a text.
pub uninterp spec fn lowercase_text(s: Seq<char>) -> Seq<char>;

/// `str::to_lowercase`: the Unicode lowercase of the text, a function of its
/// characters alone.
#[verifier::external_body]
pub(crate) fn lowercase(s: &str) -> (r: String)
    ensures
        r@ == lowercase_text(s@),
{
    s.to_lowercase()
}

/// The characters of a text, one by one.
pub fn chars_of(s: &str) -> (v: Vec<char>)
    ensures
        v@ == s@,
{
    let mut v: Vec<char> = Vec::new();
    for c in it: s.chars()
        invariant
            it.seq() == s@,
            v@ == it.seq().take(it.index() as int),
    {
        v.push(c);
    }
    v
}

/// The text that the characters spell.
pub fn spelled(chars: &[char]) -> (s: String)
    ensures
        s@ == chars@,
{
    let mut s = String::new();
    let mut i: usize = 0;
    while i < chars.len()
        invariant
            i <= chars@.len(),
            s@ == chars@.take(i as int),
        decreases chars@.len() - i,
    {
        s.push(chars[i]);
        i = i + 1;
    }
    s
}

/// Whether two texts are the same.
pub fn same(a: &str, b: &str) -> (r: bool)
    ensures
        r == (a@ == b@),
{
    let x = a.as_bytes();
    let y = b.as_bytes();
    let mut i: usize = 0;
    if x.len() == y.len() {
        while i < x.len() && x[i] == y[i]
            invariant
                i <= x@.len(),
                x@.len() == y@.len(),
                forall|k: int| 0 <= k < i ==> x@[k] == y@[k],
            decreases x@.len() - i,
        {
            i = i + 1;
        }
    }
    proof {
        vstd::utf8::encode_utf8_decode_utf8(a@);
        vstd::utf8::encode_utf8_decode_utf8(b@);
        if x@.len() == y@.len() && i == x@.len() {
            assert(x@ =~= y@);
        }
    }
    x.len() == y.len() && i == x.len()
}

/// The decimal digit that stands for `d`.
pub open spec fn digit_char(d: nat) -> char {
    if d == 0 { '0' } else if d == 1 { '1' } else if d == 2 { '2' } else if d == 3 { '3' }
    else if d == 4 { '4' } else if d == 5 { '5' } else if d == 6 { '6' } else if d == 7 { '7' }
    else if d == 8 { '8' } else { '9' }
}

/// A number in decimal, without leading zeros.
pub open spec fn decimal_text(n: nat) -> Seq<char>
    decreases n,
{
    if n < 10 {
        seq![digit_char(n)]
    } else {
        decimal_text(n / 10).push(digit_char(n % 10))
    }
}

/// A number in decimal.
pub fn decimal(n: u64) -> (s: String)
    ensures
        s@ == decimal_text(n as nat),
    decreases n,
{
    let d: u64 = n % 10;
    let c = if d == 0 { '0' } else if d == 1 { '1' } else if d == 2 { '2' } else if d == 3 { '3' }
        else if d == 4 { '4' } else if d == 5 { '5' } else if d == 6 { '6' } else if d == 7 { '7' }
        else if d == 8 { '8' } else { '9' };
    let mut s = if n < 10 { String::new() } else { decimal(n / 10) };
    s.push(c);
    s
}

/// A number of any size in decimal.
pub fn decimal_wide(n: u128) -> (s: String)
    ensures
        s@ == decimal_text(n as nat),
    decreases n,
{
    if n <= u64::MAX as u128 {
        return decimal(n as u64);
    }
    let d: u128 = n % 10;
    let c = if d == 0 { '0' } else if d == 1 { '1' } else if d == 2 { '2' } else if d == 3 { '3' }
        else if d == 4 { '4' } else if d == 5 { '5' } else if d == 6 { '6' } else if d == 7 { '7' }
        else if d == 8 { '8' } else { '9' };
    let mut s = decimal_wide(n / 10);
    s.push(c);
    s
}

/// The whole number nearest to `part / whole`; of two that are equally near, the
/// even one.
pub open spec fn nearest_to(part: nat, whole: nat) -> nat {
    let q = part / whole;
    let rest = part % whole;
    if 2 * rest > whole || (2 * rest == whole && q % 2 == 1) {
        q + 1
    } else {
        q
    }
}

/// The whole number nearest to `part / whole`; of two that are equally near, the
/// even one.
pub fn nearest(part: u128, whole: u128) -> (r: u128)
    requires
        whole > 0,
    ensures
        r == nearest_to(part as nat, whole as nat),
{
    let q: u128 = part / whole;
    let rest: u128 = part % whole;
    if rest > whole - rest || (rest == whole - rest && q % 2 == 1) {
        assert(q + 1 <= part) by (nonlinear_arith)
            requires
                q == part / whole,
                rest == part % whole,
                rest > 0,
                whole > 0,
        ;
        q + 1
    } else {
        q
    }
}

/// The upper-case hexadecimal digit that stands for `d`.
pub open spec fn hex_char(d: nat) -> char {
    if d < 10 { digit_char(d) } else if d == 10 { 'A' } else if d == 11 { 'B' }
    else if d == 12 { 'C' } else if d == 13 { 'D' } else if d == 14 { 'E' } else { 'F' }
}

/// A byte as `0x` and two upper-case hexadecimal digits.
pub open spec fn byte_text(b: u8) -> Seq<char> {
    seq!['0', 'x', hex_char(b as nat / 16), hex_char(b as nat % 16)]
}

fn hex_digit(d: u8) -> (c: char)
    requires
        d < 16,
    ensures
        c == hex_char(d as nat),
{
    if d == 0 { '0' } else if d == 1 { '1' } else if d == 2 { '2' } else if d == 3 { '3' }
    else if d == 4 { '4' } else if d == 5 { '5' } else if d == 6 { '6' } else if d == 7 { '7' }
    else if d == 8 { '8' } else if d == 9 { '9' } else if d == 10 { 'A' } else if d == 11 { 'B' }
    else if d == 12 { 'C' } else if d == 13 { 'D' } else if d == 14 { 'E' } else { 'F' }
}

/// A byte as `0x` and two upper-case hexadecimal digits.
pub fn byte_hex(b: u8) -> (s: String)
    ensures
        s@ == byte_text(b),
{
    let mut s = String::new();
    s.push('0');
    s.push('x');
    s.push(hex_digit(b / 16));
    s.push(hex_digit(b % 16));
    assert(s@ =~= byte_text(b));
    s
}

/// The characters of Unicode's `White_Space` property.
pub open spec fn is_white(c: char) -> bool {
    ||| '\u{9}' <= c <= '\u{d}'
    ||| c == ' ' || c == '\u{85}' || c == '\u{a0}' || c == '\u{1680}'
    ||| '\u{2000}' <= c <= '\u{200a}'
    ||| c == '\u{2028}' || c == '\u{2029}' || c == '\u{202f}' || c == '\u{205f}' || c == '\u{3000}'
}

/// Whether a character is white space.
pub fn white(c: char) -> (r: bool)
    ensures
        r == is_white(c),
{
    ('\u{9}' <= c && c <= '\u{d}') || c == ' ' || c == '\u{85}' || c == '\u{a0}' || c == '\u{1680}'
        || ('\u{2000}' <= c && c <= '\u{200a}') || c == '\u{2028}' || c == '\u{2029}'
        || c == '\u{202f}' || c == '\u{205f}' || c == '\u{3000}'
}

/// A text without the white space it begins with.
pub open spec fn trimmed_start(s: Seq<char>) -> Seq<char>
    decreases s.len(),
{
    if s.len() > 0 && is_white(s[0]) {
        trimmed_start(s.drop_first())
    } else {
        s
    }
}

/// A text without the white space it ends with.
pub open spec fn trimmed_end(s: Seq<char>) -> Seq<char>
    decreases s.len(),
{
    if s.len() > 0 && is_white(s.last()) {
        trimmed_end(s.drop_last())
    } else {
        s
    }
}

/// A text without the white space around it.
pub open spec fn trimmed(s: Seq<char>) -> Seq<char> {
    trimmed_end(trimmed_start(s))
}

/// Copies the part of `v` from `from` up to `to`.
pub fn slice_of(v: &Vec<char>, from: usize, to: usize) -> (r: Vec<char>)
    requires
        from <= to <= v@.len(),
    ensures
        r@ == v@.subrange(from as int, to as int),
{
    let mut r: Vec<char> = Vec::new();
    let mut i: usize = from;
    while i < to
        invariant
            from <= i <= to <= v@.len(),
            r@ == v@.subrange(from as int, i as int),
        decreases to - i,
    {
        r.push(v[i]);
        i = i + 1;
        assert(r@ =~= v@.subrange(from as int, i as int));
    }
    r
}

/// The text without the white space around it.
pub fn trim(s: &str) -> (r: String)
    ensures
        r@ == trimmed(s@),
{
    let v = chars_of(s);
    let mut from: usize = 0;
    assert(v@.subrange(0, v@.len() as int) =~= v@);
    while from < v.len() && white(v[from])
        invariant
            from <= v@.len(),
            trimmed_start(v@) == trimmed_start(v@.subrange(from as int, v@.len() as int)),
        decreases v@.len() - from,
    {
        assert(v@.subrange(from as int, v@.len() as int).drop_first()
            =~= v@.subrange(from + 1, v@.len() as int));
        from = from + 1;
    }
    let mut to: usize = v.len();
    while to > from && white(v[to - 1])
        invariant
            from <= to <= v@.len(),
            trimmed(v@) == trimmed_end(v@.subrange(from as int, to as int)),
        decreases to,
    {
        assert(v@.subrange(from as int, to as int).drop_last()
            =~= v@.subrange(from as int, to - 1));
        to = to - 1;
    }
    spelled(slice_of(&v, from, to).as_slice())
}

/// Whether a text is empty or white space throughout.
pub open spec fn is_blank(s: Seq<char>) -> bool {
    trimmed(s).len() == 0
}

/// Whether a text is empty or white space throughout.
pub fn blank(s: &str) -> (r: bool)
    ensures
        r == is_blank(s@),
{
    trim(s).as_str().is_empty()
}

/// The texts of a list of strings.
pub open spec fn views(v: Seq<String>) -> Seq<Seq<char>> {
    v.map_values(|s: String| s@)
}

/// The texts one after another, with `sep` between each two.
pub open spec fn joined(parts: Seq<Seq<char>>, sep: Seq<char>) -> Seq<char>
    decreases parts.len(),
{
    if parts.len() == 0 {
        Seq::empty()
    } else if parts.len() == 1 {
        parts[0]
    } else {
        joined(parts.drop_last(), sep) + sep + parts.last()
    }
}

/// The texts one after another, with `sep` between each two.
pub fn join(parts: &[String], sep: &str) -> (r: String)
    ensures
        r@ == joined(views(parts@), sep@),
{
    let mut r = String::new();
    let mut i: usize = 0;
    while i < parts.len()
        invariant
            i <= parts@.len(),
            r@ == joined(views(parts@.take(i as int)), sep@),
        decreases parts@.len() - i,
    {
        proof {
            let next = views(parts@.take(i + 1));
            assert(next.drop_last() =~= views(parts@.take(i as int)));
            assert(next.last() == parts@[i as int]@);
        }
        if i > 0 {
            r.append(sep);
        }
        r.append(parts[i].as_str());
        assert(i == 0 ==> r@ =~= parts@[0]@);
        i = i + 1;
    }
    assert(parts@.take(parts@.len() as int) =~= parts@);
    r
}

/// The pieces of a text between its separators: always one more piece than
/// there are separators, so that the text is the pieces joined again.
pub open spec fn split_text(s: Seq<char>, sep: char) -> Seq<Seq<char>>
    decreases s.len(),
{
    if s.len() == 0 {
        seq![Seq::empty()]
    } else {
        let before = split_text(s.drop_last(), sep);
        if s.last() == sep {
            before.push(Seq::empty())
        } else {
            before.drop_last().push(before.last().push(s.last()))
        }
    }
}

/// The sequences that a list of character lists holds.
pub open spec fn pieces(v: Seq<Vec<char>>) -> Seq<Seq<char>> {
    v.map_values(|p: Vec<char>| p@)
}

/// The pieces of a text between its separators.
pub fn split(s: &Vec<char>, sep: char) -> (r: Vec<Vec<char>>)
    ensures
        pieces(r@) == split_text(s@, sep),
        r@.len() >= 1,
{
    let mut r: Vec<Vec<char>> = Vec::new();
    let mut cur: Vec<char> = Vec::new();
    let mut i: usize = 0;
    while i < s.len()
        invariant
            i <= s@.len(),
            pieces(r@).push(cur@) =~= split_text(s@.take(i as int), sep),
        decreases s@.len() - i,
    {
        let c = s[i];
        let ghost before = split_text(s@.take(i as int), sep);
        proof {
            assert(s@.take(i + 1).drop_last() =~= s@.take(i as int));
            assert(before.last() == cur@);
            assert(before.drop_last() =~= pieces(r@));
        }
        if c == sep {
            r.push(cur);
            cur = Vec::new();
        } else {
            cur.push(c);
        }
        i = i + 1;
    }
    assert(s@.take(s@.len() as int) =~= s@);
    r.push(cur);
    assert(pieces(r@) =~= split_text(s@, sep));
    r
}

/// Whether `s` begins with `prefix`.
pub open spec fn begins_with(s: Seq<char>, prefix: Seq<char>) -> bool {
    prefix.len() <= s.len() && s.take(prefix.len() as int) == prefix
}

/// Whether `s` begins with `prefix`.
pub fn starts_with(s: &Vec<char>, prefix: &Vec<char>) -> (r: bool)
    ensures
        r == begins_with(s@, prefix@),
{
    if s.len() < prefix.len() {
        return false;
    }
    let mut i: usize = 0;
    while i < prefix.len()
        invariant
            i <= prefix@.len() <= s@.len(),
            forall|k: int| 0 <= k < i ==> s@[k] == prefix@[k],
        decreases prefix@.len() - i,
    {
        if s[i] != prefix[i] {
            assert(s@.take(prefix@.len() as int)[i as int] != prefix@[i as int]);
            return false;
        }
        i = i + 1;
    }
    assert(s@.take(prefix@.len() as int) =~= prefix@);
    true
}

/// An owned copy of a text.
pub fn own(s: &str) -> (r: String)
    ensures
        r@ == s@,
{
    s.to_owned()
}

/// The characters appended to a list.
pub fn extend(v: &mut Vec<char>, s: &str)
    ensures
        final(v)@ == old(v)@ + s@,
{
    let tail = chars_of(s);
    let mut i: usize = 0;
    let ghost start = v@;
    while i < tail.len()
        invariant
            i <= tail@.len(),
            v@ == start + tail@.take(i as int),
        decreases tail@.len() - i,
    {
        v.push(tail[i]);
        i = i + 1;
        assert(v@ =~= start + tail@.take(i as int));
    }
    assert(tail@.take(tail@.len() as int) =~= tail@);
}

/// Pieces joined again give the text that was split.
pub proof fn split_then_join(s: Seq<char>, sep: char)
    ensures
        joined(split_text(s, sep), seq![sep]) == s,
        split_text(s, sep).len() >= 1,
    decreases s.len(),
{
    if s.len() == 0 {
        assert(joined(split_text(s, sep), seq![sep]) =~= s);
    } else {
        let d = s.drop_last();
        split_then_join(d, sep);
        let p = split_text(d, sep);
        let q = split_text(s, sep);
        if s.last() == sep {
            assert(q.drop_last() =~= p);
            assert(joined(q, seq![sep]) =~= d + seq![sep] + Seq::<char>::empty());
        } else {
            assert(q.drop_last() =~= p.drop_last());
            if p.len() == 1 {
                assert(q[0] =~= d.push(s.last()));
            } else {
                assert(joined(q, seq![sep]) =~= joined(p.drop_last(), seq![sep]) + seq![sep] + p.last().push(s.last()));
                assert(joined(q, seq![sep]) =~= joined(p, seq![sep]).push(s.last()));
            }
        }
        assert(d.push(s.last()) =~= s);
    }
}

proof fn all_white_trims_to_nothing(s: Seq<char>)
    requires
        forall|i: int| 0 <= i < s.len() ==> is_white(#[trigger] s[i]),
    ensures
        trimmed_start(s).len() == 0,
    decreases s.len(),
{
    if s.len() > 0 {
        let t = s.drop_first();
        assert forall|i: int| 0 <= i < t.len() implies is_white(#[trigger] t[i]) by {
            assert(t[i] == s[i + 1]);
        }
        all_white_trims_to_nothing(t);
    }
}

proof fn white_in_front_is_dropped(front: Seq<char>, s: Seq<char>)
    requires
        forall|i: int| 0 <= i < front.len() ==> is_white(#[trigger] front[i]),
    ensures
        trimmed_start(front + s) == trimmed_start(s),
    decreases front.len(),
{
    if front.len() > 0 {
        let f = front.drop_first();
        assert forall|i: int| 0 <= i < f.len() implies is_white(#[trigger] f[i]) by {
            assert(f[i] == front[i + 1]);
        }
        white_in_front_is_dropped(f, s);
        assert((front + s).drop_first() =~= f + s);
        assert((front + s)[0] == front[0]);
    } else {
        assert(front + s =~= s);
    }
}

proof fn white_behind_is_dropped(s: Seq<char>, back: Seq<char>)
    requires
        forall|i: int| 0 <= i < back.len() ==> is_white(#[trigger] back[i]),
    ensures
        trimmed_end(s + back) == trimmed_end(s),
    decreases back.len(),
{
    if back.len() > 0 {
        white_behind_is_dropped(s, back.drop_last());
        assert((s + back).drop_last() =~= s + back.drop_last());
        assert((s + back).last() == back.last());
    } else {
        assert(s + back =~= s);
    }
}

/// Trimming takes the white space around a text and leaves the text: whatever
/// begins and ends in something else comes through whole.
pub proof fn trimming_leaves_the_text(front: Seq<char>, s: Seq<char>, back: Seq<char>)
    requires
        forall|i: int| 0 <= i < front.len() ==> is_white(#[trigger] front[i]),
        forall|i: int| 0 <= i < back.len() ==> is_white(#[trigger] back[i]),
        s.len() > 0,
        !is_white(s[0]),
        !is_white(s[s.len() - 1]),
    ensures
        trimmed(front + s + back) == s,
{
    assert(front + s + back =~= front + (s + back));
    white_in_front_is_dropped(front, s + back);
    assert((s + back)[0] == s[0]);
    assert(trimmed_start(s + back) == s + back);
    white_behind_is_dropped(s, back);
}

/// A text is blank if and only if there is nothing but white space in it.
pub proof fn blank_means_all_white(s: Seq<char>)
    ensures
        is_blank(s) <==> forall|i: int| 0 <= i < s.len() ==> is_white(#[trigger] s[i]),
{
    if forall|i: int| 0 <= i < s.len() ==> is_white(#[trigger] s[i]) {
        all_white_trims_to_nothing(s);
    } else {
        let i = choose|i: int| 0 <= i < s.len() && !is_white(#[trigger] s[i]);
        something_is_left(s, i);
    }
}

proof fn something_is_left(s: Seq<char>, i: int)
    requires
        0 <= i < s.len(),
        !is_white(s[i]),
    ensures
        trimmed(s).len() > 0,
    decreases s.len(),
{
    if is_white(s[0]) {
        let t = s.drop_first();
        assert(t[i - 1] == s[i]);
        something_is_left(t, i - 1);
    } else {
        an_end_is_left(s);
    }
}

proof fn an_end_is_left(s: Seq<char>)
    requires
        s.len() > 0,
        !is_white(s[0]),
    ensures
        trimmed_end(s).len() > 0,
    decreases s.len(),
{
    if is_white(s.last()) {
        an_end_is_left(s.drop_last());
    }
}

/// A space, a tab and a line end are white space; a letter, a digit, a separator
/// of paths and the other marks of printable ASCII are not.
pub proof fn white_space_in_ascii(c: char)
    requires
        c < '\u{7f}',
    ensures
        is_white(c) <==> c == ' ' || c == '\t' || c == '\n' || c == '\r' || c == '\u{b}' || c == '\u{c}',
{
}

/// No piece of a text that was split holds the separator.
pub proof fn pieces_hold_no_separator(s: Seq<char>, sep: char, i: int, k: int)
    requires
        0 <= i < split_text(s, sep).len(),
        0 <= k < split_text(s, sep)[i].len(),
    ensures
        split_text(s, sep)[i][k] != sep,
    decreases s.len(),
{
    if s.len() > 0 {
        let before = split_text(s.drop_last(), sep);
        split_then_join(s.drop_last(), sep);
        if s.last() == sep {
            if i < before.len() {
                pieces_hold_no_separator(s.drop_last(), sep, i, k);
            }
        } else if i < before.len() - 1 {
            pieces_hold_no_separator(s.drop_last(), sep, i, k);
        } else if k < before.last().len() {
            pieces_hold_no_separator(s.drop_last(), sep, i, k);
        }
    }
}

/// Texts are joined by nothing but the separator, which stands between them and
/// nowhere else.
pub proof fn joining_puts_separators_between(parts: Seq<Seq<char>>, last: Seq<char>, sep: Seq<char>)
    requires
        parts.len() > 0,
    ensures
        joined(seq![last], sep) == last,
        joined(parts.push(last), sep) == joined(parts, sep) + sep + last,
        joined(Seq::<Seq<char>>::empty(), sep).len() == 0,
{
    assert(parts.push(last).drop_last() =~= parts);
}

/// The number that decimal digits stand for.
pub open spec fn digits_value(s: Seq<char>) -> nat
    decreases s.len(),
{
    if s.len() == 0 {
        0
    } else {
        10 * digits_value(s.drop_last()) + (s.last() as u32 - '0' as u32) as nat
    }
}

/// A number is written in decimal digits that stand for it, without a zero in
/// front unless it is zero.
pub proof fn decimals_stand_for_their_number(n: nat)
    ensures
        digits_value(decimal_text(n)) == n,
        decimal_text(n).len() > 0,
        forall|i: int| 0 <= i < decimal_text(n).len() ==> '0' <= #[trigger] decimal_text(n)[i] <= '9',
        n > 0 ==> decimal_text(n)[0] != '0',
    decreases n,
{
    let s = decimal_text(n);
    if n < 10 {
        assert(s.drop_last() =~= Seq::<char>::empty());
        assert(digits_value(s.drop_last()) == 0);
    } else {
        decimals_stand_for_their_number(n / 10);
        assert(s.drop_last() =~= decimal_text(n / 10));
        assert(s[0] == decimal_text(n / 10)[0]);
        assert forall|i: int| 0 <= i < s.len() implies '0' <= #[trigger] s[i] <= '9' by {
            if i < s.len() - 1 {
                assert(s[i] == decimal_text(n / 10)[i]);
            }
        }
    }
}

/// The number that an upper-case hexadecimal digit stands for.
pub open spec fn hex_value(c: char) -> int {
    if '0' <= c <= '9' {
        c as u32 - '0' as u32
    } else {
        10 + (c as u32 - 'A' as u32)
    }
}

/// A byte is written as `0x` and two digits that stand for it.
pub proof fn hex_digits_stand_for_their_byte(b: u8)
    ensures
        byte_text(b).len() == 4,
        byte_text(b)[0] == '0',
        byte_text(b)[1] == 'x',
        16 * hex_value(byte_text(b)[2]) + hex_value(byte_text(b)[3]) == b,
        '0' <= byte_text(b)[2] <= '9' || 'A' <= byte_text(b)[2] <= 'F',
        '0' <= byte_text(b)[3] <= '9' || 'A' <= byte_text(b)[3] <= 'F',
{
}

/// Rounding goes to a whole number that is at most a half away, and to an even one
/// where it is exactly a half away.
pub proof fn rounding_is_to_the_nearest(part: nat, whole: nat)
    requires
        whole > 0,
    ensures
        2 * (nearest_to(part, whole) * whole) <= 2 * part + whole,
        2 * part <= 2 * (nearest_to(part, whole) * whole) + whole,
        2 * (nearest_to(part, whole) * whole) == 2 * part + whole || 2 * part == 2 * (nearest_to(part, whole) * whole)
            + whole ==> nearest_to(part, whole) % 2 == 0,
{
    let q = part / whole;
    let rest = part % whole;
    assert(part == q * whole + rest && rest < whole) by (nonlinear_arith)
        requires
            q == part / whole,
            rest == part % whole,
            whole > 0,
    ;
    assert((q + 1) * whole == q * whole + whole) by (nonlinear_arith);
}

proof fn a_piece_is_not_split(s: Seq<char>, piece: Seq<char>, sep: char)
    requires
        forall|i: int| 0 <= i < piece.len() ==> piece[i] != sep,
    ensures
        split_text(s.push(sep) + piece, sep) == split_text(s, sep).push(piece),
        split_text(piece, sep) == seq![piece],
    decreases piece.len(),
{
    let t = s.push(sep) + piece;
    if piece.len() == 0 {
        assert(t =~= s.push(sep));
        assert(t.drop_last() =~= s);
        assert(piece =~= Seq::<char>::empty());
    } else {
        let d = piece.drop_last();
        a_piece_is_not_split(s, d, sep);
        assert(t.drop_last() =~= s.push(sep) + d);
        assert(t.last() == piece.last());
        assert(d.push(piece.last()) =~= piece);
        let before = split_text(s, sep).push(d);
        assert(before.drop_last() =~= split_text(s, sep));
        assert(seq![d].drop_last() =~= Seq::<Seq<char>>::empty());
        assert(Seq::<Seq<char>>::empty().push(piece) =~= seq![piece]);
    }
}

/// Splitting undoes joining: texts without the separator, joined by it, come back as they
/// were.
pub proof fn join_then_split(parts: Seq<Seq<char>>, sep: char)
    requires
        parts.len() > 0,
        forall|i: int, k: int| 0 <= i < parts.len() && 0 <= k < parts[i].len() ==> #[trigger] parts[i][k] != sep,
    ensures
        split_text(joined(parts, seq![sep]), sep) == parts,
    decreases parts.len(),
{
    if parts.len() == 1 {
        a_piece_is_not_split(Seq::empty(), parts[0], sep);
        assert(seq![parts[0]] =~= parts);
    } else {
        let d = parts.drop_last();
        assert forall|i: int, k: int| 0 <= i < d.len() && 0 <= k < d[i].len() implies #[trigger] d[i][k] != sep by {
            assert(d[i] == parts[i]);
        }
        join_then_split(d, sep);
        let last = parts.last();
        assert(last == parts[parts.len() - 1]);
        a_piece_is_not_split(joined(d, seq![sep]), last, sep);
        assert(joined(parts, seq![sep]) =~= joined(d, seq![sep]).push(sep) + last);
        assert(d.push(last) =~= parts);
    }
}

/// Whether a text stands somewhere in another.
pub open spec fn mentions(s: Seq<char>, part: Seq<char>) -> bool {
    exists|a: Seq<char>, b: Seq<char>| s == #[trigger] (a + part + b)
}

/// White space is what Unicode takes for it, the spaces of fixed width and the one that
/// does not break among it; nothing else is.
pub proof fn white_space_in_unicode(c: char)
    ensures
        is_white(c) <==> c == '\u{9}' || c == '\u{a}' || c == '\u{b}' || c == '\u{c}' || c == '\u{d}' || c == ' ' || c == '\u{85}' || c
            == '\u{a0}' || c == '\u{1680}' || ('\u{2000}' <= c <= '\u{200a}') || c == '\u{2028}' || c == '\u{2029}' || c == '\u{202f}'
            || c == '\u{205f}' || c == '\u{3000}',
{
}

} // verus!
