//! Text handling over sequences of characters.

use vstd::prelude::*;
use vstd::slice::{slice_subrange, slice_to_vec};

verus! {

/// `String::push` appends one character to the end of the string.
pub assume_specification[ String::push ](s: &mut String, ch: char)
    ensures
        final(s)@ == old(s)@.push(ch),
;

/// The characters of `s`, in order.
pub fn to_chars(s: &str) -> (out: Vec<char>)
    ensures
        out@ == s@,
{
    let mut out: Vec<char> = Vec::new();
    for c in it: s.chars()
        invariant
            it.seq() == s@,
            out@ == s@.take(it.index()),
    {
        out.push(c);
    }
    out
}

/// The string made of the characters of `chars`, in order.
pub fn to_text(chars: &[char]) -> (out: String)
    ensures
        out@ == chars@,
{
    let mut out = String::new();
    let mut i: usize = 0;
    while i < chars.len()
        invariant
            i <= chars.len(),
            out@ == chars@.take(i as int),
        decreases chars.len() - i,
    {
        out.push(chars[i]);
        i += 1;
    }
    out
}

/// Whether `p` stands in `s` at index `i`.
pub open spec fn occurs_at(s: Seq<char>, p: Seq<char>, i: int) -> bool {
    0 <= i && i + p.len() <= s.len() && s.subrange(i, i + p.len()) == p
}

/// Whether `s` begins with `p`.
pub open spec fn starts_with(s: Seq<char>, p: Seq<char>) -> bool {
    occurs_at(s, p, 0)
}

/// The least index at or after `from` at which `p` stands in `s`.
pub open spec fn find_from(s: Seq<char>, p: Seq<char>, from: int) -> Option<int>
    decreases s.len() - from,
{
    if from < 0 || from + p.len() > s.len() {
        None
    } else if from >= s.len() || occurs_at(s, p, from) {
        Some(from)
    } else {
        find_from(s, p, from + 1)
    }
}

/// The least index at which `p` stands in `s`.
pub open spec fn find(s: Seq<char>, p: Seq<char>) -> Option<int> {
    find_from(s, p, 0)
}

/// Whether `p` stands somewhere in `s`.
pub open spec fn contains(s: Seq<char>, p: Seq<char>) -> bool {
    find(s, p) is Some
}

/// Whether the character `c` is one of `s`.
pub open spec fn has_char(s: Seq<char>, c: char) -> bool {
    contains(s, seq![c])
}

/// `find_from` gives the least index at or after `from` at which `p` stands in `s`, and
/// none exactly where there is no such index.
pub proof fn lemma_find_is_least(s: Seq<char>, p: Seq<char>, from: int)
    requires
        0 <= from,
    ensures
        match find_from(s, p, from) {
            Some(i) => from <= i && occurs_at(s, p, i) && forall|j: int|
                from <= j < i ==> !occurs_at(s, p, j),
            None => forall|j: int| from <= j ==> !occurs_at(s, p, j),
        },
    decreases s.len() - from,
{
    if from + p.len() > s.len() {
    } else if from >= s.len() || occurs_at(s, p, from) {
        assert(from >= s.len() ==> s.subrange(from, from + p.len()) =~= p);
    } else {
        lemma_find_is_least(s, p, from + 1);
    }
}

/// Whether `p` stands in `s` at index `i`.
pub fn matches_at(s: &[char], p: &[char], i: usize) -> (r: bool)
    ensures
        r == occurs_at(s@, p@, i as int),
{
    if p.len() > s.len() || i > s.len() - p.len() {
        return false;
    }
    let mut k: usize = 0;
    while k < p.len()
        invariant
            k <= p.len(),
            i + p.len() <= s.len(),
            forall|j: int| 0 <= j < k ==> s@[i + j] == p@[j],
        decreases p.len() - k,
    {
        if s[i + k] != p[k] {
            assert(s@.subrange(i as int, i + p.len())[k as int] == s@[i + k]);
            return false;
        }
        k += 1;
    }
    assert(s@.subrange(i as int, i + p.len()) =~= p@);
    true
}

/// The least index at or after `from` at which `p` stands in `s`.
pub fn find_in(s: &[char], p: &[char], from: usize) -> (r: Option<usize>)
    ensures
        match r {
            Some(i) => find_from(s@, p@, from as int) == Some(i as int) && from <= i && i + p.len()
                <= s.len(),
            None => find_from(s@, p@, from as int) is None,
        },
{
    if p.len() > s.len() {
        return None;
    }
    let last: usize = s.len() - p.len();
    if from > last {
        return None;
    }
    let mut i: usize = from;
    while i <= last
        invariant
            from <= i,
            last == s.len() - p.len(),
            p.len() <= s.len(),
            i <= last + 1,
            find_from(s@, p@, from as int) == find_from(s@, p@, i as int),
        decreases last + 1 - i,
    {
        if matches_at(s, p, i) {
            return Some(i);
        }
        assert(i < s.len()) by {
            if i >= s.len() {
                assert(s@.subrange(i as int, i + p.len()) =~= p@);
            }
        }
        if i == last {
            assert(find_from(s@, p@, i + 1) is None);
            return None;
        }
        i += 1;
    }
    None
}

/// Whether `s` begins with the text `p`.
pub fn starts_with_str(s: &[char], p: &str) -> (r: bool)
    ensures
        r == starts_with(s@, p@),
{
    let pat = to_chars(p);
    matches_at(s, pat.as_slice(), 0)
}

/// Whether the text `p` stands somewhere in `s`.
pub fn contains_str(s: &[char], p: &str) -> (r: bool)
    ensures
        r == contains(s@, p@),
{
    let pat = to_chars(p);
    find_in(s, pat.as_slice(), 0).is_some()
}

/// The least index at which the text `p` stands in `s`.
pub fn find_str(s: &[char], p: &str) -> (r: Option<usize>)
    ensures
        match r {
            Some(i) => find(s@, p@) == Some(i as int) && i + p@.len() <= s.len(),
            None => find(s@, p@) is None,
        },
{
    let pat = to_chars(p);
    find_in(s, pat.as_slice(), 0)
}

/// The least index at which the character `c` stands in `s`.
pub fn find_char(s: &[char], c: char) -> (r: Option<usize>)
    ensures
        match r {
            Some(i) => find(s@, seq![c]) == Some(i as int) && i < s.len(),
            None => find(s@, seq![c]) is None,
        },
{
    let mut pat: Vec<char> = Vec::new();
    pat.push(c);
    assert(pat@ =~= seq![c]);
    find_in(s, pat.as_slice(), 0)
}

/// Whether `a` and `b` hold the same characters.
pub fn same_text(a: &[char], b: &[char]) -> (r: bool)
    ensures
        r == (a@ == b@),
{
    if a.len() != b.len() {
        return false;
    }
    let r = matches_at(a, b, 0);
    assert(a@.subrange(0, a@.len() as int) =~= a@);
    r
}

/// Whether `s` is exactly the text `p`.
pub fn is_str(s: &[char], p: &str) -> (r: bool)
    ensures
        r == (s@ == p@),
{
    let pat = to_chars(p);
    same_text(s, pat.as_slice())
}

/// The character sequences that the vectors of `v` hold.
pub open spec fn views(v: Seq<Vec<char>>) -> Seq<Seq<char>> {
    v.map_values(|x: Vec<char>| x@)
}

/// The character sequences that the strings of `v` hold.
pub open spec fn texts(v: Seq<String>) -> Seq<Seq<char>> {
    v.map_values(|x: String| x@)
}

/// The pieces of `s` between the occurrences of `c`. There is one piece more than there are
/// occurrences; a piece is empty where two occurrences touch or one stands at an end.
pub open spec fn split(s: Seq<char>, c: char) -> Seq<Seq<char>>
    decreases s.len(),
{
    if s.len() == 0 {
        seq![Seq::<char>::empty()]
    } else {
        let before = split(s.drop_last(), c);
        if s.last() == c {
            before.push(Seq::<char>::empty())
        } else {
            before.drop_last().push(before.last().push(s.last()))
        }
    }
}

/// The pieces of a text, put together again with the separator between them, are the
/// text; there is at least one piece, and the separator is in none.
pub proof fn lemma_split_join(s: Seq<char>, c: char)
    ensures
        split(s, c).len() >= 1,
        join(split(s, c), seq![c]) == s,
        forall|i: int| 0 <= i < split(s, c).len() ==> !(#[trigger] split(s, c)[i]).contains(c),
    decreases s.len(),
{
    if s.len() == 0 {
        assert(join(split(s, c), seq![c]) =~= s);
    } else {
        let t = s.drop_last();
        let before = split(t, c);
        let now = split(s, c);
        lemma_split_join(t, c);
        if s.last() == c {
            assert(now.drop_last() =~= before);
            assert(join(now, seq![c]) =~= join(before, seq![c]) + seq![c] + Seq::<char>::empty());
            assert(join(now, seq![c]) =~= s);
        } else {
            let grown = before.last().push(s.last());
            assert(now.last() == grown);
            if before.len() == 1 {
                assert(join(before, seq![c]) == before[0]);
                assert(join(now, seq![c]) =~= s);
            } else {
                assert(now.drop_last() =~= before.drop_last());
                assert(join(now, seq![c]) =~= (join(before.drop_last(), seq![c]) + seq![c]
                    + before.last()).push(s.last()));
                assert(join(now, seq![c]) =~= s);
            }
            assert forall|i: int| 0 <= i < now.len() implies !(#[trigger] now[i]).contains(c) by {
                if i < now.len() - 1 {
                    assert(now[i] == before[i]);
                } else if now[i].contains(c) {
                    let k = choose|k: int| 0 <= k < now[i].len() && now[i][k] == c;
                    assert(before[before.len() - 1][k] == c);
                    assert(before[before.len() - 1].contains(c));
                }
            }
        }
    }
}

/// The pieces of `s` between the occurrences of `c`.
pub fn split_chars(s: &[char], c: char) -> (out: Vec<Vec<char>>)
    ensures
        views(out@) == split(s@, c),
        out.len() >= 1,
{
    let mut out: Vec<Vec<char>> = Vec::new();
    let mut cur: Vec<char> = Vec::new();
    let mut i: usize = 0;
    assert(s@.take(0) =~= Seq::<char>::empty());
    assert(views(out@).push(cur@) =~= seq![Seq::<char>::empty()]);
    while i < s.len()
        invariant
            i <= s.len(),
            split(s@.take(i as int), c) == views(out@).push(cur@),
        decreases s.len() - i,
    {
        let ghost before = views(out@).push(cur@);
        let ghost done = views(out@);
        let ghost piece = cur@;
        assert(s@.take(i + 1).drop_last() =~= s@.take(i as int));
        assert(before.drop_last() =~= done);
        if s[i] == c {
            out.push(cur);
            cur = Vec::new();
            assert(views(out@) =~= before);
            assert(cur@ =~= Seq::<char>::empty());
        } else {
            cur.push(s[i]);
            assert(views(out@) =~= done);
        }
        i += 1;
    }
    assert(s@.take(i as int) =~= s@);
    let ghost done = views(out@);
    let ghost piece = cur@;
    out.push(cur);
    assert(views(out@) =~= done.push(piece));
    out
}

/// `l` without one carriage return at its end, if it has one there.
pub open spec fn strip_cr(l: Seq<char>) -> Seq<char> {
    if l.len() > 0 && l.last() == '\r' {
        l.drop_last()
    } else {
        l
    }
}

/// The lines of `s`. A line ends at a line feed, or at a carriage return followed by a line
/// feed; neither belongs to the line. What follows the last line feed is a line of its own
/// unless it is empty.
pub open spec fn lines(s: Seq<char>) -> Seq<Seq<char>> {
    let pieces = split(s, '\n');
    let ended = pieces.drop_last().map_values(|l: Seq<char>| strip_cr(l));
    if pieces.last().len() == 0 {
        ended
    } else {
        ended.push(pieces.last())
    }
}

/// `l` without one carriage return at its end, if it has one there.
pub fn strip_cr_chars(l: &[char]) -> (out: &[char])
    ensures
        out@ == strip_cr(l@),
{
    let len = l.len();
    if len > 0 && l[len - 1] == '\r' {
        slice_subrange(l, 0, len - 1)
    } else {
        l
    }
}

/// The lines of `s`.
pub fn split_lines(s: &[char]) -> (out: Vec<Vec<char>>)
    ensures
        views(out@) == lines(s@),
{
    let pieces = split_chars(s, '\n');
    let n = pieces.len();
    let mut out: Vec<Vec<char>> = Vec::new();
    let mut i: usize = 0;
    while i + 1 < n
        invariant
            n == pieces.len(),
            n >= 1,
            i + 1 <= n,
            out.len() == i,
            forall|j: int| 0 <= j < i ==> out[j]@ == strip_cr(#[trigger] pieces[j]@),
        decreases n - i,
    {
        let line = slice_to_vec(strip_cr_chars(pieces[i].as_slice()));
        out.push(line);
        i += 1;
    }
    if pieces[n - 1].len() != 0 {
        out.push(slice_to_vec(pieces[n - 1].as_slice()));
    }
    assert(views(out@) =~= lines(s@)) by {
        let all = views(pieces@);
        assert(all == split(s@, '\n'));
        assert(all.last() == pieces[n - 1]@);
        assert forall|j: int| 0 <= j < n - 1 implies views(out@)[j] == all.drop_last().map_values(
            |l: Seq<char>| strip_cr(l),
        )[j] by {
            assert(out[j]@ == strip_cr(pieces[j]@));
        }
    }
    out
}

/// Whether `c` is white space: a character with the Unicode property `White_Space`.
pub open spec fn is_whitespace(c: char) -> bool {
    let n = c as u32;
    (0x09 <= n <= 0x0d) || n == 0x20 || n == 0x85 || n == 0xa0 || n == 0x1680 || (0x2000 <= n
        <= 0x200a) || n == 0x2028 || n == 0x2029 || n == 0x202f || n == 0x205f || n == 0x3000
}

/// Whether `c` is white space.
pub fn is_space(c: char) -> (r: bool)
    ensures
        r == is_whitespace(c),
{
    let n: u32 = c as u32;
    (0x09 <= n && n <= 0x0d) || n == 0x20 || n == 0x85 || n == 0xa0 || n == 0x1680 || (0x2000
        <= n && n <= 0x200a) || n == 0x2028 || n == 0x2029 || n == 0x202f || n == 0x205f || n
        == 0x3000
}

/// `s` without the white space at its start.
pub open spec fn trim_start(s: Seq<char>) -> Seq<char>
    decreases s.len(),
{
    if s.len() > 0 && is_whitespace(s[0]) {
        trim_start(s.drop_first())
    } else {
        s
    }
}

/// `s` without the white space at its end.
pub open spec fn trim_end(s: Seq<char>) -> Seq<char>
    decreases s.len(),
{
    if s.len() > 0 && is_whitespace(s.last()) {
        trim_end(s.drop_last())
    } else {
        s
    }
}

/// `s` without the white space at its two ends.
pub open spec fn trim(s: Seq<char>) -> Seq<char> {
    trim_end(trim_start(s))
}

/// `s` without the white space at its two ends.
pub fn trim_chars(s: &[char]) -> (out: &[char])
    ensures
        out@ == trim(s@),
{
    let mut lo: usize = 0;
    assert(s@.subrange(0, s@.len() as int) =~= s@);
    while lo < s.len() && is_space(s[lo])
        invariant
            lo <= s.len(),
            trim_start(s@) == trim_start(s@.subrange(lo as int, s@.len() as int)),
        decreases s.len() - lo,
    {
        assert(s@.subrange(lo as int, s@.len() as int).drop_first() =~= s@.subrange(
            lo + 1,
            s@.len() as int,
        ));
        lo += 1;
    }
    let mut hi: usize = s.len();
    while hi > lo && is_space(s[hi - 1])
        invariant
            lo <= hi <= s.len(),
            trim_start(s@) == s@.subrange(lo as int, s@.len() as int),
            trim(s@) == trim_end(s@.subrange(lo as int, hi as int)),
        decreases hi,
    {
        assert(s@.subrange(lo as int, hi as int).drop_last() =~= s@.subrange(
            lo as int,
            hi - 1,
        ));
        hi -= 1;
    }
    slice_subrange(s, lo, hi)
}

/// The pieces of `parts` in order, with `sep` between each two of them.
pub open spec fn join(parts: Seq<Seq<char>>, sep: Seq<char>) -> Seq<char>
    decreases parts.len(),
{
    if parts.len() == 0 {
        Seq::<char>::empty()
    } else if parts.len() == 1 {
        parts[0]
    } else {
        join(parts.drop_last(), sep) + sep + parts.last()
    }
}

/// Appends the characters of `more` to `out`.
pub fn push_chars(out: &mut Vec<char>, more: &[char])
    ensures
        final(out)@ == old(out)@ + more@,
{
    let mut i: usize = 0;
    while i < more.len()
        invariant
            i <= more.len(),
            out@ == old(out)@ + more@.take(i as int),
        decreases more.len() - i,
    {
        out.push(more[i]);
        assert(more@.take(i + 1) =~= more@.take(i as int).push(more@[i as int]));
        i += 1;
    }
    assert(more@.take(i as int) =~= more@);
}

/// Appends the characters of the text `more` to `out`.
pub fn push_str(out: &mut Vec<char>, more: &str)
    ensures
        final(out)@ == old(out)@ + more@,
{
    let chars = to_chars(more);
    push_chars(out, chars.as_slice());
}

/// The pieces of `parts` in order, with the text `sep` between each two of them.
pub fn join_chars(parts: &Vec<Vec<char>>, sep: &str) -> (out: Vec<char>)
    ensures
        out@ == join(views(parts@), sep@),
{
    let mut out: Vec<char> = Vec::new();
    let mut i: usize = 0;
    assert(views(parts@).take(0) =~= Seq::<Seq<char>>::empty());
    while i < parts.len()
        invariant
            i <= parts.len(),
            out@ == join(views(parts@).take(i as int), sep@),
        decreases parts.len() - i,
    {
        let ghost done = views(parts@).take(i as int);
        let ghost next = views(parts@).take(i + 1);
        assert(next.drop_last() =~= done);
        assert(next.last() == parts[i as int]@);
        if i > 0 {
            push_str(&mut out, sep);
        } else {
            assert(out@ + parts[i as int]@ =~= parts[i as int]@);
        }
        push_chars(&mut out, parts[i].as_slice());
        i += 1;
    }
    assert(views(parts@).take(i as int) =~= views(parts@));
    out
}

/// Whether `c` is one of the ten decimal digits.
pub open spec fn is_digit(c: char) -> bool {
    '0' <= c <= '9'
}

/// The number that the decimal digit `c` stands for.
pub open spec fn digit_value(c: char) -> nat {
    (c as u32 - '0' as u32) as nat
}

/// The number that the decimal digits `s` write, most significant first.
pub open spec fn digits_value(s: Seq<char>) -> nat
    decreases s.len(),
{
    if s.len() == 0 {
        0
    } else {
        digits_value(s.drop_last()) * 10 + digit_value(s.last())
    }
}

/// Whether every character of `s` is a decimal digit.
pub open spec fn all_digits(s: Seq<char>) -> bool {
    forall|i: int| 0 <= i < s.len() ==> is_digit(#[trigger] s[i])
}

/// `s` without the plus sign at its start, if it has one there.
pub open spec fn without_plus(s: Seq<char>) -> Seq<char> {
    if s.len() > 0 && s[0] == '+' {
        s.drop_first()
    } else {
        s
    }
}

/// The number that `s` writes in decimal: one or more digits, with nothing before them but
/// an optional plus sign, and nothing after them.
pub open spec fn parse_nat(s: Seq<char>) -> Option<nat> {
    let digits = without_plus(s);
    if digits.len() > 0 && all_digits(digits) {
        Some(digits_value(digits))
    } else {
        None
    }
}

/// The number that `s` writes in decimal, where it is at most `max`.
pub open spec fn parse_bounded(s: Seq<char>, max: nat) -> Option<nat> {
    match parse_nat(s) {
        Some(n) => if n <= max {
            Some(n)
        } else {
            None
        },
        None => None,
    }
}

/// The port number that `s` writes in decimal.
pub open spec fn parse_port(s: Seq<char>) -> Option<u16> {
    match parse_bounded(s, 0xffff) {
        Some(n) => Some(n as u16),
        None => None,
    }
}

/// A longer run of digits writes a number that is no smaller.
pub proof fn lemma_digits_value_grows(s: Seq<char>, i: int)
    requires
        0 <= i <= s.len(),
    ensures
        digits_value(s.take(i)) <= digits_value(s),
    decreases s.len() - i,
{
    if i < s.len() {
        lemma_digits_value_grows(s, i + 1);
        assert(s.take(i + 1).drop_last() =~= s.take(i));
    } else {
        assert(s.take(i) =~= s);
    }
}

/// The number that `s` writes in decimal, where it is at most `max`.
pub fn parse_number(s: &[char], max: u64) -> (r: Option<u64>)
    ensures
        match r {
            Some(n) => parse_bounded(s@, max as nat) == Some(n as nat),
            None => parse_bounded(s@, max as nat) is None,
        },
{
    let start: usize = if s.len() > 0 && s[0] == '+' {
        1
    } else {
        0
    };
    let digits = slice_subrange(s, start, s.len());
    assert(digits@ =~= without_plus(s@));
    if digits.len() == 0 {
        return None;
    }
    let mut acc: u128 = 0;
    let mut i: usize = 0;
    assert(digits@.take(0) =~= Seq::<char>::empty());
    while i < digits.len()
        invariant
            i <= digits.len(),
            digits@ == without_plus(s@),
            acc == digits_value(digits@.take(i as int)),
            acc <= max,
            forall|j: int| 0 <= j < i ==> is_digit(#[trigger] digits@[j]),
        decreases digits.len() - i,
    {
        let c = digits[i];
        if c < '0' || c > '9' {
            return None;
        }
        let d: u128 = (c as u32 - '0' as u32) as u128;
        assert(digits@.take(i + 1).drop_last() =~= digits@.take(i as int));
        acc = acc * 10 + d;
        if acc > max as u128 {
            proof {
                lemma_digits_value_grows(digits@, i + 1);
            }
            return None;
        }
        i += 1;
    }
    assert(digits@.take(i as int) =~= digits@);
    Some(acc as u64)
}

/// The port number that `s` writes in decimal.
pub fn parse_u16(s: &[char]) -> (r: Option<u16>)
    ensures
        r == parse_port(s@),
{
    match parse_number(s, 0xffff) {
        Some(n) => Some(n as u16),
        None => None,
    }
}

/// The decimal digit that stands for `d`.
pub open spec fn digit_char(d: nat) -> char {
    (d + 0x30) as u8 as char
}

/// `n` written in decimal, without a sign or leading zeros.
pub open spec fn decimal(n: nat) -> Seq<char>
    decreases n,
{
    if n < 10 {
        seq![digit_char(n)]
    } else {
        decimal(n / 10).push(digit_char(n % 10))
    }
}

/// A number written in decimal is read back as that number.
pub proof fn lemma_decimal_reads_back(n: nat)
    ensures
        decimal(n).len() >= 1,
        all_digits(decimal(n)),
        digits_value(decimal(n)) == n,
        parse_nat(decimal(n)) == Some(n),
    decreases n,
{
    if n < 10 {
        assert(decimal(n).drop_last() =~= Seq::<char>::empty());
        assert(decimal(n).last() == digit_char(n));
        assert(digit_value(digit_char(n)) == n);
        assert(digits_value(Seq::<char>::empty()) == 0);
        assert(digits_value(decimal(n)) == digits_value(decimal(n).drop_last()) * 10
            + digit_value(decimal(n).last()));
    } else {
        lemma_decimal_reads_back(n / 10);
        assert(decimal(n).drop_last() =~= decimal(n / 10));
        assert(decimal(n).last() == digit_char(n % 10));
        assert(digit_value(digit_char(n % 10)) == n % 10);
        assert(digits_value(decimal(n)) == digits_value(decimal(n).drop_last()) * 10
            + digit_value(decimal(n).last()));
        assert forall|i: int| 0 <= i < decimal(n).len() implies is_digit(
            #[trigger] decimal(n)[i],
        ) by {
            if i < decimal(n).len() - 1 {
                assert(decimal(n)[i] == decimal(n / 10)[i]);
            }
        }
    }
    assert(is_digit(decimal(n)[0]));
    assert(without_plus(decimal(n)) == decimal(n));
}

/// Appends `n`, written in decimal, to `out`.
pub fn push_decimal(out: &mut Vec<char>, n: u64)
    ensures
        final(out)@ == old(out)@ + decimal(n as nat),
    decreases n,
{
    if n >= 10 {
        push_decimal(out, n / 10);
    }
    let d: u8 = (n % 10) as u8;
    out.push((d + 0x30) as char);
    assert(out@ =~= old(out)@ + decimal(n as nat));
}

/// `s` without the occurrences of `p` that are found from `from` on, searching from left to
/// right and going on behind each one found.
pub open spec fn remove_all_from(s: Seq<char>, p: Seq<char>, from: int) -> Seq<char>
    decreases s.len() - from,
{
    if from < 0 || from >= s.len() {
        Seq::<char>::empty()
    } else if p.len() > 0 && occurs_at(s, p, from) {
        remove_all_from(s, p, from + p.len())
    } else {
        seq![s[from]] + remove_all_from(s, p, from + 1)
    }
}

/// `s` without the occurrences of `p`, searching from left to right.
pub open spec fn remove_all(s: Seq<char>, p: Seq<char>) -> Seq<char> {
    remove_all_from(s, p, 0)
}

/// `s` without the occurrences of the text `p`, searching from left to right.
pub fn remove_str(s: &[char], p: &str) -> (out: Vec<char>)
    ensures
        out@ == remove_all(s@, p@),
{
    let pat = to_chars(p);
    let mut out: Vec<char> = Vec::new();
    let mut i: usize = 0;
    while i < s.len()
        invariant
            i <= s.len(),
            pat@ == p@,
            remove_all(s@, p@) == out@ + remove_all_from(s@, p@, i as int),
        decreases s.len() - i,
    {
        if pat.len() > 0 && matches_at(s, pat.as_slice(), i) {
            i += pat.len();
        } else {
            let ghost before = out@;
            out.push(s[i]);
            assert(out@ + remove_all_from(s@, p@, i + 1) =~= before + (seq![s@[i as int]]
                + remove_all_from(s@, p@, i + 1)));
            i += 1;
        }
    }
    assert(out@ + Seq::<char>::empty() =~= out@);
    out
}

/// The number of bytes that `c` takes in UTF-8.
pub open spec fn char_bytes(c: char) -> nat {
    let n = c as u32;
    if n < 0x80 {
        1
    } else if n < 0x800 {
        2
    } else if n < 0x10000 {
        3
    } else {
        4
    }
}

/// The number of bytes that `s` takes in UTF-8.
pub open spec fn byte_len(s: Seq<char>) -> nat
    decreases s.len(),
{
    if s.len() == 0 {
        0
    } else {
        byte_len(s.drop_last()) + char_bytes(s.last())
    }
}

/// A longer text takes no fewer bytes.
pub proof fn lemma_byte_len_grows(s: Seq<char>, i: int)
    requires
        0 <= i <= s.len(),
    ensures
        byte_len(s.take(i)) <= byte_len(s),
    decreases s.len() - i,
{
    if i < s.len() {
        lemma_byte_len_grows(s, i + 1);
        assert(s.take(i + 1).drop_last() =~= s.take(i));
    } else {
        assert(s.take(i) =~= s);
    }
}

/// Whether `s` takes fewer than `limit` bytes in UTF-8.
pub fn shorter_than(s: &[char], limit: u32) -> (r: bool)
    ensures
        r == (byte_len(s@) < limit),
{
    if limit == 0 {
        return false;
    }
    let mut total: u64 = 0;
    let mut i: usize = 0;
    assert(s@.take(0) =~= Seq::<char>::empty());
    while i < s.len()
        invariant
            i <= s.len(),
            total == byte_len(s@.take(i as int)),
            total < limit,
        decreases s.len() - i,
    {
        let n: u32 = s[i] as u32;
        let width: u64 = if n < 0x80 {
            1
        } else if n < 0x800 {
            2
        } else if n < 0x10000 {
            3
        } else {
            4
        };
        assert(s@.take(i + 1).drop_last() =~= s@.take(i as int));
        total = total + width;
        if total >= limit as u64 {
            proof {
                lemma_byte_len_grows(s@, i + 1);
            }
            return false;
        }
        i += 1;
    }
    assert(s@.take(i as int) =~= s@);
    true
}

/// The lower-case form of the text `s`. It need not be as long as `s`, and what becomes of
/// a character may depend on where it stands.
pub uninterp spec fn lowercase(s: Seq<char>) -> Seq<char>;

/// The upper-case form of the text `s`. It need not be as long as `s`.
pub uninterp spec fn uppercase(s: Seq<char>) -> Seq<char>;

/// `str::to_lowercase` returns the lower-case form of the text; the contract gives that form
/// a name and says no more of it.
#[verifier::external_body]
pub(crate) fn to_lowercase(s: &str) -> (out: String)
    ensures
        out@ == lowercase(s@),
{
    s.to_lowercase()
}

/// `str::to_uppercase` returns the upper-case form of the text; the contract gives that form
/// a name and says no more of it.
#[verifier::external_body]
pub(crate) fn to_uppercase(s: &str) -> (out: String)
    ensures
        out@ == uppercase(s@),
{
    s.to_uppercase()
}

/// Whether `a` comes before `b` in the order of the dictionary: at the first place where
/// they differ `a` has the smaller character, or `a` ends there and `b` goes on.
pub open spec fn text_less(a: Seq<char>, b: Seq<char>) -> bool
    decreases a.len(),
{
    if b.len() == 0 {
        false
    } else if a.len() == 0 {
        true
    } else if a[0] != b[0] {
        a[0] < b[0]
    } else {
        text_less(a.drop_first(), b.drop_first())
    }
}

/// Of three texts in a row, the first comes before the last.
pub proof fn lemma_text_less_transitive(a: Seq<char>, b: Seq<char>, c: Seq<char>)
    requires
        text_less(a, b),
        text_less(b, c),
    ensures
        text_less(a, c),
    decreases a.len(),
{
    if a.len() > 0 && a[0] == b[0] && b[0] == c[0] {
        lemma_text_less_transitive(a.drop_first(), b.drop_first(), c.drop_first());
    }
}

/// Of two different texts exactly one comes before the other, and no text comes before
/// itself.
pub proof fn lemma_text_less_total(a: Seq<char>, b: Seq<char>)
    ensures
        a != b ==> (text_less(a, b) || text_less(b, a)),
        !(text_less(a, b) && text_less(b, a)),
        a == b ==> !text_less(a, b),
    decreases a.len(),
{
    if a.len() > 0 && b.len() > 0 && a[0] == b[0] {
        lemma_text_less_total(a.drop_first(), b.drop_first());
        if a.drop_first() == b.drop_first() {
            assert(a =~= seq![a[0]] + a.drop_first());
            assert(b =~= seq![b[0]] + b.drop_first());
        }
    } else if a.len() == 0 && b.len() == 0 {
        assert(a =~= b);
    }
}

/// Whether `a` comes before `b` in the order of the dictionary.
pub fn is_less(a: &[char], b: &[char]) -> (r: bool)
    ensures
        r == text_less(a@, b@),
{
    let mut i: usize = 0;
    assert(a@.skip(0) =~= a@);
    assert(b@.skip(0) =~= b@);
    while i < a.len() && i < b.len()
        invariant
            i <= a.len(),
            i <= b.len(),
            text_less(a@, b@) == text_less(a@.skip(i as int), b@.skip(i as int)),
        decreases a.len() - i,
    {
        if a[i] != b[i] {
            return a[i] < b[i];
        }
        assert(a@.skip(i as int).drop_first() =~= a@.skip(i + 1));
        assert(b@.skip(i as int).drop_first() =~= b@.skip(i + 1));
        i += 1;
    }
    i < b.len()
}

/// Whether the texts `a` and `b` hold the same characters.
pub fn str_eq(a: &str, b: &str) -> (r: bool)
    ensures
        r == (a@ == b@),
{
    let x = to_chars(a);
    let y = to_chars(b);
    same_text(x.as_slice(), y.as_slice())
}

/// Whether the text `p` stands somewhere in the text `s`.
pub fn str_contains(s: &str, p: &str) -> (r: bool)
    ensures
        r == contains(s@, p@),
{
    let x = to_chars(s);
    contains_str(x.as_slice(), p)
}

/// Whether `s` is one of the texts of `v`.
pub fn holds_text(v: &Vec<String>, s: &str) -> (r: bool)
    ensures
        r == texts(v@).contains(s@),
{
    let mut i: usize = 0;
    while i < v.len()
        invariant
            i <= v.len(),
            forall|j: int| 0 <= j < i ==> v[j]@ != s@,
        decreases v.len() - i,
    {
        if str_eq(v[i].as_str(), s) {
            assert(texts(v@)[i as int] == s@);
            return true;
        }
        i += 1;
    }
    assert forall|j: int| 0 <= j < texts(v@).len() implies texts(v@)[j] != s@ by {
        assert(texts(v@)[j] == v[j]@);
    }
    false
}

/// The piece of `s` at place `n` among the pieces between the occurrences of `c`, if
/// there are that many.
pub open spec fn piece(s: Seq<char>, c: char, n: int) -> Option<Seq<char>> {
    let parts = split(s, c);
    if 0 <= n < parts.len() {
        Some(parts[n])
    } else {
        None
    }
}

/// The piece of `s` at place `n` among the pieces between the occurrences of `c`.
pub fn piece_of(s: &[char], c: char, n: usize) -> (r: Option<Vec<char>>)
    ensures
        match r {
            Some(p) => piece(s@, c, n as int) == Some(p@),
            None => piece(s@, c, n as int) is None,
        },
{
    let parts = split_chars(s, c);
    if n < parts.len() {
        assert(views(parts@)[n as int] == parts[n as int]@);
        Some(slice_to_vec(parts[n].as_slice()))
    } else {
        None
    }
}

/// What follows `p` in `s`, where `s` begins with `p`.
pub open spec fn after_prefix(s: Seq<char>, p: Seq<char>) -> Option<Seq<char>> {
    if starts_with(s, p) {
        Some(s.skip(p.len() as int))
    } else {
        None
    }
}

/// What follows the text `p` in `s`, where `s` begins with `p`.
pub fn strip_prefix<'a>(s: &'a [char], p: &str) -> (r: Option<&'a [char]>)
    ensures
        match r {
            Some(rest) => after_prefix(s@, p@) == Some(rest@),
            None => after_prefix(s@, p@) is None,
        },
{
    let pat = to_chars(p);
    if matches_at(s, pat.as_slice(), 0) {
        let rest = slice_subrange(s, pat.len(), s.len());
        assert(rest@ =~= s@.skip(p@.len() as int));
        Some(rest)
    } else {
        None
    }
}

/// `s` without `p` at its start, as often as `p` stands there.
pub open spec fn without_leading(s: Seq<char>, p: Seq<char>) -> Seq<char>
    decreases s.len(),
{
    if p.len() > 0 && starts_with(s, p) {
        without_leading(s.skip(p.len() as int), p)
    } else {
        s
    }
}

/// `s` without the text `p` at its start, as often as `p` stands there.
pub fn strip_leading<'a>(s: &'a [char], p: &str) -> (out: &'a [char])
    ensures
        out@ == without_leading(s@, p@),
{
    let pat = to_chars(p);
    if pat.len() == 0 {
        return s;
    }
    let mut from: usize = 0;
    assert(s@.skip(0) =~= s@);
    while matches_at(s, pat.as_slice(), from)
        invariant
            from <= s.len(),
            pat@ == p@,
            pat.len() > 0,
            without_leading(s@, p@) == without_leading(s@.skip(from as int), p@),
        decreases s.len() - from,
    {
        assert(s@.skip(from as int).subrange(0, pat@.len() as int) =~= s@.subrange(
            from as int,
            from + pat@.len(),
        ));
        assert(s@.skip(from as int).skip(pat@.len() as int) =~= s@.skip(from + pat@.len()));
        from += pat.len();
    }
    assert(s@.skip(from as int).len() >= pat@.len() ==> s@.skip(from as int).subrange(
        0,
        pat@.len() as int,
    ) =~= s@.subrange(from as int, from + pat@.len()));
    let out = slice_subrange(s, from, s.len());
    assert(out@ =~= s@.skip(from as int));
    out
}

/// The text `label` followed by `value`.
pub fn labelled(label: &str, value: &[char]) -> (out: Vec<char>)
    ensures
        out@ == label@ + value@,
{
    let mut out = to_chars(label);
    push_chars(&mut out, value);
    out
}

/// The text `label` followed by the text `value`.
pub fn labelled_str(label: &str, value: &str) -> (out: Vec<char>)
    ensures
        out@ == label@ + value@,
{
    let mut out = to_chars(label);
    push_str(&mut out, value);
    out
}

/// The words of `s` that are complete, and the word that is still being read at its end.
pub open spec fn words_read(s: Seq<char>) -> (Seq<Seq<char>>, Seq<char>)
    decreases s.len(),
{
    if s.len() == 0 {
        (Seq::<Seq<char>>::empty(), Seq::<char>::empty())
    } else {
        let before = words_read(s.drop_last());
        if is_whitespace(s.last()) {
            if before.1.len() > 0 {
                (before.0.push(before.1), Seq::<char>::empty())
            } else {
                before
            }
        } else {
            (before.0, before.1.push(s.last()))
        }
    }
}

/// The words of `s`: the runs of characters that are not white space, in order.
pub open spec fn words(s: Seq<char>) -> Seq<Seq<char>> {
    let read = words_read(s);
    if read.1.len() > 0 {
        read.0.push(read.1)
    } else {
        read.0
    }
}

/// The words of `s`: the runs of characters that are not white space, in order.
pub fn split_words(s: &[char]) -> (out: Vec<Vec<char>>)
    ensures
        views(out@) == words(s@),
{
    let mut out: Vec<Vec<char>> = Vec::new();
    let mut cur: Vec<char> = Vec::new();
    let mut i: usize = 0;
    assert(s@.take(0) =~= Seq::<char>::empty());
    assert(views(out@) =~= Seq::<Seq<char>>::empty());
    while i < s.len()
        invariant
            i <= s.len(),
            words_read(s@.take(i as int)) == (views(out@), cur@),
        decreases s.len() - i,
    {
        assert(s@.take(i + 1).drop_last() =~= s@.take(i as int));
        let ghost done = views(out@);
        let ghost word = cur@;
        if is_space(s[i]) {
            if cur.len() > 0 {
                out.push(cur);
                cur = Vec::new();
                assert(views(out@) =~= done.push(word));
                assert(cur@ =~= Seq::<char>::empty());
            }
        } else {
            cur.push(s[i]);
        }
        i += 1;
    }
    assert(s@.take(i as int) =~= s@);
    if cur.len() > 0 {
        let ghost done = views(out@);
        let ghost word = cur@;
        out.push(cur);
        assert(views(out@) =~= done.push(word));
    }
    out
}

/// Where `c` is not in `before`, the first `c` of `before`, `c` and `after` put together
/// is the one between them.
pub proof fn lemma_find_first_separator(before: Seq<char>, c: char, after: Seq<char>)
    requires
        !before.contains(c),
    ensures
        find(before + seq![c] + after, seq![c]) == Some(before.len() as int),
        (before + seq![c] + after).take(before.len() as int) == before,
        (before + seq![c] + after).skip(before.len() as int + 1) == after,
{
    let line = before + seq![c] + after;
    let n = before.len() as int;
    lemma_find_is_least(line, seq![c], 0);
    assert(line.subrange(n, n + 1) =~= seq![c]);
    assert(occurs_at(line, seq![c], n));
    assert forall|j: int| 0 <= j < n implies !occurs_at(line, seq![c], j) by {
        if occurs_at(line, seq![c], j) {
            assert(line.subrange(j, j + 1)[0] == c);
            assert(before[j] == c);
            assert(before.contains(c));
        }
    }
    assert(line.take(n) =~= before);
    assert(line.skip(n + 1) =~= after);
}

} // verus!
