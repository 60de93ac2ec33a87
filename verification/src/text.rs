//! Character-level text handling: whitespace, trimming, line and token
//! splitting, and decimal integer parsing, each stated over `Seq<char>`.

use vstd::prelude::*;

verus! {

/// Unicode `White_Space`, the set `char::is_whitespace` recognises.
pub open spec fn is_whitespace(c: char) -> bool {
    let u = c as u32;
    ||| 0x09 <= u <= 0x0d
    ||| u == 0x20
    ||| u == 0x85
    ||| u == 0xa0
    ||| u == 0x1680
    ||| 0x2000 <= u <= 0x200a
    ||| u == 0x2028
    ||| u == 0x2029
    ||| u == 0x202f
    ||| u == 0x205f
    ||| u == 0x3000
}

/// Executable whitespace test.
pub fn is_ws(c: char) -> (b: bool)
    ensures
        b == is_whitespace(c),
{
    let u = c as u32;
    (0x09 <= u && u <= 0x0d) || u == 0x20 || u == 0x85 || u == 0xa0 || u == 0x1680 || (0x2000
        <= u && u <= 0x200a) || u == 0x2028 || u == 0x2029 || u == 0x202f || u == 0x205f || u
        == 0x3000
}

/// The characters of a string, in order.
pub fn to_chars(s: &str) -> (v: Vec<char>)
    ensures
        v@ == s@,
{
    let mut v: Vec<char> = Vec::new();
    for c in it: s.chars()
        invariant
            v@ == it.seq().take(it.index() as int),
    {
        v.push(c);
    }
    v
}

} // verus!

verus! {

/// `s` with its leading whitespace removed.
pub open spec fn trim_start(s: Seq<char>) -> Seq<char>
    decreases s.len(),
{
    if s.len() > 0 && is_whitespace(s[0]) {
        trim_start(s.drop_first())
    } else {
        s
    }
}

/// `s` with its trailing whitespace removed.
pub open spec fn trim_end(s: Seq<char>) -> Seq<char>
    decreases s.len(),
{
    if s.len() > 0 && is_whitespace(s.last()) {
        trim_end(s.drop_last())
    } else {
        s
    }
}

/// `str::trim`: `s` without leading and trailing whitespace.
pub open spec fn trim(s: Seq<char>) -> Seq<char> {
    trim_end(trim_start(s))
}

/// The bounds of `trim(cs[start..end])` inside `cs`.
pub fn trim_range(cs: &Vec<char>, start: usize, end: usize) -> (r: (usize, usize))
    requires
        start <= end <= cs.len(),
    ensures
        start <= r.0 <= r.1 <= end,
        cs@.subrange(r.0 as int, r.1 as int) == trim(cs@.subrange(start as int, end as int)),
{
    let mut i = start;
    while i < end && is_ws(cs[i])
        invariant
            start <= i <= end <= cs.len(),
            trim_start(cs@.subrange(start as int, end as int)) == trim_start(
                cs@.subrange(i as int, end as int),
            ),
        decreases end - i,
    {
        assert(cs@.subrange(i as int, end as int).drop_first() =~= cs@.subrange(
            i + 1,
            end as int,
        ));
        i = i + 1;
    }
    let mut j = end;
    while j > i && is_ws(cs[j - 1])
        invariant
            start <= i <= j <= end <= cs.len(),
            trim(cs@.subrange(start as int, end as int)) == trim_end(
                cs@.subrange(i as int, j as int),
            ),
        decreases j - i,
    {
        assert(cs@.subrange(i as int, j as int).drop_last() =~= cs@.subrange(
            i as int,
            j - 1,
        ));
        j = j - 1;
    }
    (i, j)
}

/// Number of characters before the first `'\n'` (all of them if none).
pub open spec fn line_len(s: Seq<char>) -> nat
    decreases s.len(),
{
    if s.len() == 0 || s[0] == '\n' {
        0
    } else {
        1 + line_len(s.drop_first())
    }
}

/// A line without the `'\r'` that ends it.
pub open spec fn strip_cr(line: Seq<char>) -> Seq<char> {
    if line.len() > 0 && line.last() == '\r' {
        line.drop_last()
    } else {
        line
    }
}

pub proof fn lemma_line_len_bound(s: Seq<char>)
    ensures
        line_len(s) <= s.len(),
        line_len(s) < s.len() ==> s[line_len(s) as int] == '\n',
        forall|k: int| 0 <= k < line_len(s) ==> s[k] != '\n',
    decreases s.len(),
{
    if s.len() > 0 && s[0] != '\n' {
        lemma_line_len_bound(s.drop_first());
        assert forall|k: int| 0 <= k < line_len(s) implies s[k] != '\n' by {
            if k > 0 {
                assert(s[k] == s.drop_first()[k - 1]);
            }
        }
    }
}

/// `str::lines`: the pieces of `s` between `'\n'`s, a final empty piece
/// left out, and each piece that a `'\n'` ends losing one trailing `'\r'`.
pub open spec fn lines(s: Seq<char>) -> Seq<Seq<char>>
    decreases s.len(),
{
    if s.len() == 0 {
        seq![]
    } else {
        let n = line_len(s);
        proof {
            lemma_line_len_bound(s);
        }
        if n < s.len() {
            seq![strip_cr(s.take(n as int))] + lines(s.skip(n + 1int))
        } else {
            seq![s]
        }
    }
}

/// The first line of `cs[pos..]`: it is `cs[pos..r.0]`, and the rest of the
/// lines start at `r.1`.
pub fn next_line(cs: &Vec<char>, pos: usize) -> (r: (usize, usize))
    requires
        pos < cs.len(),
    ensures
        pos <= r.0 <= r.1 <= cs.len(),
        pos < r.1,
        lines(cs@.subrange(pos as int, cs.len() as int)) == seq![
            cs@.subrange(pos as int, r.0 as int),
        ] + lines(cs@.subrange(r.1 as int, cs.len() as int)),
{
    let len = cs.len();
    let ghost s = cs@.subrange(pos as int, len as int);
    let mut j = pos;
    while j < len && cs[j] != '\n'
        invariant
            pos <= j <= len == cs.len(),
            s == cs@.subrange(pos as int, len as int),
            line_len(s) == (j - pos) + line_len(cs@.subrange(j as int, len as int)),
        decreases len - j,
    {
        assert(cs@.subrange(j as int, len as int).drop_first() =~= cs@.subrange(
            j + 1,
            len as int,
        ));
        j = j + 1;
    }
    proof {
        lemma_line_len_bound(s);
    }
    if j < len {
        assert(line_len(s) == j - pos);
        assert(s.take(j - pos) =~= cs@.subrange(pos as int, j as int));
        assert(s.skip(j - pos + 1) =~= cs@.subrange(j + 1, len as int));
        let b = if j > pos && cs[j - 1] == '\r' {
            j - 1
        } else {
            j
        };
        assert(strip_cr(cs@.subrange(pos as int, j as int)) =~= cs@.subrange(pos as int, b as int));
        (b, j + 1)
    } else {
        assert(cs@.subrange(len as int, len as int) =~= Seq::<char>::empty());
        assert(lines(cs@.subrange(len as int, len as int)) =~= Seq::<Seq<char>>::empty());
        (len, len)
    }
}

/// Number of leading characters of `s` that are not whitespace.
pub open spec fn token_len(s: Seq<char>) -> nat
    decreases s.len(),
{
    if s.len() == 0 || is_whitespace(s[0]) {
        0
    } else {
        1 + token_len(s.drop_first())
    }
}

pub proof fn lemma_token_len_bound(s: Seq<char>)
    ensures
        token_len(s) <= s.len(),
        s.len() > 0 && !is_whitespace(s[0]) ==> token_len(s) >= 1,
    decreases s.len(),
{
    if s.len() > 0 && !is_whitespace(s[0]) {
        lemma_token_len_bound(s.drop_first());
    }
}

/// `str::split_whitespace`: the maximal runs of non-whitespace characters.
pub open spec fn tokens(s: Seq<char>) -> Seq<Seq<char>>
    decreases s.len(),
{
    if s.len() == 0 {
        seq![]
    } else if is_whitespace(s[0]) {
        tokens(s.drop_first())
    } else {
        let n = token_len(s);
        proof {
            lemma_token_len_bound(s);
        }
        seq![s.take(n as int)] + tokens(s.skip(n as int))
    }
}

/// The first token of `cs[pos..end]`, as its bounds; the other tokens
/// follow its end.
pub fn next_token(cs: &Vec<char>, pos: usize, end: usize) -> (r: Option<(usize, usize)>)
    requires
        pos <= end <= cs.len(),
    ensures
        match r {
            None => tokens(cs@.subrange(pos as int, end as int)) == Seq::<Seq<char>>::empty(),
            Some((a, b)) => {
                &&& pos <= a < b <= end
                &&& tokens(cs@.subrange(pos as int, end as int)) == seq![
                    cs@.subrange(a as int, b as int),
                ] + tokens(cs@.subrange(b as int, end as int))
            },
        },
{
    let mut i = pos;
    while i < end && is_ws(cs[i])
        invariant
            pos <= i <= end <= cs.len(),
            tokens(cs@.subrange(pos as int, end as int)) == tokens(
                cs@.subrange(i as int, end as int),
            ),
        decreases end - i,
    {
        assert(cs@.subrange(i as int, end as int).drop_first() =~= cs@.subrange(
            i + 1,
            end as int,
        ));
        i = i + 1;
    }
    if i == end {
        assert(cs@.subrange(i as int, end as int) =~= Seq::<char>::empty());
        return None;
    }
    let ghost s = cs@.subrange(i as int, end as int);
    let mut j = i;
    while j < end && !is_ws(cs[j])
        invariant
            i <= j <= end <= cs.len(),
            s == cs@.subrange(i as int, end as int),
            token_len(s) == (j - i) + token_len(cs@.subrange(j as int, end as int)),
        decreases end - j,
    {
        assert(cs@.subrange(j as int, end as int).drop_first() =~= cs@.subrange(
            j + 1,
            end as int,
        ));
        j = j + 1;
    }
    proof {
        lemma_token_len_bound(s);
        assert(token_len(s) == j - i);
        assert(s.take(j - i) =~= cs@.subrange(i as int, j as int));
        assert(s.skip(j - i) =~= cs@.subrange(j as int, end as int));
    }
    Some((i, j))
}

} // verus!

verus! {

/// An ASCII decimal digit.
pub open spec fn is_digit(c: char) -> bool {
    '0' <= c <= '9'
}

pub open spec fn digit_value(c: char) -> nat {
    (c as u32 - '0' as u32) as nat
}

pub open spec fn all_digits(s: Seq<char>) -> bool {
    forall|i: int| 0 <= i < s.len() ==> is_digit(#[trigger] s[i])
}

/// The number that the decimal digits `s` spell.
pub open spec fn digits_value(s: Seq<char>) -> nat
    decreases s.len(),
{
    if s.len() == 0 {
        0
    } else {
        digits_value(s.drop_last()) * 10 + digit_value(s.last())
    }
}

/// A nonempty run of digits whose value is at most `max`.
pub open spec fn digits_number(s: Seq<char>, max: nat) -> Option<nat> {
    if s.len() > 0 && all_digits(s) && digits_value(s) <= max {
        Some(digits_value(s))
    } else {
        None
    }
}

/// Rust's `FromStr` for an unsigned integer type whose largest value is
/// `max`: an optional `'+'`, then one or more ASCII digits.
pub open spec fn parse_unsigned(s: Seq<char>, max: nat) -> Option<nat> {
    if s.len() > 0 && s[0] == '+' {
        digits_number(s.drop_first(), max)
    } else {
        digits_number(s, max)
    }
}

/// Rust's `FromStr` for `i32`: an optional `'+'` or `'-'`, then one or
/// more ASCII digits, the value within `i32`.
pub open spec fn parse_i32(s: Seq<char>) -> Option<int> {
    if s.len() > 0 && s[0] == '-' {
        match digits_number(s.drop_first(), 0x8000_0000) {
            Some(v) => Some(-v),
            None => None,
        }
    } else {
        match parse_unsigned(s, 0x7fff_ffff) {
            Some(v) => Some(v as int),
            None => None,
        }
    }
}

proof fn lemma_digits_value_step(s: Seq<char>, k: int)
    requires
        0 <= k < s.len(),
    ensures
        digits_value(s.take(k + 1)) == digits_value(s.take(k)) * 10 + digit_value(s[k]),
{
    assert(s.take(k + 1).drop_last() =~= s.take(k));
}

proof fn lemma_digits_value_grows(s: Seq<char>, k: int)
    requires
        0 <= k <= s.len(),
    ensures
        digits_value(s.take(k)) <= digits_value(s),
    decreases s.len() - k,
{
    if k < s.len() {
        lemma_digits_value_step(s, k);
        lemma_digits_value_grows(s, k + 1);
    } else {
        assert(s.take(k) =~= s);
    }
}

/// `digits_number(cs[a..b], max)`.
pub fn parse_digits(cs: &Vec<char>, a: usize, b: usize, max: u64) -> (r: Option<u64>)
    requires
        a <= b <= cs.len(),
    ensures
        match r {
            Some(v) => digits_number(cs@.subrange(a as int, b as int), max as nat) == Some(
                v as nat,
            ),
            None => digits_number(cs@.subrange(a as int, b as int), max as nat) is None,
        },
{
    let ghost s = cs@.subrange(a as int, b as int);
    if a == b {
        return None;
    }
    let mut acc: u64 = 0;
    let mut i = a;
    while i < b
        invariant
            a <= i <= b <= cs.len(),
            s == cs@.subrange(a as int, b as int),
            all_digits(s.take(i - a)),
            acc as nat == digits_value(s.take(i - a)),
            acc <= max,
        decreases b - i,
    {
        let c = cs[i];
        if !('0' <= c && c <= '9') {
            assert(!is_digit(s[i - a]));
            return None;
        }
        let d = (c as u32 - '0' as u32) as u64;
        proof {
            lemma_digits_value_step(s, i - a);
        }
        let next: u128 = acc as u128 * 10 + d as u128;
        if next > max as u128 {
            proof {
                lemma_digits_value_grows(s, i - a + 1);
            }
            return None;
        }
        acc = next as u64;
        assert(all_digits(s.take(i - a + 1))) by {
            assert forall|k: int| 0 <= k < i - a + 1 implies is_digit(
                #[trigger] s.take(i - a + 1)[k],
            ) by {
                if k < i - a {
                    assert(s.take(i - a)[k] == s.take(i - a + 1)[k]);
                }
            }
        }
        i = i + 1;
    }
    assert(s.take(b - a) =~= s);
    Some(acc)
}

/// `parse_unsigned(cs[a..b], max)`: the executable `str::parse` for an
/// unsigned type whose largest value is `max`.
pub fn parse_unsigned_range(cs: &Vec<char>, a: usize, b: usize, max: u64) -> (r: Option<u64>)
    requires
        a <= b <= cs.len(),
    ensures
        match r {
            Some(v) => parse_unsigned(cs@.subrange(a as int, b as int), max as nat) == Some(
                v as nat,
            ),
            None => parse_unsigned(cs@.subrange(a as int, b as int), max as nat) is None,
        },
{
    if a < b && cs[a] == '+' {
        assert(cs@.subrange(a as int, b as int).drop_first() =~= cs@.subrange(a + 1, b as int));
        parse_digits(cs, a + 1, b, max)
    } else {
        parse_digits(cs, a, b, max)
    }
}

/// `parse_i32(cs[a..b])`: the executable `str::parse::<i32>`.
pub fn parse_i32_range(cs: &Vec<char>, a: usize, b: usize) -> (r: Option<i32>)
    requires
        a <= b <= cs.len(),
    ensures
        match r {
            Some(v) => parse_i32(cs@.subrange(a as int, b as int)) == Some(v as int),
            None => parse_i32(cs@.subrange(a as int, b as int)) is None,
        },
{
    if a < b && cs[a] == '-' {
        assert(cs@.subrange(a as int, b as int).drop_first() =~= cs@.subrange(a + 1, b as int));
        match parse_digits(cs, a + 1, b, 0x8000_0000) {
            Some(v) => Some((0 - (v as i64)) as i32),
            None => None,
        }
    } else {
        match parse_unsigned_range(cs, a, b, 0x7fff_ffff) {
            Some(v) => Some(v as i32),
            None => None,
        }
    }
}

/// `cs[a..b]` equals `lit`.
pub fn range_equals(cs: &Vec<char>, a: usize, b: usize, lit: &str) -> (r: bool)
    requires
        a <= b <= cs.len(),
    ensures
        r == (cs@.subrange(a as int, b as int) == lit@),
{
    let n = lit.unicode_len();
    if b - a != n {
        assert(cs@.subrange(a as int, b as int).len() != lit@.len());
        return false;
    }
    let mut k: usize = 0;
    while k < n
        invariant
            a <= b <= cs.len(),
            b - a == n == lit@.len(),
            k <= n,
            forall|m: int| 0 <= m < k ==> cs@[a + m] == lit@[m],
        decreases n - k,
    {
        if cs[a + k] != lit.get_char(k) {
            assert(cs@.subrange(a as int, b as int)[k as int] != lit@[k as int]);
            return false;
        }
        k = k + 1;
    }
    assert(cs@.subrange(a as int, b as int) =~= lit@);
    true
}

/// `cs[a..b]` starts with `lit`.
pub fn range_starts_with(cs: &Vec<char>, a: usize, b: usize, lit: &str) -> (r: bool)
    requires
        a <= b <= cs.len(),
    ensures
        r == lit@.is_prefix_of(cs@.subrange(a as int, b as int)),
{
    let n = lit.unicode_len();
    if b - a < n {
        return false;
    }
    let r = range_equals(cs, a, a + n, lit);
    assert(cs@.subrange(a as int, b as int).subrange(0, n as int) =~= cs@.subrange(
        a as int,
        a + n,
    ));
    r
}

/// `s` holds `p` as a contiguous piece.
pub open spec fn contains_seq(s: Seq<char>, p: Seq<char>) -> bool {
    exists|i: int| 0 <= i && i + p.len() <= s.len() && #[trigger] s.subrange(i, i + p.len()) == p
}

/// `str::contains` with a string pattern.
pub fn contains_str(cs: &Vec<char>, lit: &str) -> (r: bool)
    ensures
        r == contains_seq(cs@, lit@),
{
    let n = lit.unicode_len();
    let len = cs.len();
    if n > len {
        return false;
    }
    if n == 0 {
        assert(cs@.subrange(0, 0int + lit@.len()) =~= lit@);
        return true;
    }
    let last = len - n;
    let mut i: usize = 0;
    while i <= last
        invariant
            n == lit@.len(),
            n >= 1,
            len == cs.len(),
            last == len - n,
            i <= last + 1,
            forall|k: int| 0 <= k < i ==> #[trigger] cs@.subrange(k, k + n) != lit@,
        decreases last + 1 - i,
    {
        if range_equals(cs, i, i + n, lit) {
            return true;
        }
        i = i + 1;
    }
    false
}

/// ASCII lower case of one character; others unchanged.
pub open spec fn ascii_lower(c: char) -> char {
    if 'A' <= c <= 'Z' {
        ((c as u32) + 32) as char
    } else {
        c
    }
}

/// `str::eq_ignore_ascii_case`.
pub open spec fn eq_ignore_ascii_case(s: Seq<char>, t: Seq<char>) -> bool {
    &&& s.len() == t.len()
    &&& forall|i: int| 0 <= i < s.len() ==> ascii_lower(#[trigger] s[i]) == ascii_lower(t[i])
}

fn ascii_lower_char(c: char) -> (r: char)
    ensures
        r == ascii_lower(c),
{
    if 'A' <= c && c <= 'Z' {
        let u = (c as u32 + 32) as u8;
        u as char
    } else {
        c
    }
}

/// `cs[a..b].eq_ignore_ascii_case(lit)`.
pub fn range_eq_ignore_ascii_case(cs: &Vec<char>, a: usize, b: usize, lit: &str) -> (r: bool)
    requires
        a <= b <= cs.len(),
    ensures
        r == eq_ignore_ascii_case(cs@.subrange(a as int, b as int), lit@),
{
    let n = lit.unicode_len();
    if b - a != n {
        return false;
    }
    let mut k: usize = 0;
    while k < n
        invariant
            a <= b <= cs.len(),
            b - a == n == lit@.len(),
            k <= n,
            forall|m: int| 0 <= m < k ==> ascii_lower(cs@[a + m]) == ascii_lower(lit@[m]),
        decreases n - k,
    {
        if ascii_lower_char(cs[a + k]) != ascii_lower_char(lit.get_char(k)) {
            assert(ascii_lower(cs@.subrange(a as int, b as int)[k as int]) != ascii_lower(
                lit@[k as int],
            ));
            return false;
        }
        k = k + 1;
    }
    true
}

} // verus!

verus! {

/// The characters that a pair of bounds picks out of `cs`.
pub open spec fn pieces(cs: Seq<char>, rs: Seq<(usize, usize)>) -> Seq<Seq<char>> {
    rs.map_values(|r: (usize, usize)| cs.subrange(r.0 as int, r.1 as int))
}

/// Every pair of bounds lies within `lo..hi`.
pub open spec fn ranges_within(rs: Seq<(usize, usize)>, lo: int, hi: int) -> bool {
    forall|k: int| 0 <= k < rs.len() ==> lo <= (#[trigger] rs[k]).0 <= rs[k].1 <= hi
}

/// The bounds of each of `lines(cs)`.
pub fn line_ranges(cs: &Vec<char>) -> (v: Vec<(usize, usize)>)
    ensures
        ranges_within(v@, 0, cs.len() as int),
        pieces(cs@, v@) == lines(cs@),
{
    let len = cs.len();
    let mut v: Vec<(usize, usize)> = Vec::new();
    let mut pos: usize = 0;
    assert(cs@.subrange(0, len as int) =~= cs@);
    assert(pieces(cs@, v@) =~= Seq::<Seq<char>>::empty());
    while pos < len
        invariant
            len == cs.len(),
            pos <= len,
            ranges_within(v@, 0, len as int),
            lines(cs@) == pieces(cs@, v@) + lines(cs@.subrange(pos as int, len as int)),
        decreases len - pos,
    {
        let (b, next) = next_line(cs, pos);
        let ghost old_v = v@;
        v.push((pos, b));
        assert(pieces(cs@, v@) =~= pieces(cs@, old_v).push(cs@.subrange(pos as int, b as int)));
        assert(pieces(cs@, old_v) + (seq![cs@.subrange(pos as int, b as int)] + lines(
            cs@.subrange(next as int, len as int),
        )) =~= pieces(cs@, v@) + lines(cs@.subrange(next as int, len as int)));
        pos = next;
    }
    assert(cs@.subrange(len as int, len as int) =~= Seq::<char>::empty());
    assert(lines(cs@) =~= pieces(cs@, v@));
    v
}

/// The bounds of each of `tokens(cs[a..b])`.
pub fn token_ranges(cs: &Vec<char>, a: usize, b: usize) -> (v: Vec<(usize, usize)>)
    requires
        a <= b <= cs.len(),
    ensures
        ranges_within(v@, a as int, b as int),
        pieces(cs@, v@) == tokens(cs@.subrange(a as int, b as int)),
{
    let mut v: Vec<(usize, usize)> = Vec::new();
    let mut pos: usize = a;
    assert(pieces(cs@, v@) =~= Seq::<Seq<char>>::empty());
    loop
        invariant
            a <= pos <= b <= cs.len(),
            ranges_within(v@, a as int, b as int),
            tokens(cs@.subrange(a as int, b as int)) == pieces(cs@, v@) + tokens(
                cs@.subrange(pos as int, b as int),
            ),
        decreases b - pos,
    {
        match next_token(cs, pos, b) {
            None => {
                assert(tokens(cs@.subrange(a as int, b as int)) =~= pieces(cs@, v@));
                return v;
            },
            Some((s, e)) => {
                let ghost old_v = v@;
                v.push((s, e));
                assert(pieces(cs@, v@) =~= pieces(cs@, old_v).push(
                    cs@.subrange(s as int, e as int),
                ));
                assert(pieces(cs@, old_v) + (seq![cs@.subrange(s as int, e as int)] + tokens(
                    cs@.subrange(e as int, b as int),
                )) =~= pieces(cs@, v@) + tokens(cs@.subrange(e as int, b as int)));
                pos = e;
            },
        }
    }
}

/// `String::push`: appends one character.
#[verifier::external_body]
fn push_char(s: &mut String, c: char)
    ensures
        final(s)@ == old(s)@.push(c),
{
    s.push(c);
}

/// A new string holding `cs[a..b]`.
pub fn range_to_string(cs: &Vec<char>, a: usize, b: usize) -> (r: String)
    requires
        a <= b <= cs.len(),
    ensures
        r@ == cs@.subrange(a as int, b as int),
{
    let mut r = String::new();
    let mut i = a;
    while i < b
        invariant
            a <= i <= b <= cs.len(),
            r@ == cs@.subrange(a as int, i as int),
        decreases b - i,
    {
        push_char(&mut r, cs[i]);
        assert(cs@.subrange(a as int, i + 1) =~= cs@.subrange(a as int, i as int).push(cs@[i as int]));
        i = i + 1;
    }
    r
}

/// `str::trim` as a new string.
pub fn trimmed(s: &str) -> (r: String)
    ensures
        r@ == trim(s@),
{
    let cs = to_chars(s);
    let (a, b) = trim_range(&cs, 0, cs.len());
    assert(cs@.subrange(0, cs.len() as int) =~= cs@);
    range_to_string(&cs, a, b)
}

} // verus!

verus! {

/// Number of characters of `s` before the first `c` (all of them if none).
pub open spec fn len_before(s: Seq<char>, c: char) -> nat
    decreases s.len(),
{
    if s.len() == 0 || s[0] == c {
        0
    } else {
        1 + len_before(s.drop_first(), c)
    }
}

/// The position of the first `c` in `cs[a..b]`, or `b`.
pub fn find_char(cs: &Vec<char>, a: usize, b: usize, c: char) -> (r: usize)
    requires
        a <= b <= cs.len(),
    ensures
        a <= r <= b,
        r - a == len_before(cs@.subrange(a as int, b as int), c),
{
    let mut j = a;
    while j < b && cs[j] != c
        invariant
            a <= j <= b <= cs.len(),
            len_before(cs@.subrange(a as int, b as int), c) == (j - a) + len_before(
                cs@.subrange(j as int, b as int),
                c,
            ),
        decreases b - j,
    {
        assert(cs@.subrange(j as int, b as int).drop_first() =~= cs@.subrange(j + 1, b as int));
        j = j + 1;
    }
    j
}

/// `line.splitn(2, ':')` with both parts trimmed, where the line holds a
/// `':'`; `None` where it holds none.
pub open spec fn colon_split(line: Seq<char>) -> Option<(Seq<char>, Seq<char>)> {
    let n = len_before(line, ':');
    if n < line.len() {
        Some((trim(line.take(n as int)), trim(line.skip(n + 1int))))
    } else {
        None
    }
}

/// The bounds of the two trimmed parts of `colon_split(cs[a..b])`.
pub fn colon_split_range(cs: &Vec<char>, a: usize, b: usize) -> (r: Option<
    ((usize, usize), (usize, usize)),
>)
    requires
        a <= b <= cs.len(),
    ensures
        match r {
            None => colon_split(cs@.subrange(a as int, b as int)) is None,
            Some((k, v)) => {
                &&& a <= k.0 <= k.1 <= b
                &&& a <= v.0 <= v.1 <= b
                &&& colon_split(cs@.subrange(a as int, b as int)) == Some(
                    (
                        cs@.subrange(k.0 as int, k.1 as int),
                        cs@.subrange(v.0 as int, v.1 as int),
                    ),
                )
            },
        },
{
    let p = find_char(cs, a, b, ':');
    let ghost line = cs@.subrange(a as int, b as int);
    if p == b {
        return None;
    }
    assert(line.take(p - a) =~= cs@.subrange(a as int, p as int));
    assert(line.skip(p - a + 1) =~= cs@.subrange(p + 1, b as int));
    let key = trim_range(cs, a, p);
    let val = trim_range(cs, p + 1, b);
    Some((key, val))
}

} // verus!

verus! {

/// The ASCII digit for `d < 10`.
pub open spec fn digit_char(d: nat) -> char {
    if d == 0 {
        '0'
    } else if d == 1 {
        '1'
    } else if d == 2 {
        '2'
    } else if d == 3 {
        '3'
    } else if d == 4 {
        '4'
    } else if d == 5 {
        '5'
    } else if d == 6 {
        '6'
    } else if d == 7 {
        '7'
    } else if d == 8 {
        '8'
    } else {
        '9'
    }
}

/// The decimal rendering of `n`, without sign or leading zeros.
pub open spec fn decimal(n: nat) -> Seq<char>
    decreases n,
{
    if n < 10 {
        seq![digit_char(n)]
    } else {
        decimal(n / 10).push(digit_char(n % 10))
    }
}

proof fn lemma_digit_char(d: nat)
    requires
        d < 10,
    ensures
        is_digit(digit_char(d)),
        digit_value(digit_char(d)) == d,
{
}

proof fn lemma_decimal_digits(n: nat)
    ensures
        decimal(n).len() > 0,
        all_digits(decimal(n)),
        digits_value(decimal(n)) == n,
    decreases n,
{
    if n < 10 {
        lemma_digit_char(n);
        assert(decimal(n).drop_last() =~= Seq::<char>::empty());
        assert(digits_value(decimal(n).drop_last()) == 0);
    } else {
        lemma_digit_char(n % 10);
        lemma_decimal_digits(n / 10);
        let s = decimal(n);
        assert(s.drop_last() =~= decimal(n / 10));
        assert forall|i: int| 0 <= i < s.len() implies is_digit(#[trigger] s[i]) by {
            if i < s.len() - 1 {
                assert(s[i] == decimal(n / 10)[i]);
            }
        }
    }
}

/// A number written in decimal reads back as itself under `str::parse`
/// for any unsigned type that holds it.
pub proof fn lemma_parse_decimal(n: nat, max: nat)
    requires
        n <= max,
    ensures
        parse_unsigned(decimal(n), max) == Some(n),
{
    lemma_decimal_digits(n);
    assert(is_digit(decimal(n)[0]));
}

} // verus!

verus! {

proof fn lemma_trim_start_settled(s: Seq<char>)
    ensures
        trim_start(s).len() > 0 ==> !is_whitespace(trim_start(s)[0]),
    decreases s.len(),
{
    if s.len() > 0 && is_whitespace(s[0]) {
        lemma_trim_start_settled(s.drop_first());
    }
}

proof fn lemma_trim_end_prefix(s: Seq<char>)
    ensures
        trim_end(s).len() <= s.len(),
        trim_end(s) == s.take(trim_end(s).len() as int),
        trim_end(s).len() > 0 ==> !is_whitespace(trim_end(s).last()),
    decreases s.len(),
{
    if s.len() > 0 && is_whitespace(s.last()) {
        lemma_trim_end_prefix(s.drop_last());
        assert(s.drop_last().take(trim_end(s).len() as int) =~= s.take(trim_end(s).len() as int));
    } else {
        assert(s.take(s.len() as int) =~= s);
    }
}

/// Trimming twice is trimming once.
pub proof fn lemma_trim_idempotent(s: Seq<char>)
    ensures
        trim(trim(s)) == trim(s),
{
    let x = trim_start(s);
    let y = trim_end(x);
    lemma_trim_start_settled(s);
    lemma_trim_end_prefix(x);
    if y.len() > 0 {
        assert(y[0] == x[0]);
    }
    assert(trim_start(y) == y);
    assert(trim_end(y) == y);
}

} // verus!
