//! Character-level helpers shared by the dataset and analysis modules:
//! Unicode whitespace, prefixes, trimming, splitting and decimal rendering,
//! each stated over `Seq<char>`.
use vstd::prelude::*;

verus! {

/// The Unicode `White_Space` property, which `char::is_whitespace` tests.
pub open spec fn is_white_space(c: char) -> bool {
    let v = c as u32;
    ||| 9 <= v <= 13
    ||| v == 32
    ||| v == 0x85
    ||| v == 0xA0
    ||| v == 0x1680
    ||| 0x2000 <= v <= 0x200A
    ||| v == 0x2028
    ||| v == 0x2029
    ||| v == 0x202F
    ||| v == 0x205F
    ||| v == 0x3000
}

/// `true` when `c` has the Unicode `White_Space` property.
pub fn char_is_white_space(c: char) -> (b: bool)
    ensures
        b == is_white_space(c),
{
    let v = c as u32;
    (9 <= v && v <= 13) || v == 32 || v == 0x85 || v == 0xA0 || v == 0x1680 || (0x2000 <= v
        && v <= 0x200A) || v == 0x2028 || v == 0x2029 || v == 0x202F || v == 0x205F || v
        == 0x3000
}

/// `s` begins with `p`.
pub open spec fn starts_with(s: Seq<char>, p: Seq<char>) -> bool {
    p.len() <= s.len() && s.subrange(0, p.len() as int) == p
}

/// Some character of `s` is whitespace.
pub open spec fn has_white_space(s: Seq<char>) -> bool {
    exists|i: int| 0 <= i < s.len() && #[trigger] is_white_space(s[i])
}

/// Number of occurrences of `c` in `s`.
pub open spec fn count_char(s: Seq<char>, c: char) -> nat
    decreases s.len(),
{
    if s.len() == 0 {
        0
    } else {
        count_char(s.drop_last(), c) + if s.last() == c {
            1nat
        } else {
            0nat
        }
    }
}

/// `s` with its leading whitespace removed, as `str::trim_start` does.
pub open spec fn trim_start(s: Seq<char>) -> Seq<char>
    decreases s.len(),
{
    if s.len() > 0 && is_white_space(s[0]) {
        trim_start(s.drop_first())
    } else {
        s
    }
}

/// `s` with its trailing whitespace removed, as `str::trim_end` does.
pub open spec fn trim_end(s: Seq<char>) -> Seq<char>
    decreases s.len(),
{
    if s.len() > 0 && is_white_space(s.last()) {
        trim_end(s.drop_last())
    } else {
        s
    }
}

/// `s` with whitespace removed at both ends, as `str::trim` does.
pub open spec fn trim(s: Seq<char>) -> Seq<char> {
    trim_end(trim_start(s))
}

/// Index of the first `c` in `s` at or after `from`, if any.
pub open spec fn find_from(s: Seq<char>, c: char, from: int) -> Option<int>
    decreases s.len() - from,
{
    if from < 0 || from >= s.len() {
        None
    } else if s[from] == c {
        Some(from)
    } else {
        find_from(s, c, from + 1)
    }
}

/// The pieces of `s[from..]` between occurrences of `c`, as `str::split` yields them.
pub open spec fn split_from(s: Seq<char>, c: char, from: int) -> Seq<Seq<char>>
    decreases s.len() - from,
{
    if from < 0 || from > s.len() {
        Seq::empty()
    } else {
        match find_from(s, c, from) {
            Some(i) => if from <= i < s.len() {
                seq![s.subrange(from, i)] + split_from(s, c, i + 1)
            } else {
                Seq::empty()
            },
            None => seq![s.subrange(from, s.len() as int)],
        }
    }
}

/// The pieces of `s` between occurrences of `c`, as `str::split` yields them.
pub open spec fn split(s: Seq<char>, c: char) -> Seq<Seq<char>> {
    split_from(s, c, 0)
}

/// The first `c` found lies in range, is `c`, and nothing before it from `from` is.
pub proof fn lemma_find_from_bounds(s: Seq<char>, c: char, from: int)
    ensures
        find_from(s, c, from) matches Some(i) ==> from <= i < s.len() && s[i] == c && forall|
            k: int,
        | from <= k < i ==> s[k] != c,
        find_from(s, c, from) is None ==> forall|k: int|
            0 <= from <= k < s.len() ==> s[k] != c,
    decreases s.len() - from,
{
    if from >= 0 && from < s.len() && s[from] != c {
        lemma_find_from_bounds(s, c, from + 1);
    }
}

/// The characters of a string slice, in order.
pub fn chars_of(s: &str) -> (v: Vec<char>)
    ensures
        v@ == s@,
{
    let mut v: Vec<char> = Vec::new();
    for c in it: s.chars()
        invariant
            v@ == it.seq().take(it.index() as int),
            it.seq() == s@,
    {
        v.push(c);
    }
    v
}

/// Appends one character: calls `String::push`, which std documents as
/// appending the character to the end of the string. The contract (the text
/// afterwards is the text before followed by `c`) is taken on trust.
#[verifier::external_body]
pub(crate) fn push_char(s: &mut String, c: char)
    ensures
        final(s)@ == old(s)@.push(c),
{
    s.push(c);
}

/// Appends `v[from..to]` to `out`.
pub fn push_range(out: &mut String, v: &Vec<char>, from: usize, to: usize)
    requires
        from <= to <= v@.len(),
    ensures
        final(out)@ == old(out)@ + v@.subrange(from as int, to as int),
{
    let mut i = from;
    while i < to
        invariant
            from <= i <= to <= v@.len(),
            out@ == old(out)@ + v@.subrange(from as int, i as int),
        decreases to - i,
    {
        push_char(out, v[i]);
        assert(v@.subrange(from as int, i + 1) == v@.subrange(from as int, i as int).push(v@[i as int]));
        i += 1;
    }
}

/// A new string holding `v[from..to]`.
pub fn string_from_range(v: &Vec<char>, from: usize, to: usize) -> (r: String)
    requires
        from <= to <= v@.len(),
    ensures
        r@ == v@.subrange(from as int, to as int),
{
    let mut r = String::new();
    push_range(&mut r, v, from, to);
    r
}

/// Whether `v[from..]` begins with `p`.
pub fn range_starts_with(v: &Vec<char>, from: usize, to: usize, p: &Vec<char>) -> (b: bool)
    requires
        from <= to <= v@.len(),
    ensures
        b == starts_with(v@.subrange(from as int, to as int), p@),
{
    if p.len() > to - from {
        return false;
    }
    let mut k: usize = 0;
    while k < p.len()
        invariant
            from <= to <= v@.len(),
            p@.len() <= to - from,
            k <= p@.len(),
            forall|j: int| 0 <= j < k ==> v@[from + j] == p@[j],
        decreases p.len() - k,
    {
        if v[from + k] != p[k] {
            assert(v@.subrange(from as int, to as int)[k as int] != p@[k as int]);
            return false;
        }
        k += 1;
    }
    assert(v@.subrange(from as int, to as int).subrange(0, p@.len() as int) =~= p@);
    true
}

/// Whether `s` begins with `p`; `str::starts_with` on whole strings.
pub fn str_starts_with(s: &str, p: &str) -> (b: bool)
    ensures
        b == starts_with(s@, p@),
{
    let v = chars_of(s);
    let pv = chars_of(p);
    let b = range_starts_with(&v, 0, v.len(), &pv);
    assert(v@.subrange(0, v@.len() as int) =~= v@);
    b
}

/// Decimal digits of a natural number, most significant first, without sign.
pub open spec fn decimal(n: nat) -> Seq<char>
    decreases n,
{
    if n < 10 {
        seq![digit_char(n)]
    } else {
        decimal(n / 10).push(digit_char(n % 10))
    }
}

/// The ASCII digit for `d < 10`.
pub open spec fn digit_char(d: nat) -> char {
    if d == 0 {
        '0'
    } else if d == 1 {
        '1'
    } else if d == 2 {
        '2'
    } else if d == 3 {
        '3'
    } else if d == 4 {
        '4'
    } else if d == 5 {
        '5'
    } else if d == 6 {
        '6'
    } else if d == 7 {
        '7'
    } else if d == 8 {
        '8'
    } else {
        '9'
    }
}

/// Decimal rendering of a signed integer, as `Display` writes it.
pub open spec fn signed_decimal(n: int) -> Seq<char> {
    if n < 0 {
        seq!['-'] + decimal((-n) as nat)
    } else {
        decimal(n as nat)
    }
}

fn digit(d: u64) -> (c: char)
    requires
        d < 10,
    ensures
        c == digit_char(d as nat),
{
    if d == 0 {
        '0'
    } else if d == 1 {
        '1'
    } else if d == 2 {
        '2'
    } else if d == 3 {
        '3'
    } else if d == 4 {
        '4'
    } else if d == 5 {
        '5'
    } else if d == 6 {
        '6'
    } else if d == 7 {
        '7'
    } else if d == 8 {
        '8'
    } else {
        '9'
    }
}

/// Appends the decimal digits of `n`.
pub fn push_decimal(out: &mut String, n: u64)
    ensures
        final(out)@ == old(out)@ + decimal(n as nat),
    decreases n,
{
    if n < 10 {
        push_char(out, digit(n));
        assert(decimal(n as nat) == seq![digit_char(n as nat)]);
    } else {
        push_decimal(out, n / 10);
        push_char(out, digit(n % 10));
        assert(decimal(n as nat) == decimal((n / 10) as nat).push(digit_char((n % 10) as nat)));
    }
}

/// Appends `n` as `Display` writes a signed integer.
pub fn push_signed(out: &mut String, n: i64)
    ensures
        final(out)@ == old(out)@ + signed_decimal(n as int),
{
    if n < 0 {
        push_char(out, '-');
        let m: u64 = if n == i64::MIN {
            9223372036854775808u64
        } else {
            (-n) as u64
        };
        push_decimal(out, m);
        assert(old(out)@.push('-') + decimal(m as nat) =~= old(out)@ + (seq!['-'] + decimal(
            (-n) as nat,
        )));
    } else {
        push_decimal(out, n as u64);
    }
}

/// Appends a string slice.
pub fn push_str(out: &mut String, s: &str)
    ensures
        final(out)@ == old(out)@ + s@,
{
    let v = chars_of(s);
    push_range(out, &v, 0, v.len());
    assert(v@.subrange(0, v@.len() as int) =~= v@);
}

/// Whether two string slices hold the same characters.
pub fn str_eq(a: &str, b: &str) -> (r: bool)
    ensures
        r == (a@ == b@),
{
    let va = chars_of(a);
    let vb = chars_of(b);
    if va.len() != vb.len() {
        return false;
    }
    let mut i: usize = 0;
    while i < va.len()
        invariant
            va@ == a@,
            vb@ == b@,
            va@.len() == vb@.len(),
            i <= va@.len(),
            forall|k: int| 0 <= k < i ==> va@[k] == vb@[k],
        decreases va.len() - i,
    {
        if va[i] != vb[i] {
            return false;
        }
        i += 1;
    }
    assert(va@ =~= vb@);
    true
}

proof fn lemma_count_char_first(s: Seq<char>, c: char)
    requires
        s.len() > 0,
    ensures
        count_char(s, c) == count_char(s.drop_first(), c) + if s[0] == c {
            1nat
        } else {
            0nat
        },
    decreases s.len(),
{
    if s.len() > 1 {
        lemma_count_char_first(s.drop_last(), c);
        assert(s.drop_last().drop_first() =~= s.drop_first().drop_last());
        assert(s.drop_first().last() == s.last());
        assert(s.drop_last()[0] == s[0]);
        assert(count_char(s.drop_first(), c) == count_char(s.drop_first().drop_last(), c) + if s.last() == c {
            1nat
        } else {
            0nat
        });
    } else {
        assert(s.drop_first().len() == 0);
        assert(s.drop_last().len() == 0);
        assert(count_char(s.drop_last(), c) == 0);
        assert(count_char(s.drop_first(), c) == 0);
        assert(s.last() == s[0]);
    }
}

proof fn lemma_count_char_skip(s: Seq<char>, c: char, from: int, i: int)
    requires
        0 <= from <= i < s.len(),
        s[i] == c,
        forall|k: int| from <= k < i ==> s[k] != c,
    ensures
        count_char(s.subrange(from, s.len() as int), c) == count_char(s.subrange(i + 1, s.len() as int), c) + 1,
    decreases i - from,
{
    let t = s.subrange(from, s.len() as int);
    lemma_count_char_first(t, c);
    assert(t.drop_first() =~= s.subrange(from + 1, s.len() as int));
    if from < i {
        lemma_count_char_skip(s, c, from + 1, i);
    }
}

proof fn lemma_count_char_none(s: Seq<char>, c: char, from: int)
    requires
        0 <= from <= s.len(),
        forall|k: int| from <= k < s.len() ==> s[k] != c,
    ensures
        count_char(s.subrange(from, s.len() as int), c) == 0,
    decreases s.len() - from,
{
    if from < s.len() {
        let t = s.subrange(from, s.len() as int);
        lemma_count_char_first(t, c);
        assert(t.drop_first() =~= s.subrange(from + 1, s.len() as int));
        lemma_count_char_none(s, c, from + 1);
    }
}

proof fn lemma_split_from_len(s: Seq<char>, c: char, from: int)
    requires
        0 <= from <= s.len(),
    ensures
        split_from(s, c, from).len() == count_char(s.subrange(from, s.len() as int), c) + 1,
        split_from(s, c, from)[0] == s.subrange(
            from,
            match find_from(s, c, from) {
                Some(i) => i,
                None => s.len() as int,
            },
        ),
    decreases s.len() - from,
{
    lemma_find_from_bounds(s, c, from);
    match find_from(s, c, from) {
        Some(i) => {
            lemma_split_from_len(s, c, i + 1);
            lemma_count_char_skip(s, c, from, i);
        },
        None => {
            lemma_count_char_none(s, c, from);
        },
    }
}

/// Splitting at `c` yields one piece more than `c` occurs, and the first
/// piece is what comes before the first `c`.
pub proof fn law_split_pieces(s: Seq<char>, c: char)
    ensures
        split(s, c).len() == count_char(s, c) + 1,
        split(s, c)[0] == s.subrange(
            0,
            match find_from(s, c, 0) {
                Some(i) => i,
                None => s.len() as int,
            },
        ),
{
    lemma_split_from_len(s, c, 0);
    assert(s.subrange(0, s.len() as int) =~= s);
}

} // verus!
