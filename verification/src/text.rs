//! Character-level string helpers shared by the models, the routes and the
//! DOM extraction code: whitespace trimming, substring replacement, decimal
//! rendering of integers and conversions between `str` and `Vec<char>`.
use vstd::prelude::*;

verus! {

/// The Unicode `White_Space` characters, the set that `str::trim` removes.
pub open spec fn is_white_space(c: char) -> bool {
    ||| ('\u{9}' <= c && c <= '\u{d}')
    ||| c == ' '
    ||| c == '\u{85}'
    ||| c == '\u{a0}'
    ||| c == '\u{1680}'
    ||| ('\u{2000}' <= c && c <= '\u{200a}')
    ||| c == '\u{2028}'
    ||| c == '\u{2029}'
    ||| c == '\u{202f}'
    ||| c == '\u{205f}'
    ||| c == '\u{3000}'
}

/// `s` without its leading white space.
pub open spec fn strip_leading(s: Seq<char>) -> Seq<char>
    decreases s.len(),
{
    if s.len() > 0 && is_white_space(s[0]) {
        strip_leading(s.drop_first())
    } else {
        s
    }
}

/// `s` without its trailing white space.
pub open spec fn strip_trailing(s: Seq<char>) -> Seq<char>
    decreases s.len(),
{
    if s.len() > 0 && is_white_space(s.last()) {
        strip_trailing(s.drop_last())
    } else {
        s
    }
}

/// `s` with white space removed from both ends.
pub open spec fn trimmed(s: Seq<char>) -> Seq<char> {
    strip_trailing(strip_leading(s))
}

/// `s` with every non-overlapping occurrence of `from`, found left to right,
/// replaced by `to`.
pub open spec fn replaced(s: Seq<char>, from: Seq<char>, to: Seq<char>) -> Seq<char>
    recommends
        from.len() > 0,
    decreases s.len(),
{
    if s.len() == 0 || from.len() == 0 {
        s
    } else if from.len() <= s.len() && s.take(from.len() as int) == from {
        to + replaced(s.skip(from.len() as int), from, to)
    } else {
        seq![s[0]] + replaced(s.drop_first(), from, to)
    }
}

/// The pieces of `s` between the non-overlapping occurrences of `sep`,
/// found left to right, where `cur` is the piece read so far.
pub open spec fn split_from(s: Seq<char>, sep: Seq<char>, cur: Seq<char>) -> Seq<Seq<char>>
    recommends
        sep.len() > 0,
    decreases s.len(),
{
    if s.len() == 0 {
        seq![cur]
    } else if sep.len() > 0 && sep.len() <= s.len() && s.take(sep.len() as int) == sep {
        seq![cur] + split_from(s.skip(sep.len() as int), sep, Seq::empty())
    } else {
        split_from(s.drop_first(), sep, cur.push(s[0]))
    }
}

/// The pieces of `s` between the non-overlapping occurrences of `sep`
/// (`str::split` with a non-empty separator).
pub open spec fn split_pieces(s: Seq<char>, sep: Seq<char>) -> Seq<Seq<char>> {
    split_from(s, sep, Seq::empty())
}

/// The ASCII digit for `d < 10`.
pub open spec fn digit_char(d: nat) -> char {
    if d == 0 { '0' }
    else if d == 1 { '1' }
    else if d == 2 { '2' }
    else if d == 3 { '3' }
    else if d == 4 { '4' }
    else if d == 5 { '5' }
    else if d == 6 { '6' }
    else if d == 7 { '7' }
    else if d == 8 { '8' }
    else { '9' }
}

/// The decimal digits of `n`, most significant first, without leading zeros.
pub open spec fn decimal(n: nat) -> Seq<char>
    decreases n,
{
    if n < 10 {
        seq![digit_char(n)]
    } else {
        decimal(n / 10).push(digit_char(n % 10))
    }
}

/// The decimal rendering of a signed integer, with a leading `-` when negative.
pub open spec fn signed_decimal(n: int) -> Seq<char> {
    if n < 0 {
        seq!['-'] + decimal((-n) as nat)
    } else {
        decimal(n as nat)
    }
}

/// Index of the first occurrence of `c` in `s`, if any.
pub open spec fn first_index_of(s: Seq<char>, c: char) -> Option<int>
    decreases s.len(),
{
    if s.len() == 0 {
        None
    } else if s[0] == c {
        Some(0)
    } else {
        match first_index_of(s.drop_first(), c) {
            Some(i) => Some(i + 1),
            None => None,
        }
    }
}

/// Index of the last occurrence of `c` in `s`, or -1.
pub open spec fn last_index_of(s: Seq<char>, c: char) -> int
    decreases s.len(),
{
    if s.len() == 0 {
        -1
    } else if s.last() == c {
        s.len() - 1
    } else {
        last_index_of(s.drop_last(), c)
    }
}

pub proof fn lemma_last_index_of_bounds(s: Seq<char>, c: char)
    ensures
        -1 <= last_index_of(s, c) < s.len(),
        last_index_of(s, c) >= 0 ==> s[last_index_of(s, c)] == c,
        forall|j: int| last_index_of(s, c) < j < s.len() ==> s[j] != c,
    decreases s.len(),
{
    if s.len() > 0 && s.last() != c {
        lemma_last_index_of_bounds(s.drop_last(), c);
        assert forall|j: int| 0 <= j < s.len() - 1 implies s.drop_last()[j] == s[j] by {}
    }
}

pub proof fn lemma_first_index_of(s: Seq<char>, c: char)
    ensures
        first_index_of(s, c) matches Some(i) ==> 0 <= i < s.len() && s[i] == c && (forall|j: int|
            0 <= j < i ==> s[j] != c),
        first_index_of(s, c) is None ==> (forall|j: int| 0 <= j < s.len() ==> s[j] != c),
    decreases s.len(),
{
    if s.len() > 0 && s[0] != c {
        lemma_first_index_of(s.drop_first(), c);
        assert forall|j: int| 1 <= j < s.len() implies s.drop_first()[j - 1] == s[j] by {}
    }
}

/// Appends one character (`String::push`).
#[verifier::external_body]
pub(crate) fn push_char(s: &mut String, c: char)
    ensures
        final(s)@ == old(s)@.push(c),
{
    s.push(c)
}

/// The characters of `s`, in order.
pub fn chars_of(s: &str) -> (v: Vec<char>)
    ensures
        v@ == s@,
{
    let mut v: Vec<char> = Vec::new();
    for c in it: s.chars()
        invariant
            v@ == it.seq().take(it.index() as int),
            it.seq() == s@,
    {
        v.push(c);
    }
    v
}

/// Appends the characters `cs[from..to]` to `out`.
pub(crate) fn push_chars(out: &mut String, cs: &[char], from: usize, to: usize)
    requires
        from <= to <= cs@.len(),
    ensures
        final(out)@ == old(out)@ + cs@.subrange(from as int, to as int),
{
    let mut i = from;
    while i < to
        invariant
            from <= i <= to <= cs@.len(),
            out@ == old(out)@ + cs@.subrange(from as int, i as int),
        decreases to - i,
    {
        push_char(out, cs[i]);
        i = i + 1;
        assert(cs@.subrange(from as int, i as int) == cs@.subrange(from as int, i - 1).push(
            cs@[i - 1],
        ));
    }
}

/// A new string holding `cs[from..to]`.
pub fn string_of(cs: &[char], from: usize, to: usize) -> (r: String)
    requires
        from <= to <= cs@.len(),
    ensures
        r@ == cs@.subrange(from as int, to as int),
{
    let mut r = String::new();
    push_chars(&mut r, cs, from, to);
    r
}

/// Appends `s` to `out`.
pub fn push_str(out: &mut String, s: &str)
    ensures
        final(out)@ == old(out)@ + s@,
{
    let cs = chars_of(s);
    push_chars(out, cs.as_slice(), 0, cs.len());
    assert(cs@.subrange(0, cs@.len() as int) == cs@);
}

/// The concatenation of two strings.
pub fn concat(a: &str, b: &str) -> (r: String)
    ensures
        r@ == a@ + b@,
{
    let mut r = String::new();
    push_str(&mut r, a);
    push_str(&mut r, b);
    assert(Seq::<char>::empty() + a@ == a@);
    r
}

/// Whether `c` is Unicode white space (`char::is_whitespace`).
pub fn is_whitespace(c: char) -> (b: bool)
    ensures
        b == is_white_space(c),
{
    ('\u{9}' <= c && c <= '\u{d}') || c == ' ' || c == '\u{85}' || c == '\u{a0}' || c
        == '\u{1680}' || ('\u{2000}' <= c && c <= '\u{200a}') || c == '\u{2028}' || c == '\u{2029}'
        || c == '\u{202f}' || c == '\u{205f}' || c == '\u{3000}'
}

proof fn lemma_strip_leading_skip(s: Seq<char>, i: int)
    requires
        0 <= i < s.len(),
        is_white_space(s[i]),
    ensures
        strip_leading(s.skip(i)) == strip_leading(s.skip(i + 1)),
{
    assert(s.skip(i).drop_first() == s.skip(i + 1));
}

/// The index range `[start, end)` of `cs` that remains once white space is
/// trimmed from both ends.
pub fn trim_bounds(cs: &[char]) -> (r: (usize, usize))
    ensures
        r.0 <= r.1 <= cs@.len(),
        cs@.subrange(r.0 as int, r.1 as int) == trimmed(cs@),
{
    let n = cs.len();
    let mut i: usize = 0;
    assert(cs@.skip(0) == cs@);
    while i < n && is_whitespace(cs[i])
        invariant
            i <= n == cs@.len(),
            strip_leading(cs@) == strip_leading(cs@.skip(i as int)),
        decreases n - i,
    {
        proof {
            lemma_strip_leading_skip(cs@, i as int);
        }
        i = i + 1;
    }
    let ghost lead = cs@.skip(i as int);
    assert(strip_leading(cs@) == lead);
    let mut j: usize = n;
    while j > i && is_whitespace(cs[j - 1])
        invariant
            i <= j <= n == cs@.len(),
            lead == cs@.skip(i as int),
            strip_trailing(lead) == strip_trailing(cs@.subrange(i as int, j as int)),
        decreases j,
    {
        proof {
            let t = cs@.subrange(i as int, j as int);
            assert(t.drop_last() == cs@.subrange(i as int, j - 1));
        }
        j = j - 1;
    }
    assert(lead == cs@.subrange(i as int, n as int));
    (i, j)
}

/// `s` with leading and trailing white space removed (`str::trim`).
pub fn trim(s: &str) -> (r: String)
    ensures
        r@ == trimmed(s@),
{
    let cs = chars_of(s);
    let (a, b) = trim_bounds(cs.as_slice());
    string_of(cs.as_slice(), a, b)
}

/// Whether `pat` occurs in `cs` at index `at`.
pub fn occurs_at(cs: &[char], at: usize, pat: &[char]) -> (b: bool)
    requires
        at <= cs@.len(),
    ensures
        b == (pat@.len() <= cs@.len() - at && cs@.skip(at as int).take(pat@.len() as int)
            == pat@),
{
    if pat.len() > cs.len() - at {
        return false;
    }
    let mut k: usize = 0;
    while k < pat.len()
        invariant
            at <= cs@.len(),
            cs@.len() == cs.len(),
            at + pat@.len() <= cs.len(),
            k <= pat@.len(),
            forall|m: int| 0 <= m < k ==> cs@[at + m] == pat@[m],
        decreases pat@.len() - k,
    {
        if cs[at + k] != pat[k] {
            assert(cs@.skip(at as int).take(pat@.len() as int)[k as int] != pat@[k as int]);
            return false;
        }
        k = k + 1;
    }
    assert(cs@.skip(at as int).take(pat@.len() as int) =~= pat@);
    true
}

/// `s` with every non-overlapping occurrence of `from` replaced by `to`,
/// scanning left to right (`str::replace` with a non-empty pattern).
pub fn replace_all(s: &str, from: &str, to: &str) -> (r: String)
    requires
        from@.len() > 0,
    ensures
        r@ == replaced(s@, from@, to@),
{
    let cs = chars_of(s);
    let pat = chars_of(from);
    let mut r = String::new();
    let mut i: usize = 0;
    let n = cs.len();
    assert(cs@.skip(0) == cs@);
    assert(Seq::<char>::empty() + replaced(s@, from@, to@) == replaced(s@, from@, to@));
    while i < n
        invariant
            n == cs@.len(),
            i <= n,
            pat@ == from@,
            pat@.len() > 0,
            r@ + replaced(cs@.skip(i as int), from@, to@) == replaced(s@, from@, to@),
            cs@ == s@,
        decreases n - i,
    {
        let ghost rest = cs@.skip(i as int);
        if occurs_at(cs.as_slice(), i, pat.as_slice()) {
            proof {
                assert(rest.skip(pat@.len() as int) == cs@.skip(i + pat@.len()));
            }
            let ghost before = r@;
            push_str(&mut r, to);
            i = i + pat.len();
            proof {
                assert(before + (to@ + replaced(cs@.skip(i as int), from@, to@)) == r@ + replaced(
                    cs@.skip(i as int),
                    from@,
                    to@,
                ));
            }
        } else {
            proof {
                assert(rest.drop_first() == cs@.skip(i + 1));
                assert(rest[0] == cs@[i as int]);
            }
            let ghost before = r@;
            push_char(&mut r, cs[i]);
            i = i + 1;
            proof {
                assert(before + (seq![cs@[i - 1]] + replaced(cs@.skip(i as int), from@, to@))
                    == r@ + replaced(cs@.skip(i as int), from@, to@));
            }
        }
    }
    assert(cs@.skip(n as int).len() == 0);
    assert(r@ + Seq::<char>::empty() == r@);
    r
}

/// The pieces of `s` between the non-overlapping occurrences of `sep`,
/// found left to right (`str::split` with a non-empty separator).
pub fn split(s: &str, sep: &str) -> (r: Vec<String>)
    requires
        sep@.len() > 0,
    ensures
        r@.map_values(|x: String| x@) == split_pieces(s@, sep@),
{
    let cs = chars_of(s);
    let pat = chars_of(sep);
    let mut pieces: Vec<String> = Vec::new();
    let mut cur = String::new();
    let mut i: usize = 0;
    let n = cs.len();
    assert(cs@.skip(0) == cs@);
    assert(pieces@.map_values(|x: String| x@) + split_from(cs@.skip(0), sep@, cur@) =~= split_pieces(
        s@,
        sep@,
    ));
    while i < n
        invariant
            n == cs@.len(),
            i <= n,
            pat@ == sep@,
            pat@.len() > 0,
            cs@ == s@,
            pieces@.map_values(|x: String| x@) + split_from(cs@.skip(i as int), sep@, cur@)
                == split_pieces(s@, sep@),
        decreases n - i,
    {
        let ghost rest = cs@.skip(i as int);
        let ghost done = pieces@.map_values(|x: String| x@);
        if occurs_at(cs.as_slice(), i, pat.as_slice()) {
            proof {
                assert(rest.skip(pat@.len() as int) == cs@.skip(i + pat@.len()));
            }
            let piece = cur;
            cur = String::new();
            let ghost piece_v = piece@;
            pieces.push(piece);
            i = i + pat.len();
            proof {
                assert(pieces@.map_values(|x: String| x@) =~= done.push(piece_v));
                assert(done + (seq![piece_v] + split_from(cs@.skip(i as int), sep@, Seq::empty()))
                    =~= done.push(piece_v) + split_from(cs@.skip(i as int), sep@, cur@));
            }
        } else {
            proof {
                assert(rest.drop_first() == cs@.skip(i + 1));
                assert(rest[0] == cs@[i as int]);
            }
            push_char(&mut cur, cs[i]);
            i = i + 1;
        }
    }
    let ghost done = pieces@.map_values(|x: String| x@);
    let ghost last = cur@;
    assert(cs@.skip(n as int).len() == 0);
    pieces.push(cur);
    assert(pieces@.map_values(|x: String| x@) =~= done.push(last));
    assert(done + seq![last] =~= done.push(last));
    pieces
}

/// The ASCII digit for `d < 10`.
pub fn digit(d: u64) -> (c: char)
    requires
        d < 10,
    ensures
        c == digit_char(d as nat),
{
    if d == 0 { '0' }
    else if d == 1 { '1' }
    else if d == 2 { '2' }
    else if d == 3 { '3' }
    else if d == 4 { '4' }
    else if d == 5 { '5' }
    else if d == 6 { '6' }
    else if d == 7 { '7' }
    else if d == 8 { '8' }
    else { '9' }
}

/// Appends the decimal digits of `n`.
pub fn push_decimal(out: &mut String, n: u64)
    ensures
        final(out)@ == old(out)@ + decimal(n as nat),
    decreases n,
{
    if n >= 10 {
        push_decimal(out, n / 10);
    }
    let d = digit(n % 10);
    push_char(out, d);
    proof {
        if n >= 10 {
            assert(old(out)@ + decimal((n / 10) as nat) + seq![d] == old(out)@ + decimal(n as nat));
        } else {
            assert(old(out)@.push(d) == old(out)@ + seq![d]);
        }
    }
}

/// Appends the decimal rendering of a signed integer.
pub fn push_signed_decimal(out: &mut String, n: i64)
    ensures
        final(out)@ == old(out)@ + signed_decimal(n as int),
{
    if n < 0 {
        push_char(out, '-');
        let magnitude: u64 = (0i128 - (n as i128)) as u64;
        push_decimal(out, magnitude);
        assert(old(out)@.push('-') + decimal(magnitude as nat) == old(out)@ + (seq!['-']
            + decimal(magnitude as nat)));
    } else {
        push_decimal(out, n as u64);
    }
}

/// The decimal rendering of `n` (`u64::to_string`).
pub fn decimal_string(n: u64) -> (r: String)
    ensures
        r@ == decimal(n as nat),
{
    let mut r = String::new();
    push_decimal(&mut r, n);
    assert(Seq::<char>::empty() + decimal(n as nat) == decimal(n as nat));
    r
}

} // verus!
