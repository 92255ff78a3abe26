//! Character-level helpers shared by the parsers and label builders.

use vstd::prelude::*;

verus! {

/// Unicode `White_Space` code points, the set that `char::is_whitespace` tests.
pub open spec fn is_ws(c: char) -> bool {
    let u = c as u32;
    ||| (0x9 <= u && u <= 0xd)
    ||| u == 0x20
    ||| u == 0x85
    ||| u == 0xa0
    ||| u == 0x1680
    ||| (0x2000 <= u && u <= 0x200a)
    ||| u == 0x2028
    ||| u == 0x2029
    ||| u == 0x202f
    ||| u == 0x205f
    ||| u == 0x3000
}

/// Whether `c` is Unicode white space.
pub fn is_whitespace(c: char) -> (r: bool)
    ensures
        r == is_ws(c),
{
    let u = c as u32;
    (0x9 <= u && u <= 0xd) || u == 0x20 || u == 0x85 || u == 0xa0 || u == 0x1680 || (0x2000
        <= u && u <= 0x200a) || u == 0x2028 || u == 0x2029 || u == 0x202f || u == 0x205f || u
        == 0x3000
}

/// The characters of `s`, in order.
pub(crate) fn chars_of(s: &str) -> (r: Vec<char>)
    ensures
        r@ == s@,
{
    broadcast use vstd::string::axiom_spec_iter;

    let mut v: Vec<char> = Vec::new();
    for c in it: s.chars()
        invariant
            it.seq() == s@,
            v@ == it.seq().take(it.index() as int),
    {
        proof {
            assert(it.seq().take(it.index() + 1) =~= v@.push(c));
        }
        v.push(c);
    }
    v
}

/// The string made of the characters of `v`.
pub(crate) fn string_of(v: &[char]) -> (r: String)
    ensures
        r@ == v@,
{
    let mut s = String::new();
    let mut i: usize = 0;
    while i < v.len()
        invariant
            i <= v.len(),
            s@ == v@.take(i as int),
        decreases v.len() - i,
    {
        push_char(&mut s, v[i]);
        proof {
            assert(v@.take(i + 1) =~= v@.take(i as int).push(v@[i as int]));
        }
        i = i + 1;
    }
    proof {
        assert(v@.take(i as int) =~= v@);
    }
    s
}

/// Appends one character (`String::push`).
#[verifier::external_body]
pub(crate) fn push_char(s: &mut String, c: char)
    ensures
        final(s)@ == old(s)@.push(c),
{
    s.push(c);
}

/// Appends the characters of `t` to `s`.
pub fn push_str(s: &mut String, t: &str)
    ensures
        final(s)@ == old(s)@ + t@,
{
    s.append(t);
}

/// The characters of `a` followed by those of `b`.
pub fn concat(a: &str, b: &str) -> (r: String)
    ensures
        r@ == a@ + b@,
{
    let mut s = String::from_str(a);
    s.append(b);
    s
}

/// `s` without its leading white space.
pub open spec fn trim_start(s: Seq<char>) -> Seq<char>
    decreases s.len(),
{
    if s.len() > 0 && is_ws(s[0]) {
        trim_start(s.drop_first())
    } else {
        s
    }
}

/// `s` without its trailing white space.
pub open spec fn trim_end(s: Seq<char>) -> Seq<char>
    decreases s.len(),
{
    if s.len() > 0 && is_ws(s[s.len() - 1]) {
        trim_end(s.drop_last())
    } else {
        s
    }
}

/// `s` without leading and trailing white space (what `str::trim` gives).
pub open spec fn spec_trim(s: Seq<char>) -> Seq<char> {
    trim_end(trim_start(s))
}

proof fn lemma_trim_start_skip(s: Seq<char>, i: int)
    requires
        0 <= i <= s.len(),
        forall|k: int| 0 <= k < i ==> is_ws(#[trigger] s[k]),
    ensures
        trim_start(s) == trim_start(s.subrange(i, s.len() as int)),
    decreases i,
{
    if i > 0 {
        lemma_trim_start_skip(s.drop_first(), i - 1);
        assert(s.drop_first().subrange(i - 1, s.drop_first().len() as int) =~= s.subrange(
            i,
            s.len() as int,
        ));
    } else {
        assert(s.subrange(0, s.len() as int) =~= s);
    }
}

proof fn lemma_trim_end_take(s: Seq<char>, j: int)
    requires
        0 <= j <= s.len(),
        forall|k: int| j <= k < s.len() ==> is_ws(#[trigger] s[k]),
    ensures
        trim_end(s) == trim_end(s.subrange(0, j)),
    decreases s.len() - j,
{
    if j < s.len() {
        lemma_trim_end_take(s.drop_last(), j);
        assert(s.drop_last().subrange(0, j) =~= s.subrange(0, j));
    } else {
        assert(s.subrange(0, j) =~= s);
    }
}

/// `s` without leading and trailing white space.
pub fn trim(s: &str) -> (r: String)
    ensures
        r@ == spec_trim(s@),
{
    let v = chars_of(s);
    let mut i: usize = 0;
    while i < v.len() && is_whitespace(v[i])
        invariant
            i <= v.len(),
            forall|k: int| 0 <= k < i ==> is_ws(#[trigger] v@[k]),
        decreases v.len() - i,
    {
        i = i + 1;
    }
    proof {
        lemma_trim_start_skip(v@, i as int);
    }
    let ghost t = v@.subrange(i as int, v@.len() as int);
    assert(i == v.len() || !is_ws(t[0]));
    assert(trim_start(t) == t);
    let mut j: usize = v.len();
    while j > i && is_whitespace(v[j - 1])
        invariant
            i <= j <= v.len(),
            forall|k: int| j <= k < v.len() ==> is_ws(#[trigger] v@[k]),
        decreases j - i,
    {
        j = j - 1;
    }
    proof {
        let tt = v@.subrange(i as int, v@.len() as int);
        assert forall|k: int| j - i <= k < tt.len() implies is_ws(#[trigger] tt[k]) by {
            assert(tt[k] == v@[k + i]);
        }
        lemma_trim_end_take(tt, j - i);
        assert(tt.subrange(0, j - i) =~= v@.subrange(i as int, j as int));
        let u = v@.subrange(i as int, j as int);
        assert(u.len() == 0 || !is_ws(u[u.len() - 1]));
    }
    string_of(&v[i..j])
}


/// Whether two strings hold the same characters.
pub fn str_eq(a: &str, b: &str) -> (r: bool)
    ensures
        r == (a@ == b@),
{
    let x = chars_of(a);
    let y = chars_of(b);
    if x.len() != y.len() {
        return false;
    }
    let mut i: usize = 0;
    while i < x.len()
        invariant
            i <= x.len() == y.len(),
            x@ == a@,
            y@ == b@,
            forall|k: int| 0 <= k < i ==> x@[k] == y@[k],
        decreases x.len() - i,
    {
        if x[i] != y[i] {
            proof {
                assert(x@[i as int] != y@[i as int]);
                assert(a@[i as int] != b@[i as int]);
            }
            return false;
        }
        i = i + 1;
    }
    proof {
        assert(x@ =~= y@);
    }
    true
}

/// `pat` occurs in `s` at `i`.
pub open spec fn occurs_at(s: Seq<char>, i: int, pat: Seq<char>) -> bool {
    0 <= i && i + pat.len() <= s.len() && s.subrange(i, i + pat.len()) == pat
}

/// Whether `pat` occurs in `s` at `i`.
pub fn matches_at(s: &[char], i: usize, pat: &[char]) -> (r: bool)
    ensures
        r == occurs_at(s@, i as int, pat@),
{
    if i > s.len() || s.len() - i < pat.len() {
        return false;
    }
    let mut k: usize = 0;
    while k < pat.len()
        invariant
            k <= pat.len(),
            i + pat.len() <= s.len(),
            forall|m: int| 0 <= m < k ==> s@[i + m] == pat@[m],
        decreases pat.len() - k,
    {
        if s[i + k] != pat[k] {
            return false;
        }
        k = k + 1;
    }
    proof {
        assert(s@.subrange(i as int, i + pat.len()) =~= pat@);
    }
    true
}

/// `s` starts with `prefix`.
pub open spec fn has_prefix(s: Seq<char>, prefix: Seq<char>) -> bool {
    occurs_at(s, 0, prefix)
}

/// Whether `s` starts with `prefix`.
pub fn starts_with(s: &str, prefix: &str) -> (r: bool)
    ensures
        r == has_prefix(s@, prefix@),
{
    let x = chars_of(s);
    let y = chars_of(prefix);
    matches_at(&x, 0, &y)
}

/// At most `n` non-overlapping occurrences of `pat` in `s`, found left to
/// right, replaced by `rep` (what `str::replacen` gives); an empty pattern
/// occurs before every character and at the end.
pub open spec fn spec_replacen(s: Seq<char>, pat: Seq<char>, rep: Seq<char>, n: nat) -> Seq<char>
    decreases s.len(),
{
    if n == 0 {
        s
    } else if pat.len() == 0 {
        if s.len() == 0 {
            rep
        } else {
            rep + seq![s[0]] + spec_replacen(s.drop_first(), pat, rep, (n - 1) as nat)
        }
    } else if s.len() == 0 {
        s
    } else if occurs_at(s, 0, pat) {
        rep + spec_replacen(s.subrange(pat.len() as int, s.len() as int), pat, rep, (n - 1) as nat)
    } else {
        seq![s[0]] + spec_replacen(s.drop_first(), pat, rep, n)
    }
}

/// Every non-overlapping occurrence of `pat` in `s`, found left to right,
/// replaced by `rep` (what `str::replace` gives); an empty pattern occurs
/// before every character and at the end.
pub open spec fn spec_replace_all(s: Seq<char>, pat: Seq<char>, rep: Seq<char>) -> Seq<char>
    decreases s.len(),
{
    if pat.len() == 0 {
        if s.len() == 0 {
            rep
        } else {
            rep + seq![s[0]] + spec_replace_all(s.drop_first(), pat, rep)
        }
    } else if s.len() == 0 {
        s
    } else if occurs_at(s, 0, pat) {
        rep + spec_replace_all(s.subrange(pat.len() as int, s.len() as int), pat, rep)
    } else {
        seq![s[0]] + spec_replace_all(s.drop_first(), pat, rep)
    }
}

proof fn lemma_occurs_shift(s: Seq<char>, i: int, pat: Seq<char>)
    requires
        0 <= i <= s.len(),
    ensures
        occurs_at(s, i, pat) == occurs_at(s.subrange(i, s.len() as int), 0, pat),
{
    let t = s.subrange(i, s.len() as int);
    if i + pat.len() <= s.len() {
        assert(t.subrange(0, pat.len() as int) =~= s.subrange(i, i + pat.len()));
    }
}

/// `s` with `rep` put before each character and at the end, at most `n`
/// times, or without bound where `count` is `None`.
fn replace_empty(x: &Vec<char>, rep: &str, count: Option<usize>) -> (r: String)
    ensures
        r@ == match count {
            Some(n) => spec_replacen(x@, seq![], rep@, n as nat),
            None => spec_replace_all(x@, seq![], rep@),
        },
{
    let mut out = String::new();
    let mut i: usize = 0;
    let mut left: usize = match count {
        Some(n) => n,
        None => 0,
    };
    let bounded = count.is_some();
    proof {
        assert(x@.skip(0) =~= x@);
        assert(out@ + spec_replacen(x@, seq![], rep@, left as nat) =~= spec_replacen(x@, seq![], rep@, left as nat));
        assert(out@ + spec_replace_all(x@, seq![], rep@) =~= spec_replace_all(x@, seq![], rep@));
    }
    while i < x.len() && !(bounded && left == 0)
        invariant
            i <= x.len(),
            bounded == count.is_some(),
            match count {
                Some(n) => out@ + spec_replacen(x@.skip(i as int), seq![], rep@, left as nat) == spec_replacen(x@, seq![], rep@, n as nat),
                None => out@ + spec_replace_all(x@.skip(i as int), seq![], rep@) == spec_replace_all(x@, seq![], rep@),
            },
        decreases x.len() - i,
    {
        let ghost rest = x@.skip(i as int);
        let ghost before = out@;
        proof {
            assert(rest[0] == x@[i as int]);
            assert(rest.drop_first() =~= x@.skip(i + 1));
        }
        out.append(rep);
        push_char(&mut out, x[i]);
        if bounded {
            left = left - 1;
        }
        i = i + 1;
        proof {
            assert(out@ =~= before + rep@ + seq![rest[0]]);
            assert(before + (rep@ + seq![rest[0]] + spec_replacen(x@.skip(i as int), seq![], rep@, left as nat)) =~= out@ + spec_replacen(x@.skip(i as int), seq![], rep@, left as nat));
            assert(before + (rep@ + seq![rest[0]] + spec_replace_all(x@.skip(i as int), seq![], rep@)) =~= out@ + spec_replace_all(x@.skip(i as int), seq![], rep@));
        }
    }
    if bounded && left == 0 {
        let ghost before = out@;
        let tail = string_of(&x.as_slice()[i..x.len()]);
        out.append(tail.as_str());
        proof {
            assert(tail@ =~= x@.skip(i as int));
            assert(out@ =~= before + x@.skip(i as int));
        }
    } else {
        let ghost before = out@;
        proof {
            assert(x@.skip(i as int) =~= Seq::<char>::empty());
        }
        out.append(rep);
    }
    out
}

/// Replaces, left to right, the first `count` occurrences of `pat` in `s`
/// by `rep`, or every occurrence where `count` is `None` (`str::replacen`
/// and `str::replace`).
pub fn replace_occurrences(s: &str, pat: &str, rep: &str, count: Option<usize>) -> (r: String)
    ensures
        r@ == match count {
            Some(n) => spec_replacen(s@, pat@, rep@, n as nat),
            None => spec_replace_all(s@, pat@, rep@),
        },
{
    let x = chars_of(s);
    let p = chars_of(pat);
    if p.len() == 0 {
        proof {
            assert(pat@ =~= seq![]);
        }
        return replace_empty(&x, rep, count);
    }
    let mut out = String::new();
    let mut i: usize = 0;
    let mut left: usize = match count {
        Some(n) => n,
        None => 0,
    };
    let bounded = count.is_some();
    proof {
        assert(x@.subrange(0, x@.len() as int) =~= x@);
        assert(out@ + spec_replacen(x@, p@, rep@, left as nat) =~= spec_replacen(x@, p@, rep@, left as nat));
        assert(out@ + spec_replace_all(x@, p@, rep@) =~= spec_replace_all(x@, p@, rep@));
    }
    while i < x.len()
        invariant
            i <= x.len(),
            p@.len() > 0,
            bounded == count.is_some(),
            match count {
                Some(n) => out@ + spec_replacen(x@.subrange(i as int, x@.len() as int), p@, rep@, left as nat) == spec_replacen(x@, p@, rep@, n as nat),
                None => out@ + spec_replace_all(x@.subrange(i as int, x@.len() as int), p@, rep@) == spec_replace_all(x@, p@, rep@),
            },
        decreases x.len() - i,
    {
        let ghost rest = x@.subrange(i as int, x@.len() as int);
        let ghost before = out@;
        proof {
            lemma_occurs_shift(x@, i as int, p@);
        }
        if bounded && left == 0 {
            proof {
                assert(before + rest =~= before + x@.subrange(i as int, x@.len() as int));
            }
            out.append(string_of(&x[i..x.len()]).as_str());
            proof {
                assert(out@ =~= before + rest);
                assert(spec_replacen(rest, p@, rep@, 0) == rest);
                assert(x@.subrange(x@.len() as int, x@.len() as int) =~= Seq::<char>::empty());
            }
            i = x.len();
        } else if p.len() > 0 && matches_at(&x, i, &p) {
            out.append(rep);
            proof {
                assert(rest.subrange(p@.len() as int, rest.len() as int) =~= x@.subrange(i + p@.len(), x@.len() as int));
                assert(out@ == before + rep@);
            }
            i = i + p.len();
            if bounded {
                left = left - 1;
            }
            proof {
                assert(before + (rep@ + spec_replacen(x@.subrange(i as int, x@.len() as int), p@, rep@, left as nat)) =~= out@ + spec_replacen(x@.subrange(i as int, x@.len() as int), p@, rep@, left as nat));
                assert(before + (rep@ + spec_replace_all(x@.subrange(i as int, x@.len() as int), p@, rep@)) =~= out@ + spec_replace_all(x@.subrange(i as int, x@.len() as int), p@, rep@));
            }
        } else {
            push_char(&mut out, x[i]);
            proof {
                assert(rest.drop_first() =~= x@.subrange(i + 1, x@.len() as int));
                assert(rest[0] == x@[i as int]);
                assert(before + (seq![x@[i as int]] + spec_replacen(x@.subrange(i + 1, x@.len() as int), p@, rep@, left as nat)) =~= out@ + spec_replacen(x@.subrange(i + 1, x@.len() as int), p@, rep@, left as nat));
                assert(before + (seq![x@[i as int]] + spec_replace_all(x@.subrange(i + 1, x@.len() as int), p@, rep@)) =~= out@ + spec_replace_all(x@.subrange(i + 1, x@.len() as int), p@, rep@));
            }
            i = i + 1;
        }
    }
    proof {
        let e = x@.subrange(x@.len() as int, x@.len() as int);
        assert(e =~= Seq::<char>::empty());
        assert(out@ + e =~= out@);
        assert(x@.subrange(0, x@.len() as int) =~= x@);
    }
    out
}


/// The character of a digit below sixteen, lower case.
pub open spec fn digit_char(d: int) -> char {
    if d < 10 {
        (('0' as int) + d) as char
    } else {
        (('a' as int) + d - 10) as char
    }
}

/// `n` written in base `b` without leading zeros.
pub open spec fn spec_radix(n: nat, b: nat) -> Seq<char>
    recommends
        2 <= b <= 16,
    decreases n,
{
    if b < 2 || n < b {
        seq![digit_char(n as int)]
    } else {
        proof {
            assert(n / b < n) by (nonlinear_arith)
                requires
                    b >= 2,
                    n >= b,
            ;
        }
        spec_radix(n / b, b).push(digit_char((n % b) as int))
    }
}

/// `n` in decimal.
pub open spec fn spec_decimal(n: nat) -> Seq<char> {
    spec_radix(n, 10)
}

/// `n` in lower-case hexadecimal.
pub open spec fn spec_hex(n: nat) -> Seq<char> {
    spec_radix(n, 16)
}

fn digit(d: u64) -> (c: char)
    requires
        d < 16,
    ensures
        c == digit_char(d as int),
{
    let c = if d == 0 { '0' } else if d == 1 { '1' } else if d == 2 { '2' } else if d == 3 { '3' }
        else if d == 4 { '4' } else if d == 5 { '5' } else if d == 6 { '6' } else if d == 7 { '7' }
        else if d == 8 { '8' } else if d == 9 { '9' } else if d == 10 { 'a' } else if d == 11 { 'b' }
        else if d == 12 { 'c' } else if d == 13 { 'd' } else if d == 14 { 'e' } else { 'f' };
    c
}

/// `n` written in base `b`.
pub fn radix_string(n: u64, b: u64) -> (r: String)
    requires
        2 <= b <= 16,
    ensures
        r@ == spec_radix(n as nat, b as nat),
    decreases n,
{
    if n < b {
        let mut s = String::new();
        push_char(&mut s, digit(n));
        proof {
            assert(s@ =~= seq![digit_char(n as int)]);
        }
        s
    } else {
        assert(n / b < n) by (nonlinear_arith)
            requires
                b >= 2,
                n >= b,
        ;
        let mut s = radix_string(n / b, b);
        push_char(&mut s, digit(n % b));
        s
    }
}

/// `n` in decimal (what `format!("{n}")` gives).
pub fn decimal(n: u64) -> (r: String)
    ensures
        r@ == spec_decimal(n as nat),
{
    radix_string(n, 10)
}

/// `n` in lower-case hexadecimal (what `format!("{n:x}")` gives).
pub fn hex(n: u64) -> (r: String)
    ensures
        r@ == spec_hex(n as nat),
{
    radix_string(n, 16)
}

/// `n` in decimal, padded with zeros to at least two digits (what
/// `format!("{n:02}")` gives).
pub open spec fn spec_two_digits(n: nat) -> Seq<char> {
    if n < 10 {
        seq!['0'] + spec_decimal(n)
    } else {
        spec_decimal(n)
    }
}

/// `n` in decimal, padded with zeros to at least two digits.
pub fn two_digits(n: u64) -> (r: String)
    ensures
        r@ == spec_two_digits(n as nat),
{
    let d = decimal(n);
    if n < 10 {
        let mut s = String::new();
        push_char(&mut s, '0');
        s.append(d.as_str());
        s
    } else {
        d
    }
}

/// The value of a run of decimal digits.
pub open spec fn digits_value(d: Seq<char>) -> int
    decreases d.len(),
{
    if d.len() == 0 {
        0
    } else {
        digits_value(d.drop_last()) * 10 + (d.last() as int - '0' as int)
    }
}

pub open spec fn all_ascii_digits(d: Seq<char>) -> bool {
    forall|k: int| 0 <= k < d.len() ==> '0' <= #[trigger] d[k] && d[k] <= '9'
}

/// What `s.parse::<usize>()` gives: an optional `+`, then at least one
/// ASCII digit, and a value that fits.
pub open spec fn spec_parse_usize(s: Seq<char>) -> Option<usize> {
    let d = if s.len() > 0 && s[0] == '+' {
        s.drop_first()
    } else {
        s
    };
    if d.len() > 0 && all_ascii_digits(d) && digits_value(d) <= usize::MAX {
        Some(digits_value(d) as usize)
    } else {
        None
    }
}

proof fn lemma_digits_value_nonneg(d: Seq<char>)
    requires
        all_ascii_digits(d),
    ensures
        digits_value(d) >= 0,
    decreases d.len(),
{
    if d.len() > 0 {
        lemma_digits_value_nonneg(d.drop_last());
    }
}

proof fn lemma_digits_value_grows(d: Seq<char>, k: int)
    requires
        all_ascii_digits(d),
        0 <= k <= d.len(),
    ensures
        digits_value(d.subrange(0, k)) <= digits_value(d),
    decreases d.len() - k,
{
    if k < d.len() {
        lemma_digits_value_grows(d, k + 1);
        let a = d.subrange(0, k + 1);
        assert(a.drop_last() =~= d.subrange(0, k));
        lemma_digits_value_nonneg(d.subrange(0, k));
    } else {
        assert(d.subrange(0, k) =~= d);
    }
}

/// `s` read as a decimal number, as `str::parse::<usize>` reads it.
pub fn parse_usize(s: &str) -> (r: Option<usize>)
    ensures
        r == spec_parse_usize(s@),
{
    let x = chars_of(s);
    let start: usize = if x.len() > 0 && x[0] == '+' {
        1
    } else {
        0
    };
    let ghost d = if x@.len() > 0 && x@[0] == '+' {
        x@.drop_first()
    } else {
        x@
    };
    assert(d =~= x@.subrange(start as int, x@.len() as int));
    if start >= x.len() {
        return None;
    }
    let mut value: usize = 0;
    let mut i: usize = start;
    while i < x.len()
        invariant
            start <= i <= x.len(),
            x@ == s@,
            d == x@.subrange(start as int, x@.len() as int),
            d == (if s@.len() > 0 && s@[0] == '+' {
                s@.drop_first()
            } else {
                s@
            }),
            all_ascii_digits(d.subrange(0, i - start)),
            value as int == digits_value(d.subrange(0, i - start)),
        decreases x.len() - i,
    {
        let c = x[i];
        if c < '0' || c > '9' {
            proof {
                assert(d[i - start] == c);
                assert(!all_ascii_digits(d));
                assert(spec_parse_usize(s@) is None);
            }
            return None;
        }
        let dv = (c as u32 - '0' as u32) as usize;
        if value > (usize::MAX - dv) / 10 {
            proof {
                let a = d.subrange(0, i + 1 - start);
                assert(a.drop_last() =~= d.subrange(0, i - start));
                assert(all_ascii_digits(a));
                assert(digits_value(a) > usize::MAX) by (nonlinear_arith)
                    requires
                        digits_value(a) == value * 10 + dv,
                        value > (usize::MAX - dv) / 10,
                        0 <= dv <= 9,
                ;
                if all_ascii_digits(d) {
                    lemma_digits_value_grows(d, i + 1 - start);
                    assert(digits_value(d) > usize::MAX);
                }
                assert(spec_parse_usize(s@) is None);
            }
            return None;
        }
        proof {
            let a = d.subrange(0, i + 1 - start);
            assert(a.drop_last() =~= d.subrange(0, i - start));
            assert(value * 10 + dv <= usize::MAX) by (nonlinear_arith)
                requires
                    value <= (usize::MAX - dv) / 10,
                    0 <= dv <= 9,
            ;
        }
        value = value * 10 + dv;
        i = i + 1;
    }
    proof {
        assert(d.subrange(0, i - start) =~= d);
    }
    Some(value)
}

/// Unicode lower-case mapping of `s`, as `str::to_lowercase` computes it.
pub uninterp spec fn lowercase(s: Seq<char>) -> Seq<char>;

/// `str::to_lowercase`. The contract claims only that the result is the
/// named value for `s`: the Unicode case tables are left to std.
#[verifier::external_body]
pub(crate) fn to_lowercase(s: &str) -> (r: String)
    ensures
        r@ == lowercase(s@),
{
    s.to_lowercase()
}

} // verus!

verus! {

/// What `str::to_uppercase` gives for `s` (the Unicode case tables).
pub uninterp spec fn uppercase(s: Seq<char>) -> Seq<char>;

/// `str::to_uppercase`. The contract claims only that the result is the
/// named value for `s`: the Unicode case tables are left to std.
#[verifier::external_body]
pub(crate) fn to_uppercase(s: &str) -> (r: String)
    ensures
        r@ == uppercase(s@),
{
    s.to_uppercase()
}

} // verus!
