//! Verified text helpers: characters of a string, pattern replacement,
//! suffix tests and decimal formatting.

use vstd::prelude::*;

verus! {

broadcast use vstd::string::group_string_axioms;

/// `s` with every occurrence of `pat` replaced by `rep`, scanning from the
/// left and never letting two replaced occurrences overlap. The empty pattern
/// occurs before every character and at the end, so `rep` is put there.
pub open spec fn replaced(s: Seq<char>, pat: Seq<char>, rep: Seq<char>) -> Seq<char>
    decreases s.len(),
{
    if pat.len() == 0 {
        if s.len() == 0 {
            rep
        } else {
            rep + seq![s[0]] + replaced(s.skip(1), pat, rep)
        }
    } else if s.len() < pat.len() {
        s
    } else if s.take(pat.len() as int) == pat {
        rep + replaced(s.skip(pat.len() as int), pat, rep)
    } else {
        seq![s[0]] + replaced(s.skip(1), pat, rep)
    }
}

/// Whether `s` ends with `suffix`.
pub open spec fn has_suffix(s: Seq<char>, suffix: Seq<char>) -> bool {
    suffix.len() <= s.len() && s.skip(s.len() - suffix.len()) == suffix
}

/// The decimal digit character for `d` (which lies in `0..10`).
pub open spec fn digit_char(d: nat) -> char {
    ('0' as nat + d) as char
}

/// The decimal notation of `n`, without leading zeros.
pub open spec fn decimal(n: nat) -> Seq<char>
    decreases n,
{
    if n < 10 {
        seq![digit_char(n)]
    } else {
        decimal(n / 10) + seq![digit_char(n % 10)]
    }
}

/// The decimal notation of `n`, with a leading `-` when `n` is negative.
pub open spec fn signed_decimal(n: int) -> Seq<char> {
    if n < 0 {
        seq!['-'] + decimal((-n) as nat)
    } else {
        decimal(n as nat)
    }
}

/// Replacing a single character by a single character rewrites each
/// occurrence of it in place and leaves every other character alone.
pub proof fn lemma_replaced_char(s: Seq<char>, a: char, b: char)
    ensures
        replaced(s, seq![a], seq![b]) == s.map_values(|c: char| if c == a { b } else { c }),
    decreases s.len(),
{
    let f = |c: char| if c == a { b } else { c };
    if s.len() > 0 {
        lemma_replaced_char(s.skip(1), a, b);
        assert(s.take(1) =~= seq![s[0]]);
        assert(s.map_values(f) =~= seq![f(s[0])] + s.skip(1).map_values(f));
        if s[0] == a {
            assert(s.take(1) == seq![a]);
        } else {
            assert(s.take(1)[0] != seq![a][0]);
        }
    } else {
        assert(s.map_values(f) =~= s);
    }
}

/// The number written by a sequence of decimal digits.
pub open spec fn digits_value(s: Seq<char>) -> int
    decreases s.len(),
{
    if s.len() == 0 {
        0
    } else {
        10 * digits_value(s.drop_last()) + (s.last() as int - '0' as int)
    }
}

/// `s` ends with `t` exactly when `s` is some text followed by `t`, whatever
/// that text holds.
pub proof fn law_suffix_is_a_tail(s: Seq<char>, t: Seq<char>, a: Seq<char>)
    ensures
        has_suffix(a + t, t),
        has_suffix(s, t) ==> s == s.take(s.len() - t.len()) + t,
        !has_suffix(s, t) ==> forall|b: Seq<char>| s != b + t,
{
    assert((a + t).skip((a + t).len() - t.len()) =~= t);
    if has_suffix(s, t) {
        assert(s =~= s.take(s.len() - t.len()) + t);
    } else {
        assert forall|b: Seq<char>| s != b + t by {
            if s == b + t {
                assert(s.skip(s.len() - t.len()) =~= t);
            }
        }
    }
}

/// Whether `pat` occurs in `s` starting at position `i`.
pub open spec fn occurs_at_position(s: Seq<char>, pat: Seq<char>, i: int) -> bool {
    0 <= i && i + pat.len() <= s.len() && s.subrange(i, i + pat.len()) == pat
}

/// Signed decimal notation is the decimal notation of the magnitude, after a
/// `-` for negative numbers only.
pub proof fn law_signed_decimal(n: int)
    ensures
        n >= 0 ==> signed_decimal(n) == decimal(n as nat),
        n < 0 ==> signed_decimal(n)[0] == '-' && signed_decimal(n).skip(1) == decimal((-n) as nat),
{
    if n < 0 {
        assert(signed_decimal(n).skip(1) =~= decimal((-n) as nat));
    }
}

/// A text in which the pattern does not occur is left as it is.
pub proof fn law_replace_without_occurrence(s: Seq<char>, pat: Seq<char>, rep: Seq<char>)
    requires
        pat.len() > 0,
        forall|i: int| !#[trigger] occurs_at_position(s, pat, i),
    ensures
        replaced(s, pat, rep) == s,
    decreases s.len(),
{
    if s.len() >= pat.len() {
        assert(s.take(pat.len() as int) =~= s.subrange(0, pat.len() as int));
        let t = s.skip(1);
        assert(!occurs_at_position(s, pat, 0));
        assert forall|i: int| !#[trigger] occurs_at_position(t, pat, i) by {
            if 0 <= i && i + pat.len() <= t.len() {
                assert(t.subrange(i, i + pat.len()) =~= s.subrange(i + 1, i + 1 + pat.len()));
                assert(!occurs_at_position(s, pat, i + 1));
            }
        }
        law_replace_without_occurrence(t, pat, rep);
        assert(s =~= seq![s[0]] + t);
    }
}

/// An occurrence of the pattern at the start is replaced, and the scan goes
/// on after it.
pub proof fn law_replace_leading_occurrence(s: Seq<char>, pat: Seq<char>, rep: Seq<char>)
    requires
        pat.len() > 0,
    ensures
        replaced(pat + s, pat, rep) == rep + replaced(s, pat, rep),
{
    assert((pat + s).take(pat.len() as int) =~= pat);
    assert((pat + s).skip(pat.len() as int) =~= s);
}

/// Decimal notation uses only the digits `0` to `9`, has no leading zero,
/// and reads back as the number it writes.
pub proof fn law_decimal_reads_back(n: nat)
    ensures
        digits_value(decimal(n)) == n,
        decimal(n).len() >= 1,
        forall|i: int| 0 <= i < decimal(n).len() ==> '0' <= #[trigger] decimal(n)[i] <= '9',
        n > 0 ==> decimal(n)[0] != '0',
    decreases n,
{
    assert(digit_char(n % 10) as int == '0' as int + n % 10);
    if n >= 10 {
        law_decimal_reads_back(n / 10);
        let d = decimal(n);
        assert(d.drop_last() =~= decimal(n / 10));
        assert(d.last() == digit_char(n % 10));
        assert forall|i: int| 0 <= i < d.len() implies '0' <= #[trigger] d[i] <= '9' by {
            if i < d.len() - 1 {
                assert(d[i] == decimal(n / 10)[i]);
            }
        }
        assert(d[0] == decimal(n / 10)[0]);
        assert(digits_value(d) == 10 * digits_value(d.drop_last()) + (d.last() as int - '0' as int));
        assert(10 * (n / 10) + n % 10 == n);
    } else {
        let d = decimal(n);
        assert(d.drop_last() =~= Seq::<char>::empty());
        assert(digits_value(d.drop_last()) == 0);
        assert(d.last() == digit_char(n));
    }
}

/// Appends the character `c` to `s` (`String::push`).
#[verifier::external_body]
fn push_char(s: &mut String, c: char)
    ensures
        final(s)@ == old(s)@.push(c),
{
    s.push(c);
}

/// The characters of `s`, in order.
pub fn chars_of(s: &str) -> (r: Vec<char>)
    ensures
        r@ == s@,
{
    let mut out: Vec<char> = Vec::new();
    for c in it: s.chars()
        invariant
            out@ == it.seq().take(it.index() as int),
    {
        out.push(c);
    }
    out
}

/// Whether `pat` occurs in `v` at position `i`.
fn occurs_at(v: &Vec<char>, i: usize, pat: &Vec<char>) -> (r: bool)
    requires
        i + pat@.len() <= v@.len(),
    ensures
        r == (v@.subrange(i as int, i + pat@.len()) == pat@),
{
    let m = pat.len();
    let n = v.len();
    let mut k: usize = 0;
    while k < m
        invariant
            k <= m,
            m == pat@.len(),
            n == v@.len(),
            i + m <= n,
            forall|j: int| 0 <= j < k ==> v@[i + j] == pat@[j],
        decreases m - k,
    {
        if v[i + k] != pat[k] {
            assert(v@.subrange(i as int, i + m)[k as int] != pat@[k as int]);
            return false;
        }
        k += 1;
    }
    assert(v@.subrange(i as int, i + m) =~= pat@);
    true
}

/// One step of the left-to-right scan behind `replaced`.
proof fn lemma_replaced_step(s: Seq<char>, pat: Seq<char>, rep: Seq<char>, i: int)
    requires
        pat.len() > 0,
        0 <= i < s.len(),
    ensures
        i + pat.len() <= s.len() && s.subrange(i, i + pat.len()) == pat ==>
            replaced(s.skip(i), pat, rep) == rep + replaced(s.skip(i + pat.len()), pat, rep),
        !(i + pat.len() <= s.len() && s.subrange(i, i + pat.len()) == pat) ==>
            replaced(s.skip(i), pat, rep) == seq![s[i]] + replaced(s.skip(i + 1), pat, rep),
{
    let t = s.skip(i);
    assert(t.skip(1) =~= s.skip(i + 1));
    if i + pat.len() <= s.len() {
        assert(t.take(pat.len() as int) =~= s.subrange(i, i + pat.len()));
        assert(t.skip(pat.len() as int) =~= s.skip(i + pat.len()));
    } else {
        let u = t.skip(1);
        assert(u.len() < pat.len());
        assert(replaced(u, pat, rep) == u);
        assert(t =~= seq![s[i]] + u);
    }
}

/// `s` with `to` put before every character of `s` and at its end: what
/// replacing the empty pattern does.
fn replace_empty(s: &str, to: &str) -> (r: String)
    ensures
        r@ == replaced(s@, Seq::<char>::empty(), to@),
{
    let sv = chars_of(s);
    let n = sv.len();
    let mut out = String::new();
    let ghost e = Seq::<char>::empty();
    assert(s@.skip(0) =~= s@);
    for i in 0..n
        invariant
            n == s@.len(),
            sv@ == s@,
            e.len() == 0,
            replaced(s@, e, to@) == out@ + replaced(s@.skip(i as int), e, to@),
    {
        let ghost before = out@;
        assert(s@.skip(i as int).skip(1) =~= s@.skip(i + 1));
        assert(s@.skip(i as int)[0] == s@[i as int]);
        assert(replaced(s@.skip(i as int), e, to@) == to@ + seq![s@[i as int]] + replaced(
            s@.skip(i + 1),
            e,
            to@,
        ));
        out.append(to);
        push_char(&mut out, sv[i]);
        assert(before + replaced(s@.skip(i as int), e, to@) =~= out@ + replaced(
            s@.skip(i + 1),
            e,
            to@,
        ));
    }
    assert(s@.skip(n as int) =~= Seq::<char>::empty());
    out.append(to);
    out
}

/// `s` with every occurrence of `from` replaced by `to`, as `str::replace`
/// does it.
pub fn replace(s: &str, from: &str, to: &str) -> (r: String)
    ensures
        r@ == replaced(s@, from@, to@),
{
    if from.is_empty() {
        assert(from@ =~= Seq::<char>::empty());
        return replace_empty(s, to);
    }
    let sv = chars_of(s);
    let pv = chars_of(from);
    let n = sv.len();
    let m = pv.len();
    let mut out = String::new();
    let mut i: usize = 0;
    assert(s@.skip(0) =~= s@);
    while i < n
        invariant
            i <= n,
            n == s@.len(),
            m == from@.len(),
            m > 0,
            sv@ == s@,
            pv@ == from@,
            replaced(s@, from@, to@) == out@ + replaced(s@.skip(i as int), from@, to@),
        decreases n - i,
    {
        proof {
            lemma_replaced_step(s@, from@, to@, i as int);
        }
        if m <= n - i && occurs_at(&sv, i, &pv) {
            let ghost before = out@;
            out.append(to);
            assert(before + replaced(s@.skip(i as int), from@, to@) =~= out@ + replaced(
                s@.skip(i + m),
                from@,
                to@,
            ));
            i = i + m;
        } else {
            let ghost before = out@;
            push_char(&mut out, sv[i]);
            assert(before + replaced(s@.skip(i as int), from@, to@) =~= out@ + replaced(
                s@.skip(i + 1),
                from@,
                to@,
            ));
            i = i + 1;
        }
    }
    assert(s@.skip(n as int) =~= Seq::<char>::empty());
    assert(out@ + Seq::<char>::empty() =~= out@);
    out
}

/// Whether `s` ends with `suffix`, as `str::ends_with` decides it.
pub fn ends_with(s: &str, suffix: &str) -> (r: bool)
    ensures
        r == has_suffix(s@, suffix@),
{
    let sv = chars_of(s);
    let pv = chars_of(suffix);
    if pv.len() > sv.len() {
        return false;
    }
    let start = sv.len() - pv.len();
    let r = occurs_at(&sv, start, &pv);
    assert(s@.subrange(start as int, start + suffix@.len()) =~= s@.skip(s@.len() - suffix@.len()));
    r
}

/// Appends the decimal notation of `n` to `out`.
pub fn push_decimal(out: &mut String, n: u64)
    ensures
        final(out)@ == old(out)@ + decimal(n as nat),
    decreases n,
{
    if n >= 10 {
        push_decimal(out, n / 10);
    }
    let d = (n % 10) as u8;
    let c = (48u8 + d) as char;
    push_char(out, c);
    assert(out@ =~= old(out)@ + decimal(n as nat));
}

/// The decimal notation of `n`, as `format!("{}", n)` writes it.
pub fn format_i64(n: i64) -> (r: String)
    ensures
        r@ == signed_decimal(n as int),
{
    let mut out = String::new();
    if n < 0 {
        push_char(&mut out, '-');
        let magnitude: u64 = if n == i64::MIN {
            9223372036854775808u64
        } else {
            (-n) as u64
        };
        push_decimal(&mut out, magnitude);
    } else {
        push_decimal(&mut out, n as u64);
    }
    assert(out@ =~= signed_decimal(n as int));
    out
}

} // verus!
