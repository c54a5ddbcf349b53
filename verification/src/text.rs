//! Character-sequence utilities the parsers are specified and proved
//! against: whitespace tokenization, separator splitting, first-occurrence
//! search, and decimal digit runs.

use vstd::prelude::*;

verus! {

/// ASCII whitespace as it separates the tokens of an HTTP request line.
pub open spec fn is_ws(c: char) -> bool {
    c == ' ' || c == '\t' || c == '\r' || c == '\n'
}

/// The whitespace-separated tokens of `s`, in order, with no empty tokens.
pub open spec fn split_ws(s: Seq<char>) -> Seq<Seq<char>>
    decreases s.len(),
{
    if s.len() == 0 {
        Seq::empty()
    } else if is_ws(s[0]) {
        split_ws(s.drop_first())
    } else if s.len() == 1 || is_ws(s[1]) {
        seq![seq![s[0]]] + split_ws(s.drop_first())
    } else {
        let r = split_ws(s.drop_first());
        seq![seq![s[0]] + r[0]] + r.drop_first()
    }
}

/// The `sep`-separated parts of `s`, in order, empty parts kept; the empty
/// sequence has exactly one empty part.
pub open spec fn split_on(s: Seq<char>, sep: char) -> Seq<Seq<char>>
    decreases s.len(),
{
    if s.len() == 0 {
        seq![Seq::<char>::empty()]
    } else if s[0] == sep {
        seq![Seq::<char>::empty()] + split_on(s.drop_first(), sep)
    } else {
        let r = split_on(s.drop_first(), sep);
        seq![seq![s[0]] + r[0]] + r.drop_first()
    }
}

/// Index of the first occurrence of `c` in `s`, or -1 if there is none.
pub open spec fn find_char(s: Seq<char>, c: char) -> int
    decreases s.len(),
{
    if s.len() == 0 {
        -1
    } else if s[0] == c {
        0
    } else if find_char(s.drop_first(), c) == -1 {
        -1
    } else {
        1 + find_char(s.drop_first(), c)
    }
}

/// The views of a sequence of strings.
pub open spec fn views(v: Seq<String>) -> Seq<Seq<char>> {
    v.map_values(|s: String| s@)
}

pub proof fn lemma_find_char_at(s: Seq<char>, c: char, i: int)
    requires
        0 <= i < s.len(),
        s[i] == c,
        forall|k: int| 0 <= k < i ==> s[k] != c,
    ensures
        find_char(s, c) == i,
    decreases i,
{
    if i > 0 {
        lemma_find_char_at(s.drop_first(), c, i - 1);
    }
}

pub proof fn lemma_find_char_none(s: Seq<char>, c: char)
    requires
        forall|k: int| 0 <= k < s.len() ==> s[k] != c,
    ensures
        find_char(s, c) == -1,
    decreases s.len(),
{
    if s.len() > 0 {
        lemma_find_char_none(s.drop_first(), c);
    }
}

/// A maximal non-empty run of non-whitespace at the front of `s` is the
/// first token `split_ws` yields.
pub proof fn lemma_split_ws_token(s: Seq<char>, j: int)
    requires
        0 < j <= s.len(),
        forall|k: int| 0 <= k < j ==> !is_ws(s[k]),
        j == s.len() || is_ws(s[j]),
    ensures
        split_ws(s) == seq![s.subrange(0, j)] + split_ws(s.subrange(j, s.len() as int)),
    decreases j,
{
    if j == 1 {
        if s.len() == 1 {
            assert(s.subrange(1, 1) =~= Seq::<char>::empty());
            assert(split_ws(s) =~~= seq![s.subrange(0, 1)] + split_ws(s.subrange(1, 1)));
        } else {
            assert(s.drop_first() =~= s.subrange(1, s.len() as int));
            assert(seq![s[0]] =~= s.subrange(0, 1));
            assert(split_ws(s) =~~= seq![s.subrange(0, 1)] + split_ws(s.subrange(1, s.len() as int)));
        }
    } else {
        let s1 = s.drop_first();
        lemma_split_ws_token(s1, j - 1);
        let r = split_ws(s1);
        assert(r == seq![s1.subrange(0, j - 1)] + split_ws(s1.subrange(j - 1, s1.len() as int)));
        assert(r[0] == s1.subrange(0, j - 1));
        assert(r.drop_first() =~~= split_ws(s1.subrange(j - 1, s1.len() as int)));
        assert(seq![s[0]] + s1.subrange(0, j - 1) =~= s.subrange(0, j));
        assert(s1.subrange(j - 1, s1.len() as int) =~= s.subrange(j, s.len() as int));
        assert(split_ws(s) =~~= seq![s.subrange(0, j)] + split_ws(s.subrange(j, s.len() as int)));
    }
}

/// A maximal (possibly empty) separator-free run at the front of `s` is the
/// first part `split_on` yields.
pub proof fn lemma_split_on_token(s: Seq<char>, sep: char, j: int)
    requires
        0 <= j <= s.len(),
        forall|k: int| 0 <= k < j ==> s[k] != sep,
        j == s.len() || s[j] == sep,
    ensures
        j == s.len() ==> split_on(s, sep) == seq![s],
        j < s.len() ==> split_on(s, sep) == seq![s.subrange(0, j)] + split_on(
            s.subrange(j + 1, s.len() as int),
            sep,
        ),
    decreases j,
{
    if j == 0 {
        if s.len() == 0 {
            assert(split_on(s, sep) =~~= seq![s]);
        } else {
            assert(s.drop_first() =~= s.subrange(1, s.len() as int));
            assert(s.subrange(0, 0) =~= Seq::<char>::empty());
            assert(split_on(s, sep) =~~= seq![s.subrange(0, 0)] + split_on(
                s.subrange(1, s.len() as int),
                sep,
            ));
        }
    } else {
        let s1 = s.drop_first();
        lemma_split_on_token(s1, sep, j - 1);
        let r = split_on(s1, sep);
        if j == s.len() {
            assert(r == seq![s1]);
            assert(seq![s[0]] + s1 =~= s);
            assert(split_on(s, sep) =~~= seq![s]);
        } else {
            assert(r == seq![s1.subrange(0, j - 1)] + split_on(
                s1.subrange(j, s1.len() as int),
                sep,
            ));
            assert(r[0] == s1.subrange(0, j - 1));
            assert(r.drop_first() =~~= split_on(s1.subrange(j, s1.len() as int), sep));
            assert(seq![s[0]] + s1.subrange(0, j - 1) =~= s.subrange(0, j));
            assert(s1.subrange(j, s1.len() as int) =~= s.subrange(j + 1, s.len() as int));
            assert(split_on(s, sep) =~~= seq![s.subrange(0, j)] + split_on(
                s.subrange(j + 1, s.len() as int),
                sep,
            ));
        }
    }
}

fn is_ws_char(c: char) -> (b: bool)
    ensures
        b == is_ws(c),
{
    c == ' ' || c == '\t' || c == '\r' || c == '\n'
}

/// The whitespace-separated tokens of `s`, as `split_ws` lists them.
pub fn split_whitespace(s: &str) -> (r: Vec<String>)
    ensures
        views(r@) == split_ws(s@),
{
    let n = s.unicode_len();
    let mut out: Vec<String> = Vec::new();
    let mut i: usize = 0;
    proof {
        assert(s@.subrange(0, n as int) =~= s@);
    }
    while i < n
        invariant
            i <= n,
            n == s@.len(),
            views(out@) + split_ws(s@.subrange(i as int, n as int)) == split_ws(s@),
        decreases n - i,
    {
        if is_ws_char(s.get_char(i)) {
            proof {
                assert(s@.subrange(i as int, n as int).drop_first() =~= s@.subrange(
                    i + 1,
                    n as int,
                ));
            }
            i = i + 1;
        } else {
            let ghost prev = out@;
            let start = i;
            i = i + 1;
            while i < n && !is_ws_char(s.get_char(i))
                invariant
                    start < i <= n,
                    n == s@.len(),
                    forall|k: int| start <= k < i ==> !is_ws(s@[k]),
                decreases n - i,
            {
                i = i + 1;
            }
            let tok = String::from_str(s.substring_char(start, i));
            proof {
                let sub = s@.subrange(start as int, n as int);
                lemma_split_ws_token(sub, i - start);
                assert(sub.subrange(0, i - start) =~= s@.subrange(start as int, i as int));
                assert(sub.subrange(i - start, sub.len() as int) =~= s@.subrange(
                    i as int,
                    n as int,
                ));
                assert(views(prev.push(tok)) =~~= views(prev).push(tok@));
                assert(views(prev.push(tok)) + split_ws(s@.subrange(i as int, n as int)) =~~= views(
                    prev,
                ) + split_ws(sub));
            }
            out.push(tok);
        }
    }
    proof {
        assert(s@.subrange(n as int, n as int) =~= Seq::<char>::empty());
        assert(views(out@) + split_ws(s@.subrange(n as int, n as int)) =~~= views(out@));
    }
    out
}

/// The `sep`-separated parts of `s`, as `split_on` lists them.
pub fn split_parts(s: &str, sep: char) -> (r: Vec<String>)
    ensures
        views(r@) == split_on(s@, sep),
{
    let n = s.unicode_len();
    let mut out: Vec<String> = Vec::new();
    let mut start: usize = 0;
    let mut i: usize = 0;
    proof {
        assert(s@.subrange(0, n as int) =~= s@);
    }
    while i < n
        invariant
            start <= i <= n,
            n == s@.len(),
            forall|k: int| start <= k < i ==> s@[k] != sep,
            views(out@) + split_on(s@.subrange(start as int, n as int), sep) == split_on(s@, sep),
        decreases n - i,
    {
        if s.get_char(i) == sep {
            let ghost prev = out@;
            let part = String::from_str(s.substring_char(start, i));
            proof {
                let sub = s@.subrange(start as int, n as int);
                lemma_split_on_token(sub, sep, i - start);
                assert(sub.subrange(0, i - start) =~= s@.subrange(start as int, i as int));
                assert(sub.subrange(i - start + 1, sub.len() as int) =~= s@.subrange(
                    i + 1,
                    n as int,
                ));
                assert(views(prev.push(part)) =~~= views(prev).push(part@));
                assert(views(prev.push(part)) + split_on(s@.subrange(i + 1, n as int), sep)
                    =~~= views(prev) + split_on(sub, sep));
            }
            out.push(part);
            i = i + 1;
            start = i;
        } else {
            i = i + 1;
        }
    }
    let ghost prev = out@;
    let last = String::from_str(s.substring_char(start, n));
    proof {
        let sub = s@.subrange(start as int, n as int);
        lemma_split_on_token(sub, sep, n - start);
        assert(sub.subrange(0, n - start) =~= sub);
        assert(views(prev.push(last)) =~~= views(prev).push(last@));
        assert(views(prev.push(last)) =~~= views(prev) + split_on(sub, sep));
    }
    out.push(last);
    out
}

/// Index of the first occurrence of `c` in `s`, if any.
pub fn find_char_in(s: &str, c: char) -> (r: Option<usize>)
    ensures
        r matches Some(i) ==> i as int == find_char(s@, c) && i < s@.len(),
        r is None ==> find_char(s@, c) == -1,
{
    let n = s.unicode_len();
    let mut i: usize = 0;
    while i < n
        invariant
            i <= n,
            n == s@.len(),
            forall|k: int| 0 <= k < i ==> s@[k] != c,
        decreases n - i,
    {
        if s.get_char(i) == c {
            proof {
                lemma_find_char_at(s@, c, i as int);
            }
            return Some(i);
        }
        i = i + 1;
    }
    proof {
        lemma_find_char_none(s@, c);
    }
    None
}

/// Value of a decimal digit character; 10 marks every non-digit.
pub open spec fn digit_val(c: char) -> nat {
    match c {
        '0' => 0,
        '1' => 1,
        '2' => 2,
        '3' => 3,
        '4' => 4,
        '5' => 5,
        '6' => 6,
        '7' => 7,
        '8' => 8,
        '9' => 9,
        _ => 10,
    }
}

pub open spec fn is_digit(c: char) -> bool {
    digit_val(c) < 10
}

/// The decimal digit character for a value below ten.
pub open spec fn digit_char(d: nat) -> char {
    if d == 0 {
        '0'
    } else if d == 1 {
        '1'
    } else if d == 2 {
        '2'
    } else if d == 3 {
        '3'
    } else if d == 4 {
        '4'
    } else if d == 5 {
        '5'
    } else if d == 6 {
        '6'
    } else if d == 7 {
        '7'
    } else if d == 8 {
        '8'
    } else {
        '9'
    }
}

/// The number a digit sequence denotes in base ten.
pub open spec fn dec_val(ds: Seq<char>) -> nat
    decreases ds.len(),
{
    if ds.len() == 0 {
        0
    } else {
        dec_val(ds.drop_last()) * 10 + digit_val(ds.last())
    }
}

/// Canonical decimal rendering of `n`: non-empty, no leading zeros.
pub open spec fn dec_of(n: nat) -> Seq<char>
    decreases n,
{
    if n < 10 {
        seq![digit_char(n)]
    } else {
        dec_of(n / 10).push(digit_char(n % 10))
    }
}

pub open spec fn pow10(k: nat) -> nat
    decreases k,
{
    if k == 0 {
        1
    } else {
        10 * pow10((k - 1) as nat)
    }
}

/// Number of digit characters at the front of `s`.
pub open spec fn digit_run_len(s: Seq<char>) -> int
    decreases s.len(),
{
    if s.len() == 0 || !is_digit(s[0]) {
        0
    } else {
        1 + digit_run_len(s.drop_first())
    }
}

/// Read a leading run of one to twelve decimal digits as a number, leaving
/// the rest; no digits, or a longer run, reads as nothing.
pub open spec fn take_digits(s: Seq<char>) -> Option<(nat, Seq<char>)> {
    let j = digit_run_len(s);
    if 1 <= j <= 12 {
        Some((dec_val(s.subrange(0, j)), s.subrange(j, s.len() as int)))
    } else {
        None
    }
}

pub proof fn lemma_pow10_mono(a: nat, b: nat)
    requires
        a <= b,
    ensures
        pow10(a) <= pow10(b),
    decreases b,
{
    if a < b {
        lemma_pow10_mono(a, (b - 1) as nat);
    }
}

pub proof fn lemma_dec_of_digits(n: nat)
    ensures
        dec_of(n).len() >= 1,
        forall|i: int| 0 <= i < dec_of(n).len() ==> is_digit(dec_of(n)[i]),
    decreases n,
{
    if n >= 10 {
        lemma_dec_of_digits(n / 10);
    }
}

/// Rendering a number and reading the digits back gives the number.
pub proof fn lemma_dec_val_of(n: nat)
    ensures
        dec_val(dec_of(n)) == n,
    decreases n,
{
    if n >= 10 {
        lemma_dec_val_of(n / 10);
        let prefix = dec_of(n / 10);
        let whole = prefix.push(digit_char(n % 10));
        assert(whole.drop_last() =~= prefix);
        assert(whole.last() == digit_char(n % 10));
        assert(dec_of(n) == whole);
        assert(digit_val(digit_char(n % 10)) == n % 10);
        assert(dec_val(whole) == dec_val(prefix) * 10 + (n % 10));
        assert(n == (n / 10) * 10 + (n % 10)) by {
            vstd::arithmetic::div_mod::lemma_fundamental_div_mod(n as int, 10);
        }
    } else {
        let whole = seq![digit_char(n)];
        assert(dec_of(n) == whole);
        assert(whole.drop_last() =~= Seq::<char>::empty());
        assert(whole.last() == digit_char(n));
        assert(digit_val(digit_char(n)) == n);
        assert(dec_val(Seq::<char>::empty()) == 0);
        assert(dec_val(whole) == dec_val(whole.drop_last()) * 10 + digit_val(whole.last()));
        assert(dec_val(dec_of(n)) == n);
    }
}

/// A digit sequence of length `k` denotes a number below ten to the `k`.
pub proof fn lemma_dec_val_bound(ds: Seq<char>)
    requires
        forall|i: int| 0 <= i < ds.len() ==> is_digit(ds[i]),
    ensures
        dec_val(ds) < pow10(ds.len() as nat),
    decreases ds.len(),
{
    if ds.len() > 0 {
        lemma_dec_val_bound(ds.drop_last());
    }
}

/// A number below ten to the `k` renders in at most `k` digits.
pub proof fn lemma_dec_of_len(n: nat, k: nat)
    requires
        1 <= k,
        n < pow10(k),
    ensures
        dec_of(n).len() <= k,
    decreases k,
{
    if n >= 10 {
        if k == 1 {
            assert(pow10(1) == 10) by {
                reveal_with_fuel(pow10, 3);
            }
        } else {
            lemma_dec_of_len(n / 10, (k - 1) as nat);
        }
    }
}

pub proof fn lemma_digit_run_at(s: Seq<char>, j: int)
    requires
        0 <= j <= s.len(),
        forall|k: int| 0 <= k < j ==> is_digit(s[k]),
        j == s.len() || !is_digit(s[j]),
    ensures
        digit_run_len(s) == j,
    decreases j,
{
    if j > 0 {
        lemma_digit_run_at(s.drop_first(), j - 1);
    }
}

/// Reading digits off a rendered number followed by a non-digit yields the
/// number and the rest.
pub proof fn lemma_take_digits_of(n: nat, rest: Seq<char>)
    requires
        n < pow10(12),
        rest.len() == 0 || !is_digit(rest[0]),
    ensures
        take_digits(dec_of(n) + rest) == Some((n, rest)),
{
    lemma_dec_of_digits(n);
    lemma_dec_of_len(n, 12);
    lemma_dec_val_of(n);
    let s = dec_of(n) + rest;
    let j = dec_of(n).len() as int;
    lemma_digit_run_at(s, j);
    assert(s.subrange(0, j) =~= dec_of(n));
    assert(s.subrange(j, s.len() as int) =~= rest);
}

fn is_digit_char(c: char) -> (b: bool)
    ensures
        b == is_digit(c),
{
    c == '0' || c == '1' || c == '2' || c == '3' || c == '4' || c == '5' || c == '6' || c == '7'
        || c == '8' || c == '9'
}

fn digit_of_char(c: char) -> (d: u64)
    requires
        is_digit(c),
    ensures
        d as nat == digit_val(c),
{
    if c == '0' {
        0
    } else if c == '1' {
        1
    } else if c == '2' {
        2
    } else if c == '3' {
        3
    } else if c == '4' {
        4
    } else if c == '5' {
        5
    } else if c == '6' {
        6
    } else if c == '7' {
        7
    } else if c == '8' {
        8
    } else {
        9
    }
}

fn digit_str(d: u64) -> (r: &'static str)
    requires
        d < 10,
    ensures
        r@ == seq![digit_char(d as nat)],
{
    proof {
        reveal_strlit("0");
        reveal_strlit("1");
        reveal_strlit("2");
        reveal_strlit("3");
        reveal_strlit("4");
        reveal_strlit("5");
        reveal_strlit("6");
        reveal_strlit("7");
        reveal_strlit("8");
        reveal_strlit("9");
    }
    let r: &'static str = if d == 0 {
        "0"
    } else if d == 1 {
        "1"
    } else if d == 2 {
        "2"
    } else if d == 3 {
        "3"
    } else if d == 4 {
        "4"
    } else if d == 5 {
        "5"
    } else if d == 6 {
        "6"
    } else if d == 7 {
        "7"
    } else if d == 8 {
        "8"
    } else {
        "9"
    };
    proof {
        assert(r@ =~= seq![digit_char(d as nat)]);
    }
    r
}

/// Append the decimal rendering of `n` to `out`.
pub fn push_dec(out: &mut String, n: u64)
    ensures
        final(out)@ == old(out)@ + dec_of(n as nat),
    decreases n,
{
    if n >= 10 {
        push_dec(out, n / 10);
        let d = digit_str(n % 10);
        out.append(d);
        proof {
            assert(final(out)@ =~= old(out)@ + dec_of(n as nat));
        }
    } else {
        let d = digit_str(n);
        out.append(d);
        proof {
            assert(final(out)@ =~= old(out)@ + dec_of(n as nat));
        }
    }
}

/// Read a leading digit run per `take_digits`, returning its value and the
/// remainder of the input.
pub fn take_digits_str<'a>(s: &'a str) -> (r: Option<(u64, &'a str)>)
    ensures
        take_digits(s@) is None ==> r is None,
        take_digits(s@) matches Some(p) ==> r matches Some(q) && q.0 as nat == p.0 && q.1@ == p.1,
{
    let n = s.unicode_len();
    let mut j: usize = 0;
    while j < n && is_digit_char(s.get_char(j))
        invariant
            j <= n,
            n == s@.len(),
            forall|k: int| 0 <= k < j ==> is_digit(s@[k]),
        decreases n - j,
    {
        j = j + 1;
    }
    proof {
        lemma_digit_run_at(s@, j as int);
    }
    if j < 1 || j > 12 {
        return None;
    }
    let mut acc: u64 = 0;
    let mut k: usize = 0;
    proof {
        assert(s@.subrange(0, 0) =~= Seq::<char>::empty());
    }
    while k < j
        invariant
            k <= j <= 12,
            j <= n == s@.len(),
            forall|i: int| 0 <= i < j ==> is_digit(s@[i]),
            acc as nat == dec_val(s@.subrange(0, k as int)),
        decreases j - k,
    {
        let d = digit_of_char(s.get_char(k));
        proof {
            lemma_dec_val_bound(s@.subrange(0, k as int));
            lemma_pow10_mono(k as nat, 11);
            assert(pow10(11) == 100_000_000_000) by {
                reveal_with_fuel(pow10, 12);
            }
            assert(s@.subrange(0, k + 1).drop_last() =~= s@.subrange(0, k as int));
            assert(s@.subrange(0, k + 1).last() == s@[k as int]);
        }
        acc = acc * 10 + d;
        k = k + 1;
    }
    Some((acc, s.substring_char(j, n)))
}

} // verus!
