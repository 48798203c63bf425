//! Text helpers: decimal rendering of counters and prefix / suffix tests on
//! strings, all stated over the sequence of characters a string holds.

use vstd::prelude::*;
use vstd::string::*;

verus! {

/// Equality of two string slices, as `str`'s `PartialEq::eq` of the standard
/// library computes it: two slices are equal exactly when they hold the same
/// characters. Trusted; it is what lets `*a == *b` on `str` values be used in
/// verified code.
pub assume_specification[ <str as PartialEq>::eq ](a: &str, b: &str) -> (r: bool)
    ensures
        r == (a@ == b@),
;

/// The character that writes the decimal digit `d`.
pub open spec fn digit_char(d: int) -> char {
    if d == 0 {
        '0'
    } else if d == 1 {
        '1'
    } else if d == 2 {
        '2'
    } else if d == 3 {
        '3'
    } else if d == 4 {
        '4'
    } else if d == 5 {
        '5'
    } else if d == 6 {
        '6'
    } else if d == 7 {
        '7'
    } else if d == 8 {
        '8'
    } else {
        '9'
    }
}

/// The decimal numeral of `n`, most significant digit first, without leading zeros.
pub open spec fn decimal(n: nat) -> Seq<char>
    decreases n,
{
    if n < 10 {
        seq![digit_char(n as int)]
    } else {
        decimal(n / 10).push(digit_char((n % 10) as int))
    }
}

/// `count` copies of the character `'0'`.
pub open spec fn zeros(count: nat) -> Seq<char> {
    Seq::new(count, |i: int| '0')
}

/// The decimal numeral of `n`, filled on the left with zeros up to `width`
/// characters; a longer numeral is left as it is.
pub open spec fn zero_padded(n: nat, width: nat) -> Seq<char> {
    if decimal(n).len() >= width {
        decimal(n)
    } else {
        zeros((width - decimal(n).len()) as nat) + decimal(n)
    }
}

/// The digit that the character `c` writes; zero for a character that writes none.
pub open spec fn digit_value(c: char) -> nat {
    if c == '1' {
        1
    } else if c == '2' {
        2
    } else if c == '3' {
        3
    } else if c == '4' {
        4
    } else if c == '5' {
        5
    } else if c == '6' {
        6
    } else if c == '7' {
        7
    } else if c == '8' {
        8
    } else if c == '9' {
        9
    } else {
        0
    }
}

/// The number that a decimal numeral writes.
pub open spec fn decimal_value(numeral: Seq<char>) -> nat
    decreases numeral.len(),
{
    if numeral.len() == 0 {
        0
    } else {
        decimal_value(numeral.drop_last()) * 10 + digit_value(numeral.last())
    }
}

/// The numeral of a number writes that number.
pub proof fn lemma_decimal_value(n: nat)
    ensures
        decimal_value(decimal(n)) == n,
    decreases n,
{
    if n < 10 {
        assert(decimal(n).drop_last() =~= Seq::<char>::empty());
        assert(decimal_value(Seq::<char>::empty()) == 0);
    } else {
        lemma_decimal_value(n / 10);
        assert(decimal(n).drop_last() =~= decimal(n / 10));
    }
}

/// Zeros in front of a numeral do not change the number it writes.
pub proof fn lemma_leading_zeros(count: nat, numeral: Seq<char>)
    ensures
        decimal_value(zeros(count) + numeral) == decimal_value(numeral),
    decreases numeral.len(),
{
    let padded = zeros(count) + numeral;
    if numeral.len() == 0 {
        assert(padded =~= zeros(count));
        lemma_zeros_value(count);
    } else {
        lemma_leading_zeros(count, numeral.drop_last());
        assert(padded.drop_last() =~= zeros(count) + numeral.drop_last());
        assert(padded.last() == numeral.last());
    }
}

/// Zeros write zero.
proof fn lemma_zeros_value(count: nat)
    ensures
        decimal_value(zeros(count)) == 0,
    decreases count,
{
    if count > 0 {
        lemma_zeros_value((count - 1) as nat);
        assert(zeros(count).drop_last() =~= zeros((count - 1) as nat));
    }
}

/// A numeral filled up with zeros writes its number, so two numbers that are
/// written alike are the same.
pub proof fn lemma_zero_padded_value(n: nat, width: nat)
    ensures
        decimal_value(zero_padded(n, width)) == n,
{
    lemma_decimal_value(n);
    if decimal(n).len() < width {
        lemma_leading_zeros((width - decimal(n).len()) as nat, decimal(n));
    }
}

/// `needle` occurs in `hay` as a contiguous run of characters.
pub open spec fn occurs_in(needle: Seq<char>, hay: Seq<char>) -> bool {
    exists|i: int|
        0 <= i && i + needle.len() <= hay.len() && #[trigger] hay.subrange(
            i,
            i + needle.len(),
        ) == needle
}

/// A text that is built as `before + needle + after` holds `needle`.
pub proof fn lemma_occurs_in_middle(before: Seq<char>, needle: Seq<char>, after: Seq<char>)
    ensures
        occurs_in(needle, before + needle + after),
{
    let hay = before + needle + after;
    let i = before.len() as int;
    assert(hay.subrange(i, i + needle.len()) =~= needle);
}

/// The one-character string of a decimal digit.
pub fn digit_str(d: u64) -> (r: &'static str)
    requires
        d < 10,
    ensures
        r@ == seq![digit_char(d as int)],
{
    proof {
        reveal_strlit("0");
        reveal_strlit("1");
        reveal_strlit("2");
        reveal_strlit("3");
        reveal_strlit("4");
        reveal_strlit("5");
        reveal_strlit("6");
        reveal_strlit("7");
        reveal_strlit("8");
        reveal_strlit("9");
    }
    let r = if d == 0 {
        "0"
    } else if d == 1 {
        "1"
    } else if d == 2 {
        "2"
    } else if d == 3 {
        "3"
    } else if d == 4 {
        "4"
    } else if d == 5 {
        "5"
    } else if d == 6 {
        "6"
    } else if d == 7 {
        "7"
    } else if d == 8 {
        "8"
    } else {
        "9"
    };
    assert(r@ =~= seq![digit_char(d as int)]);
    r
}

/// Appends the decimal numeral of `n` to `out`.
pub fn push_decimal(out: &mut String, n: u64)
    ensures
        final(out)@ == old(out)@ + decimal(n as nat),
    decreases n,
{
    if n >= 10 {
        push_decimal(out, n / 10);
    }
    out.append(digit_str(n % 10));
    assert(out@ =~= old(out)@ + decimal(n as nat));
}

/// The number of digits of the decimal numeral of `n`.
pub fn decimal_len(n: u64) -> (r: usize)
    ensures
        r == decimal(n as nat).len(),
        1 <= r <= 20,
{
    let mut rest: u64 = n;
    let mut len: usize = 1;
    assert(rest as nat * pow10(0) == rest) by (nonlinear_arith)
        requires
            pow10(0) == 1,
    ;
    while rest >= 10
        invariant
            1 <= len <= 20,
            decimal(n as nat).len() == decimal(rest as nat).len() + len - 1,
            rest as nat * pow10((len - 1) as nat) <= n,
        decreases rest,
    {
        proof {
            lemma_pow10_step(rest as nat, (len - 1) as nat, n as nat);
        }
        rest = rest / 10;
        len = len + 1;
    }
    len
}

/// Ten to the power `e`.
pub open spec fn pow10(e: nat) -> nat
    decreases e,
{
    if e == 0 {
        1
    } else {
        10 * pow10((e - 1) as nat)
    }
}

/// One more digit taken off a number that fits 64 bits: what is left, with
/// as many zeros behind it as digits were taken off, is still at most the
/// number, and fewer than twenty digits were taken off.
proof fn lemma_pow10_step(rest: nat, e: nat, n: nat)
    requires
        rest >= 10,
        rest * pow10(e) <= n,
        n <= u64::MAX,
    ensures
        (rest / 10) * pow10(e + 1) <= n,
        e + 1 < 20,
{
    let p = pow10(e);
    assert(pow10(e + 1) == 10 * p);
    assert((rest / 10) * (10 * p) <= rest * p) by (nonlinear_arith)
        requires
            (rest / 10) * 10 <= rest,
    ;
    if e + 1 >= 20 {
        lemma_pow10_grows(19, e);
        assert(pow10(19) == 10000000000000000000nat) by {
            reveal_with_fuel(pow10, 20);
        }
        assert(rest * p >= 10 * p) by (nonlinear_arith)
            requires
                rest >= 10,
        ;
        assert(10 * 10000000000000000000nat > u64::MAX);
        assert(10 * p >= 10 * pow10(19)) by (nonlinear_arith)
            requires
                p >= pow10(19),
        ;
    }
}

/// A greater power of ten is a greater number.
proof fn lemma_pow10_grows(a: nat, b: nat)
    requires
        a <= b,
    ensures
        pow10(a) <= pow10(b),
    decreases b,
{
    if a < b {
        lemma_pow10_grows(a, (b - 1) as nat);
    }
}

/// Appends the decimal numeral of `n`, filled on the left with zeros up to
/// `width` characters.
pub fn push_padded(out: &mut String, n: u64, width: usize)
    ensures
        final(out)@ == old(out)@ + zero_padded(n as nat, width as nat),
{
    let len = decimal_len(n);
    let mut written: usize = len;
    while written < width
        invariant
            len <= written,
            len < width ==> written <= width,
            len >= width ==> written == len,
            out@ == old(out)@ + zeros((written - len) as nat),
        decreases width - written,
    {
        proof {
            reveal_strlit("0");
        }
        out.append("0");
        written = written + 1;
        assert(out@ =~= old(out)@ + zeros((written - len) as nat));
    }
    let ghost filled = out@;
    push_decimal(out, n);
    proof {
        let pad = zeros((written - len) as nat);
        assert(out@ == filled + decimal(n as nat));
        assert(filled == old(out)@ + pad);
        if len >= width {
            assert(pad =~= Seq::<char>::empty());
            assert(zero_padded(n as nat, width as nat) == decimal(n as nat));
        } else {
            assert(written == width);
            assert(zero_padded(n as nat, width as nat) == pad + decimal(n as nat));
        }
        assert(out@ =~= old(out)@ + zero_padded(n as nat, width as nat));
    }
}

/// Does `text` begin with `prefix`?
pub fn starts_with(text: &str, prefix: &str) -> (r: bool)
    ensures
        r == prefix@.is_prefix_of(text@),
{
    let n = text.unicode_len();
    let p = prefix.unicode_len();
    if p > n {
        return false;
    }
    let head = text.substring_char(0, p);
    let r = *head == *prefix;
    proof {
        if r {
            assert(prefix@ =~= text@.subrange(0, p as int));
        } else if prefix@.is_prefix_of(text@) {
            assert(text@.subrange(0, p as int) =~= prefix@);
        }
    }
    r
}

/// `text` without its leading `prefix`, or `None` where it does not begin with it.
pub fn strip_prefix<'a>(text: &'a str, prefix: &str) -> (r: Option<&'a str>)
    ensures
        r is Some == prefix@.is_prefix_of(text@),
        r is Some ==> r->0@ == text@.skip(prefix@.len() as int),
{
    if starts_with(text, prefix) {
        let n = text.unicode_len();
        let p = prefix.unicode_len();
        Some(text.substring_char(p, n))
    } else {
        None
    }
}

/// Does `text` end with `suffix`?
pub open spec fn ends_with(text: Seq<char>, suffix: Seq<char>) -> bool {
    suffix.len() <= text.len() && text.skip(text.len() - suffix.len()) == suffix
}

/// `text` without its trailing `suffix`, or `None` where it does not end with it.
pub fn strip_suffix<'a>(text: &'a str, suffix: &str) -> (r: Option<&'a str>)
    ensures
        r is Some == ends_with(text@, suffix@),
        r is Some ==> r->0@ == text@.take(text@.len() - suffix@.len()),
{
    let n = text.unicode_len();
    let p = suffix.unicode_len();
    if p > n {
        return None;
    }
    let tail = text.substring_char(n - p, n);
    if *tail == *suffix {
        Some(text.substring_char(0, n - p))
    } else {
        None
    }
}

} // verus!
