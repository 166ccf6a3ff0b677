//! Byte and text helpers: splitting, decimal numbers, literal comparison.

use vstd::prelude::*;
use vstd::string::StrSliceExecFns;

verus! {

/// The decimal digit character for `d` (`d < 10`).
pub open spec fn digit_char(d: nat) -> char {
    if d == 0 { '0' } else if d == 1 { '1' } else if d == 2 { '2' } else if d == 3 { '3' }
    else if d == 4 { '4' } else if d == 5 { '5' } else if d == 6 { '6' } else if d == 7 { '7' }
    else if d == 8 { '8' } else { '9' }
}

/// The decimal representation of `n`, without leading zeros.
pub open spec fn decimal_chars(n: nat) -> Seq<char>
    decreases n,
{
    if n < 10 {
        seq![digit_char(n)]
    } else {
        decimal_chars(n / 10).push(digit_char(n % 10))
    }
}

fn digit_str(d: u64) -> (s: &'static str)
    requires
        d < 10,
    ensures
        s@ == seq![digit_char(d as nat)],
{
    if d == 0 {
        proof { reveal_strlit("0"); }
        "0"
    } else if d == 1 {
        proof { reveal_strlit("1"); }
        "1"
    } else if d == 2 {
        proof { reveal_strlit("2"); }
        "2"
    } else if d == 3 {
        proof { reveal_strlit("3"); }
        "3"
    } else if d == 4 {
        proof { reveal_strlit("4"); }
        "4"
    } else if d == 5 {
        proof { reveal_strlit("5"); }
        "5"
    } else if d == 6 {
        proof { reveal_strlit("6"); }
        "6"
    } else if d == 7 {
        proof { reveal_strlit("7"); }
        "7"
    } else if d == 8 {
        proof { reveal_strlit("8"); }
        "8"
    } else {
        proof { reveal_strlit("9"); }
        "9"
    }
}

/// Appends the decimal representation of `n` to `out`.
pub fn push_decimal(out: &mut String, n: u64)
    ensures
        final(out)@ == old(out)@ + decimal_chars(n as nat),
    decreases n,
{
    if n < 10 {
        out.append(digit_str(n));
    } else {
        push_decimal(out, n / 10);
        out.append(digit_str(n % 10));
    }
}


/// The pieces of `s` between occurrences of `sep`, as `split` on a string gives
/// them: `k` separators give `k + 1` pieces, and an empty input gives one empty piece.
pub open spec fn split_seq(s: Seq<u8>, sep: u8) -> Seq<Seq<u8>>
    decreases s.len(),
{
    if s.len() == 0 {
        seq![Seq::<u8>::empty()]
    } else {
        let prev = split_seq(s.drop_last(), sep);
        if s.last() == sep {
            prev.push(Seq::<u8>::empty())
        } else {
            prev.update(prev.len() - 1, prev.last().push(s.last()))
        }
    }
}

/// Splitting always gives at least one piece.
pub proof fn lemma_split_nonempty(s: Seq<u8>, sep: u8)
    ensures
        split_seq(s, sep).len() >= 1,
    decreases s.len(),
{
    if s.len() > 0 {
        lemma_split_nonempty(s.drop_last(), sep);
    }
}

/// The contents of each byte vector in `vs`.
pub open spec fn views(vs: Seq<Vec<u8>>) -> Seq<Seq<u8>> {
    vs.map_values(|v: Vec<u8>| v@)
}

/// Splits `s` at every occurrence of `sep`.
pub fn split_bytes(s: &[u8], sep: u8) -> (pieces: Vec<Vec<u8>>)
    ensures
        views(pieces@) == split_seq(s@, sep),
{
    let mut done: Vec<Vec<u8>> = Vec::new();
    let mut cur: Vec<u8> = Vec::new();
    let mut i: usize = 0;
    assert(s@.take(0) =~= Seq::<u8>::empty());
    while i < s.len()
        invariant
            i <= s.len(),
            views(done@).push(cur@) == split_seq(s@.take(i as int), sep),
        decreases s.len() - i,
    {
        let b = s[i];
        proof {
            lemma_split_nonempty(s@.take(i as int), sep);
            assert(s@.take(i + 1).drop_last() =~= s@.take(i as int));
        }
        if b == sep {
            let ghost old_dv = views(done@);
            let ghost piece_v = cur@;
            let piece = cur;
            done.push(piece);
            assert(views(done@) =~= old_dv.push(piece_v));
            cur = Vec::new();
            assert(views(done@).push(cur@) =~= split_seq(s@.take(i + 1), sep));
        } else {
            let ghost before = views(done@).push(cur@);
            cur.push(b);
            assert(views(done@).push(cur@) =~= before.update(before.len() - 1, before.last().push(b)));
        }
        i = i + 1;
    }
    assert(s@.take(s.len() as int) =~= s@);
    let ghost old_dv = views(done@);
    let ghost last_v = cur@;
    done.push(cur);
    assert(views(done@) =~= old_dv.push(last_v));
    done
}


/// Whether `b` is an ASCII decimal digit.
pub open spec fn is_digit(b: u8) -> bool {
    48 <= b <= 57
}

/// Whether every byte of `d` is a decimal digit.
pub open spec fn all_digits(d: Seq<u8>) -> bool {
    forall|i: int| 0 <= i < d.len() ==> is_digit(#[trigger] d[i])
}

/// The value of the decimal digits `d`, most significant first.
pub open spec fn digits_value(d: Seq<u8>) -> nat
    decreases d.len(),
{
    if d.len() == 0 {
        0
    } else {
        digits_value(d.drop_last()) * 10 + (d.last() - 48) as nat
    }
}

/// What parsing `s` as an `i64` gives: an optional `+` or `-` sign followed by one
/// or more decimal digits whose value fits in an `i64`; anything else is refused.
pub open spec fn parse_i64_spec(s: Seq<u8>) -> Option<i64> {
    if s.len() == 0 {
        None
    } else {
        let neg = s[0] == 45u8;
        let digits = if s[0] == 45u8 || s[0] == 43u8 { s.drop_first() } else { s };
        if digits.len() == 0 || !all_digits(digits) {
            None
        } else {
            let v: int = if neg { -(digits_value(digits) as int) } else { digits_value(digits) as int };
            if i64::MIN <= v <= i64::MAX { Some(v as i64) } else { None }
        }
    }
}

const DIGIT_CAP: u128 = 9223372036854775808;

/// Parses `s` as a decimal `i64`, as `str::parse::<i64>` does.
pub fn parse_i64(s: &[u8]) -> (r: Option<i64>)
    ensures
        r == parse_i64_spec(s@),
{
    if s.len() == 0 {
        return None;
    }
    let neg = s[0] == 45u8;
    let start: usize = if s[0] == 45u8 || s[0] == 43u8 { 1 } else { 0 };
    let ghost digits = if s@[0] == 45u8 || s@[0] == 43u8 { s@.drop_first() } else { s@ };
    assert(digits =~= s@.subrange(start as int, s@.len() as int));
    if start == s.len() {
        return None;
    }
    let mut acc: u128 = 0;
    let mut over = false;
    let mut i: usize = start;
    assert(digits.take(0) =~= Seq::<u8>::empty());
    while i < s.len()
        invariant
            start <= i <= s.len(),
            s@.len() > 0,
            digits == (if s@[0] == 45u8 || s@[0] == 43u8 { s@.drop_first() } else { s@ }),
            neg == (s@[0] == 45u8),
            digits =~= s@.subrange(start as int, s@.len() as int),
            all_digits(digits.take(i - start)),
            !over ==> acc == digits_value(digits.take(i - start)) && acc <= DIGIT_CAP,
            over ==> digits_value(digits.take(i - start)) > DIGIT_CAP,
        decreases s.len() - i,
    {
        let b = s[i];
        if b < 48u8 || b > 57u8 {
            assert(digits[i - start] == b);
            assert(!all_digits(digits));
            return None;
        }
        proof {
            assert(digits.take(i - start + 1).drop_last() =~= digits.take(i - start));
            assert(digits.take(i - start + 1).last() == b);
            assert(all_digits(digits.take(i - start + 1)));
        }
        if !over {
            let next = acc * 10 + (b - 48u8) as u128;
            if next > DIGIT_CAP {
                over = true;
            } else {
                acc = next;
            }
        }
        i = i + 1;
    }
    assert(digits.take(i - start) =~= digits);
    if over {
        return None;
    }
    if neg {
        let v: i128 = -(acc as i128);
        if v < -9223372036854775808i128 {
            None
        } else {
            Some(v as i64)
        }
    } else {
        if acc > 9223372036854775807u128 {
            None
        } else {
            Some(acc as i64)
        }
    }
}


/// Whether `a` and `b` hold the same bytes.
pub fn bytes_eq(a: &[u8], b: &[u8]) -> (r: bool)
    ensures
        r == (a@ == b@),
{
    if a.len() != b.len() {
        return false;
    }
    let mut i: usize = 0;
    while i < a.len()
        invariant
            a@.len() == b@.len(),
            i <= a.len(),
            forall|k: int| 0 <= k < i ==> a@[k] == b@[k],
        decreases a.len() - i,
    {
        if a[i] != b[i] {
            return false;
        }
        i = i + 1;
    }
    assert(a@ =~= b@);
    true
}


/// The decimal representation of `v`, with a leading `-` when it is negative.
pub open spec fn int_chars(v: int) -> Seq<char> {
    if v < 0 {
        seq!['-'] + decimal_chars((-v) as nat)
    } else {
        decimal_chars(v as nat)
    }
}

/// Appends the decimal representation of `v` to `out`.
pub fn push_i64(out: &mut String, v: i64)
    ensures
        final(out)@ == old(out)@ + int_chars(v as int),
{
    if v < 0 {
        proof { reveal_strlit("-"); }
        out.append("-");
        let magnitude: i128 = -(v as i128);
        push_decimal(out, magnitude as u64);
        assert(final(out)@ =~= old(out)@ + int_chars(v as int));
    } else {
        push_decimal(out, v as u64);
    }
}


/// Whether `a` and `b` hold the same characters.
pub fn str_eq(a: &str, b: &str) -> (r: bool)
    ensures
        r == (a@ == b@),
{
    let n = a.unicode_len();
    if n != b.unicode_len() {
        return false;
    }
    let mut i: usize = 0;
    while i < n
        invariant
            n == a@.len(),
            n == b@.len(),
            i <= n,
            forall|k: int| 0 <= k < i ==> a@[k] == b@[k],
        decreases n - i,
    {
        if a.get_char(i) != b.get_char(i) {
            return false;
        }
        i = i + 1;
    }
    assert(a@ =~= b@);
    true
}


/// The bytes of ASCII characters `cs`.
pub open spec fn ascii_bytes(cs: Seq<char>) -> Seq<u8> {
    cs.map_values(|c: char| c as u8)
}

/// The decimal representation of `n` is a non-empty run of digits whose value is `n`.
pub proof fn lemma_decimal_digits(n: nat)
    ensures
        ascii_bytes(decimal_chars(n)).len() >= 1,
        all_digits(ascii_bytes(decimal_chars(n))),
        digits_value(ascii_bytes(decimal_chars(n))) == n,
    decreases n,
{
    if n < 10 {
        let b = ascii_bytes(decimal_chars(n));
        assert(b.drop_last() =~= Seq::<u8>::empty());
        assert(b[0] == 48 + n);
        assert(b.last() == 48 + n);
        assert(digits_value(b.drop_last()) == 0);
        assert(digits_value(b) == n);
    } else {
        lemma_decimal_digits(n / 10);
        let prev = ascii_bytes(decimal_chars(n / 10));
        let b = ascii_bytes(decimal_chars(n));
        assert(b =~= prev.push((digit_char(n % 10) as u8)));
        assert(b.drop_last() =~= prev);
        assert(digit_char(n % 10) as u8 == 48 + n % 10);
        assert(b.last() == 48 + n % 10);
        assert(digits_value(b) == digits_value(prev) * 10 + n % 10);
        assert((n / 10) * 10 + n % 10 == n);
        assert forall|i: int| 0 <= i < b.len() implies is_digit(#[trigger] b[i]) by {
            if i < prev.len() {
                assert(b[i] == prev[i]);
            }
        }
    }
}

/// Reading back the decimal representation of a number gives the number: what
/// is written as a timestamp reads back as the same timestamp.
pub proof fn lemma_int_round_trip(v: i64)
    ensures
        parse_i64_spec(ascii_bytes(int_chars(v as int))) == Some(v),
{
    if v < 0 {
        let m = (-v) as nat;
        lemma_decimal_digits(m);
        let d = ascii_bytes(decimal_chars(m));
        let b = ascii_bytes(int_chars(v as int));
        assert(b =~= seq![45u8] + d);
        assert(b.drop_first() =~= d);
    } else {
        lemma_decimal_digits(v as nat);
        let b = ascii_bytes(int_chars(v as int));
        assert(is_digit(b[0]));
    }
}


/// Appending a separator and a piece without separators to `a` adds that piece
/// to the pieces of `a`.
pub proof fn lemma_split_append(a: Seq<u8>, sep: u8, piece: Seq<u8>)
    requires
        !piece.contains(sep),
    ensures
        split_seq(a + seq![sep] + piece, sep) == split_seq(a, sep).push(piece),
    decreases piece.len(),
{
    let s = a + seq![sep] + piece;
    if piece.len() == 0 {
        assert(s.drop_last() =~= a);
        assert(piece =~= Seq::<u8>::empty());
    } else {
        let shorter = piece.drop_last();
        assert forall|i: int| 0 <= i < shorter.len() implies shorter[i] != sep by {
            assert(piece[i] == shorter[i]);
        }
        lemma_split_append(a, sep, shorter);
        assert(s.drop_last() =~= a + seq![sep] + shorter);
        assert(s.last() == piece.last());
        assert(piece.last() != sep) by {
            assert(piece[piece.len() - 1] == piece.last());
        }
        assert(shorter.push(piece.last()) =~= piece);
        assert(split_seq(s, sep) =~= split_seq(a, sep).push(piece));
    }
}


/// A text without separators is a single piece.
pub proof fn lemma_split_single(s: Seq<u8>, sep: u8)
    requires
        !s.contains(sep),
    ensures
        split_seq(s, sep) == seq![s],
    decreases s.len(),
{
    if s.len() > 0 {
        let shorter = s.drop_last();
        assert forall|i: int| 0 <= i < shorter.len() implies shorter[i] != sep by {
            assert(s[i] == shorter[i]);
        }
        lemma_split_single(shorter, sep);
        assert(s[s.len() - 1] == s.last());
        assert(shorter.push(s.last()) =~= s);
        assert(split_seq(s, sep) =~= seq![s]);
    } else {
        assert(s =~= Seq::<u8>::empty());
    }
}

} // verus!
