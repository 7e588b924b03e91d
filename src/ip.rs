//! Classification of address-like tokens found in tool output.
use vstd::prelude::*;
use crate::text::{
    contains_char, pieces, pieces_from, split_on, starts_with, starts_with_str, to_chars, views,
};
use crate::version::{decimal_text, digit_char_of};

verus! {

/// Whether `c` is an ASCII decimal digit.
pub open spec fn is_digit(c: char) -> bool {
    '0' <= c && c <= '9'
}

pub open spec fn digit_value(c: char) -> int {
    c as int - '0' as int
}

/// All characters are ASCII digits, and there is at least one.
pub open spec fn all_digits(d: Seq<char>) -> bool {
    d.len() > 0 && forall|k: int| 0 <= k < d.len() ==> is_digit(d[k])
}

/// The number that a string of decimal digits denotes.
pub open spec fn decimal_value(d: Seq<char>) -> int
    decreases d.len(),
{
    if d.len() == 0 {
        0
    } else {
        10 * decimal_value(d.drop_last()) + digit_value(d.last())
    }
}

/// The digits of an unsigned integer literal: an optional `+`, then the digits.
pub open spec fn unsigned_digits(t: Seq<char>) -> Seq<char> {
    if t.len() > 0 && t[0] == '+' {
        t.drop_first()
    } else {
        t
    }
}

/// `t` is an unsigned decimal integer, as Rust reads one, of value at most `max`.
pub open spec fn parses_within(t: Seq<char>, max: int) -> bool {
    all_digits(unsigned_digits(t)) && decimal_value(unsigned_digits(t)) <= max
}

/// Reads `t` as an unsigned decimal integer no greater than `max`.
pub fn parse_unsigned(t: &[char], max: u32) -> (r: Option<u32>)
    ensures
        r is Some <==> parses_within(t@, max as int),
        r matches Some(v) ==> v as int == decimal_value(unsigned_digits(t@)),
{
    let start: usize = if t.len() > 0 && t[0] == '+' { 1 } else { 0 };
    let ghost d = unsigned_digits(t@);
    assert(d =~= t@.subrange(start as int, t@.len() as int));
    if start >= t.len() {
        return None;
    }
    let cap: u64 = max as u64 + 1;
    let mut acc: u64 = 0;
    let mut k: usize = start;
    while k < t.len()
        invariant
            start <= k <= t.len(),
            d == t@.subrange(start as int, t@.len() as int),
            d == unsigned_digits(t@),
            cap == max as u64 + 1,
            forall|j: int| start <= j < k ==> is_digit(t@[j]),
            acc as int == (if decimal_value(t@.subrange(start as int, k as int)) < cap as int {
                decimal_value(t@.subrange(start as int, k as int))
            } else {
                cap as int
            }),
        decreases t.len() - k,
    {
        let c = t[k];
        if !('0' <= c && c <= '9') {
            assert(d[k - start] == c);
            assert(!is_digit(d[k - start]));
            assert(!all_digits(d));
            return None;
        }
        let ghost prev = t@.subrange(start as int, k as int);
        assert(t@.subrange(start as int, k + 1).drop_last() =~= prev);
        assert(decimal_value(prev) >= 0) by {
            lemma_decimal_nonneg(prev);
        }
        let v: u64 = 10 * acc + (c as u64 - '0' as u64);
        acc = if v < cap { v } else { cap };
        k = k + 1;
    }
    assert(d =~= t@.subrange(start as int, k as int));
    if acc < cap {
        Some(acc as u32)
    } else {
        None
    }
}

pub proof fn lemma_decimal_nonneg(d: Seq<char>)
    requires
        forall|k: int| 0 <= k < d.len() ==> is_digit(d[k]),
    ensures
        decimal_value(d) >= 0,
    decreases d.len(),
{
    if d.len() > 0 {
        lemma_decimal_nonneg(d.drop_last());
    }
}

/// Four dot-separated parts, each an unsigned 8-bit integer.
pub open spec fn is_dotted_quad(t: Seq<char>) -> bool {
    pieces(t, '.').len() == 4 && forall|k: int|
        0 <= k < 4 ==> #[trigger] parses_within(pieces(t, '.')[k], 255)
}

/// Whether a token may stand for a configured DNS server: anything with a colon
/// is taken as an IPv6 literal; otherwise it must be a dotted quad that is not
/// an unspecified, loopback or broadcast sentinel.
pub open spec fn valid_candidate(t: Seq<char>) -> bool {
    (exists|i: int| 0 <= i < t.len() && t[i] == ':') || (is_dotted_quad(t) && !starts_with(
        t,
        "0."@,
    ) && !starts_with(t, "127."@) && t != "255.255.255.255"@ && t != "0.0.0.0"@)
}

pub fn is_valid_ip_chars(t: &[char]) -> (r: bool)
    ensures
        r == valid_candidate(t@),
{
    if contains_char(t, ':') {
        return true;
    }
    let parts = split_on(t, '.');
    assert(views(parts@).len() == parts@.len());
    if parts.len() != 4 {
        return false;
    }
    let mut k: usize = 0;
    while k < 4
        invariant
            views(parts@) == pieces(t@, '.'),
            parts@.len() == 4,
            !(exists|i: int| 0 <= i < t@.len() && t@[i] == ':'),
            forall|j: int| 0 <= j < k ==> #[trigger] parses_within(pieces(t@, '.')[j], 255),
        decreases 4 - k,
    {
        assert(parts@[k as int]@ == pieces(t@, '.')[k as int]);
        if parse_unsigned(parts[k].as_slice(), 255).is_none() {
            assert(!parses_within(pieces(t@, '.')[k as int], 255));
            return false;
        }
        k = k + 1;
    }
    let bcast = to_chars("255.255.255.255");
    let zero = to_chars("0.0.0.0");
    !starts_with_str(t, "0.") && !starts_with_str(t, "127.") && !same_chars(t, bcast.as_slice())
        && !same_chars(t, zero.as_slice())
}

pub fn same_chars(a: &[char], b: &[char]) -> (r: bool)
    ensures
        r == (a@ == b@),
{
    if a.len() != b.len() {
        return false;
    }
    let mut k: usize = 0;
    while k < a.len()
        invariant
            a.len() == b.len(),
            forall|j: int| 0 <= j < k ==> a@[j] == b@[j],
        decreases a.len() - k,
    {
        if a[k] != b[k] {
            return false;
        }
        k = k + 1;
    }
    assert(a@ =~= b@);
    true
}

/// A token of digits and dots is a candidate exactly when it is a dotted quad
/// of 8-bit numbers other than the unspecified, loopback and broadcast sentinels.
pub proof fn lemma_ipv4_candidates(t: Seq<char>)
    requires
        forall|i: int| 0 <= i < t.len() ==> is_digit(t[i]) || t[i] == '.',
    ensures
        valid_candidate(t) == (is_dotted_quad(t) && !starts_with(t, "0."@) && !starts_with(
            t,
            "127."@,
        ) && t != "255.255.255.255"@ && t != "0.0.0.0"@),
{
    assert(!(exists|i: int| 0 <= i < t.len() && t[i] == ':')) by {
        assert forall|i: int| 0 <= i < t.len() implies t[i] != ':' by {
            assert(is_digit(t[i]) || t[i] == '.');
        }
    }
}

/// Any token with a colon is a candidate, whatever else it holds.
pub proof fn lemma_colon_tokens_accepted(t: Seq<char>, i: int)
    requires
        0 <= i < t.len(),
        t[i] == ':',
    ensures
        valid_candidate(t),
{
}

pub proof fn lemma_digit_char(d: int)
    requires
        0 <= d < 10,
    ensures
        is_digit(digit_char_of(d)),
        digit_value(digit_char_of(d)) == d,
{
}

/// The decimal notation of `n` is a non-empty string of digits denoting `n`,
/// of one digit below 10, two below 100 and three below 1000.
pub proof fn lemma_decimal_text(n: nat)
    ensures
        all_digits(decimal_text(n)),
        decimal_value(decimal_text(n)) == n,
        n < 10 ==> decimal_text(n).len() == 1,
        10 <= n < 100 ==> decimal_text(n).len() == 2,
        100 <= n < 1000 ==> decimal_text(n).len() == 3,
    decreases n,
{
    lemma_digit_char((n % 10) as int);
    let t = decimal_text(n);
    if n >= 10 {
        lemma_decimal_text(n / 10);
        assert(t.drop_last() =~= decimal_text(n / 10));
        assert(t.last() == digit_char_of((n % 10) as int));
        assert(decimal_value(t.drop_last()) == n / 10);
        assert(digit_value(t.last()) == n % 10);
        assert(decimal_value(t) == 10 * decimal_value(t.drop_last()) + digit_value(t.last()));
        assert(n == 10 * (n / 10) + n % 10);
    } else {
        assert(t.drop_last() =~= Seq::<char>::empty());
        assert(n % 10 == n);
        assert(decimal_value(t) == 10 * decimal_value(t.drop_last()) + digit_value(t.last()));
    }
}

/// Shifting a text by a prefix shifts its pieces' scan alike.
pub proof fn lemma_pieces_shift(p: Seq<char>, y: Seq<char>, c: char, a: int, b: int)
    requires
        0 <= a <= b <= y.len(),
    ensures
        pieces_from(p + y, c, p.len() + a, p.len() + b) == pieces_from(y, c, a, b),
    decreases y.len() - b,
{
    let s = p + y;
    if b < y.len() {
        assert(s[p.len() + b] == y[b]);
        if y[b] == c {
            assert(s.subrange(p.len() + a, p.len() + b) =~= y.subrange(a, b));
            lemma_pieces_shift(p, y, c, b + 1, b + 1);
        } else {
            lemma_pieces_shift(p, y, c, a, b + 1);
        }
    } else {
        assert(s.subrange(p.len() + a, s.len() as int) =~= y.subrange(a, y.len() as int));
    }
}

/// Scanning a stretch without separators keeps the current piece open.
pub proof fn lemma_pieces_skip(s: Seq<char>, c: char, start: int, i: int, j: int)
    requires
        0 <= start <= i <= j <= s.len(),
        forall|k: int| i <= k < j ==> s[k] != c,
    ensures
        pieces_from(s, c, start, i) == pieces_from(s, c, start, j),
    decreases j - i,
{
    if i < j {
        lemma_pieces_skip(s, c, start, i + 1, j);
    }
}

/// A piece without separators, then a separator, then the rest.
pub proof fn lemma_pieces_concat(x: Seq<char>, y: Seq<char>, c: char)
    requires
        forall|k: int| 0 <= k < x.len() ==> x[k] != c,
    ensures
        pieces(x + seq![c] + y, c) == seq![x] + pieces(y, c),
{
    let p = x + seq![c];
    let s = p + y;
    lemma_pieces_skip(s, c, 0, 0, x.len() as int);
    assert(s[x.len() as int] == c);
    assert(s.subrange(0, x.len() as int) =~= x);
    assert(p.len() == x.len() + 1);
    lemma_pieces_shift(p, y, c, 0, 0);
}

/// A text without separators is a single piece.
pub proof fn lemma_pieces_single(y: Seq<char>, c: char)
    requires
        forall|k: int| 0 <= k < y.len() ==> y[k] != c,
    ensures
        pieces(y, c) == seq![y],
{
    lemma_pieces_skip(y, c, 0, 0, y.len() as int);
    assert(y.subrange(0, y.len() as int) =~= y);
}

/// The dotted quad written from four numbers.
pub open spec fn quad_text(a: u8, b: u8, c: u8, d: u8) -> Seq<char> {
    decimal_text(a as nat) + "."@ + decimal_text(b as nat) + "."@ + decimal_text(c as nat) + "."@
        + decimal_text(d as nat)
}

proof fn lemma_no_dot(n: nat)
    ensures
        forall|k: int| 0 <= k < decimal_text(n).len() ==> decimal_text(n)[k] != '.',
{
    lemma_decimal_text(n);
}

pub proof fn lemma_quad_pieces(a: u8, b: u8, c: u8, d: u8)
    ensures
        pieces(quad_text(a, b, c, d), '.') == seq![
            decimal_text(a as nat),
            decimal_text(b as nat),
            decimal_text(c as nat),
            decimal_text(d as nat),
        ],
{
    reveal_strlit(".");
    let (ta, tb, tc, td) = (
        decimal_text(a as nat),
        decimal_text(b as nat),
        decimal_text(c as nat),
        decimal_text(d as nat),
    );
    lemma_no_dot(a as nat);
    lemma_no_dot(b as nat);
    lemma_no_dot(c as nat);
    lemma_no_dot(d as nat);
    assert(quad_text(a, b, c, d) =~= ta + seq!['.'] + (tb + seq!['.'] + (tc + seq!['.'] + td)));
    lemma_pieces_concat(ta, tb + seq!['.'] + (tc + seq!['.'] + td), '.');
    lemma_pieces_concat(tb, tc + seq!['.'] + td, '.');
    lemma_pieces_concat(tc, td, '.');
    lemma_pieces_single(td, '.');
    assert(pieces(quad_text(a, b, c, d), '.') =~= seq![ta, tb, tc, td]);
}

/// Every dotted quad of 8-bit numbers is a candidate, except those whose first
/// number is 0 or 127 and the broadcast address.
pub proof fn lemma_quads_accepted(a: u8, b: u8, c: u8, d: u8)
    ensures
        valid_candidate(quad_text(a, b, c, d)) == !(a == 0 || a == 127 || (a == 255 && b == 255
            && c == 255 && d == 255)),
{
    let t = quad_text(a, b, c, d);
    let ta = decimal_text(a as nat);
    lemma_quad_pieces(a, b, c, d);
    lemma_decimal_text(a as nat);
    lemma_decimal_text(b as nat);
    lemma_decimal_text(c as nat);
    lemma_decimal_text(d as nat);
    reveal_strlit(".");
    reveal_strlit("0.");
    reveal_strlit("127.");
    reveal_strlit("255.255.255.255");
    reveal_strlit("0.0.0.0");
    let ps = pieces(t, '.');
    assert forall|k: int| 0 <= k < 4 implies #[trigger] parses_within(ps[k], 255) by {
        assert(unsigned_digits(ps[k]) == ps[k]);
    }
    assert(is_dotted_quad(t));
    assert forall|k: int| 0 <= k < t.len() implies t[k] != ':' by {
        assert(is_digit(t[k]) || t[k] == '.');
    }
    assert(!(exists|i: int| 0 <= i < t.len() && t[i] == ':'));
    assert(t[ta.len() as int] == '.');
    if a == 0 {
        assert(ta =~= seq!['0']);
        assert(t.subrange(0, 2) =~= "0."@);
    } else {
        if starts_with(t, "0."@) {
            assert(t.subrange(0, 2)[0] == t[0] && t.subrange(0, 2)[1] == t[1]);
            assert("0."@[0] == '0' && "0."@[1] == '.');
            if ta.len() == 1 {
                assert(ta =~= seq![digit_char_of(a as int)]);
                assert(t[0] == ta[0]);
            } else {
                assert(t[1] == ta[1]);
                assert(is_digit(ta[1]));
            }
        }
        assert(!starts_with(t, "0."@));
        assert(t != "0.0.0.0"@) by {
            if t == "0.0.0.0"@ {
                assert(t.subrange(0, 2) =~= "0."@);
            }
        }
    }
    assert(decimal_text(1) =~= seq!['1']);
    assert(decimal_text(12) =~= seq!['1', '2']);
    assert(decimal_text(127) =~= seq!['1', '2', '7']);
    assert(decimal_text(2) =~= seq!['2']);
    assert(decimal_text(25) =~= seq!['2', '5']);
    assert(decimal_text(255) =~= seq!['2', '5', '5']);
    if a == 127 {
        assert(ta =~= seq!['1', '2', '7']);
        assert(t.subrange(0, 4) =~= "127."@);
    } else if a != 0 {
        if ta.len() == 3 {
            if starts_with(t, "127."@) {
                assert(ta =~= t.subrange(0, 3));
                assert(ta =~= seq!['1', '2', '7']);
                lemma_decimal_text(127);
                assert(ta == decimal_text(127));
            }
        } else if starts_with(t, "127."@) {
            assert(t.subrange(0, 4)[ta.len() as int] == t[ta.len() as int]);
            assert("127."@[1] == '2' && "127."@[2] == '7');
        }
        assert(!starts_with(t, "127."@));
    }
    let bc = quad_text(255, 255, 255, 255);
    assert(bc =~= "255.255.255.255"@);
    if a == 255 && b == 255 && c == 255 && d == 255 {
        assert(t == bc);
    } else if t == bc {
        lemma_quad_pieces(255, 255, 255, 255);
        lemma_decimal_text(255);
        assert(pieces(t, '.') == pieces(bc, '.'));
        assert(false);
    }
}

} // verus!
