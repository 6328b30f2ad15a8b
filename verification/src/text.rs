//! Byte-level text helpers: ASCII case-insensitive matching, splitting on a
//! separator, integer parsing with the rules of Rust's `u8::from_str_radix`,
//! and fixed-width number formatting.

use vstd::prelude::*;

verus! {

/// The byte of '.'.
pub const DOT: u8 = 46;

/// The byte of '+'.
pub const PLUS: u8 = 43;

/// Lowercase an ASCII letter; every other byte is unchanged.
pub open spec fn ascii_lower(b: u8) -> u8 {
    if 65 <= b && b <= 90 {
        (b + 32) as u8
    } else {
        b
    }
}

/// `s` begins with `p` when ASCII letters of `s` are compared without case
/// (`p` is given in lowercase).
pub open spec fn starts_with_ci(s: Seq<u8>, p: Seq<u8>) -> bool {
    &&& p.len() <= s.len()
    &&& forall|i: int| 0 <= i < p.len() ==> ascii_lower(#[trigger] s[i]) == p[i]
}

/// `s` equals `p` when ASCII letters of `s` are compared without case.
pub open spec fn equals_ci(s: Seq<u8>, p: Seq<u8>) -> bool {
    s.len() == p.len() && starts_with_ci(s, p)
}

/// `s` begins with exactly the bytes of `p`.
pub open spec fn starts_with(s: Seq<u8>, p: Seq<u8>) -> bool {
    &&& p.len() <= s.len()
    &&& forall|i: int| 0 <= i < p.len() ==> #[trigger] s[i] == p[i]
}

/// Lowercase one ASCII letter.
pub fn to_ascii_lower(b: u8) -> (r: u8)
    ensures
        r == ascii_lower(b),
{
    if 65 <= b && b <= 90 {
        b + 32
    } else {
        b
    }
}

/// Whether `s` begins with `p`, ignoring the case of ASCII letters of `s`.
pub fn bytes_start_with_ci(s: &[u8], p: &[u8]) -> (r: bool)
    ensures
        r == starts_with_ci(s@, p@),
{
    if p.len() > s.len() {
        return false;
    }
    let mut i: usize = 0;
    while i < p.len()
        invariant
            i <= p.len(),
            p.len() <= s.len(),
            forall|j: int| 0 <= j < i ==> ascii_lower(#[trigger] s@[j]) == p@[j],
        decreases p.len() - i,
    {
        if to_ascii_lower(s[i]) != p[i] {
            return false;
        }
        i = i + 1;
    }
    true
}

/// Whether `s` equals `p`, ignoring the case of ASCII letters of `s`.
pub fn bytes_equal_ci(s: &[u8], p: &[u8]) -> (r: bool)
    ensures
        r == equals_ci(s@, p@),
{
    s.len() == p.len() && bytes_start_with_ci(s, p)
}

/// Whether `s` begins with exactly the bytes of `p`.
pub fn bytes_start_with(s: &[u8], p: &[u8]) -> (r: bool)
    ensures
        r == starts_with(s@, p@),
{
    if p.len() > s.len() {
        return false;
    }
    let mut i: usize = 0;
    while i < p.len()
        invariant
            i <= p.len(),
            p.len() <= s.len(),
            forall|j: int| 0 <= j < i ==> #[trigger] s@[j] == p@[j],
        decreases p.len() - i,
    {
        if s[i] != p[i] {
            return false;
        }
        i = i + 1;
    }
    true
}

/// Whether `s` and `p` hold the same bytes.
pub fn bytes_equal(s: &[u8], p: &[u8]) -> (r: bool)
    ensures
        r == (s@ == p@),
{
    if s.len() != p.len() {
        return false;
    }
    let r = bytes_start_with(s, p);
    if r {
        assert(s@ =~= p@);
    }
    r
}

// ----------------------------------------------------------------------------
// Splitting
// ----------------------------------------------------------------------------

/// The pieces of `s` between occurrences of `sep`, as `str::split` yields
/// them: one more piece than there are separators, empty pieces included.
pub open spec fn split_on(s: Seq<u8>, sep: u8) -> Seq<Seq<u8>>
    decreases s.len(),
{
    if s.len() == 0 {
        seq![Seq::<u8>::empty()]
    } else {
        let prev = split_on(s.drop_last(), sep);
        if s.last() == sep {
            prev.push(Seq::<u8>::empty())
        } else {
            prev.update(prev.len() - 1, prev.last().push(s.last()))
        }
    }
}

/// A split always yields at least one piece.
pub proof fn lemma_split_nonempty(s: Seq<u8>, sep: u8)
    ensures
        split_on(s, sep).len() >= 1,
    decreases s.len(),
{
    if s.len() > 0 {
        lemma_split_nonempty(s.drop_last(), sep);
    }
}

/// The ranges of `s` that `split_on` yields, as half-open byte ranges.
pub fn split_ranges(s: &[u8], sep: u8) -> (r: Vec<(usize, usize)>)
    ensures
        r@.len() == split_on(s@, sep).len(),
        forall|k: int|
            0 <= k < r@.len() ==> {
                &&& (#[trigger] r@[k]).0 <= r@[k].1
                &&& r@[k].1 <= s@.len()
                &&& s@.subrange(r@[k].0 as int, r@[k].1 as int) == split_on(s@, sep)[k]
            },
{
    let mut parts: Vec<(usize, usize)> = Vec::new();
    let mut start: usize = 0;
    let mut i: usize = 0;
    while i < s.len()
        invariant
            i <= s.len(),
            start <= i,
            split_on(s@.take(i as int), sep).len() == parts@.len() + 1,
            forall|k: int|
                0 <= k < parts@.len() ==> {
                    &&& (#[trigger] parts@[k]).0 <= parts@[k].1
                    &&& parts@[k].1 <= i
                    &&& s@.subrange(parts@[k].0 as int, parts@[k].1 as int) == split_on(
                        s@.take(i as int),
                        sep,
                    )[k]
                },
            s@.subrange(start as int, i as int) == split_on(s@.take(i as int), sep).last(),
        decreases s.len() - i,
    {
        let ghost prev = split_on(s@.take(i as int), sep);
        proof {
            assert(s@.take(i + 1).drop_last() =~= s@.take(i as int));
            assert(s@.take(i + 1).last() == s@[i as int]);
            lemma_split_nonempty(s@.take(i as int), sep);
        }
        if s[i] == sep {
            parts.push((start, i));
            start = i + 1;
            proof {
                assert(s@.subrange(start as int, i + 1) =~= Seq::<u8>::empty());
            }
        } else {
            proof {
                assert(s@.subrange(start as int, i + 1) =~= s@.subrange(start as int, i as int).push(
                    s@[i as int],
                ));
            }
        }
        i = i + 1;
    }
    parts.push((start, i));
    proof {
        assert(s@.take(s@.len() as int) =~= s@);
    }
    parts
}

// ----------------------------------------------------------------------------
// Integer parsing
// ----------------------------------------------------------------------------

/// The value of digit `b` in `radix` (0-9, then letters of either case from
/// 10 on), as `char::to_digit` gives it.
pub open spec fn digit_value(b: u8, radix: nat) -> Option<nat> {
    let v: int = if 48 <= b && b <= 57 {
        b - 48
    } else if 97 <= b && b <= 122 {
        b - 97 + 10
    } else if 65 <= b && b <= 90 {
        b - 65 + 10
    } else {
        99
    };
    if v < radix {
        Some(v as nat)
    } else {
        None
    }
}

/// Every byte of `s` is a digit in `radix`.
pub open spec fn all_digits(s: Seq<u8>, radix: nat) -> bool {
    forall|i: int| 0 <= i < s.len() ==> (#[trigger] digit_value(s[i], radix)) is Some
}

/// The number that the digits of `s` spell in `radix`.
pub open spec fn digits_value(s: Seq<u8>, radix: nat) -> nat
    decreases s.len(),
{
    if s.len() == 0 {
        0
    } else {
        digits_value(s.drop_last(), radix) * radix + match digit_value(s.last(), radix) {
            Some(d) => d,
            None => 0,
        }
    }
}

/// What remains after an optional leading '+'.
pub open spec fn unsigned_body(s: Seq<u8>) -> Seq<u8> {
    if s.len() > 0 && s[0] == PLUS {
        s.drop_first()
    } else {
        s
    }
}

/// `u8::from_str_radix(s, radix)`: an optional '+', then at least one digit,
/// spelling a value no greater than 255.
pub open spec fn parse_u8_radix(s: Seq<u8>, radix: nat) -> Option<u8> {
    let body = unsigned_body(s);
    if body.len() > 0 && all_digits(body, radix) && digits_value(body, radix) <= 255 {
        Some(digits_value(body, radix) as u8)
    } else {
        None
    }
}

/// `s.parse::<u8>()`.
pub open spec fn parse_u8_dec(s: Seq<u8>) -> Option<u8> {
    parse_u8_radix(s, 10)
}

/// `u8::from_str_radix(s, 16)`.
pub open spec fn parse_u8_hex(s: Seq<u8>) -> Option<u8> {
    parse_u8_radix(s, 16)
}

/// Digit value of one byte.
fn digit_of(b: u8, radix: u32) -> (r: Option<u32>)
    requires
        radix == 10 || radix == 16,
    ensures
        r matches Some(v) ==> digit_value(b, radix as nat) == Some(v as nat) && v < radix,
        r is None ==> digit_value(b, radix as nat) is None,
{
    let v: u32 = if 48 <= b && b <= 57 {
        (b - 48) as u32
    } else if 97 <= b && b <= 122 {
        (b - 97) as u32 + 10
    } else if 65 <= b && b <= 90 {
        (b - 65) as u32 + 10
    } else {
        99
    };
    if v < radix {
        Some(v)
    } else {
        None
    }
}

/// A longer digit string never spells a smaller number.
proof fn lemma_digits_value_monotone(s: Seq<u8>, k: int, radix: nat)
    requires
        0 <= k <= s.len(),
        radix >= 1,
    ensures
        digits_value(s.take(k), radix) <= digits_value(s, radix),
    decreases s.len() - k,
{
    if k < s.len() {
        let t = s.take(k + 1);
        assert(t.drop_last() =~= s.take(k));
        let a = digits_value(s.take(k), radix);
        assert(a * radix >= a) by (nonlinear_arith)
            requires
                radix >= 1,
        ;
        assert(digits_value(t, radix) >= a);
        lemma_digits_value_monotone(s, k + 1, radix);
    } else {
        assert(s.take(k) =~= s);
    }
}

/// Parse `s` as `u8::from_str_radix(s, radix)` does.
pub fn parse_u8_radix_bytes(s: &[u8], radix: u32) -> (r: Option<u8>)
    requires
        radix == 10 || radix == 16,
    ensures
        r == parse_u8_radix(s@, radix as nat),
{
    let start: usize = if s.len() > 0 && s[0] == PLUS {
        1
    } else {
        0
    };
    let ghost body = unsigned_body(s@);
    proof {
        assert(body =~= s@.subrange(start as int, s@.len() as int));
    }
    if start == s.len() {
        return None;
    }
    let mut acc: u32 = 0;
    let mut i: usize = start;
    while i < s.len()
        invariant
            start <= i <= s.len(),
            radix == 10 || radix == 16,
            body == s@.subrange(start as int, s@.len() as int),
            body == unsigned_body(s@),
            acc <= 255,
            acc == digits_value(body.take(i - start), radix as nat),
            all_digits(body.take(i - start), radix as nat),
        decreases s.len() - i,
    {
        let ghost k: int = i - start;
        proof {
            assert(body.take(k + 1).drop_last() =~= body.take(k));
            assert(body.take(k + 1).last() == s@[i as int]);
        }
        match digit_of(s[i], radix) {
            None => {
                proof {
                    assert(digit_value(body[k], radix as nat) is None);
                }
                return None;
            },
            Some(d) => {
                assert(acc * radix <= 255 * 16) by (nonlinear_arith)
                    requires
                        acc <= 255,
                        radix <= 16,
                ;
                let next = acc * radix + d;
                proof {
                    assert(all_digits(body.take(k + 1), radix as nat)) by {
                        assert forall|j: int| 0 <= j < k + 1 implies (#[trigger] digit_value(
                            body.take(k + 1)[j],
                            radix as nat,
                        )) is Some by {
                            if j < k {
                                assert(body.take(k + 1)[j] == body.take(k)[j]);
                            }
                        }
                    }
                }
                if next > 255 {
                    proof {
                        assert(digits_value(body.take(k + 1), radix as nat) == next);
                        lemma_digits_value_monotone(body, k + 1, radix as nat);
                    }
                    return None;
                }
                acc = next;
            },
        }
        i = i + 1;
    }
    proof {
        assert(body.take(s@.len() - start) =~= body);
    }
    Some(acc as u8)
}

// ----------------------------------------------------------------------------
// Number formatting
// ----------------------------------------------------------------------------

/// Uppercase hexadecimal digit for 0..16.
pub open spec fn hex_upper_char(v: nat) -> char {
    if v < 10 {
        (v + 48) as char
    } else {
        (v - 10 + 65) as char
    }
}

/// Decimal digit for 0..10.
pub open spec fn dec_char(v: nat) -> char {
    (v + 48) as char
}

/// `format!("{:02X}", v)`: two uppercase hexadecimal digits.
pub open spec fn hex2_upper(v: u8) -> Seq<char> {
    seq![hex_upper_char(v as nat / 16), hex_upper_char(v as nat % 16)]
}

/// `format!("{}", v)`: the decimal digits of `v` without leading zeros.
pub open spec fn dec_u8(v: u8) -> Seq<char> {
    if v < 10 {
        seq![dec_char(v as nat)]
    } else if v < 100 {
        seq![dec_char(v as nat / 10), dec_char(v as nat % 10)]
    } else {
        seq![dec_char(v as nat / 100), dec_char((v as nat / 10) % 10), dec_char(v as nat % 10)]
    }
}

/// `format!("{:02}", v)`: decimal digits, zero-padded to at least two.
pub open spec fn dec2_u8(v: u8) -> Seq<char> {
    if v < 10 {
        seq!['0', dec_char(v as nat)]
    } else {
        dec_u8(v)
    }
}

/// `String::push` (std): appends the character to the string; the contract
/// says the text afterwards is the text before with `c` at the end, as the
/// documentation of `push` states.
#[verifier::external_body]
pub(crate) fn string_push(s: &mut String, c: char)
    ensures
        final(s)@ == old(s)@.push(c),
{
    s.push(c);
}

fn hex_digit_char(v: u8) -> (c: char)
    requires
        v < 16,
    ensures
        c == hex_upper_char(v as nat),
{
    if v < 10 {
        (v + 48) as char
    } else {
        (v - 10 + 65) as char
    }
}

fn dec_digit_char(v: u8) -> (c: char)
    requires
        v < 10,
    ensures
        c == dec_char(v as nat),
{
    (v + 48) as char
}

/// Append two uppercase hexadecimal digits of `v`.
pub fn push_hex2_upper(s: &mut String, v: u8)
    ensures
        final(s)@ == old(s)@ + hex2_upper(v),
{
    string_push(s, hex_digit_char(v / 16));
    string_push(s, hex_digit_char(v % 16));
    assert(s@ =~= old(s)@ + hex2_upper(v));
}

/// Append the decimal digits of `v`.
pub fn push_dec_u8(s: &mut String, v: u8)
    ensures
        final(s)@ == old(s)@ + dec_u8(v),
{
    if v < 10 {
        string_push(s, dec_digit_char(v));
    } else if v < 100 {
        string_push(s, dec_digit_char(v / 10));
        string_push(s, dec_digit_char(v % 10));
    } else {
        string_push(s, dec_digit_char(v / 100));
        string_push(s, dec_digit_char((v / 10) % 10));
        string_push(s, dec_digit_char(v % 10));
    }
    assert(s@ =~= old(s)@ + dec_u8(v));
}

/// Append the decimal digits of `v`, zero-padded to at least two.
pub fn push_dec2_u8(s: &mut String, v: u8)
    ensures
        final(s)@ == old(s)@ + dec2_u8(v),
{
    if v < 10 {
        string_push(s, '0');
        string_push(s, dec_digit_char(v));
        assert(s@ =~= old(s)@ + dec2_u8(v));
    } else {
        push_dec_u8(s, v);
    }
}

/// The decimal digits of `n`.
pub open spec fn dec_nat(n: nat) -> Seq<char>
    decreases n,
{
    if n < 10 {
        seq![dec_char(n)]
    } else {
        dec_nat(n / 10) + seq![dec_char(n % 10)]
    }
}

/// The decimal form of `x`, with a leading minus sign when negative.
pub open spec fn dec_int(x: int) -> Seq<char> {
    if x < 0 {
        seq!['-'] + dec_nat((-x) as nat)
    } else {
        dec_nat(x as nat)
    }
}

/// Append the decimal digits of `n`.
pub fn push_dec_u64(s: &mut String, n: u64)
    ensures
        final(s)@ == old(s)@ + dec_nat(n as nat),
    decreases n,
{
    if n >= 10 {
        push_dec_u64(s, n / 10);
    }
    string_push(s, (((n % 10) as u8) + 48) as char);
    assert(s@ =~= old(s)@ + dec_nat(n as nat));
}

/// Append the decimal digits of `n`.
pub fn push_dec_u128(s: &mut String, n: u128)
    ensures
        final(s)@ == old(s)@ + dec_nat(n as nat),
    decreases n,
{
    if n >= 10 {
        push_dec_u128(s, n / 10);
    }
    string_push(s, (((n % 10) as u8) + 48) as char);
    assert(s@ =~= old(s)@ + dec_nat(n as nat));
}

/// Append the decimal form of `x`.
pub fn push_dec_i64(s: &mut String, x: i64)
    ensures
        final(s)@ == old(s)@ + dec_int(x as int),
{
    if x < 0 {
        string_push(s, '-');
        let m: u64 = if x == i64::MIN {
            0x8000_0000_0000_0000u64
        } else {
            (-x) as u64
        };
        push_dec_u64(s, m);
    } else {
        push_dec_u64(s, x as u64);
    }
    assert(s@ =~= old(s)@ + dec_int(x as int));
}

/// The hexadecimal digit for `v` (below 16), in upper or lower case.
pub open spec fn hex_digit(v: nat, upper: bool) -> u8 {
    if v < 10 {
        (48 + v) as u8
    } else if upper {
        (55 + v) as u8
    } else {
        (87 + v) as u8
    }
}

/// The two hexadecimal digits of a byte.
pub open spec fn hex2(x: u8, upper: bool) -> Seq<u8> {
    seq![hex_digit((x / 16) as nat, upper), hex_digit((x % 16) as nat, upper)]
}

/// Two hexadecimal digits, in either case, parse back to the byte they
/// spell.
pub proof fn lemma_parse_hex2(x: u8, upper: bool)
    ensures
        parse_u8_hex(hex2(x, upper)) == Some(x),
{
    let h = (x / 16) as nat;
    let l = (x % 16) as nat;
    let s = hex2(x, upper);
    assert(h < 16 && l < 16 && h * 16 + l == x) by (nonlinear_arith)
        requires
            h == x / 16,
            l == x % 16,
    ;
    assert(digit_value(s[0], 16) == Some(h));
    assert(digit_value(s[1], 16) == Some(l));
    assert(unsigned_body(s) == s);
    assert(s.drop_last().drop_last() =~= Seq::<u8>::empty());
    assert(s.drop_last().last() == s[0]);
    assert(digits_value(s.drop_last().drop_last(), 16) == 0);
    assert(digit_value(s.drop_last().last(), 16) == Some(h));
    assert(digits_value(s.drop_last(), 16) == h);
    assert(s.last() == s[1]);
    assert(digits_value(s, 16) == h * 16 + l);
}

/// Splitting around one separator splits each side.
pub proof fn lemma_split_concat(a: Seq<u8>, sep: u8, b: Seq<u8>)
    ensures
        split_on(a + seq![sep] + b, sep) == split_on(a, sep) + split_on(b, sep),
    decreases b.len(),
{
    let whole = a + seq![sep] + b;
    if b.len() == 0 {
        assert(whole.drop_last() =~= a);
        assert(split_on(a, sep).push(Seq::<u8>::empty()) =~= split_on(a, sep) + split_on(b, sep));
    } else {
        let b1 = b.drop_last();
        lemma_split_concat(a, sep, b1);
        lemma_split_nonempty(b1, sep);
        assert(whole.drop_last() =~= a + seq![sep] + b1);
        assert(whole.last() == b.last());
        let pa = split_on(a, sep);
        let pb = split_on(b1, sep);
        if b.last() == sep {
            assert((pa + pb).push(Seq::<u8>::empty()) =~= pa + pb.push(Seq::<u8>::empty()));
        } else {
            let prev = pa + pb;
            assert(prev.last() == pb.last());
            assert(prev.update(prev.len() - 1, prev.last().push(b.last())) =~= pa + pb.update(
                pb.len() - 1,
                pb.last().push(b.last()),
            ));
        }
    }
}

/// Bytes without the separator stay one piece.
pub proof fn lemma_split_none(s: Seq<u8>, sep: u8)
    requires
        forall|i: int| 0 <= i < s.len() ==> s[i] != sep,
    ensures
        split_on(s, sep) == seq![s],
    decreases s.len(),
{
    if s.len() == 0 {
        assert(s =~= Seq::<u8>::empty());
        assert(split_on(s, sep) =~= seq![s]);
    } else {
        lemma_split_none(s.drop_last(), sep);
        assert(s.last() == s[s.len() - 1]);
        assert(s.drop_last().push(s.last()) =~= s);
        assert(split_on(s, sep) =~= seq![s]);
    }
}

/// The two decimal digits of a number below 100.
pub open spec fn dec2(x: u8) -> Seq<u8> {
    seq![(48 + x / 10) as u8, (48 + x % 10) as u8]
}

/// Two decimal digits parse back to the number they spell.
pub proof fn lemma_parse_dec2(x: u8)
    requires
        x < 100,
    ensures
        parse_u8_dec(dec2(x)) == Some(x),
{
    let h = (x / 10) as nat;
    let l = (x % 10) as nat;
    let s = dec2(x);
    assert(h < 10 && l < 10 && h * 10 + l == x) by (nonlinear_arith)
        requires
            h == x / 10,
            l == x % 10,
            x < 100,
    ;
    assert(digit_value(s[0], 10) == Some(h));
    assert(digit_value(s[1], 10) == Some(l));
    assert(unsigned_body(s) == s);
    assert(s.drop_last().drop_last() =~= Seq::<u8>::empty());
    assert(s.drop_last().last() == s[0]);
    assert(digits_value(s.drop_last().drop_last(), 10) == 0);
    assert(digit_value(s.drop_last().last(), 10) == Some(h));
    assert(digits_value(s.drop_last(), 10) == h);
    assert(s.last() == s[1]);
}

} // verus!
