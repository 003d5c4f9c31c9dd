use vstd::prelude::*;

use crate::model::uint256::{Uint256, p64, p128, p192, p256};

verus! {

// ---------------------------------------------------------------------------
// Hexadecimal numerals as mathematical values.
// ---------------------------------------------------------------------------

/// Whether `c` is an ASCII hex digit: `0`-`9` (48-57), `a`-`f` (97-102)
/// or `A`-`F` (65-70).
pub open spec fn is_hex_digit(c: char) -> bool {
    (48 <= c as u32 && c as u32 <= 57)
    || (97 <= c as u32 && c as u32 <= 102)
    || (65 <= c as u32 && c as u32 <= 70)
}

/// The numeric value of a hex digit; either case of `a`-`f` counts alike.
pub open spec fn hex_digit_val(c: char) -> int {
    if 48 <= c as u32 && c as u32 <= 57 {
        c as u32 - 48
    } else if 97 <= c as u32 && c as u32 <= 102 {
        c as u32 - 87
    } else if 65 <= c as u32 && c as u32 <= 70 {
        c as u32 - 55
    } else {
        0
    }
}

/// The value of a big-endian sequence of hex digits.
pub open spec fn hex_val(s: Seq<char>) -> int
    decreases s.len(),
{
    if s.len() == 0 {
        0
    } else {
        hex_val(s.drop_last()) * 16 + hex_digit_val(s.last())
    }
}

/// The value of a big-endian sequence of nibbles (each below 16).
pub open spec fn nibbles_val(s: Seq<u8>) -> int
    decreases s.len(),
{
    if s.len() == 0 {
        0
    } else {
        nibbles_val(s.drop_last()) * 16 + s.last()
    }
}

/// 16 to the power `n`.
pub open spec fn pow16(n: nat) -> int
    decreases n,
{
    if n == 0 {
        1
    } else {
        16 * pow16((n - 1) as nat)
    }
}

/// The numeral with one `0x` prefix removed, when present.
pub open spec fn strip_hex_prefix(s: Seq<char>) -> Seq<char> {
    if s.len() >= 2 && s[0] == '0' && s[1] == 'x' {
        s.skip(2)
    } else {
        s
    }
}

pub open spec fn all_hex_digits(s: Seq<char>) -> bool {
    forall|i: int| 0 <= i < s.len() ==> is_hex_digit(#[trigger] s[i])
}

/// A well-formed hex numeral: an optional `0x` prefix followed by at least
/// one hex digit.
pub open spec fn valid_hex_string(s: Seq<char>) -> bool {
    strip_hex_prefix(s).len() > 0 && all_hex_digits(strip_hex_prefix(s))
}

/// A numeral that parses into a 256-bit integer: well formed, value below 2^256.
pub open spec fn hex_parses(s: Seq<char>) -> bool {
    valid_hex_string(s) && hex_val(strip_hex_prefix(s)) < p256()
}

/// The value a numeral names.
pub open spec fn hex_value(s: Seq<char>) -> int {
    hex_val(strip_hex_prefix(s))
}

/// Two characters that are the same hex digit up to letter case, or equal.
pub open spec fn hex_case_eq(c: char, d: char) -> bool {
    c == d
    || (65 <= c as u32 && c as u32 <= 70 && d as u32 == c as u32 + 32)
    || (65 <= d as u32 && d as u32 <= 70 && c as u32 == d as u32 + 32)
}

// ---------------------------------------------------------------------------
// Arithmetic facts about the numeral value.
// ---------------------------------------------------------------------------

pub proof fn lemma_pow16_pos(n: nat)
    ensures
        pow16(n) >= 1,
    decreases n,
{
    if n > 0 {
        lemma_pow16_pos((n - 1) as nat);
    }
}

pub proof fn lemma_pow16_mono(m: nat, n: nat)
    requires
        m <= n,
    ensures
        pow16(m) <= pow16(n),
    decreases n,
{
    if m < n {
        lemma_pow16_mono(m, (n - 1) as nat);
        lemma_pow16_pos((n - 1) as nat);
    }
}

pub proof fn lemma_pow16_adds(a: nat, b: nat)
    ensures
        pow16(a + b) == pow16(a) * pow16(b),
    decreases b,
{
    if b == 0 {
        assert(pow16(a + 0) == pow16(a) * 1);
    } else {
        lemma_pow16_adds(a, (b - 1) as nat);
        assert(a + b == (a + (b - 1) as nat) + 1);
        assert(pow16(a + b) == 16 * pow16(a + (b - 1) as nat));
        assert(16 * (pow16(a) * pow16((b - 1) as nat)) == pow16(a) * (16 * pow16(
            (b - 1) as nat,
        ))) by (nonlinear_arith);
    }
}

/// The concrete powers the four limbs stand at.
pub proof fn lemma_pow16_limb_values()
    ensures
        pow16(16) == p64(),
        pow16(32) == p128(),
        pow16(48) == p192(),
        pow16(64) == p256(),
{
    reveal_with_fuel(pow16, 17);
    assert(pow16(16) == p64());
    lemma_pow16_adds(16, 16);
    assert(pow16(32) == p128());
    lemma_pow16_adds(32, 16);
    assert(pow16(48) == p192());
    lemma_pow16_adds(48, 16);
    assert(pow16(64) == p256());
}

pub proof fn lemma_nibbles_val_bounds(s: Seq<u8>)
    requires
        forall|i: int| 0 <= i < s.len() ==> #[trigger] s[i] < 16,
    ensures
        0 <= nibbles_val(s) < pow16(s.len()),
    decreases s.len(),
{
    if s.len() > 0 {
        let s1 = s.drop_last();
        lemma_nibbles_val_bounds(s1);
        assert(nibbles_val(s1) * 16 <= (pow16(s1.len()) - 1) * 16) by (nonlinear_arith)
            requires
                nibbles_val(s1) <= pow16(s1.len()) - 1,
        ;
        assert(nibbles_val(s1) * 16 >= 0) by (nonlinear_arith)
            requires
                nibbles_val(s1) >= 0,
        ;
    }
}

pub proof fn lemma_nibbles_val_zero(s: Seq<u8>)
    requires
        forall|i: int| 0 <= i < s.len() ==> #[trigger] s[i] == 0,
    ensures
        nibbles_val(s) == 0,
    decreases s.len(),
{
    if s.len() > 0 {
        lemma_nibbles_val_zero(s.drop_last());
    }
}

/// Splitting a numeral: the head digits count for a power of 16 per tail digit.
pub proof fn lemma_nibbles_val_split(a: Seq<u8>, b: Seq<u8>)
    ensures
        nibbles_val(a + b) == nibbles_val(a) * pow16(b.len()) + nibbles_val(b),
    decreases b.len(),
{
    if b.len() == 0 {
        assert(a + b =~= a);
        assert(nibbles_val(a) * 1 == nibbles_val(a));
    } else {
        let b1 = b.drop_last();
        lemma_nibbles_val_split(a, b1);
        assert((a + b).drop_last() =~= a + b1);
        assert((a + b).last() == b.last());
        assert((nibbles_val(a) * pow16(b1.len()) + nibbles_val(b1)) * 16 == nibbles_val(a) * (16
            * pow16(b1.len())) + nibbles_val(b1) * 16) by (nonlinear_arith);
        assert(pow16(b.len()) == 16 * pow16(b1.len()));
    }
}

/// Digit-wise agreement between a hex text and its nibble values gives the
/// same numeral value.
pub proof fn lemma_hex_val_as_nibbles(s: Seq<char>, t: Seq<u8>)
    requires
        s.len() == t.len(),
        forall|i: int| 0 <= i < s.len() ==> #[trigger] t[i] == hex_digit_val(s[i]),
    ensures
        hex_val(s) == nibbles_val(t),
    decreases s.len(),
{
    if s.len() > 0 {
        lemma_hex_val_as_nibbles(s.drop_last(), t.drop_last());
        assert(t.last() == hex_digit_val(s.last()));
    }
}

/// Leading zero digits do not change the value.
proof fn lemma_skip_leading_zeros(s: Seq<u8>, z: int)
    requires
        0 <= z <= s.len(),
        forall|j: int| 0 <= j < z ==> #[trigger] s[j] == 0,
    ensures
        nibbles_val(s) == nibbles_val(s.skip(z)),
{
    let a = s.take(z);
    let b = s.skip(z);
    assert(s =~= a + b);
    assert forall|j: int| 0 <= j < a.len() implies #[trigger] a[j] == 0 by {
        assert(a[j] == s[j]);
    }
    lemma_nibbles_val_zero(a);
    lemma_nibbles_val_split(a, b);
}

/// A nonzero digit more than 64 places from the end pushes the value to
/// 2^256 or beyond.
proof fn lemma_long_numeral_overflows(rest: Seq<u8>)
    requires
        rest.len() > 64,
        rest[0] != 0,
        forall|j: int| 0 <= j < rest.len() ==> #[trigger] rest[j] < 16,
    ensures
        nibbles_val(rest) >= p256(),
{
    let a = rest.take(1);
    let b = rest.skip(1);
    assert(rest =~= a + b);
    lemma_nibbles_val_split(a, b);
    assert(a.drop_last() =~= Seq::<u8>::empty());
    assert(a.last() == rest[0]);
    assert(nibbles_val(Seq::<u8>::empty()) == 0);
    assert(nibbles_val(a) == rest[0]);
    assert forall|j: int| 0 <= j < b.len() implies #[trigger] b[j] < 16 by {
        assert(b[j] == rest[j + 1]);
    }
    lemma_nibbles_val_bounds(b);
    lemma_pow16_mono(64, b.len() as nat);
    lemma_pow16_limb_values();
    assert(nibbles_val(a) * pow16(b.len()) >= p256()) by (nonlinear_arith)
        requires
            nibbles_val(a) >= 1,
            pow16(b.len()) >= p256(),
            p256() >= 0,
    ;
}

/// A 64-digit numeral decomposes into four 16-digit limbs.
proof fn lemma_limbs_assemble(p: Seq<u8>)
    requires
        p.len() == 64,
    ensures
        nibbles_val(p) == nibbles_val(p.subrange(0, 16)) * p192() + nibbles_val(
            p.subrange(16, 32),
        ) * p128() + nibbles_val(p.subrange(32, 48)) * p64() + nibbles_val(p.subrange(48, 64)),
{
    let v3 = nibbles_val(p.subrange(0, 16));
    let v2 = nibbles_val(p.subrange(16, 32));
    let v1 = nibbles_val(p.subrange(32, 48));
    let v0 = nibbles_val(p.subrange(48, 64));
    lemma_pow16_limb_values();
    assert(p.subrange(0, 32) =~= p.subrange(0, 16) + p.subrange(16, 32));
    lemma_nibbles_val_split(p.subrange(0, 16), p.subrange(16, 32));
    assert(p.subrange(0, 48) =~= p.subrange(0, 32) + p.subrange(32, 48));
    lemma_nibbles_val_split(p.subrange(0, 32), p.subrange(32, 48));
    assert(p =~= p.subrange(0, 48) + p.subrange(48, 64));
    lemma_nibbles_val_split(p.subrange(0, 48), p.subrange(48, 64));
    assert(nibbles_val(p) == ((v3 * p64() + v2) * p64() + v1) * p64() + v0);
    assert(((v3 * p64() + v2) * p64() + v1) * p64() + v0 == v3 * (p64() * p64() * p64()) + v2 * (
    p64() * p64()) + v1 * p64() + v0) by (nonlinear_arith);
    assert(p64() * p64() == p128());
    assert(p64() * p64() * p64() == p128() * p64()) by (nonlinear_arith)
        requires
            p64() * p64() == p128(),
    ;
    assert(p128() * p64() == p192());
}

proof fn lemma_hex_val_case_insensitive(s: Seq<char>, t: Seq<char>)
    requires
        s.len() == t.len(),
        forall|i: int| 0 <= i < s.len() ==> hex_case_eq(#[trigger] s[i], t[i]),
    ensures
        all_hex_digits(s) == all_hex_digits(t),
        hex_val(s) == hex_val(t),
    decreases s.len(),
{
    assert forall|i: int| 0 <= i < s.len() implies is_hex_digit(#[trigger] s[i]) == is_hex_digit(
        t[i],
    ) && hex_digit_val(s[i]) == hex_digit_val(t[i]) by {
        assert(hex_case_eq(s[i], t[i]));
    }
    if all_hex_digits(s) {
        assert forall|i: int| 0 <= i < t.len() implies is_hex_digit(#[trigger] t[i]) by {
            assert(is_hex_digit(s[i]));
        }
    }
    if all_hex_digits(t) {
        assert forall|i: int| 0 <= i < s.len() implies is_hex_digit(#[trigger] s[i]) by {
            assert(is_hex_digit(t[i]));
        }
    }
    if s.len() > 0 {
        lemma_hex_val_case_insensitive(s.drop_last(), t.drop_last());
    }
}

/// Parsing is case-insensitive: two numerals whose characters agree up to
/// the case of hex letters are equally well formed and name the same value.
/// With the exact value stated in `hex_string_to_u256`'s contract this also
/// makes parsing idempotent: parsing the same text twice gives one value.
pub proof fn lemma_hex_parse_case_insensitive(s: Seq<char>, t: Seq<char>)
    requires
        s.len() == t.len(),
        forall|i: int| 0 <= i < s.len() ==> hex_case_eq(#[trigger] s[i], t[i]),
    ensures
        valid_hex_string(s) == valid_hex_string(t),
        hex_parses(s) == hex_parses(t),
        hex_value(s) == hex_value(t),
{
    let ss = strip_hex_prefix(s);
    let tt = strip_hex_prefix(t);
    if s.len() >= 2 {
        assert(hex_case_eq(s[0], t[0]));
        assert(hex_case_eq(s[1], t[1]));
        assert(s[0] == '0' <==> t[0] == '0');
        assert(s[1] == 'x' <==> t[1] == 'x');
    }
    if s.len() >= 2 && s[0] == '0' && s[1] == 'x' {
        assert(ss == s.skip(2) && tt == t.skip(2));
        assert forall|i: int| 0 <= i < ss.len() implies hex_case_eq(#[trigger] ss[i], tt[i]) by {
            assert(ss[i] == s[i + 2] && tt[i] == t[i + 2]);
        }
        lemma_hex_val_case_insensitive(ss, tt);
    } else {
        lemma_hex_val_case_insensitive(s, t);
    }
}

// ---------------------------------------------------------------------------
// Parsing a hex numeral into a Uint256.
// ---------------------------------------------------------------------------

/// Why a hex numeral was rejected.
#[derive(Clone, Copy, PartialEq, Eq, Structural, Debug)]
pub enum HexParseError {
    /// The text is not an optional `0x` prefix followed by hex digits.
    Malformed,
    /// The digits name a value of 2^256 or more.
    Overflow,
}

/// Parse one group of 16 nibbles of a 64-nibble numeral into a limb.
fn parse_limb(d: &Vec<u8>, off: usize) -> (r: u64)
    requires
        d@.len() == 64,
        off + 16 <= 64,
        forall|i: int| 0 <= i < d@.len() ==> #[trigger] d@[i] < 16,
    ensures
        r == nibbles_val(d@.subrange(off as int, off as int + 16)),
{
    let mut acc: u64 = 0;
    let mut k: usize = 0;
    while k < 16
        invariant
            k <= 16,
            d@.len() == 64,
            off + 16 <= 64,
            forall|i: int| 0 <= i < d@.len() ==> #[trigger] d@[i] < 16,
            acc == nibbles_val(d@.subrange(off as int, off as int + k)),
            acc < pow16(k as nat),
        decreases 16 - k,
    {
        proof {
            lemma_pow16_mono(k as nat, 15);
            reveal_with_fuel(pow16, 17);
            assert(acc < 0x1000000000000000);
        }
        let digit = d[off + k];
        let next = acc * 16 + (digit as u64);
        proof {
            let g = d@.subrange(off as int, off as int + k);
            let g2 = d@.subrange(off as int, off as int + k + 1);
            assert(g2.drop_last() =~= g);
            assert(g2.last() == d@[off + k]);
            assert forall|i: int| 0 <= i < g2.len() implies #[trigger] g2[i] < 16 by {
                assert(g2[i] == d@[off + i]);
            }
            lemma_nibbles_val_bounds(g2);
        }
        acc = next;
        k = k + 1;
    }
    acc
}

/// Parse a hex numeral, as the amounts and liquidity values on the wire
/// carry it, into a 256-bit integer. An optional `0x` prefix is accepted
/// and digits of either case count alike; the result is exactly the value
/// of the digits. Text that is not a hex numeral is `Malformed`; a value
/// of 2^256 or more is `Overflow`.
pub fn hex_string_to_u256(hex_string: &str) -> (r: Result<Uint256, HexParseError>)
    ensures
        r is Ok <==> valid_hex_string(hex_string@) && hex_val(strip_hex_prefix(hex_string@))
            < p256(),
        r is Ok ==> r->Ok_0.val() == hex_val(strip_hex_prefix(hex_string@)),
        r is Err ==> ((r->Err_0 == HexParseError::Malformed) <==> !valid_hex_string(hex_string@)),
{
    let ghost s = hex_string@;
    let n = hex_string.unicode_len();
    let start: usize = if n >= 2 && hex_string.get_char(0) == '0' && hex_string.get_char(1) == 'x' {
        2
    } else {
        0
    };
    let ghost stripped = strip_hex_prefix(s);
    proof {
        assert(stripped =~= s.skip(start as int));
    }
    if n == start {
        return Err(HexParseError::Malformed);
    }

    // Read every digit; any other character makes the numeral malformed.
    let mut nibbles: Vec<u8> = Vec::new();
    let mut i: usize = start;
    while i < n
        invariant
            start <= i <= n,
            s == hex_string@,
            n == s.len(),
            stripped == strip_hex_prefix(s),
            stripped == s.skip(start as int),
            stripped.len() == n - start,
            nibbles@.len() == i - start,
            forall|j: int| 0 <= j < i - start ==> is_hex_digit(#[trigger] stripped[j]),
            forall|j: int|
                0 <= j < i - start ==> #[trigger] nibbles@[j] == hex_digit_val(stripped[j])
                    && nibbles@[j] < 16,
        decreases n - i,
    {
        let c = hex_string.get_char(i);
        let u = c as u32;
        let digit: u8 = if 48 <= u && u <= 57 {
            (u - 48) as u8
        } else if 97 <= u && u <= 102 {
            (u - 87) as u8
        } else if 65 <= u && u <= 70 {
            (u - 55) as u8
        } else {
            proof {
                assert(stripped[i - start] == s[i as int]);
                assert(!is_hex_digit(stripped[i - start]));
            }
            return Err(HexParseError::Malformed);
        };
        proof {
            assert(stripped[i - start] == s[i as int]);
        }
        nibbles.push(digit);
        i = i + 1;
    }
    assert(all_hex_digits(stripped));
    assert(valid_hex_string(s));
    proof {
        lemma_hex_val_as_nibbles(stripped, nibbles@);
    }

    // Leading zero digits do not change the value.
    let total = nibbles.len();
    let mut z: usize = 0;
    while z < total && nibbles[z] == 0
        invariant
            z <= total,
            total == nibbles@.len(),
            forall|j: int| 0 <= j < z ==> #[trigger] nibbles@[j] == 0,
        decreases total - z,
    {
        z = z + 1;
    }
    proof {
        lemma_skip_leading_zeros(nibbles@, z as int);
    }
    let ghost rest = nibbles@.skip(z as int);

    let m = total - z;
    if m > 64 {
        proof {
            assert(rest[0] == nibbles@[z as int]);
            assert(rest[0] != 0);
            lemma_long_numeral_overflows(rest);
        }
        return Err(HexParseError::Overflow);
    }

    // Left-pad the digits with zeros to exactly four limbs of 16 nibbles.
    let pad = 64 - m;
    let mut padded: Vec<u8> = Vec::new();
    let mut k: usize = 0;
    while k < pad
        invariant
            k <= pad,
            padded@.len() == k,
            forall|j: int| 0 <= j < k ==> #[trigger] padded@[j] == 0,
        decreases pad - k,
    {
        padded.push(0);
        k = k + 1;
    }
    let ghost zeros = padded@;
    let mut j: usize = z;
    while j < total
        invariant
            z <= j <= total,
            total == nibbles@.len(),
            zeros.len() == pad,
            pad + m == 64,
            m == total - z,
            forall|q: int| 0 <= q < nibbles@.len() ==> #[trigger] nibbles@[q] < 16,
            padded@ == zeros + nibbles@.subrange(z as int, j as int),
        decreases total - j,
    {
        padded.push(nibbles[j]);
        proof {
            assert(padded@ =~= zeros + nibbles@.subrange(z as int, j + 1 as int));
        }
        j = j + 1;
    }
    proof {
        assert(nibbles@.subrange(z as int, total as int) =~= rest);
        lemma_nibbles_val_split(zeros, rest);
        assert forall|q: int| 0 <= q < zeros.len() implies #[trigger] zeros[q] == 0 by {
        }
        lemma_nibbles_val_zero(zeros);
        assert(nibbles_val(padded@) == nibbles_val(rest));
        assert(padded@.len() == 64);
        assert forall|q: int| 0 <= q < padded@.len() implies #[trigger] padded@[q] < 16 by {
            if q >= pad {
                assert(padded@[q] == nibbles@[q - pad + z]);
            }
        }
    }

    let w3 = parse_limb(&padded, 0);
    let w2 = parse_limb(&padded, 16);
    let w1 = parse_limb(&padded, 32);
    let w0 = parse_limb(&padded, 48);
    let r = Uint256 { w0, w1, w2, w3 };
    proof {
        lemma_limbs_assemble(padded@);
        assert(r.val() == nibbles_val(padded@));
        // The parsed value lies below 2^256.
        assert forall|q: int| 0 <= q < rest.len() implies #[trigger] rest[q] < 16 by {
            assert(rest[q] == nibbles@[q + z]);
        }
        lemma_nibbles_val_bounds(rest);
        lemma_pow16_mono(rest.len() as nat, 64);
        lemma_pow16_limb_values();
    }
    Ok(r)
}

} // verus!
