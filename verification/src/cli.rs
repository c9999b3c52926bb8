//! The values that the frontend's command line carries: 32-bit numbers in
//! decimal or `0x` hexadecimal, MIPS register names and numbers,
//! `ADDR=VALUE` and `REG=VALUE` pairs, and disc sector sizes.
//!
//! Text is read as its UTF-8 bytes; white space is the ASCII white space
//! that `str::trim` strips.
use crate::cdrom::CdromSectorSize;
use vstd::prelude::*;
use vstd::string::StringSliceAdditionalSpecFns;

verus! {

/// Why a command-line value was refused.
#[derive(Debug, Clone, Copy, PartialEq, Eq, Structural)]
pub enum CliError {
    /// Not a number: decimal, or hexadecimal after `0x`, that fits in 32 bits.
    InvalidNumber,
    /// A pair without its `=`.
    MissingSeparator,
    /// Neither a register name nor a register number.
    InvalidRegister,
    /// A register number above 31.
    RegisterOutOfRange,
    /// A sector size other than 2048 or 2352.
    InvalidSectorSize,
}

// ---------------------------------------------------------------------------
// The text model: trimming, searching, digits.
// ---------------------------------------------------------------------------

/// ASCII white space: space, tab, line feed, vertical tab, form feed and
/// carriage return.
pub open spec fn is_space(b: u8) -> bool {
    b == ' ' as u8 || (0x09 <= b && b <= 0x0d)
}

pub open spec fn trim_start(s: Seq<u8>) -> Seq<u8>
    decreases s.len(),
{
    if s.len() > 0 && is_space(s[0]) {
        trim_start(s.skip(1))
    } else {
        s
    }
}

pub open spec fn trim_end(s: Seq<u8>) -> Seq<u8>
    decreases s.len(),
{
    if s.len() > 0 && is_space(s.last()) {
        trim_end(s.drop_last())
    } else {
        s
    }
}

/// `s` without white space at either end.
pub open spec fn trim(s: Seq<u8>) -> Seq<u8> {
    trim_end(trim_start(s))
}

/// `k` is the position of the first `b` in `s`.
pub open spec fn is_first_index(s: Seq<u8>, b: u8, k: int) -> bool {
    &&& 0 <= k < s.len()
    &&& s[k] == b
    &&& forall|j: int| 0 <= j < k ==> s[j] != b
}

/// The position of the first `b` in `s`, or the length of `s` if there is none.
pub open spec fn first_index_of(s: Seq<u8>, b: u8) -> int {
    if exists|k: int| is_first_index(s, b, k) {
        choose|k: int| is_first_index(s, b, k)
    } else {
        s.len() as int
    }
}

/// The value of one digit in base `radix` (letters of either case above 9).
pub open spec fn digit_value(b: u8, radix: nat) -> Option<nat> {
    let d: int = if '0' as u8 <= b && b <= '9' as u8 {
        b - '0' as u8
    } else if 'a' as u8 <= b && b <= 'z' as u8 {
        b - 'a' as u8 + 10
    } else if 'A' as u8 <= b && b <= 'Z' as u8 {
        b - 'A' as u8 + 10
    } else {
        36
    };
    if d < radix {
        Some(d as nat)
    } else {
        None
    }
}

/// The value of a string of digits in base `radix`; `None` if one is not a digit.
pub open spec fn digits_value(s: Seq<u8>, radix: nat) -> Option<nat>
    decreases s.len(),
{
    if s.len() == 0 {
        Some(0)
    } else {
        match digits_value(s.drop_last(), radix) {
            Some(v) => match digit_value(s.last(), radix) {
                Some(d) => Some(v * radix + d),
                None => None,
            },
            None => None,
        }
    }
}

/// What `from_str_radix` gives for an unsigned integer type whose largest
/// value is `max`: an optional `+`, then at least one digit, and a value
/// that fits.
pub open spec fn from_str_radix_spec(s: Seq<u8>, radix: nat, max: nat) -> Option<nat> {
    let digits = if s.len() > 1 && s[0] == '+' as u8 {
        s.skip(1)
    } else {
        s
    };
    if digits.len() == 0 {
        None
    } else {
        match digits_value(digits, radix) {
            Some(v) => if v <= max {
                Some(v)
            } else {
                None
            },
            None => None,
        }
    }
}

/// A string that fails as digits at some prefix fails as a whole, and a
/// prefix of a valid string of digits has no larger value.
pub proof fn lemma_digits_prefix(s: Seq<u8>, k: int, radix: nat)
    requires
        0 <= k <= s.len(),
        radix >= 1,
    ensures
        digits_value(s.take(k), radix) is None ==> digits_value(s, radix) is None,
        digits_value(s, radix) is Some ==> digits_value(s.take(k), radix) is Some && digits_value(
            s.take(k),
            radix,
        )->0 <= digits_value(s, radix)->0,
    decreases s.len() - k,
{
    if k == s.len() {
        assert(s.take(k) =~= s);
    } else {
        lemma_digits_prefix(s.drop_last(), k, radix);
        assert(s.drop_last().take(k) =~= s.take(k));
        match digits_value(s.drop_last(), radix) {
            Some(v) => {
                assert(v * radix >= v) by (nonlinear_arith)
                    requires
                        radix >= 1,
                ;
            },
            None => {},
        }
    }
}

/// `k` is the position of the first white space in `s`.
pub open spec fn is_first_space(s: Seq<u8>, k: int) -> bool {
    &&& 0 <= k < s.len()
    &&& is_space(s[k])
    &&& forall|j: int| 0 <= j < k ==> !is_space(s[j])
}

/// The position of the first white space in `s`, or its length if there is none.
pub open spec fn first_space(s: Seq<u8>) -> int {
    if exists|k: int| is_first_space(s, k) {
        choose|k: int| is_first_space(s, k)
    } else {
        s.len() as int
    }
}

/// The first word of a string that starts with no white space.
pub open spec fn first_word(s: Seq<u8>) -> Seq<u8> {
    s.take(first_space(s))
}

/// What follows the first word, without the white space before it.
pub open spec fn after_first_word(s: Seq<u8>) -> Seq<u8> {
    trim_start(s.skip(first_space(s)))
}

fn is_space_byte(b: u8) -> (r: bool)
    ensures
        r == is_space(b),
{
    b == ' ' as u8 || (0x09 <= b && b <= 0x0d)
}

/// The bounds of `s[lo..hi]` with white space taken off both ends.
pub fn trim_range(s: &[u8], lo: usize, hi: usize) -> (r: (usize, usize))
    requires
        lo <= hi <= s@.len(),
    ensures
        lo <= r.0 <= r.1 <= hi,
        s@.subrange(r.0 as int, r.1 as int) == trim(s@.subrange(lo as int, hi as int)),
{
    let mut a = lo;
    while a < hi && is_space_byte(s[a])
        invariant
            lo <= a <= hi <= s@.len(),
            trim_start(s@.subrange(a as int, hi as int)) == trim_start(s@.subrange(lo as int, hi as int)),
        decreases hi - a,
    {
        assert(s@.subrange(a as int, hi as int).skip(1) =~= s@.subrange(a + 1, hi as int));
        a += 1;
    }
    let mut b = hi;
    while b > a && is_space_byte(s[b - 1])
        invariant
            lo <= a <= b <= hi <= s@.len(),
            trim_start(s@.subrange(lo as int, hi as int)) == s@.subrange(a as int, hi as int),
            trim_end(s@.subrange(a as int, b as int)) == trim_end(s@.subrange(a as int, hi as int)),
        decreases b - a,
    {
        assert(s@.subrange(a as int, b as int).drop_last() =~= s@.subrange(a as int, b - 1));
        b -= 1;
    }
    (a, b)
}

/// The start of `s[lo..hi]` once white space is skipped.
pub fn skip_space(s: &[u8], lo: usize, hi: usize) -> (r: usize)
    requires
        lo <= hi <= s@.len(),
    ensures
        lo <= r <= hi,
        s@.subrange(r as int, hi as int) == trim_start(s@.subrange(lo as int, hi as int)),
{
    let mut a = lo;
    while a < hi && is_space_byte(s[a])
        invariant
            lo <= a <= hi <= s@.len(),
            trim_start(s@.subrange(a as int, hi as int)) == trim_start(s@.subrange(lo as int, hi as int)),
        decreases hi - a,
    {
        assert(s@.subrange(a as int, hi as int).skip(1) =~= s@.subrange(a + 1, hi as int));
        a += 1;
    }
    a
}

/// Splits `s[lo..hi]` after its first word: returns where the word ends and
/// where what follows it starts, white space skipped.
pub fn split_word(s: &[u8], lo: usize, hi: usize) -> (r: (usize, usize))
    requires
        lo <= hi <= s@.len(),
    ensures
        lo <= r.0 <= r.1 <= hi,
        s@.subrange(lo as int, r.0 as int) == first_word(s@.subrange(lo as int, hi as int)),
        s@.subrange(r.1 as int, hi as int) == after_first_word(s@.subrange(lo as int, hi as int)),
{
    let mut i = lo;
    while i < hi && !is_space_byte(s[i])
        invariant
            lo <= i <= hi <= s@.len(),
            forall|j: int| lo <= j < i ==> !is_space(s@[j]),
        decreases hi - i,
    {
        i += 1;
    }
    let ghost t = s@.subrange(lo as int, hi as int);
    proof {
        if i < hi {
            assert(is_first_space(t, i - lo));
            let c = choose|k: int| is_first_space(t, k);
            if c < i - lo {
                assert(t[c] == s@[lo + c]);
            } else if c > i - lo {
                assert(is_space(t[i - lo]));
            }
        } else {
            assert forall|k: int| !is_first_space(t, k) by {
                if 0 <= k < t.len() {
                    assert(t[k] == s@[lo + k]);
                }
            }
        }
        assert(t.take(i - lo) =~= s@.subrange(lo as int, i as int));
        assert(t.skip(i - lo) =~= s@.subrange(i as int, hi as int));
    }
    let next = skip_space(s, i, hi);
    (i, next)
}

/// The position of the first `b` in `s[lo..hi]`, counted from the start of
/// `s`, or `hi` if there is none.
pub fn find_byte(s: &[u8], lo: usize, hi: usize, b: u8) -> (r: usize)
    requires
        lo <= hi <= s@.len(),
    ensures
        lo <= r <= hi,
        r - lo == first_index_of(s@.subrange(lo as int, hi as int), b),
{
    let mut i = lo;
    while i < hi && s[i] != b
        invariant
            lo <= i <= hi <= s@.len(),
            forall|j: int| lo <= j < i ==> s@[j] != b,
        decreases hi - i,
    {
        i += 1;
    }
    proof {
        let t = s@.subrange(lo as int, hi as int);
        if i < hi {
            assert(is_first_index(t, b, i - lo));
            let c = choose|k: int| is_first_index(t, b, k);
            if c < i - lo {
                assert(t[c] == s@[lo + c]);
            } else if c > i - lo {
                assert(t[i - lo] == b);
            }
        } else {
            assert forall|k: int| !is_first_index(t, b, k) by {
                if 0 <= k < t.len() {
                    assert(t[k] == s@[lo + k]);
                }
            }
        }
    }
    i
}

fn digit_of(b: u8, radix: u8) -> (r: Option<u8>)
    requires
        2 <= radix <= 36,
    ensures
        match digit_value(b, radix as nat) {
            Some(d) => r == Some(d as u8),
            None => r is None,
        },
{
    let d: u8 = if '0' as u8 <= b && b <= '9' as u8 {
        b - '0' as u8
    } else if 'a' as u8 <= b && b <= 'z' as u8 {
        b - 'a' as u8 + 10
    } else if 'A' as u8 <= b && b <= 'Z' as u8 {
        b - 'A' as u8 + 10
    } else {
        36
    };
    if d < radix {
        Some(d)
    } else {
        None
    }
}

/// `from_str_radix` on `s[lo..hi]` for an unsigned type whose largest value
/// is `max`.
pub fn parse_unsigned(s: &[u8], lo: usize, hi: usize, radix: u8, max: u64) -> (r: Option<u64>)
    requires
        lo <= hi <= s@.len(),
        2 <= radix <= 36,
    ensures
        match from_str_radix_spec(s@.subrange(lo as int, hi as int), radix as nat, max as nat) {
            Some(v) => r == Some(v as u64),
            None => r is None,
        },
{
    let ghost whole = s@.subrange(lo as int, hi as int);
    let start: usize = if hi - lo > 1 && s[lo] == '+' as u8 {
        lo + 1
    } else {
        lo
    };
    assert(s@.subrange(start as int, hi as int) =~= (if whole.len() > 1 && whole[0] == '+' as u8 {
        whole.skip(1)
    } else {
        whole
    }));
    if start == hi {
        return None;
    }
    let ghost digits = s@.subrange(start as int, hi as int);
    let mut acc: u128 = 0;
    let mut i = start;
    assert(s@.subrange(start as int, start as int) =~= Seq::<u8>::empty());
    while i < hi
        invariant
            lo <= start < hi <= s@.len(),
            start <= i <= hi,
            2 <= radix <= 36,
            digits == s@.subrange(start as int, hi as int),
            whole == s@.subrange(lo as int, hi as int),
            digits == (if whole.len() > 1 && whole[0] == '+' as u8 {
                whole.skip(1)
            } else {
                whole
            }),
            digits_value(s@.subrange(start as int, i as int), radix as nat) == Some(acc as nat),
            acc <= max,
        decreases hi - i,
    {
        assert(s@.subrange(start as int, i + 1) =~= digits.take(i + 1 - start));
        assert(s@.subrange(start as int, i + 1).drop_last() =~= s@.subrange(start as int, i as int));
        match digit_of(s[i], radix) {
            None => {
                proof {
                    lemma_digits_prefix(digits, i + 1 - start, radix as nat);
                }
                return None;
            },
            Some(d) => {
                assert(acc * (radix as u128) <= 0xffff_ffff_ffff_ffffu128 * 36) by (nonlinear_arith)
                    requires
                        acc <= 0xffff_ffff_ffff_ffffu128,
                        radix <= 36,
                ;
                acc = acc * (radix as u128) + (d as u128);
                i += 1;
                if acc > max as u128 {
                    proof {
                        lemma_digits_prefix(digits, i - start, radix as nat);
                    }
                    return None;
                }
            },
        }
    }
    Some(acc as u64)
}

// ---------------------------------------------------------------------------
// Numbers, registers and pairs.
// ---------------------------------------------------------------------------

/// A 32-bit value: trimmed, then hexadecimal after `0x` or else decimal.
pub open spec fn parse_u32_spec(s: Seq<u8>) -> Option<u32> {
    let t = trim(s);
    let v = if t.len() >= 2 && t[0] == '0' as u8 && t[1] == 'x' as u8 {
        from_str_radix_spec(t.skip(2), 16, u32::MAX as nat)
    } else {
        from_str_radix_spec(t, 10, u32::MAX as nat)
    };
    match v {
        Some(n) => Some(n as u32),
        None => None,
    }
}

fn parse_u32_bytes(s: &[u8], lo: usize, hi: usize) -> (r: Result<u32, CliError>)
    requires
        lo <= hi <= s@.len(),
    ensures
        r == match parse_u32_spec(s@.subrange(lo as int, hi as int)) {
            Some(v) => Ok(v),
            None => Err(CliError::InvalidNumber),
        },
{
    let (a, b) = trim_range(s, lo, hi);
    let ghost t = s@.subrange(a as int, b as int);
    let parsed = if b - a >= 2 && s[a] == '0' as u8 && s[a + 1] == 'x' as u8 {
        assert(s@.subrange(a + 2, b as int) =~= t.skip(2));
        parse_unsigned(s, a + 2, b, 16, 0xffff_ffff)
    } else {
        parse_unsigned(s, a, b, 10, 0xffff_ffff)
    };
    match parsed {
        Some(v) => Ok(v as u32),
        None => Err(CliError::InvalidNumber),
    }
}

/// Parses a 32-bit value, decimal or `0x` hexadecimal, around which white
/// space is ignored.
pub fn parse_u32(value: &str) -> (r: Result<u32, CliError>)
    ensures
        r == match parse_u32_spec(value.spec_bytes()) {
            Some(v) => Ok(v),
            None => Err(CliError::InvalidNumber),
        },
{
    let bytes = value.as_bytes();
    assert(bytes@.subrange(0, bytes@.len() as int) =~= bytes@);
    parse_u32_bytes(bytes, 0, bytes.len())
}

/// `s` without the `$` signs at its start.
pub open spec fn strip_dollars(s: Seq<u8>) -> Seq<u8>
    decreases s.len(),
{
    if s.len() > 0 && s[0] == '$' as u8 {
        strip_dollars(s.skip(1))
    } else {
        s
    }
}

/// The register that a two-letter conventional name stands for.
pub open spec fn register_pair(a: u8, b: u8) -> Option<u8> {
    let d: int = b - '0' as u8;
    if a == 'a' as u8 && b == 't' as u8 {
        Some(1)
    } else if a == 'v' as u8 && 0 <= d <= 1 {
        Some((2 + d) as u8)
    } else if a == 'a' as u8 && 0 <= d <= 3 {
        Some((4 + d) as u8)
    } else if a == 't' as u8 && 0 <= d <= 7 {
        Some((8 + d) as u8)
    } else if a == 's' as u8 && 0 <= d <= 7 {
        Some((16 + d) as u8)
    } else if a == 't' as u8 && 8 <= d <= 9 {
        Some((16 + d) as u8)
    } else if a == 'k' as u8 && 0 <= d <= 1 {
        Some((26 + d) as u8)
    } else if a == 'g' as u8 && b == 'p' as u8 {
        Some(28)
    } else if a == 's' as u8 && b == 'p' as u8 {
        Some(29)
    } else if (a == 'f' as u8 && b == 'p' as u8) || (a == 's' as u8 && b == '8' as u8) {
        Some(30)
    } else if a == 'r' as u8 && b == 'a' as u8 {
        Some(31)
    } else {
        None
    }
}

/// The register that a conventional name (`zero`, `at`, `v0`, ..., `ra`)
/// stands for.
pub open spec fn register_alias(n: Seq<u8>) -> Option<u8> {
    if n == seq!['z' as u8, 'e' as u8, 'r' as u8, 'o' as u8] {
        Some(0)
    } else if n.len() == 2 {
        register_pair(n[0], n[1])
    } else {
        None
    }
}

/// A register given by name, or by number with or without an `r` before it,
/// after white space and leading `$` signs are taken off.
pub open spec fn parse_reg_spec(s: Seq<u8>) -> Result<u8, CliError> {
    let n = strip_dollars(trim(s));
    match register_alias(n) {
        Some(r) => Ok(r),
        None => {
            let digits = if n.len() > 0 && n[0] == 'r' as u8 {
                n.skip(1)
            } else {
                n
            };
            match from_str_radix_spec(digits, 10, 255) {
                None => Err(CliError::InvalidRegister),
                Some(v) => if v <= 31 {
                    Ok(v as u8)
                } else {
                    Err(CliError::RegisterOutOfRange)
                },
            }
        },
    }
}

fn register_pair_of(a: u8, b: u8) -> (r: Option<u8>)
    ensures
        r == register_pair(a, b),
{
    let digit = b >= '0' as u8 && b <= '9' as u8;
    let d: u8 = if digit {
        b - '0' as u8
    } else {
        10
    };
    if a == 'a' as u8 && b == 't' as u8 {
        Some(1)
    } else if a == 'v' as u8 && d <= 1 {
        Some(2 + d)
    } else if a == 'a' as u8 && d <= 3 {
        Some(4 + d)
    } else if a == 't' as u8 && d <= 7 {
        Some(8 + d)
    } else if a == 's' as u8 && d <= 7 {
        Some(16 + d)
    } else if a == 't' as u8 && 8 <= d && d <= 9 {
        Some(16 + d)
    } else if a == 'k' as u8 && d <= 1 {
        Some(26 + d)
    } else if a == 'g' as u8 && b == 'p' as u8 {
        Some(28)
    } else if a == 's' as u8 && b == 'p' as u8 {
        Some(29)
    } else if (a == 'f' as u8 && b == 'p' as u8) || (a == 's' as u8 && b == '8' as u8) {
        Some(30)
    } else if a == 'r' as u8 && b == 'a' as u8 {
        Some(31)
    } else {
        None
    }
}

fn parse_reg_bytes(s: &[u8], lo: usize, hi: usize) -> (r: Result<u8, CliError>)
    requires
        lo <= hi <= s@.len(),
    ensures
        r == parse_reg_spec(s@.subrange(lo as int, hi as int)),
{
    let (a0, b) = trim_range(s, lo, hi);
    let mut a = a0;
    while a < b && s[a] == '$' as u8
        invariant
            a0 <= a <= b <= s@.len(),
            strip_dollars(s@.subrange(a as int, b as int)) == strip_dollars(s@.subrange(a0 as int, b as int)),
        decreases b - a,
    {
        assert(s@.subrange(a as int, b as int).skip(1) =~= s@.subrange(a + 1, b as int));
        a += 1;
    }
    let ghost n = s@.subrange(a as int, b as int);
    assert(strip_dollars(n) == n);
    if b - a == 4 && s[a] == 'z' as u8 && s[a + 1] == 'e' as u8 && s[a + 2] == 'r' as u8 && s[a + 3]
        == 'o' as u8 {
        assert(n =~= seq!['z' as u8, 'e' as u8, 'r' as u8, 'o' as u8]);
        return Ok(0);
    }
    assert(n != seq!['z' as u8, 'e' as u8, 'r' as u8, 'o' as u8]) by {
        if n.len() == 4 {
            let z = seq!['z' as u8, 'e' as u8, 'r' as u8, 'o' as u8];
            if n == z {
                assert(n[0] == z[0] && n[1] == z[1] && n[2] == z[2] && n[3] == z[3]);
            }
        }
    }
    if b - a == 2 {
        match register_pair_of(s[a], s[a + 1]) {
            Some(r) => {
                return Ok(r);
            },
            None => {},
        }
    }
    let digits_start: usize = if a < b && s[a] == 'r' as u8 {
        a + 1
    } else {
        a
    };
    assert(s@.subrange(digits_start as int, b as int) =~= (if n.len() > 0 && n[0] == 'r' as u8 {
        n.skip(1)
    } else {
        n
    }));
    match parse_unsigned(s, digits_start, b, 10, 255) {
        None => Err(CliError::InvalidRegister),
        Some(v) => if v <= 31 {
            Ok(v as u8)
        } else {
            Err(CliError::RegisterOutOfRange)
        },
    }
}

/// Parses a register: a conventional name such as `v0` or `ra`, or a number
/// from 0 to 31 with an optional `r` before it; `$` signs before either are
/// ignored.
pub fn parse_reg(value: &str) -> (r: Result<u8, CliError>)
    ensures
        r == parse_reg_spec(value.spec_bytes()),
{
    let bytes = value.as_bytes();
    assert(bytes@.subrange(0, bytes@.len() as int) =~= bytes@);
    parse_reg_bytes(bytes, 0, bytes.len())
}

/// `ADDR=VALUE`: two 32-bit values around the first `=`.
pub open spec fn parse_addr_value_spec(s: Seq<u8>) -> Result<(u32, u32), CliError> {
    let k = first_index_of(s, '=' as u8);
    if k == s.len() {
        Err(CliError::MissingSeparator)
    } else {
        match (parse_u32_spec(s.take(k)), parse_u32_spec(s.skip(k + 1))) {
            (Some(a), Some(v)) => Ok((a, v)),
            _ => Err(CliError::InvalidNumber),
        }
    }
}

/// `REG=VALUE`: a register and a 32-bit value around the first `=`.
pub open spec fn parse_reg_value_spec(s: Seq<u8>) -> Result<(u8, u32), CliError> {
    let k = first_index_of(s, '=' as u8);
    if k == s.len() {
        Err(CliError::MissingSeparator)
    } else {
        match parse_reg_spec(s.take(k)) {
            Err(e) => Err(e),
            Ok(reg) => match parse_u32_spec(s.skip(k + 1)) {
                Some(v) => Ok((reg, v)),
                None => Err(CliError::InvalidNumber),
            },
        }
    }
}

/// Parses `ADDR=VALUE` for the option `name` (which the caller names in
/// its message when the value is refused).
pub fn parse_addr_value(value: &str, _name: &str) -> (r: Result<(u32, u32), CliError>)
    ensures
        r == parse_addr_value_spec(value.spec_bytes()),
{
    let bytes = value.as_bytes();
    let len = bytes.len();
    let k = find_byte(bytes, 0, len, '=' as u8);
    assert(bytes@.subrange(0, len as int) =~= bytes@);
    if k == len {
        return Err(CliError::MissingSeparator);
    }
    assert(bytes@.subrange(0, k as int) =~= bytes@.take(k as int));
    assert(bytes@.subrange(k + 1, len as int) =~= bytes@.skip(k + 1));
    let left = parse_u32_bytes(bytes, 0, k);
    let right = parse_u32_bytes(bytes, k + 1, len);
    match (left, right) {
        (Ok(a), Ok(v)) => Ok((a, v)),
        _ => Err(CliError::InvalidNumber),
    }
}

/// Parses `REG=VALUE` for the option `name` (which the caller names in its
/// message when the value is refused).
pub fn parse_reg_value(value: &str, _name: &str) -> (r: Result<(u8, u32), CliError>)
    ensures
        r == parse_reg_value_spec(value.spec_bytes()),
{
    let bytes = value.as_bytes();
    let len = bytes.len();
    let k = find_byte(bytes, 0, len, '=' as u8);
    assert(bytes@.subrange(0, len as int) =~= bytes@);
    if k == len {
        return Err(CliError::MissingSeparator);
    }
    assert(bytes@.subrange(0, k as int) =~= bytes@.take(k as int));
    assert(bytes@.subrange(k + 1, len as int) =~= bytes@.skip(k + 1));
    match parse_reg_bytes(bytes, 0, k) {
        Err(e) => Err(e),
        Ok(reg) => match parse_u32_bytes(bytes, k + 1, len) {
            Ok(v) => Ok((reg, v)),
            Err(_) => Err(CliError::InvalidNumber),
        },
    }
}

// ---------------------------------------------------------------------------
// Disc images.
// ---------------------------------------------------------------------------

/// A byte with ASCII upper case made lower case.
pub open spec fn ascii_lower(b: u8) -> u8 {
    if 'A' as u8 <= b && b <= 'Z' as u8 {
        (b + 32) as u8
    } else {
        b
    }
}

/// Equality of two strings with ASCII case ignored.
pub open spec fn eq_ignore_ascii_case(s: Seq<u8>, t: Seq<u8>) -> bool {
    &&& s.len() == t.len()
    &&& forall|i: int| 0 <= i < s.len() ==> ascii_lower(#[trigger] s[i]) == ascii_lower(t[i])
}

fn lower_byte(b: u8) -> (r: u8)
    ensures
        r == ascii_lower(b),
{
    if 'A' as u8 <= b && b <= 'Z' as u8 {
        b + 32
    } else {
        b
    }
}

/// Whether `s[lo..hi]` equals `word` with ASCII case ignored.
pub fn eq_ignore_ascii_case_range(s: &[u8], lo: usize, hi: usize, word: &[u8]) -> (r: bool)
    requires
        lo <= hi <= s@.len(),
    ensures
        r == eq_ignore_ascii_case(s@.subrange(lo as int, hi as int), word@),
{
    if hi - lo != word.len() {
        return false;
    }
    let mut i: usize = 0;
    while i < word.len()
        invariant
            lo <= hi <= s@.len(),
            hi - lo == word@.len(),
            i <= word@.len(),
            forall|j: int| 0 <= j < i ==> ascii_lower(s@[lo + j]) == ascii_lower(word@[j]),
        decreases word@.len() - i,
    {
        if lower_byte(s[lo + i]) != lower_byte(word[i]) {
            assert(s@.subrange(lo as int, hi as int)[i as int] == s@[lo + i]);
            return false;
        }
        i += 1;
    }
    assert forall|j: int| 0 <= j < word@.len() implies ascii_lower(#[trigger] s@.subrange(lo as int, hi as int)[j])
        == ascii_lower(word@[j]) by {
        assert(s@.subrange(lo as int, hi as int)[j] == s@[lo + j]);
    }
    true
}

/// A sector size given on the command line: `2048` for cooked images and
/// `2352` for raw ones, around which white space is ignored.
pub open spec fn parse_disc_sector_size_spec(s: Seq<u8>) -> Option<CdromSectorSize> {
    let t = trim(s);
    if t == seq!['2' as u8, '0' as u8, '4' as u8, '8' as u8] {
        Some(CdromSectorSize::Cooked2048)
    } else if t == seq!['2' as u8, '3' as u8, '5' as u8, '2' as u8] {
        Some(CdromSectorSize::Raw2352)
    } else {
        None
    }
}

/// Parses the sector size of a disc image: `2048` or `2352`.
pub fn parse_disc_sector_size(value: &str) -> (r: Result<CdromSectorSize, CliError>)
    ensures
        r == match parse_disc_sector_size_spec(value.spec_bytes()) {
            Some(size) => Ok(size),
            None => Err(CliError::InvalidSectorSize),
        },
{
    let bytes = value.as_bytes();
    let (a, b) = trim_range(bytes, 0, bytes.len());
    assert(bytes@.subrange(0, bytes@.len() as int) =~= bytes@);
    let ghost t = bytes@.subrange(a as int, b as int);
    let ghost cooked = seq!['2' as u8, '0' as u8, '4' as u8, '8' as u8];
    let ghost raw = seq!['2' as u8, '3' as u8, '5' as u8, '2' as u8];
    if b - a == 4 && bytes[a] == '2' as u8 {
        let x = bytes[a + 1];
        let y = bytes[a + 2];
        let z = bytes[a + 3];
        assert(t =~= seq!['2' as u8, x, y, z]);
        if x == '0' as u8 && y == '4' as u8 && z == '8' as u8 {
            return Ok(CdromSectorSize::Cooked2048);
        }
        if x == '3' as u8 && y == '5' as u8 && z == '2' as u8 {
            return Ok(CdromSectorSize::Raw2352);
        }
        assert(t != cooked && t != raw) by {
            if t == cooked {
                assert(t[1] == cooked[1] && t[2] == cooked[2] && t[3] == cooked[3]);
            }
            if t == raw {
                assert(t[1] == raw[1] && t[2] == raw[2] && t[3] == raw[3]);
            }
        }
        return Err(CliError::InvalidSectorSize);
    }
    assert(t != cooked && t != raw) by {
        if t.len() == 4 {
            if t == cooked {
                assert(t[0] == cooked[0]);
            }
            if t == raw {
                assert(t[0] == raw[0]);
            }
        }
    }
    Err(CliError::InvalidSectorSize)
}

/// Whether a file name extension is that of a raw image (`bin` or `img`,
/// in any case).
pub open spec fn raw_image_extension(ext: Seq<u8>) -> bool {
    ||| eq_ignore_ascii_case(ext, seq!['b' as u8, 'i' as u8, 'n' as u8])
    ||| eq_ignore_ascii_case(ext, seq!['i' as u8, 'm' as u8, 'g' as u8])
}

/// The sector size guessed for an image of `len` bytes: raw when the length
/// is a whole number of raw sectors and either the extension says raw or
/// the length is not a whole number of cooked sectors; cooked otherwise.
pub open spec fn detected_sector_size(ext: Seq<u8>, len: nat) -> CdromSectorSize {
    if len % 2352 == 0 && (raw_image_extension(ext) || len % 2048 != 0) {
        CdromSectorSize::Raw2352
    } else {
        CdromSectorSize::Cooked2048
    }
}

/// Guesses the sector size of an image from its file name extension (empty
/// when it has none) and its length in bytes.
pub fn detect_disc_sector_size(extension: &str, len: usize) -> (r: CdromSectorSize)
    ensures
        r == detected_sector_size(extension.spec_bytes(), len as nat),
{
    let ext = extension.as_bytes();
    assert(ext@.subrange(0, ext@.len() as int) =~= ext@);
    let raw_sized = len % 2352 == 0;
    let raw_extension = eq_ignore_ascii_case_range(ext, 0, ext.len(), &['b' as u8, 'i' as u8, 'n' as u8])
        || eq_ignore_ascii_case_range(ext, 0, ext.len(), &['i' as u8, 'm' as u8, 'g' as u8]);
    if raw_sized && (raw_extension || len % 2048 != 0) {
        CdromSectorSize::Raw2352
    } else {
        CdromSectorSize::Cooked2048
    }
}

} // verus!
