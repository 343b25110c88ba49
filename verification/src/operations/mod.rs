//! Operations on discovered archives: scanning, extraction scheduling,
//! retry, and size parsing and formatting.
//!
//! A size string such as `1.5MB` or `10 GB` is read with decimal units
//! (one kilobyte is a thousand bytes): the string is trimmed,
//! uppercased, given a `B` suffix when it lacks one, split before the
//! first unit-shaped substring, and the two resulting tokens are read
//! as a plain decimal number and a unit. The number may carry a
//! fractional part; digits past the thirteenth fractional place are
//! insignificant at these unit scales and are dropped. Values past the
//! largest `u64` saturate.

pub mod path;
pub mod extract;
pub mod retry;
pub mod scan;

use vstd::prelude::*;

use crate::error::{Error, ValidationError};
use crate::text::{
    ascii_upper_of, is_ascii_str, push_char, split_whitespace_vec, split_ws, str_eq, str_trim,
    trim_spec, upper_of, uppercase,
};

verus! {

/// Information about one discovered archive file.
#[derive(Debug, Clone, PartialEq, Eq)]
pub struct BA2FileInfo {
    /// File name, without the path.
    pub file_name: String,
    /// File size in bytes.
    pub file_size: u64,
    /// Number of files the archive declares.
    pub num_files: u32,
    /// Name of the parent directory, the mod folder.
    pub dir_name: String,
    /// Full path to the file.
    pub full_path: String,
    /// Whether the file appears to be corrupted.
    pub is_bad: bool,
}

/// A decimal digit character.
pub open spec fn is_digit(c: char) -> bool {
    48 <= c as u32 <= 57
}

/// The value of a decimal digit character.
pub open spec fn digit_val(c: char) -> int {
    c as u32 - 48
}

/// The value of a run of decimal digit characters.
pub open spec fn digits_val(ds: Seq<char>) -> int
    decreases ds.len(),
{
    if ds.len() == 0 {
        0
    } else {
        digits_val(ds.drop_last()) * 10 + digit_val(ds.last())
    }
}

/// Ten to the given power.
pub open spec fn pow10(n: nat) -> int
    decreases n,
{
    if n == 0 {
        1
    } else {
        10 * pow10((n - 1) as nat)
    }
}

/// The uppercasing the size parser applies, named over both the exact
/// ASCII mapping and the named result of the standard library on other
/// strings.
pub open spec fn upper_norm(s: Seq<char>) -> Seq<char> {
    if is_ascii_str(s) {
        ascii_upper_of(s)
    } else {
        upper_of(s)
    }
}

/// The length of the unit-shaped match at position `i` of `u`: two for
/// a scale letter followed by `B`, one for a bare `B`, zero otherwise.
pub open spec fn unit_match_at(u: Seq<char>, i: int) -> int {
    if 0 <= i && i + 1 < u.len() && (u[i] == 'K' || u[i] == 'M' || u[i] == 'G' || u[i] == 'T')
        && u[i + 1] == 'B' {
        2
    } else if 0 <= i < u.len() && u[i] == 'B' {
        1
    } else {
        0
    }
}

/// The first position of `u`, from `from` on, where a unit-shaped
/// substring starts.
pub open spec fn first_unit_pos(u: Seq<char>, from: int) -> Option<int>
    decreases u.len() - from,
{
    if from < 0 || from >= u.len() {
        None
    } else if unit_match_at(u, from) > 0 {
        Some(from)
    } else {
        first_unit_pos(u, from + 1)
    }
}

/// The size string after normalization: trimmed, uppercased, suffixed
/// with `B` when it lacks one, and split by a space before the first
/// unit-shaped substring.
pub open spec fn size_norm_spec(s: Seq<char>) -> Seq<char> {
    let t = upper_norm(trim_spec(s));
    let u = if t.len() > 0 && t.last() == 'B' {
        t
    } else {
        t.push('B')
    };
    match first_unit_pos(u, 0) {
        Some(i) => u.take(i) + seq![' '] + u.skip(i),
        None => u,
    }
}

/// The whitespace tokens of the normalized size string.
pub open spec fn size_tokens(s: Seq<char>) -> Seq<Seq<char>> {
    split_ws(size_norm_spec(s))
}

/// A plain decimal number: only digits and at most one dot, with at
/// least one digit.
pub open spec fn valid_decimal(t: Seq<char>) -> bool {
    &&& t.len() > 0
    &&& forall|i: int| 0 <= i < t.len() ==> (is_digit(#[trigger] t[i]) || t[i] == '.')
    &&& forall|i: int, j: int| 0 <= i < j < t.len() ==> !(t[i] == '.' && t[j] == '.')
    &&& exists|i: int| 0 <= i < t.len() && is_digit(t[i])
}

/// The position of the dot of a decimal token, or its length.
pub open spec fn dot_pos(t: Seq<char>, from: int) -> int
    decreases t.len() - from,
{
    if from < 0 || from >= t.len() {
        t.len() as int
    } else if t[from] == '.' {
        from
    } else {
        dot_pos(t, from + 1)
    }
}

/// The bytes multiplier of a unit token, decimal-based.
pub open spec fn mult_of(u: Seq<char>) -> Option<int> {
    if u == "B"@ {
        Some(1int)
    } else if u == "KB"@ {
        Some(1000int)
    } else if u == "MB"@ {
        Some(1000000int)
    } else if u == "GB"@ {
        Some(1000000000int)
    } else if u == "TB"@ {
        Some(1000000000000int)
    } else {
        None
    }
}

/// The exact byte value of a decimal token under a multiplier, reading
/// at most thirteen fractional digits, before saturation.
pub open spec fn size_value_spec(t: Seq<char>, mult: int) -> int {
    let dp = dot_pos(t, 0);
    let int_digits = t.take(dp);
    let frac_all = t.skip(if dp < t.len() {
        dp + 1
    } else {
        dp
    });
    let frac = if frac_all.len() <= 13 {
        frac_all
    } else {
        frac_all.take(13)
    };
    let scaled = digits_val(frac) * pow10((13 - frac.len()) as nat);
    digits_val(int_digits) * mult + scaled * mult / pow10(13)
}

/// The whole parse succeeds: exactly two tokens, a decimal number and
/// a known unit.
pub open spec fn parse_size_ok(s: Seq<char>) -> bool {
    &&& size_tokens(s).len() == 2
    &&& valid_decimal(size_tokens(s)[0])
    &&& mult_of(size_tokens(s)[1]) is Some
}

/// The parsed byte count, saturated at the largest `u64`.
pub open spec fn parse_size_val(s: Seq<char>) -> int {
    let raw = size_value_spec(size_tokens(s)[0], mult_of(size_tokens(s)[1]).unwrap());
    if raw > u64::MAX {
        u64::MAX as int
    } else {
        raw
    }
}


/// Ten to any power is positive.
proof fn lemma_pow10_pos(n: nat)
    ensures
        pow10(n) >= 1,
    decreases n,
{
    if n > 0 {
        lemma_pow10_pos((n - 1) as nat);
    }
}

/// Powers of ten grow with the exponent.
proof fn lemma_pow10_le(a: nat, b: nat)
    requires
        a <= b,
    ensures
        pow10(a) <= pow10(b),
    decreases b,
{
    if a < b {
        lemma_pow10_le(a, (b - 1) as nat);
        lemma_pow10_pos((b - 1) as nat);
    }
}

/// The numeric values of the powers of ten the parser works with.
proof fn lemma_pow10_numeric()
    ensures
        pow10(12) == 1000000000000,
        pow10(13) == 10000000000000,
{
    reveal_with_fuel(pow10, 15);
}

/// The value of a run of digit characters is not negative.
proof fn lemma_digits_val_nonneg(ds: Seq<char>)
    requires
        forall|i: int| 0 <= i < ds.len() ==> is_digit(#[trigger] ds[i]),
    ensures
        digits_val(ds) >= 0,
    decreases ds.len(),
{
    if ds.len() > 0 {
        lemma_digits_val_nonneg(ds.drop_last());
    }
}

/// The value of a run of digits is below ten to its length.
proof fn lemma_digits_val_small(ds: Seq<char>)
    requires
        forall|i: int| 0 <= i < ds.len() ==> is_digit(#[trigger] ds[i]),
    ensures
        0 <= digits_val(ds) < pow10(ds.len()),
    decreases ds.len(),
{
    if ds.len() > 0 {
        lemma_digits_val_small(ds.drop_last());
        lemma_pow10_pos((ds.len() - 1) as nat);
    }
}

/// Ten to the given power, for small exponents.
fn pow10_exec(n: usize) -> (r: u128)
    requires
        n <= 13,
    ensures
        r == pow10(n as nat),
{
    let mut r: u128 = 1;
    let mut i: usize = 0;
    while i < n
        invariant
            i <= n,
            n <= 13,
            r == pow10(i as nat),
        decreases n - i,
    {
        proof {
            lemma_pow10_le(i as nat, 12);
            lemma_pow10_numeric();
        }
        r = r * 10;
        i = i + 1;
    }
    r
}

/// Find where the first unit-shaped substring of a string starts.
fn find_unit_pos(u: &str) -> (r: Option<usize>)
    ensures
        match r {
            Some(p) => first_unit_pos(u@, 0) == Some(p as int) && p < u@.len(),
            None => first_unit_pos(u@, 0) is None,
        },
{
    let len = u.unicode_len();
    let mut pos: usize = 0;
    loop
        invariant
            pos <= len,
            len == u@.len(),
            first_unit_pos(u@, 0) == first_unit_pos(u@, pos as int),
        decreases len - pos,
    {
        if pos == len {
            return None;
        }
        let c = u.get_char(pos);
        if (c == 'K' || c == 'M' || c == 'G' || c == 'T') && pos + 1 < len && u.get_char(pos + 1)
            == 'B' {
            return Some(pos);
        }
        if c == 'B' {
            return Some(pos);
        }
        pos = pos + 1;
    }
}

/// Normalize a size string: trim it, uppercase it, append the byte
/// suffix when it is missing, and put a space before the first
/// unit-shaped substring.
fn size_normalize(size_str: &str) -> (r: String)
    ensures
        r@ == size_norm_spec(size_str@),
{
    let trimmed = str_trim(size_str);
    let mut u = uppercase(trimmed.as_str());
    let ulen = u.as_str().unicode_len();
    if !(ulen > 0 && u.as_str().get_char(ulen - 1) == 'B') {
        push_char(&mut u, 'B');
    }
    let len = u.as_str().unicode_len();
    match find_unit_pos(u.as_str()) {
        Some(pos) => {
            let mut built = u.as_str().substring_char(0, pos).to_owned();
            push_char(&mut built, ' ');
            built.append(u.as_str().substring_char(pos, len));
            proof {
                assert(u@.subrange(0, pos as int) =~= u@.take(pos as int));
                assert(u@.subrange(pos as int, len as int) =~= u@.skip(pos as int));
                assert(built@ =~= u@.take(pos as int) + seq![' '] + u@.skip(pos as int));
            }
            built
        },
        None => u,
    }
}

/// Check that a token is a plain decimal number.
fn check_decimal(num: &str) -> (r: bool)
    ensures
        r == valid_decimal(num@),
{
    let nlen = num.unicode_len();
    let mut i: usize = 0;
    let mut seen_dot = false;
    let mut seen_digit = false;
    while i < nlen
        invariant
            i <= nlen,
            nlen == num@.len(),
            forall|k: int| 0 <= k < i ==> (is_digit(#[trigger] num@[k]) || num@[k] == '.'),
            seen_dot == exists|k: int| 0 <= k < i && num@[k] == '.',
            seen_digit == exists|k: int| 0 <= k < i && is_digit(#[trigger] num@[k]),
            forall|k1: int, k2: int| 0 <= k1 < k2 < i ==> !(num@[k1] == '.' && num@[k2] == '.'),
        decreases nlen - i,
    {
        let c = num.get_char(i);
        let code = c as u32;
        if 48 <= code && code <= 57 {
            seen_digit = true;
        } else if c == '.' {
            if seen_dot {
                proof {
                    let k1 = choose|k: int| 0 <= k < i && num@[k] == '.';
                    assert(num@[k1] == '.' && num@[i as int] == '.');
                }
                return false;
            }
            seen_dot = true;
        } else {
            proof {
                assert(!(is_digit(num@[i as int]) || num@[i as int] == '.'));
            }
            return false;
        }
        i = i + 1;
    }
    seen_digit
}

/// The bytes multiplier of a unit token.
fn unit_mult(unit: &str) -> (r: Option<u64>)
    ensures
        match r {
            Some(m) => mult_of(unit@) == Some(m as int),
            None => mult_of(unit@) is None,
        },
{
    if str_eq(unit, "B") {
        Some(1)
    } else if str_eq(unit, "KB") {
        Some(1000)
    } else if str_eq(unit, "MB") {
        Some(1000000)
    } else if str_eq(unit, "GB") {
        Some(1000000000)
    } else if str_eq(unit, "TB") {
        Some(1000000000000)
    } else {
        None
    }
}

/// Find the dot of a decimal token, or its end.
fn find_dot(num: &str) -> (r: usize)
    ensures
        r as int == dot_pos(num@, 0),
        r <= num@.len(),
        forall|k: int| 0 <= k < r ==> num@[k] != '.',
        r < num@.len() ==> num@[r as int] == '.',
{
    let nlen = num.unicode_len();
    let mut dp: usize = 0;
    while dp < nlen && num.get_char(dp) != '.'
        invariant
            dp <= nlen,
            nlen == num@.len(),
            forall|k: int| 0 <= k < dp ==> num@[k] != '.',
            dot_pos(num@, 0) == dot_pos(num@, dp as int),
        decreases nlen - dp,
    {
        dp = dp + 1;
    }
    dp
}

/// The byte value of a decimal token under a multiplier, saturated at
/// the largest `u64`.
fn decimal_to_bytes(num: &str, mult: u64) -> (r: u64)
    requires
        valid_decimal(num@),
        1 <= mult <= 1000000000000,
    ensures
        r == (if size_value_spec(num@, mult as int) > u64::MAX {
            u64::MAX as int
        } else {
            size_value_spec(num@, mult as int)
        }),
{
    let ghost t = num@;
    let nlen = num.unicode_len();
    let dp = find_dot(num);
    let ghost int_digits = t.take(dp as int);
    proof {
        assert forall|q: int| 0 <= q < int_digits.len() implies is_digit(
            #[trigger] int_digits[q],
        ) by {
            assert(int_digits[q] == t[q]);
        }
        assert(t.take(0int) =~= Seq::<char>::empty());
    }
    let mut acc: u128 = 0;
    let mut over = false;
    let mut k: usize = 0;
    while k < dp
        invariant
            k <= dp <= nlen,
            nlen == t.len(),
            num@ == t,
            valid_decimal(t),
            forall|j: int| 0 <= j < dp ==> t[j] != '.',
            !over ==> acc == digits_val(t.take(k as int)) && acc <= u64::MAX,
            over ==> digits_val(t.take(k as int)) > u64::MAX,
        decreases dp - k,
    {
        let c = num.get_char(k);
        let code = c as u32;
        proof {
            assert(is_digit(t[k as int]) || t[k as int] == '.');
            assert(t.take(k + 1).drop_last() =~= t.take(k as int));
            assert(t.take(k + 1).last() == t[k as int]);
        }
        let d = (code - 48) as u128;
        if !over {
            let n = acc * 10 + d;
            if n > 0xFFFFFFFFFFFFFFFF {
                over = true;
            } else {
                acc = n;
            }
        }
        k = k + 1;
    }
    proof {
        assert(t.take(dp as int) =~= int_digits);
    }
    let mut facc: u128 = 0;
    let mut fcount: usize = 0;
    if dp < nlen {
        let mut j = dp + 1;
        proof {
            assert(t.subrange(dp + 1, dp + 1) =~= Seq::<char>::empty());
        }
        while j < nlen && fcount < 13
            invariant
                dp < nlen,
                dp + 1 <= j <= nlen,
                fcount == j - (dp + 1),
                fcount <= 13,
                nlen == t.len(),
                num@ == t,
                valid_decimal(t),
                t[dp as int] == '.',
                forall|q: int| dp < q < j ==> is_digit(#[trigger] t[q]),
                facc == digits_val(t.subrange(dp + 1, j as int)),
                facc < 10000000000000,
            decreases nlen - j,
        {
            let c = num.get_char(j);
            let code = c as u32;
            proof {
                assert(is_digit(t[j as int]) || t[j as int] == '.');
                if t[j as int] == '.' {
                    assert(t[dp as int] == '.' && t[j as int] == '.');
                }
                assert(is_digit(t[j as int]));
                assert(t.subrange(dp + 1, j + 1).drop_last() =~= t.subrange(dp + 1, j as int));
                assert(t.subrange(dp + 1, j + 1).last() == t[j as int]);
                assert forall|q: int|
                    0 <= q < t.subrange(dp + 1, j + 1).len() implies is_digit(
                    #[trigger] t.subrange(dp + 1, j + 1)[q],
                ) by {
                    assert(t.subrange(dp + 1, j + 1)[q] == t[dp + 1 + q]);
                }
                lemma_digits_val_small(t.subrange(dp + 1, j + 1));
                lemma_pow10_le(t.subrange(dp + 1, j + 1).len(), 13);
                lemma_pow10_numeric();
            }
            let d = (code - 48) as u128;
            facc = facc * 10 + d;
            fcount = fcount + 1;
            j = j + 1;
        }
    }
    let ghost frac_all = t.skip(if dp < nlen as usize {
        dp + 1
    } else {
        dp as int
    });
    let ghost frac = if frac_all.len() <= 13 {
        frac_all
    } else {
        frac_all.take(13)
    };
    proof {
        if dp < nlen {
            assert(frac =~= t.subrange(dp + 1, (dp + 1 + fcount) as int));
        } else {
            assert(frac.len() == 0);
        }
        assert(facc == digits_val(frac));
        assert(frac.len() == fcount);
    }
    let scale = pow10_exec(13 - fcount);
    let pow13 = pow10_exec(13);
    proof {
        lemma_pow10_pos((13 - fcount) as nat);
        lemma_pow10_le((13 - fcount) as nat, 13);
        lemma_pow10_numeric();
        assert((facc as int) * (scale as int) < 10000000000000int * 10000000000001)
            by (nonlinear_arith)
            requires
                0 <= facc < 10000000000000,
                0 <= scale <= 10000000000000,
        ;
    }
    let scaled = facc * scale;
    proof {
        assert((scaled as int) * (mult as int) <= 100000000000130000000000000int * 1000000000000)
            by (nonlinear_arith)
            requires
                0 <= scaled <= 100000000000130000000000000int,
                0 <= mult <= 1000000000000,
        ;
        assert(pow13 > 0);
    }
    let contribution = scaled * (mult as u128) / pow13;
    if over {
        proof {
            lemma_digits_val_nonneg(frac);
            assert(digits_val(int_digits) * (mult as int) >= digits_val(int_digits) * 1)
                by (nonlinear_arith)
                requires
                    1 <= (mult as int),
                    digits_val(int_digits) > 0,
            ;
            assert((digits_val(frac) * pow10((13 - frac.len()) as nat)) * (mult as int) / pow10(13)
                >= 0);
            assert(size_value_spec(t, mult as int) > u64::MAX);
        }
        return u64::MAX;
    }
    proof {
        assert((acc as int) * (mult as int) <= 0xFFFFFFFFFFFFFFFFint * 1000000000000)
            by (nonlinear_arith)
            requires
                0 <= acc <= 0xFFFFFFFFFFFFFFFFu128,
                0 <= mult <= 1000000000000,
        ;
    }
    let product = acc * (mult as u128);
    proof {
        assert(size_value_spec(t, mult as int) == (acc as int) * (mult as int) + (
        contribution as int));
        assert(contribution >= 0);
    }
    if product > 0xFFFFFFFFFFFFFFFF {
        proof {
            assert(size_value_spec(t, mult as int) > u64::MAX);
        }
        return u64::MAX;
    }
    let total = product + contribution;
    if total > 0xFFFFFFFFFFFFFFFF {
        u64::MAX
    } else {
        total as u64
    }
}

/// Parse a size string such as `1.5MB` into a byte count, reading
/// decimal units.
pub fn parse_size(size_str: &str) -> (r: Result<u64, Error>)
    ensures
        r is Ok <==> parse_size_ok(size_str@),
        r matches Ok(v) ==> v == parse_size_val(size_str@),
        r matches Err(e) ==> (e matches Error::Validation(ValidationError::InvalidSize(m)) && m@
            == size_norm_spec(size_str@)),
{
    let v = size_normalize(size_str);
    let tokens = split_whitespace_vec(v.as_str());
    if tokens.len() != 2 {
        return Err(Error::Validation(ValidationError::InvalidSize(v)));
    }
    proof {
        assert(tokens.deep_view()[0] == tokens@[0]@);
        assert(tokens.deep_view()[1] == tokens@[1]@);
    }
    if !check_decimal(tokens[0].as_str()) {
        return Err(Error::Validation(ValidationError::InvalidSize(v)));
    }
    let mult = match unit_mult(tokens[1].as_str()) {
        Some(m) => m,
        None => {
            return Err(Error::Validation(ValidationError::InvalidSize(v)));
        },
    };
    Ok(decimal_to_bytes(tokens[0].as_str(), mult))
}


/// What `humansize::format_size` with binary units returns; it depends
/// on the byte count alone.
pub uninterp spec fn human_size_of(bytes: u64) -> Seq<char>;

/// Relies on `humansize::format_size`: a human-readable rendering of a
/// byte count in binary units.
#[verifier::external_body]
pub fn format_size(bytes: u64) -> (r: String)
    ensures
        r@ == human_size_of(bytes),
{
    humansize::format_size(bytes, humansize::BINARY)
}

} // verus!
