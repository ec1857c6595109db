//! The text record store: the high-score record saved as its decimal ASCII
//! digits, with a leading minus sign for a negative value, and read back by
//! parsing such a string. The parsing accepts exactly what a signed 32-bit
//! decimal parse accepts: an optional plus or minus sign, then one or more
//! digits, with the value in range. The file itself is read and written by
//! the shell around the crate.

use vstd::prelude::*;

verus! {

/// ASCII code of the minus sign.
pub const MINUS: u8 = 45;

/// ASCII code of the plus sign.
pub const PLUS: u8 = 43;

/// ASCII code of the digit zero.
pub const ZERO_DIGIT: u8 = 48;

/// Whether `c` is an ASCII decimal digit.
pub open spec fn spec_is_digit(c: u8) -> bool {
    48 <= c <= 57
}

/// The decimal digit string of the non-negative value `n`, most significant
/// digit first and without leading zeros (`0` itself is the single digit 0).
pub open spec fn spec_dec_u32(n: int) -> Seq<u8>
    decreases n,
{
    if n < 10 {
        seq![(48 + n) as u8]
    } else {
        spec_dec_u32(n / 10).push((48 + n % 10) as u8)
    }
}

/// The decimal string of the signed value `v`: a minus sign before the
/// digits of its magnitude when it is negative.
pub open spec fn spec_dec_i32(v: int) -> Seq<u8> {
    if v < 0 {
        seq![MINUS] + spec_dec_u32(-v)
    } else {
        spec_dec_u32(v)
    }
}

/// The value of a digit string, most significant digit first.
pub open spec fn spec_dec_value(s: Seq<u8>) -> int
    decreases s.len(),
{
    if s.len() == 0 {
        0
    } else {
        spec_dec_value(s.drop_last()) * 10 + (s.last() - 48)
    }
}

/// Whether the string starts with a plus or minus sign.
pub open spec fn spec_has_sign(s: Seq<u8>) -> bool {
    s.len() > 0 && (s[0] == PLUS || s[0] == MINUS)
}

/// The digit part of the string: everything after the sign, if there is
/// one.
pub open spec fn spec_body(s: Seq<u8>) -> Seq<u8> {
    if spec_has_sign(s) {
        s.drop_first()
    } else {
        s
    }
}

/// Whether the string states a negative value.
pub open spec fn spec_is_negative(s: Seq<u8>) -> bool {
    s.len() > 0 && s[0] == MINUS
}

/// Whether every byte of the string is a decimal digit.
pub open spec fn spec_all_digits(s: Seq<u8>) -> bool {
    forall|i: int| 0 <= i < s.len() ==> spec_is_digit(#[trigger] s[i])
}

/// The signed value the string states.
pub open spec fn spec_signed_value(s: Seq<u8>) -> int {
    if spec_is_negative(s) {
        -spec_dec_value(spec_body(s))
    } else {
        spec_dec_value(spec_body(s))
    }
}

/// Whether the string parses as a signed 32-bit value: an optional sign,
/// one or more digits and nothing else, and the value in range.
pub open spec fn spec_valid_i32_string(s: Seq<u8>) -> bool {
    &&& spec_body(s).len() > 0
    &&& spec_all_digits(spec_body(s))
    &&& i32::MIN <= spec_signed_value(s) <= i32::MAX
}

/// A digit string's value is never negative.
proof fn lemma_dec_value_nonneg(s: Seq<u8>)
    requires
        spec_all_digits(s),
    ensures
        spec_dec_value(s) >= 0,
    decreases s.len(),
{
    if s.len() > 0 {
        assert(spec_all_digits(s.drop_last()));
        lemma_dec_value_nonneg(s.drop_last());
    }
}

/// A digit string's value is at least the value of any of its prefixes.
proof fn lemma_dec_value_ge_prefix(s: Seq<u8>, i: int)
    requires
        spec_all_digits(s),
        0 <= i <= s.len(),
    ensures
        spec_dec_value(s) >= spec_dec_value(s.subrange(0, i)),
    decreases s.len(),
{
    if i == s.len() {
        assert(s.subrange(0, i) =~= s);
    } else {
        assert(spec_all_digits(s.drop_last()));
        assert(s.drop_last().subrange(0, i) =~= s.subrange(0, i));
        lemma_dec_value_ge_prefix(s.drop_last(), i);
        lemma_dec_value_nonneg(s.drop_last());
    }
}

/// Parse a signed 32-bit value from its decimal ASCII form: `Some` exactly
/// on the strings `spec_valid_i32_string` admits, with the value they
/// state.
pub fn parse_i32(s: &Vec<u8>) -> (r: Option<i32>)
    ensures
        r == if spec_valid_i32_string(s@) {
            Some(spec_signed_value(s@) as i32)
        } else {
            Option::<i32>::None
        },
{
    let n: usize = s.len();
    let mut idx: usize = 0;
    let mut neg: bool = false;
    if n > 0 && (s[0] == PLUS || s[0] == MINUS) {
        neg = s[0] == MINUS;
        idx = 1;
    }
    let ghost start = idx as int;
    let ghost body = spec_body(s@);
    proof {
        assert(body =~= s@.subrange(start, n as int));
        assert(neg == spec_is_negative(s@));
    }
    if idx >= n {
        // No digits at all: not a number.
        return None;
    }
    let mut acc: u64 = 0;
    while idx < n
        invariant
            start <= idx <= n,
            0 <= start <= 1,
            n == s@.len(),
            body == spec_body(s@),
            body == s@.subrange(start, n as int),
            neg == spec_is_negative(s@),
            forall|j: int| 0 <= j < idx - start ==> spec_is_digit(#[trigger] body[j]),
            acc == spec_dec_value(body.subrange(0, idx - start)),
            acc <= 0x8000_0000,
        decreases n - idx,
    {
        let c = s[idx];
        proof {
            assert(body[idx - start] == s@[idx as int]);
        }
        if c < ZERO_DIGIT || c > ZERO_DIGIT + 9 {
            // A stray byte: not a number.
            assert(!spec_is_digit(body[idx - start]));
            return None;
        }
        acc = acc * 10 + ((c - ZERO_DIGIT) as u64);
        proof {
            assert(body.subrange(0, idx - start + 1).drop_last() =~= body.subrange(
                0,
                idx - start,
            ));
            assert(body.subrange(0, idx - start + 1).last() == body[idx - start]);
        }
        idx += 1;
        if acc > 0x8000_0000 {
            // The magnitude has outgrown the 32-bit range and more digits
            // can only grow it further: not a 32-bit number.
            proof {
                if spec_all_digits(body) {
                    lemma_dec_value_ge_prefix(body, idx - start);
                    lemma_dec_value_nonneg(body);
                }
            }
            return None;
        }
    }
    proof {
        assert(body.subrange(0, n - start) =~= body);
        assert(spec_all_digits(body));
    }
    if neg {
        let v: i64 = -(acc as i64);
        Some(v as i32)
    } else {
        if acc > i32::MAX as u64 {
            // Too large for a signed 32-bit value.
            return None;
        }
        Some(acc as i32)
    }
}

/// Every byte of a magnitude's decimal form is a digit.
proof fn lemma_dec_u32_all_digits(n: int)
    requires
        n >= 0,
    ensures
        spec_dec_u32(n).len() >= 1,
        spec_all_digits(spec_dec_u32(n)),
    decreases n,
{
    if n >= 10 {
        lemma_dec_u32_all_digits(n / 10);
        let s = spec_dec_u32(n / 10);
        let d = (48 + n % 10) as u8;
        assert(0 <= n % 10 < 10);
        assert forall|i: int| 0 <= i < s.push(d).len() implies spec_is_digit(
            #[trigger] s.push(d)[i],
        ) by {
            if i < s.len() {
                assert(s.push(d)[i] == s[i]);
            }
        }
    }
}

/// The decimal form of a magnitude reads back as the magnitude.
proof fn lemma_dec_value_of_dec_u32(n: int)
    requires
        n >= 0,
    ensures
        spec_dec_value(spec_dec_u32(n)) == n,
    decreases n,
{
    if n < 10 {
        let s = spec_dec_u32(n);
        assert(s == seq![(48 + n) as u8]);
        assert(s.drop_last() =~= Seq::<u8>::empty());
        assert(spec_dec_value(Seq::<u8>::empty()) == 0);
        assert(s.last() == (48 + n) as u8);
        assert(spec_dec_value(s) == 0 * 10 + ((48 + n) as u8 - 48));
    } else {
        lemma_dec_value_of_dec_u32(n / 10);
        let s = spec_dec_u32(n / 10);
        let d = (48 + n % 10) as u8;
        assert(spec_dec_u32(n) == s.push(d));
        assert(s.push(d).drop_last() =~= s);
        assert(s.push(d).last() == d);
        assert(spec_dec_value(s.push(d)) == spec_dec_value(s) * 10 + (d - 48));
        assert(0 <= n % 10 < 10);
        assert(d - 48 == n % 10);
        vstd::arithmetic::div_mod::lemma_fundamental_div_mod(n, 10);
        assert(spec_dec_value(s.push(d)) == (n / 10) * 10 + n % 10);
    }
}

/// The decimal form of any signed 32-bit value is a valid decimal string
/// and reads back as the value: the text round trip is the identity.
pub proof fn lemma_dec_round_trip(v: int)
    requires
        i32::MIN <= v <= i32::MAX,
    ensures
        spec_valid_i32_string(spec_dec_i32(v)),
        spec_signed_value(spec_dec_i32(v)) == v,
{
    if v < 0 {
        let mag = spec_dec_u32(-v);
        lemma_dec_u32_all_digits(-v);
        lemma_dec_value_of_dec_u32(-v);
        let s = seq![MINUS] + mag;
        assert(s[0] == MINUS);
        assert(spec_dec_i32(v) == s);
        assert(s.drop_first() =~= mag);
        assert(spec_body(s) == mag);
        assert(spec_signed_value(s) == -spec_dec_value(mag));
    } else {
        let s = spec_dec_u32(v);
        lemma_dec_u32_all_digits(v);
        lemma_dec_value_of_dec_u32(v);
        assert(spec_is_digit(s[0]));
        assert(!spec_has_sign(s));
        assert(spec_body(s) == s);
    }
}

/// The record's decimal ASCII form: the bytes that the text store holds for
/// `record`.
pub fn save_record(record: i32) -> (r: Vec<u8>)
    ensures
        r@ == spec_dec_i32(record as int),
{
    let neg: bool = record < 0;
    let m_start: u32 = if record < 0 {
        (-(record as i64)) as u32
    } else {
        record as u32
    };
    let ghost m0 = m_start as int;
    let mut m: u32 = m_start;
    let mut digits: Vec<u8> = Vec::new();
    loop
        invariant_except_break
            0 <= m <= m0,
            spec_dec_u32(m0) == spec_dec_u32(m as int) + digits@.reverse(),
        ensures
            spec_dec_u32(m0) == digits@.reverse(),
        decreases m,
    {
        let d: u8 = (m % 10) as u8 + ZERO_DIGIT;
        proof {
            let ghost_m = m as int;
            if ghost_m >= 10 {
                assert(spec_dec_u32(ghost_m) == spec_dec_u32(ghost_m / 10).push(
                    (48 + ghost_m % 10) as u8,
                ));
            }
            assert(digits@.push(d).reverse() =~= seq![d] + digits@.reverse());
            assert(spec_dec_u32(ghost_m / 10).push((48 + ghost_m % 10) as u8)
                + digits@.reverse() =~= spec_dec_u32(ghost_m / 10) + (seq![d]
                + digits@.reverse()));
        }
        digits.push(d);
        m = m / 10;
        if m == 0 {
            proof {
                assert(seq![d] + digits@.drop_last().reverse() =~= digits@.reverse());
            }
            break ;
        }
    }
    let mut out: Vec<u8> = Vec::new();
    if neg {
        out.push(MINUS);
    }
    let ghost head: Seq<u8> = if neg {
        seq![MINUS]
    } else {
        Seq::<u8>::empty()
    };
    proof {
        assert(out@ =~= head);
        assert(out@ =~= head + digits@.reverse().subrange(0, 0));
    }
    let len: usize = digits.len();
    let mut i: usize = len;
    while i > 0
        invariant
            0 <= i <= len,
            len == digits@.len(),
            spec_dec_u32(m0) == digits@.reverse(),
            out@ == head + digits@.reverse().subrange(0, len - i),
        decreases i,
    {
        i -= 1;
        out.push(digits[i]);
        proof {
            let rev = digits@.reverse();
            assert(rev[len - 1 - i] == digits@[i as int]);
            assert(out@ =~= head + rev.subrange(0, len - i));
        }
    }
    proof {
        assert(digits@.reverse().subrange(0, len as int) =~= digits@.reverse());
        if neg {
            assert(m0 == -(record as int));
            assert(out@ == seq![MINUS] + spec_dec_u32(-(record as int)));
        } else {
            assert(out@ =~= spec_dec_u32(record as int));
        }
    }
    out
}

/// The record held in the text store: the parsed value of its bytes; with
/// no store at all, zero.
pub fn get_record(file: &Option<Vec<u8>>) -> (r: i32)
    requires
        match file {
            Some(data) => spec_valid_i32_string(data@),
            None => true,
        },
    ensures
        r as int == match file {
            Some(data) => spec_signed_value(data@),
            None => 0int,
        },
{
    match file {
        None => 0,
        Some(data) => {
            let parsed = parse_i32(data);
            match parsed {
                Some(v) => v,
                None => 0,  // unreachable: the store was checked to be valid
            }
        },
    }
}

} // verus!
