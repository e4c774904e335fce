//! The coil weight sensor on the agent's board: a load cell read through an HX711
//! 24-bit ADC, and the loop that pushes readings to the job server.
//!
//! The GPIO files, the clock and the conversion to kilograms (a floating-point
//! calibration) stay with the program; the ADC protocol's arithmetic, the text of the
//! pin files and the push schedule are decided here.
use vstd::prelude::*;

use crate::text::{all_digits, chars_of, digits_value, is_ascii_digit, owned, push_str, trim_bounds, trim_ws};
use crate::updater::{parse_u64_range, spec_parse_u64};

verus! {

/// The BCM pin of the HX711 data line unless configured otherwise.
pub const HX711_DAT_PIN_DEFAULT: u8 = 5;

/// The BCM pin of the HX711 clock line unless configured otherwise.
pub const HX711_CLK_PIN_DEFAULT: u8 = 6;

/// The shortest interval between two pushes, in seconds.
pub const MIN_PUSH_INTERVAL_SECS: u64 = 5;

/// `u8::from_str`.
pub open spec fn spec_parse_u8(s: Seq<char>) -> Option<u8> {
    match spec_parse_u64(s) {
        Some(v) => if v <= 255 {
            Some(v as u8)
        } else {
            None
        },
        None => None,
    }
}

/// `i32::from_str`: an optional sign, then one or more ASCII digits whose value fits in an `i32`.
pub open spec fn spec_parse_i32(s: Seq<char>) -> Option<i32> {
    if s.len() > 0 && s[0] == '-' {
        let d = s.drop_first();
        if d.len() > 0 && all_digits(d) && digits_value(d) <= 0x8000_0000 {
            Some((0 - digits_value(d)) as i32)
        } else {
            None
        }
    } else {
        match spec_parse_u64(s) {
            Some(v) => if v <= 0x7FFF_FFFF {
                Some(v as i32)
            } else {
                None
            },
            None => None,
        }
    }
}

/// `u8::from_str` of a text.
pub fn parse_u8(text: &str) -> (r: Option<u8>)
    ensures
        r == spec_parse_u8(text@),
{
    let v = chars_of(text);
    assert(v@.subrange(0, v@.len() as int) =~= v@);
    match parse_u64_range(&v, 0, v.len()) {
        Some(x) => if x <= 255 {
            Some(x as u8)
        } else {
            None
        },
        None => None,
    }
}

/// `i32::from_str` of a text.
pub fn parse_i32(text: &str) -> (r: Option<i32>)
    ensures
        r == spec_parse_i32(text@),
{
    let v = chars_of(text);
    if v.len() > 0 && v[0] == '-' {
        let ghost d = v@.drop_first();
        assert(v@.subrange(1, v@.len() as int) =~= d);
        if v.len() == 1 || !('0' <= v[1] && v[1] <= '9') {
            proof {
                if d.len() > 0 {
                    assert(!is_ascii_digit(d[0]));
                }
            }
            return None;
        }
        assert(is_ascii_digit(d[0]));
        match parse_u64_range(&v, 1, v.len()) {
            Some(x) => if x <= 0x8000_0000 {
                Some((0i64 - x as i64) as i32)
            } else {
                None
            },
            None => None,
        }
    } else {
        assert(v@.subrange(0, v@.len() as int) =~= v@);
        match parse_u64_range(&v, 0, v.len()) {
            Some(x) => if x <= 0x7FFF_FFFF {
                Some(x as i32)
            } else {
                None
            },
            None => None,
        }
    }
}

/// The GPIO pin to use: the configured text when it is a `u8`, else the default.
pub fn gpio_pin(configured: Option<String>, default: u8) -> (pin: u8)
    ensures
        pin == (match configured {
            Some(t) => match spec_parse_u8(t@) {
                Some(p) => p,
                None => default,
            },
            None => default,
        }),
{
    match configured {
        Some(t) => match parse_u8(t.as_str()) {
            Some(p) => p,
            None => default,
        },
        None => default,
    }
}

/// A text trimmed (`str::trim`).
fn trimmed(text: &str) -> (r: String)
    ensures
        r@ == trim_ws(text@),
{
    crate::text::trim_string(text)
}

/// The HX711 signals data ready when its data line reads `0`; a value file that does
/// not read as a `u8` counts as not ready.
pub fn data_ready(value_file: &str) -> (ready: bool)
    ensures
        ready == (match spec_parse_u8(trim_ws(value_file@)) {
            Some(b) => b == 0,
            None => false,
        }),
{
    match parse_u8(trimmed(value_file).as_str()) {
        Some(b) => b == 0,
        None => false,
    }
}

/// The bit read from a data-line value file: its trimmed text as an `i32`, `0` otherwise.
pub fn data_bit(value_file: &str) -> (bit: i32)
    ensures
        bit == (match spec_parse_i32(trim_ws(value_file@)) {
            Some(b) => b,
            None => 0,
        }),
{
    match parse_i32(trimmed(value_file).as_str()) {
        Some(b) => b,
        None => 0,
    }
}

/// The 32-bit word shifted in from the data-line samples, most significant first.
pub open spec fn shift_in(bits: Seq<i32>) -> i32
    decreases bits.len(),
{
    if bits.len() == 0 {
        0
    } else {
        (shift_in(bits.drop_last()) << 1u32) | bits.last()
    }
}

/// A 24-bit two's complement value extended to 32 bits.
pub open spec fn sign_extend_24(raw: i32) -> i32 {
    if raw & 0x80_0000i32 != 0 {
        raw | (!0x00FF_FFFFi32)
    } else {
        raw
    }
}

/// The raw ADC count of one HX711 conversion from its 24 data-line samples.
pub fn hx711_count(bits: &[i32]) -> (raw: i32)
    requires
        bits@.len() == 24,
    ensures
        raw == sign_extend_24(shift_in(bits@)),
{
    let mut raw: i32 = 0;
    let mut i: usize = 0;
    assert(bits@.take(0) =~= Seq::<i32>::empty());
    while i < 24
        invariant
            0 <= i <= 24,
            bits@.len() == 24,
            raw == shift_in(bits@.take(i as int)),
        decreases 24 - i,
    {
        assert(bits@.take(i + 1).drop_last() =~= bits@.take(i as int));
        raw = (raw << 1u32) | bits[i];
        i = i + 1;
    }
    assert(bits@.take(24) =~= bits@);
    if raw & 0x80_0000 != 0 {
        raw = raw | !0x00FF_FFFF;
    }
    raw
}

/// The value of a sequence of binary digits, most significant first.
pub open spec fn binary_value(bits: Seq<i32>) -> int
    decreases bits.len(),
{
    if bits.len() == 0 {
        0
    } else {
        2 * binary_value(bits.drop_last()) + bits.last()
    }
}

pub open spec fn all_binary(bits: Seq<i32>) -> bool {
    forall|i: int| 0 <= i < bits.len() ==> bits[i] == 0 || bits[i] == 1
}

/// The push interval: the configured seconds, at least five.
pub fn push_interval_secs(configured: u64) -> (secs: u64)
    ensures
        secs == if configured < MIN_PUSH_INTERVAL_SECS { MIN_PUSH_INTERVAL_SECS } else { configured },
        secs >= MIN_PUSH_INTERVAL_SECS,
{
    if configured < MIN_PUSH_INTERVAL_SECS {
        MIN_PUSH_INTERVAL_SECS
    } else {
        configured
    }
}

/// The job server endpoint that takes coil weight pushes.
pub fn sensor_endpoint(server_url: &str) -> (u: String)
    ensures
        u@ == server_url@ + "/api/sensor/coil"@,
{
    let mut u = owned(server_url);
    push_str(&mut u, "/api/sensor/coil");
    u
}

// ───────────────────────────── laws ─────────────────────────────

proof fn lemma_shift_in_binary(bits: Seq<i32>)
    requires
        all_binary(bits),
        bits.len() <= 24,
    ensures
        shift_in(bits) == binary_value(bits),
        0 <= binary_value(bits) < pow2(bits.len()),
    decreases bits.len(),
{
    if bits.len() > 0 {
        let p = bits.drop_last();
        assert(all_binary(p)) by {
            assert forall|i: int| 0 <= i < p.len() implies p[i] == 0 || p[i] == 1 by {
                assert(p[i] == bits[i]);
            }
        }
        lemma_shift_in_binary(p);
        let x = shift_in(p);
        let b = bits.last();
        assert(b == 0 || b == 1);
        assert(pow2(bits.len()) == 2 * pow2(p.len()));
        assert(pow2(p.len()) <= 0x80_0000) by {
            lemma_pow2_le_23(p.len());
        }
        assert(0 <= x < 0x80_0000);
        assert((x << 1u32) | b == 2 * x + b) by (bit_vector)
            requires
                0 <= x < 0x80_0000,
                b == 0 || b == 1,
        ;
    }
}

/// `2^n`.
pub open spec fn pow2(n: nat) -> int
    decreases n,
{
    if n == 0 {
        1
    } else {
        2 * pow2((n - 1) as nat)
    }
}

proof fn lemma_pow2_le_23(n: nat)
    requires
        n <= 23,
    ensures
        pow2(n) <= 0x80_0000,
    decreases 23 - n,
{
    reveal_with_fuel(pow2, 24);
    if n < 23 {
        lemma_pow2_le_23(n + 1);
        assert(pow2(n + 1) == 2 * pow2(n));
    }
}

/// The count of 24 binary samples is their value as a 24-bit two's complement number:
/// below `2^23` as is, from `2^23` on less `2^24`.
pub proof fn lemma_hx711_twos_complement(bits: Seq<i32>)
    requires
        bits.len() == 24,
        all_binary(bits),
    ensures
        -0x80_0000 <= sign_extend_24(shift_in(bits)) < 0x80_0000,
        sign_extend_24(shift_in(bits)) == (if binary_value(bits) < 0x80_0000 {
            binary_value(bits)
        } else {
            binary_value(bits) - 0x100_0000
        }),
{
    lemma_shift_in_binary(bits);
    lemma_pow2_le_23(23);
    assert(pow2(24) == 2 * pow2(23));
    let x = shift_in(bits);
    assert(0 <= x < 0x100_0000);
    assert((x & 0x80_0000i32 != 0) == (x >= 0x80_0000)) by (bit_vector)
        requires
            0 <= x < 0x100_0000,
    ;
    assert(x >= 0x80_0000 ==> (x | (!0x00FF_FFFFi32)) == x - 0x100_0000) by (bit_vector)
        requires
            0 <= x < 0x100_0000,
    ;
}

} // verus!
