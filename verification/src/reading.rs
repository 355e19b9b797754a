//! Conversion of a raw DS18B20 reading into hundredths of a degree Celsius.

use vstd::prelude::*;

verus! {

/// The raw scratchpad value read as the two's complement number it is:
/// sixteenths of a degree Celsius.
pub open spec fn raw_sixteenths(raw: u16) -> int {
    if raw < 0x8000 {
        raw as int
    } else {
        raw as int - 0x10000
    }
}

/// What `onewire::ds18b20::split_temp` returns for `raw`: whole degrees and
/// ten-thousandths of a degree, both with the sign of the reading.
pub open spec fn split_temp_spec(raw: u16) -> (i16, i16) {
    let v = raw_sixteenths(raw);
    if raw < 0x8000 {
        ((v / 16) as i16, ((v % 16) * 625) as i16)
    } else {
        let a = -v;
        ((-(a / 16)) as i16, (-625 * (a % 16)) as i16)
    }
}

/// The temperature of a raw reading in hundredths of a degree, rounded toward
/// zero.
pub open spec fn centi_of_raw(raw: u16) -> int {
    let hundredfold = raw_sixteenths(raw) * 100;
    if hundredfold >= 0 {
        hundredfold / 16
    } else {
        -((-hundredfold) / 16)
    }
}

/// Calls `onewire::ds18b20::split_temp`, which splits a raw reading into its
/// whole degrees and ten-thousandths of a degree, both carrying the reading's
/// sign (sign and magnitude, not floor division). The contract restates the
/// crate's few lines: a shift by four and a mask of the low four bits, applied
/// to the magnitude for negative readings. On 0x8000 the crate negates
/// `i16::MIN`, which overflows, so that input is excluded.
#[verifier::external_body]
fn split_temp(raw: u16) -> (parts: (i16, i16))
    requires
        raw != 0x8000,
    ensures
        parts == split_temp_spec(raw),
{
    onewire::ds18b20::split_temp(raw)
}

proof fn lemma_fraction_hundredths(r: u32)
    requires
        r < 16,
    ensures
        (625 * r) / 100 == (100 * r) / 16,
{
    assert((625 * r) / 100 == (100 * r) / 16) by (bit_vector)
        requires
            r < 16,
    ;
}

/// Converts a raw DS18B20 reading into hundredths of a degree: the whole
/// degrees from `split_temp` times one hundred plus its ten-thousandths
/// divided by one hundred, both rounded toward zero. This is the reading
/// itself, in hundredths, rounded toward zero. The result lies within
/// 2048 degrees of zero.
pub fn centi_from_raw(raw: u16) -> (centi: i32)
    requires
        raw != 0x8000,
    ensures
        centi as int == split_temp_spec(raw).0 as int * 100 + (if split_temp_spec(raw).1 >= 0 {
            split_temp_spec(raw).1 as int / 100
        } else {
            -((-split_temp_spec(raw).1 as int) / 100)
        }),
        centi as int == centi_of_raw(raw),
        -204800 <= centi <= 204800,
{
    let (whole, fraction) = split_temp(raw);
    proof {
        let v = raw_sixteenths(raw);
        if raw < 0x8000 {
            let q = v / 16;
            let r = v % 16;
            assert(v == 16 * q + r && 0 <= r < 16);
            lemma_fraction_hundredths(r as u32);
            assert(100 * v == 16 * (100 * q) + 100 * r);
            assert((100 * v) / 16 == 100 * q + (100 * r) / 16) by (nonlinear_arith)
                requires
                    100 * v == 16 * (100 * q) + 100 * r,
                    0 <= r < 16,
            ;
        } else {
            let a = -v;
            let q = a / 16;
            let r = a % 16;
            assert(a == 16 * q + r && 0 <= r < 16);
            lemma_fraction_hundredths(r as u32);
            assert(100 * a == 16 * (100 * q) + 100 * r);
            assert((100 * a) / 16 == 100 * q + (100 * r) / 16) by (nonlinear_arith)
                requires
                    100 * a == 16 * (100 * q) + 100 * r,
                    0 <= r < 16,
            ;
            assert(-(v * 100) == 100 * a);
        }
    }
    (whole as i32) * 100 + (fraction as i32) / 100
}


/// A converted reading lies within 2048 degrees of zero.
pub proof fn lemma_centi_of_raw_bounds(raw: u16)
    ensures
        -204800 <= centi_of_raw(raw) <= 204800,
{
    let h = raw_sixteenths(raw) * 100;
    assert(-3276800 <= h <= 3276700);
    if h >= 0 {
        assert(h / 16 <= 204800) by (nonlinear_arith)
            requires
                0 <= h <= 3276700,
        ;
    } else {
        assert((-h) / 16 <= 204800) by (nonlinear_arith)
            requires
                0 < -h <= 3276800,
        ;
    }
}

} // verus!
