//! The plain pixel-map text format: a header, then one line of three decimal
//! numbers for each pixel.
use vstd::prelude::*;
use vstd::string::StringExecFns;
use crate::scalar::{clamp_raw, div_raw, sat, sqrt_raw, Scalar, MAX_RAW, ONE_RAW};
use crate::vec::V3;

verus! {

/// The largest value of a colour channel in the output.
pub const CHANNEL_MAX: u64 = 255;

/// The raw value at which a channel is capped before it is scaled to a byte.
pub const CHANNEL_CAP_RAW: i64 = 999_000;

/// The character that writes the digit `d`.
pub open spec fn digit_char(d: int) -> char {
    if d == 0 {
        '0'
    } else if d == 1 {
        '1'
    } else if d == 2 {
        '2'
    } else if d == 3 {
        '3'
    } else if d == 4 {
        '4'
    } else if d == 5 {
        '5'
    } else if d == 6 {
        '6'
    } else if d == 7 {
        '7'
    } else if d == 8 {
        '8'
    } else {
        '9'
    }
}

/// The decimal numeral of `n`, without leading zeros.
pub open spec fn decimal(n: nat) -> Seq<char>
    decreases n,
{
    if n < 10 {
        seq![digit_char(n as int)]
    } else {
        decimal(n / 10).push(digit_char((n % 10) as int))
    }
}

/// The byte that a summed channel is written as: the mean over `samples`
/// draws, its square root as gamma correction, capped and scaled to 256 steps.
pub open spec fn channel_byte(sum: int, samples: nat) -> int {
    let mean = div_raw(sum, sat(samples * ONE_RAW));
    let toned = clamp_raw(sqrt_raw(mean), 0, CHANNEL_CAP_RAW as int);
    (256 * toned) / (ONE_RAW as int)
}

/// The line of text for one pixel: its three bytes, separated by spaces.
pub open spec fn color_text(sum: V3, samples: nat) -> Seq<char> {
    decimal(channel_byte(sum.x, samples) as nat) + seq![' '] + decimal(
        channel_byte(sum.y, samples) as nat,
    ) + seq![' '] + decimal(channel_byte(sum.z, samples) as nat)
}

/// The header of an image of the given size: the format's name, the width and
/// the height, and the largest channel value, each line ended by a line feed.
pub open spec fn header_text(width: nat, height: nat) -> Seq<char> {
    seq!['P', '3', '\n'] + decimal(width) + seq![' '] + decimal(height) + seq![
        '\n',
        '2',
        '5',
        '5',
        '\n',
    ]
}

/// A channel byte is at most `CHANNEL_MAX`.
pub proof fn lemma_channel_byte_range(sum: int, samples: nat)
    ensures
        0 <= channel_byte(sum, samples) <= CHANNEL_MAX,
{
}

fn digit_str(d: u64) -> (s: &'static str)
    requires
        d < 10,
    ensures
        s@ == seq![digit_char(d as int)],
{
    proof {
        reveal_strlit("0");
        reveal_strlit("1");
        reveal_strlit("2");
        reveal_strlit("3");
        reveal_strlit("4");
        reveal_strlit("5");
        reveal_strlit("6");
        reveal_strlit("7");
        reveal_strlit("8");
        reveal_strlit("9");
    }
    let s: &'static str = if d == 0 {
        "0"
    } else if d == 1 {
        "1"
    } else if d == 2 {
        "2"
    } else if d == 3 {
        "3"
    } else if d == 4 {
        "4"
    } else if d == 5 {
        "5"
    } else if d == 6 {
        "6"
    } else if d == 7 {
        "7"
    } else if d == 8 {
        "8"
    } else {
        "9"
    };
    assert(s@ =~= seq![digit_char(d as int)]);
    s
}

/// Appends the decimal numeral of `n` to `s`.
pub fn push_decimal(s: &mut String, n: u64)
    ensures
        final(s)@ == old(s)@ + decimal(n as nat),
    decreases n,
{
    if n >= 10 {
        push_decimal(s, n / 10);
    }
    s.append(digit_str(n % 10));
    assert(final(s)@ =~= old(s)@ + decimal(n as nat));
}

/// The byte that a summed channel is written as.
pub fn channel_byte_of(sum: Scalar, samples: u64) -> (b: u64)
    ensures
        b == channel_byte(sum@, samples as nat),
        b <= CHANNEL_MAX,
{
    let count: Scalar = if samples > MAX_RAW as u64 {
        Scalar { raw: MAX_RAW }
    } else {
        Scalar::from_int(samples as i64)
    };
    let mean: Scalar = sum / count;
    let toned: Scalar = mean.sqrt().clamp(Scalar { raw: 0 }, Scalar { raw: CHANNEL_CAP_RAW });
    (256 * toned.raw as u64) / (ONE_RAW as u64)
}

/// The header of an image of the given size.
pub fn ppm_header(width: u64, height: u64) -> (s: String)
    ensures
        s@ == header_text(width as nat, height as nat),
{
    let mut s: String = String::new();
    s.append("P3\n");
    push_decimal(&mut s, width);
    s.append(" ");
    push_decimal(&mut s, height);
    s.append("\n255\n");
    proof {
        reveal_strlit("P3\n");
        reveal_strlit(" ");
        reveal_strlit("\n255\n");
        assert("P3\n"@ =~= seq!['P', '3', '\n']);
        assert(" "@ =~= seq![' ']);
        assert("\n255\n"@ =~= seq!['\n', '2', '5', '5', '\n']);
        assert(s@ =~= header_text(width as nat, height as nat));
    }
    s
}

} // verus!
