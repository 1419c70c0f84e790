//! The image as the text of a plain PPM file.

use vstd::prelude::*;

verus! {

/// The ASCII code of the decimal digit `digit`.
pub open spec fn digit_code(digit: nat) -> u8 {
    (48 + digit) as u8
}

/// The decimal numeral of `n`, as ASCII codes, without leading zeros.
pub open spec fn decimal(n: nat) -> Seq<u8>
    decreases n,
{
    if n < 10 {
        seq![digit_code(n)]
    } else {
        decimal(n / 10).push(digit_code(n % 10))
    }
}

/// The line of one pixel: its three channels as decimal numerals, separated
/// by one space and ended by a line feed.
pub open spec fn pixel_line(red: u8, green: u8, blue: u8) -> Seq<u8> {
    decimal(red as nat) + seq![32u8] + decimal(green as nat) + seq![32u8] + decimal(blue as nat)
        + seq![10u8]
}

/// The lines of the first `count` pixels of `pixels`.
pub open spec fn pixel_lines(pixels: Seq<u8>, count: nat) -> Seq<u8>
    decreases count,
{
    if count == 0 {
        Seq::<u8>::empty()
    } else {
        pixel_lines(pixels, (count - 1) as nat) + pixel_line(
            pixels[3 * count - 3],
            pixels[3 * count - 2],
            pixels[3 * count - 1],
        )
    }
}

/// The header of a plain PPM file with channel values up to 255: the magic
/// number of the plain format, then width and height, then 255, each on a
/// line.
pub open spec fn header(width: u32, height: u32) -> Seq<u8> {
    seq![80u8, 51u8, 10u8] + decimal(width as nat) + seq![32u8] + decimal(height as nat) + seq![
        10u8,
        50u8,
        53u8,
        53u8,
        10u8,
    ]
}

/// The text of the plain PPM file of an image.
pub open spec fn spec_encode(width: u32, height: u32, pixels: Seq<u8>) -> Seq<u8> {
    header(width, height) + pixel_lines(pixels, pixels.len() / 3)
}

/// Appends the decimal numeral of `n` to `text`.
pub fn push_decimal(text: &mut Vec<u8>, n: u32)
    ensures
        final(text)@ == old(text)@ + decimal(n as nat),
{
    let mut digits: Vec<u8> = Vec::new();
    let mut rest: u32 = n;
    // The digits of n after the leading ones that are still in `rest`,
    // last digit first.
    while rest >= 10
        invariant
            forall|lead: Seq<u8>| #[trigger]
                (lead + decimal(n as nat)) == lead + decimal(rest as nat) + digits@.reverse(),
        decreases rest,
    {
        let digit: u8 = (rest % 10) as u8;
        let ghost before = digits@;
        let ghost whole = rest;
        digits.push(48 + digit);
        rest = rest / 10;
        proof {
            assert(decimal(whole as nat) == decimal(rest as nat).push(digit_code(digit as nat)));
            assert(digits@.reverse() =~= seq![digit_code(digit as nat)] + before.reverse());
            assert forall|lead: Seq<u8>| #[trigger]
                (lead + decimal(n as nat)) == lead + decimal(rest as nat) + digits@.reverse() by {
                assert(lead + decimal(n as nat) == lead + decimal(whole as nat) + before.reverse());
                assert(lead + decimal(whole as nat) + before.reverse() =~= lead + decimal(
                    rest as nat,
                ) + digits@.reverse());
            }
        }
    }
    text.push(48 + rest as u8);
    proof {
        assert(decimal(rest as nat) == seq![digit_code(rest as nat)]);
        assert(text@ =~= old(text)@ + decimal(rest as nat));
        assert(old(text)@ + decimal(n as nat) == old(text)@ + decimal(rest as nat)
            + digits@.reverse());
    }
    let mut left: usize = digits.len();
    while left > 0
        invariant
            left <= digits@.len(),
            text@ == old(text)@ + decimal(rest as nat) + digits@.reverse().take(
                digits@.len() - left,
            ),
        decreases left,
    {
        left = left - 1;
        let ghost before = text@;
        text.push(digits[left]);
        proof {
            let reversed = digits@.reverse();
            let taken = digits@.len() - left;
            assert(reversed[taken - 1] == digits@[left as int]);
            assert(reversed.take(taken) =~= reversed.take(taken - 1).push(reversed[taken - 1]));
            assert(text@ =~= old(text)@ + decimal(rest as nat) + reversed.take(taken));
        }
    }
    proof {
        assert(digits@.reverse().take(digits@.len() as int) =~= digits@.reverse());
    }
}

/// The text of the plain PPM file of an image of RGB bytes.
///
/// The header states `width` and `height` as given; the body has one line
/// for each whole pixel of `pixels`.
pub fn encode(width: u32, height: u32, pixels: &Vec<u8>) -> (text: Vec<u8>)
    requires
        pixels@.len() % 3 == 0,
    ensures
        text@ == spec_encode(width, height, pixels@),
{
    let mut text: Vec<u8> = Vec::new();
    text.push(80);
    text.push(51);
    text.push(10);
    push_decimal(&mut text, width);
    text.push(32);
    push_decimal(&mut text, height);
    text.push(10);
    text.push(50);
    text.push(53);
    text.push(53);
    text.push(10);
    assert(text@ =~= header(width, height));
    let length: usize = pixels.len();
    let count: usize = length / 3;
    let mut done: usize = 0;
    while done < count
        invariant
            done <= count,
            length == pixels@.len(),
            3 * count == length,
            count == pixels@.len() / 3,
            text@ == header(width, height) + pixel_lines(pixels@, done as nat),
        decreases count - done,
    {
        let at: usize = 3 * done;
        let ghost before = text@;
        push_decimal(&mut text, pixels[at] as u32);
        text.push(32);
        push_decimal(&mut text, pixels[at + 1] as u32);
        text.push(32);
        push_decimal(&mut text, pixels[at + 2] as u32);
        text.push(10);
        done = done + 1;
        proof {
            assert(text@ =~= before + pixel_line(
                pixels@[at as int],
                pixels@[at + 1],
                pixels@[at + 2],
            ));
            assert(text@ =~= header(width, height) + pixel_lines(pixels@, done as nat));
        }
    }
    text
}

} // verus!
