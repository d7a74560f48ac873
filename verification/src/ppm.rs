//! The plain raster file: a short header of text, then the pixels as they
//! are.

use crate::img::Image;
use vstd::prelude::*;

verus! {

/// A number in decimal digits, as bytes of text, without leading zeros.
pub open spec fn decimal_bytes(n: nat) -> Seq<u8>
    decreases n,
{
    if n < 10 {
        seq![(48 + n) as u8]
    } else {
        decimal_bytes(n / 10).push((48 + n % 10) as u8)
    }
}

/// The header: the two letters that mark a binary pixmap, width, height
/// and the highest value 255, set apart by one space each, and a line feed.
pub open spec fn ppm_header(width: nat, height: nat) -> Seq<u8> {
    seq![0x50u8, 0x36u8, 0x20u8] + decimal_bytes(width) + seq![0x20u8] + decimal_bytes(height)
        + seq![0x20u8, 0x32u8, 0x35u8, 0x35u8, 0x0Au8]
}

fn push_decimal(out: &mut Vec<u8>, n: u32)
    ensures
        final(out)@ == old(out)@ + decimal_bytes(n as nat),
    decreases n,
{
    if n >= 10 {
        push_decimal(out, n / 10);
    }
    out.push((48 + n % 10) as u8);
    assert(out@ =~= old(out)@ + decimal_bytes(n as nat));
}

/// The plain raster file of a picture.
pub fn encode_ppm(image: &Image) -> (file: Vec<u8>)
    ensures
        file@ == ppm_header(image.spec_width(), image.spec_height()) + image.bytes(),
{
    let mut file: Vec<u8> = Vec::new();
    file.push(0x50);
    file.push(0x36);
    file.push(0x20);
    push_decimal(&mut file, image.width());
    file.push(0x20);
    push_decimal(&mut file, image.height());
    file.push(0x20);
    file.push(0x32);
    file.push(0x35);
    file.push(0x35);
    file.push(0x0A);
    assert(file@ =~= ppm_header(image.spec_width(), image.spec_height()));
    let data: &Vec<u8> = image.data();
    let mut i: usize = 0;
    while i < data.len()
        invariant
            i <= data@.len(),
            data@ == image.bytes(),
            file@ == ppm_header(image.spec_width(), image.spec_height()) + data@.subrange(
                0,
                i as int,
            ),
        decreases data@.len() - i,
    {
        file.push(data[i]);
        assert(file@ =~= ppm_header(image.spec_width(), image.spec_height()) + data@.subrange(
            0,
            i + 1,
        ));
        i = i + 1;
    }
    assert(data@.subrange(0, i as int) =~= data@);
    file
}

} // verus!
