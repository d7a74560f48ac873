//! The image container: a signature, then records of length, tag, payload
//! and checksum.

use crate::crypt::{crc, crc32, crc32_register, crc32_update, encode_data_zlib, zlib_stream};
use crate::img::Image;
use vstd::prelude::*;

verus! {

/// The four bytes of a 32-bit number, the highest first.
pub open spec fn be32(n: u32) -> Seq<u8> {
    seq![
        (n / 0x100_0000) as u8,
        ((n / 0x1_0000) % 0x100) as u8,
        ((n / 0x100) % 0x100) as u8,
        (n % 0x100) as u8,
    ]
}

/// The signature that opens the file.
pub open spec fn png_signature() -> Seq<u8> {
    seq![0x89u8, 0x50u8, 0x4Eu8, 0x47u8, 0x0Du8, 0x0Au8, 0x1Au8, 0x0Au8]
}

/// The tag of the header record.
pub open spec fn tag_ihdr() -> Seq<u8> {
    seq![0x49u8, 0x48u8, 0x44u8, 0x52u8]
}

/// The tag of the image-data record.
pub open spec fn tag_idat() -> Seq<u8> {
    seq![0x49u8, 0x44u8, 0x41u8, 0x54u8]
}

/// The tag of the closing record.
pub open spec fn tag_iend() -> Seq<u8> {
    seq![0x49u8, 0x45u8, 0x4Eu8, 0x44u8]
}

/// A record: the length of the payload, the tag, the payload, and the
/// checksum of tag and payload.
pub open spec fn chunk(tag: Seq<u8>, payload: Seq<u8>) -> Seq<u8> {
    be32(payload.len() as u32) + tag + payload + be32(crc32(tag + payload))
}

/// The payload of the header record: width, height, eight bits a sample,
/// truecolour, and no choice of compression, filter or interlace.
pub open spec fn ihdr_payload(width: u32, height: u32) -> Seq<u8> {
    be32(width) + be32(height) + seq![8u8, 2u8, 0u8, 0u8, 0u8]
}

/// The first `rows` scanlines of a picture, each behind a filter byte of
/// zero.
pub open spec fn scanlines(bytes: Seq<u8>, width: int, rows: int) -> Seq<u8>
    decreases rows,
{
    if rows <= 0 {
        Seq::empty()
    } else {
        scanlines(bytes, width, rows - 1) + seq![0u8] + bytes.subrange(
            (rows - 1) * (3 * width),
            rows * (3 * width),
        )
    }
}

/// The filter byte of scanline `y` among filtered scanlines.
pub open spec fn filter_byte(filtered: Seq<u8>, width: int, y: int) -> u8 {
    filtered[y * (3 * width + 1)]
}

/// Scanline `y` among filtered scanlines, without its filter byte.
pub open spec fn unfiltered_row(filtered: Seq<u8>, width: int, y: int) -> Seq<u8> {
    filtered.subrange(y * (3 * width + 1) + 1, (y + 1) * (3 * width + 1))
}

/// Filtering loses nothing: each scanline is one byte longer than a row of
/// the picture, its filter byte is zero, and the rest of it is the row.
pub proof fn lemma_scanlines(bytes: Seq<u8>, width: int, rows: int)
    requires
        0 <= width,
        0 <= rows,
        rows * (3 * width) <= bytes.len(),
    ensures
        scanlines(bytes, width, rows).len() == rows * (3 * width + 1),
        forall|y: int|
            0 <= y < rows ==> #[trigger] filter_byte(scanlines(bytes, width, rows), width, y) == 0,
        forall|y: int|
            0 <= y < rows ==> #[trigger] unfiltered_row(scanlines(bytes, width, rows), width, y)
                == bytes.subrange(y * (3 * width), (y + 1) * (3 * width)),
    decreases rows,
{
    if rows > 0 {
        let row = 3 * width;
        let above = scanlines(bytes, width, rows - 1);
        let all = scanlines(bytes, width, rows);
        assert((rows - 1) * row + row == rows * row && 0 <= (rows - 1) * row && (rows - 1) * (row
            + 1) + row + 1 == rows * (row + 1)) by (nonlinear_arith)
            requires
                0 < rows,
                0 <= row,
        ;
        lemma_scanlines(bytes, width, rows - 1);
        assert(all.len() == rows * (row + 1));
        assert forall|y: int| 0 <= y < rows implies #[trigger] filter_byte(all, width, y) == 0 by {
            assert(0 <= y * (row + 1) && y * (row + 1) + row + 1 == (y + 1) * (row + 1) && (y + 1)
                * (row + 1) <= rows * (row + 1) && (y < rows - 1 ==> (y + 1) * (row + 1) <= (rows
                - 1) * (row + 1))) by (nonlinear_arith)
                requires
                    0 <= y < rows,
                    0 <= row,
            ;
            if y < rows - 1 {
                assert(filter_byte(above, width, y) == 0);
            }
        }
        assert forall|y: int| 0 <= y < rows implies #[trigger] unfiltered_row(all, width, y)
            == bytes.subrange(y * (3 * width), (y + 1) * (3 * width)) by {
            assert(0 <= y * (row + 1) && y * (row + 1) + row + 1 == (y + 1) * (row + 1) && (y + 1)
                * (row + 1) <= rows * (row + 1) && (y < rows - 1 ==> (y + 1) * (row + 1) <= (rows
                - 1) * (row + 1))) by (nonlinear_arith)
                requires
                    0 <= y < rows,
                    0 <= row,
            ;
            if y < rows - 1 {
                assert(unfiltered_row(above, width, y) == bytes.subrange(
                    y * (3 * width),
                    (y + 1) * (3 * width),
                ));
                assert(unfiltered_row(all, width, y) =~= unfiltered_row(above, width, y));
            } else {
                assert(unfiltered_row(all, width, y) =~= bytes.subrange(
                    y * (3 * width),
                    (y + 1) * (3 * width),
                ));
            }
        }
    } else {
        assert(rows * (3 * width + 1) == 0) by (nonlinear_arith)
            requires
                rows == 0,
        ;
    }
}

/// The file: signature, header record, one image-data record, closing
/// record.
pub open spec fn png_file(width: u32, height: u32, compressed: Seq<u8>) -> Seq<u8> {
    png_signature() + chunk(tag_ihdr(), ihdr_payload(width, height)) + chunk(
        tag_idat(),
        compressed,
    ) + chunk(tag_iend(), Seq::empty())
}

/// The closing record: no payload, the tag, and the checksum of the tag.
pub open spec fn png_trailer() -> Seq<u8> {
    seq![
        0u8, 0u8, 0u8, 0u8, 0x49u8, 0x45u8, 0x4Eu8, 0x44u8, 0xAEu8, 0x42u8, 0x60u8, 0x82u8,
    ]
}

/// Whether bytes are framed as a file of a picture of the given size: they
/// open with the signature and a header record of thirteen bytes that holds
/// width and height, eight bits a sample, truecolour and three zeros, under
/// the checksum of its tag and payload; an image-data record follows, whose
/// length field gives what lies between it and the closing record; and they
/// close with the closing record.
pub open spec fn framed(file: Seq<u8>, width: u32, height: u32) -> bool {
    &&& 57 <= file.len() <= 57 + u32::MAX
    &&& file.subrange(0, 8) == png_signature()
    &&& file.subrange(8, 12) == seq![0u8, 0u8, 0u8, 13u8]
    &&& file.subrange(12, 16) == tag_ihdr()
    &&& file.subrange(16, 20) == be32(width)
    &&& file.subrange(20, 24) == be32(height)
    &&& file.subrange(24, 29) == seq![8u8, 2u8, 0u8, 0u8, 0u8]
    &&& file.subrange(29, 33) == be32(crc32(file.subrange(12, 29)))
    &&& file.subrange(33, 37) == be32((file.len() - 57) as u32)
    &&& file.subrange(37, 41) == tag_idat()
    &&& file.subrange(file.len() - 16, file.len() - 12) == be32(
        crc32(file.subrange(37, file.len() - 16)),
    )
    &&& file.subrange(file.len() - 12, file.len() as int) == png_trailer()
}

/// The checksum of the tag of the closing record.
pub proof fn lemma_trailer_checksum()
    ensures
        crc32(tag_iend()) == 0xAE42_6082u32,
        be32(0) + tag_iend() + be32(crc32(tag_iend())) == png_trailer(),
{
    let t = tag_iend();
    let t3 = seq![0x49u8, 0x45u8, 0x4Eu8];
    let t2 = seq![0x49u8, 0x45u8];
    let t1 = seq![0x49u8];
    assert(t.drop_last() =~= t3);
    assert(t3.drop_last() =~= t2);
    assert(t2.drop_last() =~= t1);
    assert(t1.drop_last() =~= Seq::<u8>::empty());
    assert(crc32_register(Seq::<u8>::empty()) == 0xffff_ffffu32);
    assert(crc32_update(0xffff_ffffu32, 0x49u8) == 0x22fd_e946u32) by (bit_vector);
    assert(crc32_register(t1) == 0x22fd_e946u32);
    assert(crc32_update(0x22fd_e946u32, 0x45u8) == 0x992b_ac53u32) by (bit_vector);
    assert(crc32_register(t2) == 0x992b_ac53u32);
    assert(crc32_update(0x992b_ac53u32, 0x4Eu8) == 0x639f_4775u32) by (bit_vector);
    assert(crc32_register(t3) == 0x639f_4775u32);
    assert(crc32_update(0x639f_4775u32, 0x44u8) == 0x51bd_9f7du32) by (bit_vector);
    assert(crc32_register(t) == 0x51bd_9f7du32);
    assert(!0x51bd_9f7du32 == 0xAE42_6082u32) by (bit_vector);
    assert(be32(0) + tag_iend() + be32(0xAE42_6082u32) =~= png_trailer());
}

/// The file of a picture is framed, whatever the compressed data holds.
pub proof fn lemma_png_layout(width: u32, height: u32, compressed: Seq<u8>)
    requires
        compressed.len() <= u32::MAX,
    ensures
        png_file(width, height, compressed).len() == 57 + compressed.len(),
        framed(png_file(width, height, compressed), width, height),
        png_file(width, height, compressed).subrange(41, 41 + compressed.len() as int)
            == compressed,
{
    let file = png_file(width, height, compressed);
    let head = chunk(tag_ihdr(), ihdr_payload(width, height));
    let body = chunk(tag_idat(), compressed);
    let tail = chunk(tag_iend(), Seq::empty());
    let n = compressed.len() as int;
    lemma_trailer_checksum();
    assert(tag_iend() + Seq::<u8>::empty() =~= tag_iend());
    assert(ihdr_payload(width, height).len() == 13);
    assert(head.len() == 25);
    assert(body.len() == 12 + n);
    assert(tail =~= png_trailer());
    assert(file.len() == 57 + n);
    assert(be32(13) =~= seq![0u8, 0u8, 0u8, 13u8]);
    assert(file.subrange(0, 8) =~= png_signature());
    assert(file.subrange(8, 12) =~= be32(13));
    assert(file.subrange(12, 16) =~= tag_ihdr());
    assert(file.subrange(16, 20) =~= be32(width));
    assert(file.subrange(20, 24) =~= be32(height));
    assert(file.subrange(24, 29) =~= seq![8u8, 2u8, 0u8, 0u8, 0u8]);
    assert(file.subrange(12, 29) =~= tag_ihdr() + ihdr_payload(width, height));
    assert(file.subrange(29, 33) =~= be32(crc32(tag_ihdr() + ihdr_payload(width, height))));
    assert(file.subrange(33, 37) =~= be32(n as u32));
    assert(file.subrange(37, 41) =~= tag_idat());
    assert(file.subrange(41, 41 + n) =~= compressed);
    assert(file.subrange(37, 41 + n) =~= tag_idat() + compressed);
    assert(file.subrange(41 + n, 45 + n) =~= be32(crc32(tag_idat() + compressed)));
    assert(file.subrange(45 + n, 57 + n) =~= tail);
}

/// Appends the four bytes of a number, the highest first.
fn push_be32(out: &mut Vec<u8>, n: u32)
    ensures
        final(out)@ == old(out)@ + be32(n),
{
    out.push((n / 0x100_0000) as u8);
    out.push(((n / 0x1_0000) % 0x100) as u8);
    out.push(((n / 0x100) % 0x100) as u8);
    out.push((n % 0x100) as u8);
    assert(out@ =~= old(out)@ + be32(n));
}

/// Appends bytes.
fn push_all(out: &mut Vec<u8>, bytes: &[u8])
    ensures
        final(out)@ == old(out)@ + bytes@,
{
    let mut i: usize = 0;
    while i < bytes.len()
        invariant
            i <= bytes@.len(),
            out@ == old(out)@ + bytes@.subrange(0, i as int),
        decreases bytes@.len() - i,
    {
        out.push(bytes[i]);
        assert(out@ =~= old(out)@ + bytes@.subrange(0, i + 1));
        i = i + 1;
    }
    assert(bytes@.subrange(0, i as int) =~= bytes@);
}

/// Appends a record to the output: length, tag, payload, checksum.
pub fn write_chunk(out: &mut Vec<u8>, tag: &[u8], data: &[u8])
    requires
        data@.len() <= u32::MAX,
    ensures
        final(out)@ == old(out)@ + chunk(tag@, data@),
{
    push_be32(out, data.len() as u32);
    push_all(out, tag);
    push_all(out, data);
    let mut all_data: Vec<u8> = Vec::new();
    push_all(&mut all_data, tag);
    push_all(&mut all_data, data);
    assert(all_data@ =~= tag@ + data@);
    let checksum: u32 = crc(all_data.as_slice());
    push_be32(out, checksum);
    assert(out@ =~= old(out)@ + chunk(tag@, data@));
}

/// The scanlines of a picture, each behind a filter byte of zero.
pub fn filter_scanlines(image: &Image) -> (filtered: Vec<u8>)
    ensures
        filtered@ == scanlines(
            image.bytes(),
            image.spec_width() as int,
            image.spec_height() as int,
        ),
{
    let height: u32 = image.height();
    let width: u32 = image.width();
    let size: u32 = image.buffer_size();
    let data: &Vec<u8> = image.data();
    proof {
        let h = height as int;
        let w = width as int;
        assert(h > 0 ==> 3 * w <= 3 * h * w) by (nonlinear_arith)
            requires
                0 <= w,
        ;
    }
    let row: usize = if height == 0 {
        0
    } else {
        3 * (width as usize)
    };
    let ghost bytes = image.bytes();
    let mut filtered: Vec<u8> = Vec::new();
    let mut y: u32 = 0;
    while y < height
        invariant
            y <= height,
            bytes == data@,
            bytes.len() == 3 * height * width,
            3 * height * width <= u32::MAX,
            height > 0 ==> row == 3 * width,
            filtered@ == scanlines(bytes, width as int, y as int),
        decreases height - y,
    {
        proof {
            let h = height as int;
            let w = width as int;
            let yy = y as int;
            assert(0 <= yy * (3 * w) && (yy + 1) * (3 * w) <= 3 * h * w && (yy + 1) * (3 * w)
                == yy * (3 * w) + 3 * w) by (nonlinear_arith)
                requires
                    0 <= yy < h,
                    0 <= w,
            ;
        }
        assert(y * row == (y as int) * (3 * width) && (y + 1) * (3 * width) == y * row + row
            && y * row + row <= data@.len());
        let start: usize = (y as usize) * row;
        let ghost before = filtered@;
        filtered.push(0);
        let mut x: usize = 0;
        while x < row
            invariant
                x <= row,
                start + row <= data@.len(),
                data@.len() <= u32::MAX,
                filtered@ == before + seq![0u8] + data@.subrange(start as int, start + x),
            decreases row - x,
        {
            filtered.push(data[start + x]);
            assert(filtered@ =~= before + seq![0u8] + data@.subrange(start as int, start + x + 1));
            x = x + 1;
        }
        y = y + 1;
    }
    filtered
}

/// Writes the signature and the three records.
fn assemble(width: u32, height: u32, compressed: &[u8]) -> (file: Vec<u8>)
    requires
        compressed@.len() <= u32::MAX,
    ensures
        file@ == png_file(width, height, compressed@),
{
    let mut file: Vec<u8> = Vec::new();
    file.push(0x89);
    file.push(0x50);
    file.push(0x4E);
    file.push(0x47);
    file.push(0x0D);
    file.push(0x0A);
    file.push(0x1A);
    file.push(0x0A);
    assert(file@ =~= png_signature());
    let mut header: Vec<u8> = Vec::new();
    push_be32(&mut header, width);
    push_be32(&mut header, height);
    header.push(8);
    header.push(2);
    header.push(0);
    header.push(0);
    header.push(0);
    assert(header@ =~= ihdr_payload(width, height));
    let ihdr: [u8; 4] = [0x49, 0x48, 0x44, 0x52];
    let idat: [u8; 4] = [0x49, 0x44, 0x41, 0x54];
    let iend: [u8; 4] = [0x49, 0x45, 0x4E, 0x44];
    let empty: Vec<u8> = Vec::new();
    assert(ihdr@ =~= tag_ihdr());
    assert(idat@ =~= tag_idat());
    assert(iend@ =~= tag_iend());
    assert(empty@ =~= Seq::<u8>::empty());
    write_chunk(&mut file, ihdr.as_slice(), header.as_slice());
    write_chunk(&mut file, idat.as_slice(), compressed);
    write_chunk(&mut file, iend.as_slice(), empty.as_slice());
    file
}

/// The file that holds a picture of the given size whose filtered scanlines
/// compress to `compressed`.
pub fn png_container(width: u32, height: u32, compressed: &[u8]) -> (file: Vec<u8>)
    requires
        compressed@.len() <= u32::MAX,
    ensures
        file@ == png_file(width, height, compressed@),
        framed(file@, width, height),
{
    proof {
        lemma_png_layout(width, height, compressed@);
    }
    assemble(width, height, compressed)
}

/// The file that holds a picture: its scanlines are filtered, compressed
/// and put in a container, framed as a file of the picture's width and
/// height. There is no such file where the compressed data is too long for
/// the length field of a record.
pub fn encode_png(image: &Image) -> (file: Option<Vec<u8>>)
    ensures
        match file {
            Some(bytes) => bytes@ == png_file(
                image.spec_width() as u32,
                image.spec_height() as u32,
                zlib_stream(
                    scanlines(
                        image.bytes(),
                        image.spec_width() as int,
                        image.spec_height() as int,
                    ),
                ),
            ) && framed(bytes@, image.spec_width() as u32, image.spec_height() as u32),
            None => zlib_stream(
                scanlines(image.bytes(), image.spec_width() as int, image.spec_height() as int),
            ).len() > u32::MAX,
        },
{
    let filtered = filter_scanlines(image);
    let compressed = encode_data_zlib(filtered.as_slice());
    if compressed.len() > 0xffff_ffff {
        None
    } else {
        Some(png_container(image.width(), image.height(), compressed.as_slice()))
    }
}

} // verus!
