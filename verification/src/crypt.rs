//! Checksums and compression for the image container.

use vstd::prelude::*;

verus! {

/// The reflected CRC-32 polynomial.
pub const CRC32_POLY: u32 = 0xedb8_8320;

/// One bit of polynomial division: the register moves right by one place,
/// and the polynomial is folded in when the bit that left was set.
pub open spec fn crc32_shift(x: u32) -> u32 {
    if x & 1 == 1 {
        CRC32_POLY ^ (x >> 1)
    } else {
        x >> 1
    }
}

/// Eight bits of polynomial division.
pub open spec fn crc32_shift8(x: u32) -> u32 {
    crc32_shift(
        crc32_shift(
            crc32_shift(
                crc32_shift(crc32_shift(crc32_shift(crc32_shift(crc32_shift(x))))),
            ),
        ),
    )
}

/// The register after one more octet of input.
pub open spec fn crc32_update(register: u32, octet: u8) -> u32 {
    crc32_shift8(register ^ (octet as u32))
}

/// The register after all of `bytes`, starting from all ones.
pub open spec fn crc32_register(bytes: Seq<u8>) -> u32
    decreases bytes.len(),
{
    if bytes.len() == 0 {
        0xffff_ffffu32
    } else {
        crc32_update(crc32_register(bytes.drop_last()), bytes.last())
    }
}

/// CRC-32 of `bytes`: the complement of the final register.
pub open spec fn crc32(bytes: Seq<u8>) -> u32 {
    !crc32_register(bytes)
}

/// A table lookup on the low octet does the work of eight single-bit steps.
proof fn lemma_table_step(register: u32, octet: u8)
    ensures
        crc32_update(register, octet) == (register >> 8) ^ crc32_shift8(
            (register & 0xff) ^ (octet as u32),
        ),
        (register & 0xff) ^ (octet as u32) < 256,
{
    assert(crc32_shift8(register ^ (octet as u32)) == (register >> 8) ^ crc32_shift8(
        (register & 0xff) ^ (octet as u32),
    )) by (bit_vector);
    assert((register & 0xff) ^ (octet as u32) < 256) by (bit_vector);
}

/// The table of the 256 possible low octets, each carried through eight
/// single-bit steps.
fn crc_table() -> (table: Vec<u32>)
    ensures
        table@.len() == 256,
        forall|n: int| 0 <= n < 256 ==> #[trigger] table@[n] == crc32_shift8(n as u32),
{
    let mut table: Vec<u32> = Vec::new();
    let mut n: u32 = 0;
    while n < 256
        invariant
            n <= 256,
            table@.len() == n,
            forall|k: int| 0 <= k < n ==> #[trigger] table@[k] == crc32_shift8(k as u32),
        decreases 256 - n,
    {
        let mut acc: u32 = n;
        let mut round: u32 = 0;
        let ghost r0 = crc32_shift(n);
        let ghost r1 = crc32_shift(r0);
        let ghost r2 = crc32_shift(r1);
        let ghost r3 = crc32_shift(r2);
        let ghost r4 = crc32_shift(r3);
        let ghost r5 = crc32_shift(r4);
        let ghost r6 = crc32_shift(r5);
        let ghost r7 = crc32_shift(r6);
        while round < 8
            invariant
                round <= 8,
                r0 == crc32_shift(n),
                r1 == crc32_shift(r0),
                r2 == crc32_shift(r1),
                r3 == crc32_shift(r2),
                r4 == crc32_shift(r3),
                r5 == crc32_shift(r4),
                r6 == crc32_shift(r5),
                r7 == crc32_shift(r6),
                round == 0 ==> acc == n,
                round == 1 ==> acc == r0,
                round == 2 ==> acc == r1,
                round == 3 ==> acc == r2,
                round == 4 ==> acc == r3,
                round == 5 ==> acc == r4,
                round == 6 ==> acc == r5,
                round == 7 ==> acc == r6,
                round == 8 ==> acc == r7,
            decreases 8 - round,
        {
            acc = if acc & 1 == 1 {
                CRC32_POLY ^ (acc >> 1)
            } else {
                acc >> 1
            };
            round = round + 1;
        }
        table.push(acc);
        n = n + 1;
    }
    table
}

/// CRC-32 (polynomial 0xEDB88320, reflected, register starting at all ones
/// and complemented at the end) of a byte sequence.
pub fn crc(buf: &[u8]) -> (sum: u32)
    ensures
        sum == crc32(buf@),
{
    let table: Vec<u32> = crc_table();
    let mut register: u32 = 0xffff_ffff;
    let mut i: usize = 0;
    while i < buf.len()
        invariant
            i <= buf@.len(),
            table@.len() == 256,
            forall|n: int| 0 <= n < 256 ==> #[trigger] table@[n] == crc32_shift8(n as u32),
            register == crc32_register(buf@.subrange(0, i as int)),
        decreases buf@.len() - i,
    {
        let octet: u8 = buf[i];
        let low: u32 = (register & 0xff) ^ (octet as u32);
        proof {
            lemma_table_step(register, octet);
            let next = buf@.subrange(0, i + 1);
            assert(next.drop_last() == buf@.subrange(0, i as int));
            assert(next.last() == octet);
        }
        register = (register >> 8) ^ table[low as usize];
        i = i + 1;
    }
    assert(buf@.subrange(0, i as int) == buf@);
    !register
}

/// The zlib stream that the compressor makes of `data`: a header, the
/// deflated data and a checksum.
pub uninterp spec fn zlib_stream(data: Seq<u8>) -> Seq<u8>;

/// Compresses `data` into a zlib stream. This calls
/// `deflate::deflate_bytes_zlib`, which is not verified here: it is taken to
/// return, for the same bytes, always the same stream, which `zlib_stream`
/// names. Nothing else is claimed of the stream.
#[verifier::external_body]
pub fn encode_data_zlib(data: &[u8]) -> (compressed: Vec<u8>)
    ensures
        compressed@ == zlib_stream(data@),
{
    deflate::deflate_bytes_zlib(data)
}

} // verus!
