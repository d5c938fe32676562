//! PCM16 little-endian samples and their bytes.

use vstd::prelude::*;

verus! {

/// The sample whose two bytes are `lo` and `hi`.
pub open spec fn sample(lo: u8, hi: u8) -> i16 {
    let u = lo + 256 * hi;
    (if u >= 32768 {
        u - 65536
    } else {
        u
    }) as i16
}

/// The number whose low and high byte a sample has.
pub open spec fn unsigned(s: i16) -> int {
    if s < 0 {
        s + 65536
    } else {
        s as int
    }
}

/// The samples that the bytes hold. A last single byte holds none.
pub open spec fn samples_of(bytes: Seq<u8>) -> Seq<i16> {
    Seq::new((bytes.len() / 2) as nat, |i: int| sample(bytes[2 * i], bytes[2 * i + 1]))
}

/// The bytes that hold the samples.
pub open spec fn bytes_of(samples: Seq<i16>) -> Seq<u8> {
    Seq::new(
        (2 * samples.len()) as nat,
        |i: int|
            (if i % 2 == 0 {
                unsigned(samples[i / 2]) % 256
            } else {
                unsigned(samples[i / 2]) / 256
            }) as u8,
    )
}

/// Appends the samples that the bytes hold.
pub fn decode_into(out: &mut Vec<i16>, bytes: &[u8])
    ensures
        final(out)@ == old(out)@ + samples_of(bytes@),
{
    let len: usize = bytes.len();
    let n: usize = len / 2;
    let mut i: usize = 0;
    assert(out@ =~= old(out)@ + samples_of(bytes@).take(0));
    while i < n
        invariant
            i <= n,
            len == bytes@.len(),
            n == len / 2,
            out@ == old(out)@ + samples_of(bytes@).take(i as int),
        decreases n - i,
    {
        let lo: u8 = bytes[2 * i];
        let hi: u8 = bytes[2 * i + 1];
        let u: i32 = lo as i32 + 256 * (hi as i32);
        let s: i16 = if u >= 32768 {
            (u - 65536) as i16
        } else {
            u as i16
        };
        assert(samples_of(bytes@)[i as int] == s);
        out.push(s);
        assert(out@ =~= old(out)@ + samples_of(bytes@).take(i + 1));
        i += 1;
    }
    assert(samples_of(bytes@).take(n as int) =~= samples_of(bytes@));
}

/// The bytes that hold the samples.
pub fn encode(samples: &[i16]) -> (r: Vec<u8>)
    ensures
        r@ == bytes_of(samples@),
{
    let mut out: Vec<u8> = Vec::new();
    let mut i: usize = 0;
    while i < samples.len()
        invariant
            i <= samples@.len(),
            out@.len() == 2 * i,
            forall|j: int| 0 <= j < 2 * i ==> out@[j] == bytes_of(samples@)[j],
        decreases samples@.len() - i,
    {
        let s: i16 = samples[i];
        let u: i32 = if s < 0 {
            s as i32 + 65536
        } else {
            s as i32
        };
        out.push((u % 256) as u8);
        out.push((u / 256) as u8);
        assert(bytes_of(samples@)[2 * i] == out@[2 * i]);
        assert(bytes_of(samples@)[2 * i + 1] == out@[2 * i + 1]) by {
            assert((2 * i + 1) / 2 == i);
        }
        i += 1;
    }
    assert(out@ =~= bytes_of(samples@));
    out
}

/// Samples that were written as bytes read back.
pub proof fn law_samples_read_back(samples: Seq<i16>)
    ensures
        samples_of(bytes_of(samples)) == samples,
{
    let bytes = bytes_of(samples);
    assert forall|i: int| 0 <= i < samples.len() implies samples_of(bytes)[i] == samples[i] by {
        let u = unsigned(samples[i]);
        assert((2 * i) / 2 == i && (2 * i) % 2 == 0);
        assert((2 * i + 1) / 2 == i && (2 * i + 1) % 2 == 1);
        assert(bytes[2 * i] == u % 256);
        assert(bytes[2 * i + 1] == u / 256);
        assert(u % 256 + 256 * (u / 256) == u);
    }
    assert(samples_of(bytes) =~= samples);
}

/// The low byte of a sample comes first, and the bytes are those of its two's
/// complement.
pub proof fn law_the_low_byte_comes_first(bytes: Seq<u8>, samples: Seq<i16>, i: int)
    ensures
        samples_of(bytes).len() == bytes.len() / 2,
        bytes_of(samples).len() == 2 * samples.len(),
        0 <= i < bytes.len() / 2 ==> ({
            let s = samples_of(bytes)[i];
            let n = bytes[2 * i] + 256 * bytes[2 * i + 1];
            s == n || s == n - 65536
        }),
        0 <= i < samples.len() ==> ({
            let n = bytes_of(samples)[2 * i] + 256 * bytes_of(samples)[2 * i + 1];
            samples[i] == n || samples[i] == n - 65536
        }),
{
    if 0 <= i < samples.len() {
        let u = unsigned(samples[i]);
        assert((2 * i) / 2 == i && (2 * i) % 2 == 0);
        assert((2 * i + 1) / 2 == i && (2 * i + 1) % 2 == 1);
        assert(bytes_of(samples)[2 * i] == u % 256);
        assert(bytes_of(samples)[2 * i + 1] == u / 256);
        assert(u % 256 + 256 * (u / 256) == u);
    }
}

} // verus!
