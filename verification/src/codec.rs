//! Conversion between raw byte buffers and sequences of signed 16-bit PCM
//! samples, two bytes per sample, least significant byte first.
//!
//! The codec is pure and never fails: a buffer of odd length simply loses its
//! last byte.

use vstd::prelude::*;

verus! {

/// The unsigned 16-bit word whose little-endian bytes are `lo`, `hi`.
pub open spec fn word_of_bytes(lo: u8, hi: u8) -> int {
    lo + 256 * hi
}

/// The unsigned 16-bit word that holds `sample` in two's complement.
pub open spec fn word_of_sample(sample: i16) -> int {
    if sample >= 0 {
        sample as int
    } else {
        sample + 65536
    }
}

/// The sample that the unsigned 16-bit word `word` holds in two's complement.
pub open spec fn sample_of_word(word: int) -> i16 {
    if word < 32768 {
        word as i16
    } else {
        (word - 65536) as i16
    }
}

/// The sample encoded by the byte pair `lo`, `hi`.
pub open spec fn sample_of(lo: u8, hi: u8) -> i16 {
    sample_of_word(word_of_bytes(lo, hi))
}

/// The first (least significant) byte of the encoding of `sample`.
pub open spec fn low_byte(sample: i16) -> u8 {
    (word_of_sample(sample) % 256) as u8
}

/// The second (most significant) byte of the encoding of `sample`.
pub open spec fn high_byte(sample: i16) -> u8 {
    (word_of_sample(sample) / 256) as u8
}

/// The samples held by `bytes`: one for every complete pair of bytes, in
/// order. A trailing odd byte contributes nothing.
pub open spec fn decoded(bytes: Seq<u8>) -> Seq<i16> {
    Seq::new((bytes.len() / 2) as nat, |i: int| sample_of(bytes[2 * i], bytes[2 * i + 1]))
}

/// The bytes that hold `samples`: two for every sample, in order.
pub open spec fn encoded(samples: Seq<i16>) -> Seq<u8> {
    Seq::new(
        2 * samples.len(),
        |j: int|
            if j % 2 == 0 {
                low_byte(samples[j / 2])
            } else {
                high_byte(samples[j / 2])
            },
    )
}

/// Decodes one sample from its two bytes.
pub fn decode_sample(lo: u8, hi: u8) -> (sample: i16)
    ensures
        sample == sample_of(lo, hi),
{
    let word: u16 = (lo as u16) | ((hi as u16) << 8);
    assert(word == lo + 256 * hi) by (bit_vector)
        requires
            word == (lo as u16) | ((hi as u16) << 8),
    ;
    assert(word < 32768 ==> (word as i16) == word) by (bit_vector);
    assert(word >= 32768 ==> (word as i16) == word - 65536) by (bit_vector);
    word as i16
}

/// Encodes one sample as its two bytes, least significant first.
pub fn encode_sample(sample: i16) -> (pair: (u8, u8))
    ensures
        pair.0 == low_byte(sample),
        pair.1 == high_byte(sample),
{
    let word: u16 = sample as u16;
    assert(sample >= 0 ==> (sample as u16) == sample) by (bit_vector);
    assert(sample < 0 ==> (sample as u16) == sample + 65536) by (bit_vector);
    let lo: u8 = (word & 0xff) as u8;
    let hi: u8 = (word >> 8) as u8;
    assert((word & 0xff) as u8 == word % 256) by (bit_vector);
    assert((word >> 8) as u8 == word / 256) by (bit_vector);
    (lo, hi)
}

/// Reads `bytes` as consecutive little-endian samples. Only the largest
/// prefix of even length is read.
pub fn decode(bytes: &[u8]) -> (samples: Vec<i16>)
    ensures
        samples@ == decoded(bytes@),
        samples@.len() == bytes@.len() / 2,
{
    let count: usize = bytes.len() / 2;
    let mut samples: Vec<i16> = Vec::with_capacity(count);
    let mut i: usize = 0;
    while i < count
        invariant
            count == bytes.len() / 2,
            i <= count,
            samples@.len() == i,
            forall|k: int|
                0 <= k < i ==> samples@[k] == sample_of(
                    #[trigger] bytes@[2 * k],
                    bytes@[2 * k + 1],
                ),
        decreases count - i,
    {
        let sample: i16 = decode_sample(bytes[2 * i], bytes[2 * i + 1]);
        samples.push(sample);
        i += 1;
    }
    assert(samples@ =~= decoded(bytes@));
    samples
}

/// Writes every sample of `samples` as two little-endian bytes.
pub fn encode(samples: &[i16]) -> (bytes: Vec<u8>)
    ensures
        bytes@ == encoded(samples@),
        bytes@.len() == 2 * samples@.len(),
{
    let mut bytes: Vec<u8> = Vec::new();
    let mut i: usize = 0;
    while i < samples.len()
        invariant
            i <= samples@.len(),
            bytes@.len() == 2 * i,
            forall|j: int|
                0 <= j < 2 * i ==> #[trigger] bytes@[j] == if j % 2 == 0 {
                    low_byte(samples@[j / 2])
                } else {
                    high_byte(samples@[j / 2])
                },
        decreases samples@.len() - i,
    {
        let pair: (u8, u8) = encode_sample(samples[i]);
        bytes.push(pair.0);
        bytes.push(pair.1);
        i += 1;
    }
    assert(bytes@ =~= encoded(samples@));
    bytes
}

/// Decoding the encoding of one sample gives the sample back.
pub proof fn lemma_sample_round_trip(sample: i16)
    ensures
        sample_of(low_byte(sample), high_byte(sample)) == sample,
{
}

/// Round trip: decoding what `encoded` produced gives back the very same
/// sequence of samples, whatever the samples are.
pub proof fn lemma_round_trip(samples: Seq<i16>)
    ensures
        decoded(encoded(samples)) == samples,
{
    let bytes = encoded(samples);
    assert forall|i: int| 0 <= i < samples.len() implies decoded(bytes)[i] == samples[i] by {
        lemma_sample_round_trip(samples[i]);
    }
    assert(decoded(bytes) =~= samples);
}

/// Encoding what `decoded` read gives back the even-length prefix of the
/// buffer: nothing but a trailing odd byte is lost.
pub proof fn lemma_encode_decoded(bytes: Seq<u8>)
    ensures
        encoded(decoded(bytes)) == bytes.subrange(0, 2 * (bytes.len() as int / 2)),
{
    let samples = decoded(bytes);
    assert forall|j: int| 0 <= j < 2 * (bytes.len() / 2) implies encoded(samples)[j] == bytes[j] by {
        let lo = bytes[2 * (j / 2)];
        let hi = bytes[2 * (j / 2) + 1];
        assert(samples[j / 2] == sample_of(lo, hi));
    }
    assert(encoded(samples) =~= bytes.subrange(0, 2 * (bytes.len() as int / 2)));
}

} // verus!
