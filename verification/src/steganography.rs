//! Embedding a payload in a carrier's least significant bits and extracting
//! it again.

use crate::bits::{
    bit_of, bits_of_bytes, bits_to_bytes, byte_at, bytes_of_bits, bytes_to_bits,
    lemma_byte_is_sum_of_bits, lemma_low_unset_bits, low_unset_bits, padded_bit,
};
use crate::carrier::{lemma_stream_after_write, Carrier, CarrierImage};
use crate::cryptography::{encrypt_data, open_envelope, opened, sealed, text_outcome};
use crate::error::StegoError;
use crate::hextext::{hex_text, lemma_hex_text_round_trip};
use crate::marker::{
    append_marker, is_marker_offset, lemma_marker_offset_absent, lemma_marker_offset_exists,
    lemma_marker_offset_found, marker, marker_offset, zeros_at,
};
use crate::trusted::{aes256gcm_seal, argon2id_hash};
use vstd::prelude::*;
use vstd::utf8::encode_utf8;

verus! {

/// The stream that embedding writes: the payload's bits, then the end marker.
pub open spec fn framed_bits(payload: Seq<u8>) -> Seq<bool> {
    bits_of_bytes(payload) + marker()
}

/// Whether the carrier has a sample for every bit of the framed payload.
pub open spec fn fits(carrier: Carrier, payload: Seq<u8>) -> bool {
    8 * payload.len() + 64 <= carrier.capacity()
}

/// What extraction finds in a carrier: the bytes in front of the first end
/// marker of its stream, or that the stream has no marker.
pub open spec fn extracted(carrier: Carrier) -> Result<Seq<u8>, StegoError> {
    match marker_offset(carrier.lsb_stream()) {
        Some(k) => Ok(bytes_of_bits(carrier.lsb_stream().take(k))),
        None => Err(StegoError::NoEmbeddedData),
    }
}

/// The outcome of an extraction with the bytes taken by their view.
pub open spec fn bytes_outcome(res: Result<Vec<u8>, StegoError>) -> Result<Seq<u8>, StegoError> {
    match res {
        Ok(bytes) => Ok(bytes@),
        Err(e) => Err(e),
    }
}

/// Writes `data`, followed by the end marker, into the least significant bits
/// of the carrier's samples, one bit per sample in raster order. Samples
/// behind the marker and the upper seven bits of every sample stay as they
/// are. A carrier with too few samples is left untouched.
pub fn embed_data_in_image(image: &mut CarrierImage, data: &[u8]) -> (res: Result<
    (),
    StegoError,
>)
    ensures
        fits(old(image)@, data@) ==> res == Ok::<(), StegoError>(()),
        fits(old(image)@, data@) ==> final(image)@ == old(image)@.with_bits(framed_bits(data@)),
        !fits(old(image)@, data@) ==> res == Err::<(), StegoError>(StegoError::Capacity),
        !fits(old(image)@, data@) ==> final(image)@ == old(image)@,
        final(image).wf() == old(image).wf(),
{
    let capacity = image.capacity();
    if capacity < 64 || data.len() > (capacity - 64) / 8 {
        return Err(StegoError::Capacity);
    }
    let mut bits = bytes_to_bits(data);
    append_marker(&mut bits);
    let ghost before = image@;
    proof {
        assert(before.with_bits(bits@.take(0)).samples =~= before.samples);
    }
    let mut i: usize = 0;
    while i < bits.len()
        invariant
            i <= bits@.len() <= before.capacity(),
            image@.samples.len() == before.samples.len(),
            image@ == before.with_bits(bits@.take(i as int)),
        decreases bits@.len() - i,
    {
        image.set_lsb(i, bits[i]);
        proof {
            assert(image@.samples =~= before.with_bits(bits@.take(i + 1)).samples);
        }
        i += 1;
    }
    proof {
        assert(bits@.take(i as int) =~= bits@);
    }
    Ok(())
}

/// Reads the carrier's stream up to its first end marker and packs the bits
/// in front of the marker into bytes. Reading stops at the marker.
pub fn extract_data_from_image(image: &CarrierImage) -> (res: Result<Vec<u8>, StegoError>)
    ensures
        bytes_outcome(res) == extracted(image@),
{
    let capacity = image.capacity();
    let ghost stream = image@.lsb_stream();
    let mut bits: Vec<bool> = Vec::new();
    let mut run: usize = 0;
    let mut i: usize = 0;
    while i < capacity
        invariant
            capacity == image@.capacity(),
            stream == image@.lsb_stream(),
            i <= capacity,
            bits@ == stream.take(i as int),
            run <= i,
            run < 64,
            forall|j: int| i - run <= j < i ==> !stream[j],
            run < i ==> stream[i - run - 1],
            forall|j: int| 0 <= j && j + 64 <= i ==> !zeros_at(stream, j),
        decreases capacity - i,
    {
        let bit = image.lsb(i);
        bits.push(bit);
        i += 1;
        if bit {
            run = 0;
        } else {
            run += 1;
        }
        proof {
            assert(bits@ =~= stream.take(i as int));
        }
        if run == 64 {
            bits.truncate(i - 64);
            proof {
                assert(zeros_at(stream, i - 64));
                assert(is_marker_offset(stream, i - 64));
                lemma_marker_offset_found(stream, i - 64);
                assert(bits@ =~= stream.take(i - 64));
            }
            return Ok(bits_to_bytes(bits.as_slice()));
        }
        proof {
            if i >= 64 {
                assert(stream[i - run - 1]);
                assert(!zeros_at(stream, i - 64));
            }
        }
    }
    proof {
        lemma_marker_offset_absent(stream);
    }
    Err(StegoError::NoEmbeddedData)
}

/// Whether `payload` comes back from its own framing: its bits hold no run of
/// sixty-four unset bits, and its last byte is not zero, so that the first
/// such run of the framed stream starts within the last byte's low end.
pub open spec fn frames_cleanly(payload: Seq<u8>) -> bool {
    payload.len() > 0 ==> payload.last() != 0 && forall|j: int|
        !zeros_at(bits_of_bytes(payload), j)
}

/// A payload without a zero byte, such as a text, frames cleanly.
pub proof fn lemma_nonzero_bytes_frame_cleanly(payload: Seq<u8>)
    requires
        forall|i: int| 0 <= i < payload.len() ==> payload[i] != 0,
    ensures
        frames_cleanly(payload),
{
    let bits = bits_of_bytes(payload);
    assert forall|j: int| !zeros_at(bits, j) by {
        if 0 <= j && j + 64 <= bits.len() {
            let m = (j + 7) / 8;
            let byte = payload[m];
            assert(byte != 0);
            lemma_byte_is_sum_of_bits(byte);
            let q: int = if bit_of(byte, 0) {
                0
            } else if bit_of(byte, 1) {
                1
            } else if bit_of(byte, 2) {
                2
            } else if bit_of(byte, 3) {
                3
            } else if bit_of(byte, 4) {
                4
            } else if bit_of(byte, 5) {
                5
            } else if bit_of(byte, 6) {
                6
            } else {
                7
            };
            assert(bit_of(byte, q));
            assert(bits[8 * m + q]);
        }
    }
}

/// Round trip of the bare embedding: what was embedded in a carrier with room
/// for it is what extraction finds, for every payload that frames cleanly.
pub proof fn lemma_extract_after_embed(carrier: Carrier, payload: Seq<u8>)
    requires
        fits(carrier, payload),
        frames_cleanly(payload),
    ensures
        extracted(carrier.with_bits(framed_bits(payload))) == Ok::<Seq<u8>, StegoError>(payload),
{
    let bits = bits_of_bytes(payload);
    let n = bits.len() as int;
    let framed = framed_bits(payload);
    let stream = carrier.with_bits(framed).lsb_stream();
    lemma_stream_after_write(carrier, framed);
    assert forall|i: int| 0 <= i < n implies stream[i] == bits[i] by {}
    assert forall|i: int| n <= i < n + 64 implies !stream[i] by {}
    let t: int = if payload.len() == 0 {
        0
    } else {
        low_unset_bits(payload.last())
    };
    let k = n - t;
    if payload.len() > 0 {
        lemma_low_unset_bits(payload.last());
        assert forall|i: int| k <= i < n implies !bits[i] by {
            assert(i / 8 == payload.len() - 1);
            assert(bits[i] == bit_of(payload.last(), i % 8));
        }
        assert(bits[k - 1]) by {
            assert((k - 1) / 8 == payload.len() - 1);
            assert((k - 1) % 8 == 7 - t);
        }
    }
    assert(zeros_at(stream, k));
    assert forall|j: int| 0 <= j < k implies !zeros_at(stream, j) by {
        if j + 64 <= n {
            assert(!zeros_at(bits, j));
            let w = choose|i: int| j <= i < j + 64 && bits[i];
            assert(stream[w]);
        } else {
            assert(stream[k - 1]);
        }
    }
    lemma_marker_offset_found(stream, k);
    let prefix = stream.take(k);
    assert forall|g: int| 0 <= g < payload.len() implies byte_at(prefix, 8 * g) == payload[g] by {
        lemma_byte_is_sum_of_bits(payload[g]);
        assert forall|m: int| 0 <= m < 8 implies padded_bit(prefix, 8 * g + m) == bit_of(
            payload[g],
            m,
        ) by {
            let i = 8 * g + m;
            assert(i / 8 == g && i % 8 == m);
            if i < k {
                assert(prefix[i] == bits[i]);
            } else {
                assert(!bits[i]);
            }
        }
    }
    assert(bytes_of_bits(prefix) =~= payload);
}

/// A payload that does not frame cleanly does not come back: extraction stops
/// at a run of unset bits that starts eight bits or more in front of the
/// payload's end, and finds fewer bytes than were embedded.
pub proof fn lemma_unclean_payload_is_cut(carrier: Carrier, payload: Seq<u8>)
    requires
        fits(carrier, payload),
        !frames_cleanly(payload),
    ensures
        extracted(carrier.with_bits(framed_bits(payload))) matches Ok(found) && found.len()
            < payload.len(),
{
    let bits = bits_of_bytes(payload);
    let n = bits.len() as int;
    let framed = framed_bits(payload);
    let stream = carrier.with_bits(framed).lsb_stream();
    lemma_stream_after_write(carrier, framed);
    assert forall|i: int| 0 <= i < n implies stream[i] == bits[i] by {}
    assert forall|i: int| n <= i < n + 64 implies !stream[i] by {}
    let j: int = if payload.last() == 0 {
        n - 8
    } else {
        choose|j: int| zeros_at(bits, j)
    };
    if payload.last() == 0 {
        lemma_low_unset_bits(payload.last());
        assert forall|i: int| n - 8 <= i < n implies !bits[i] by {
            assert(i / 8 == payload.len() - 1);
            assert(bits[i] == bit_of(payload.last(), i % 8));
        }
    }
    assert(zeros_at(stream, j));
    lemma_marker_offset_exists(stream, j);
}

/// Hexadecimal text of any bytes, such as an envelope, comes back from a
/// carrier with room for it exactly as it was embedded.
pub proof fn lemma_hex_text_survives_embedding(carrier: Carrier, envelope: Seq<u8>)
    requires
        fits(carrier, hex_text(envelope)),
    ensures
        extracted(carrier.with_bits(framed_bits(hex_text(envelope)))) == Ok::<Seq<u8>, StegoError>(
            hex_text(envelope),
        ),
{
    lemma_hex_text_round_trip(envelope);
    lemma_nonzero_bytes_frame_cleanly(hex_text(envelope));
    lemma_extract_after_embed(carrier, hex_text(envelope));
}

/// What extracting and opening finds in a carrier under `password`: the text
/// of the envelope in front of the first end marker, or why there is none.
pub open spec fn extracted_text(carrier: Carrier, password: Seq<u8>) -> Result<
    Seq<char>,
    StegoError,
> {
    match extracted(carrier) {
        Err(e) => Err(e),
        Ok(text) => if text.len() == 0 {
            Err(StegoError::NoEmbeddedData)
        } else {
            opened(text, password)
        },
    }
}

/// Seals `data` under `password` and embeds the envelope's hexadecimal text,
/// followed by the end marker, in the carrier. On success the carrier holds a
/// freshly sealed envelope from which extraction under the same password
/// recovers `data`. On failure the carrier is left untouched; the carrier
/// is too small exactly if it has fewer than `16 n + 768` samples, where `n`
/// is the length of `data` in bytes.
pub fn embed_encrypted_data(image: &mut CarrierImage, data: &str, password: &str) -> (res: Result<
    (),
    StegoError,
>)
    ensures
        res is Ok ==> exists|salt: Seq<u8>, nonce: Seq<u8>|
            salt.len() == 16 && nonce.len() == 12 && (#[trigger] sealed(
                encode_utf8(data@),
                encode_utf8(password@),
                salt,
                nonce,
            ) matches Ok(text) && final(image)@ == old(image)@.with_bits(framed_bits(text))
                && extracted(final(image)@) == Ok::<Seq<u8>, StegoError>(text)),
        res is Ok ==> extracted_text(final(image)@, encode_utf8(password@)) == Ok::<
            Seq<char>,
            StegoError,
        >(data@),
        res is Ok ==> 16 * encode_utf8(data@).len() + 768 <= old(image)@.capacity(),
        res is Err ==> final(image)@ == old(image)@,
        final(image).wf() == old(image).wf(),
        res matches Err(e) ==> e == StegoError::Encryption || e == StegoError::KeyDerivation || e
            == StegoError::Capacity,
        res == Err::<(), StegoError>(StegoError::KeyDerivation) ==> encode_utf8(password@).len()
            > 0xFFFF_FFFF,
        res == Err::<(), StegoError>(StegoError::Capacity) ==> old(image)@.capacity() < 16
            * encode_utf8(data@).len() + 768,
{
    let text = match encrypt_data(data, password) {
        Ok(text) => text,
        Err(e) => {
            return Err(e);
        },
    };
    let ghost before = image@;
    let ghost payload = encode_utf8(text@);
    let res = embed_data_in_image(image, text.as_str().as_bytes());
    proof {
        if res is Ok {
            let (salt, nonce) = choose|salt: Seq<u8>, nonce: Seq<u8>|
                salt.len() == 16 && nonce.len() == 12 && #[trigger] sealed(
                    encode_utf8(data@),
                    encode_utf8(password@),
                    salt,
                    nonce,
                ) == Ok::<Seq<u8>, StegoError>(payload);
            let key = argon2id_hash(encode_utf8(password@), salt).unwrap();
            let ciphertext = aes256gcm_seal(key, nonce, encode_utf8(data@)).unwrap();
            assert(payload == hex_text(salt + nonce + ciphertext));
            lemma_hex_text_survives_embedding(before, salt + nonce + ciphertext);
            assert(sealed(encode_utf8(data@), encode_utf8(password@), salt, nonce) == Ok::<
                Seq<u8>,
                StegoError,
            >(payload) && image@ == before.with_bits(framed_bits(payload)) && extracted(image@)
                == Ok::<Seq<u8>, StegoError>(payload));
        }
    }
    res
}

/// Extracts the envelope in front of the carrier's first end marker and opens
/// it under `password`.
pub fn extract_encrypted_data(image: &CarrierImage, password: &str) -> (res: Result<
    String,
    StegoError,
>)
    ensures
        text_outcome(res) == extracted_text(image@, encode_utf8(password@)),
{
    let text = match extract_data_from_image(image) {
        Ok(text) => text,
        Err(e) => {
            return Err(e);
        },
    };
    if text.len() == 0 {
        return Err(StegoError::NoEmbeddedData);
    }
    open_envelope(text.as_slice(), password)
}

} // verus!
