//! Properties of decoding that relate several inputs or calls.
use vstd::prelude::*;

use crate::decryptor::{
    decode_result, format_ok, has_signature, unmask, DecodeError, DecryptorView,
};

verus! {

/// XOR-ing a byte with the same key byte twice gives the byte back.
pub proof fn lemma_xor_twice(b: u8, k: u8)
    ensures
        (b ^ k) ^ k == b,
{
    assert((b ^ k) ^ k == b) by (bit_vector);
}

/// Masking is its own inverse: unmasking twice with the same key, over a key
/// that covers the masked block, gives the buffer back.
pub proof fn lemma_unmask_twice(buf: Seq<u8>, key: Seq<u8>, n: nat)
    requires
        key.len() >= n,
    ensures
        unmask(unmask(buf, key, n), key, n) == buf,
{
    assert forall|i: int| 0 <= i < buf.len() implies #[trigger] unmask(unmask(buf, key, n), key, n)[i]
        == buf[i] by {
        if i < n {
            lemma_xor_twice(buf[i], key[i]);
        }
    }
    assert(unmask(unmask(buf, key, n), key, n) =~= buf);
}

/// Re-masking what an asset decodes to, with the same key, and putting its
/// header back in front gives the asset again; decoding that gives the same
/// payload.
pub proof fn lemma_remask_restores_input(d: DecryptorView, input: Seq<u8>)
    requires
        format_ok(d),
        decode_result(d, input) is Ok,
    ensures
        ({
            let h = d.header_len as int;
            let out = decode_result(d, input)->Ok_0;
            &&& input == input.subrange(0, h) + unmask(out, d.key, d.header_len)
            &&& decode_result(d, input.subrange(0, h) + unmask(out, d.key, d.header_len))
                == decode_result(d, input)
        }),
{
    let h = d.header_len as int;
    let body = input.subrange(h, input.len() as int);
    lemma_unmask_twice(body, d.key, d.header_len);
    assert(input =~= input.subrange(0, h) + body);
}

/// Masking a payload with the key and putting the signature in front gives an
/// asset that decodes to that payload, for any payload at least as long as
/// the masked block.
pub proof fn lemma_decode_of_masked(d: DecryptorView, payload: Seq<u8>)
    requires
        format_ok(d),
        d.key.len() >= d.header_len,
        payload.len() >= d.header_len,
    ensures
        decode_result(d, d.signature + unmask(payload, d.key, d.header_len))
            == Ok::<Seq<u8>, DecodeError>(payload),
{
    let h = d.header_len as int;
    let input = d.signature + unmask(payload, d.key, d.header_len);
    assert(input.subrange(0, h) =~= d.signature);
    assert(input.subrange(h, input.len() as int) =~= unmask(payload, d.key, d.header_len));
    lemma_unmask_twice(payload, d.key, d.header_len);
}

/// An asset long enough to be checked that does not begin with the signature
/// is refused with `InvalidSignature` while the check is on; with the check
/// off it decodes as if it began with the signature.
pub proof fn lemma_signature_gate(d: DecryptorView, input: Seq<u8>)
    requires
        format_ok(d),
        input.len() >= 2 * d.header_len,
        !has_signature(input, d.signature),
    ensures
        !d.ignore_fake_header ==> decode_result(d, input) == Err::<Seq<u8>, DecodeError>(
            DecodeError::InvalidSignature,
        ),
        d.ignore_fake_header ==> decode_result(d, input) == decode_result(
            d,
            d.signature + input.subrange(d.header_len as int, input.len() as int),
        ),
{
    let h = d.header_len as int;
    let fixed = d.signature + input.subrange(h, input.len() as int);
    assert(fixed.subrange(h, fixed.len() as int) =~= input.subrange(h, input.len() as int));
}

/// An asset shorter than twice the header length is refused with `TooShort`,
/// whatever its bytes and whatever the key and flag.
pub proof fn lemma_size_gate(d: DecryptorView, input: Seq<u8>)
    requires
        input.len() < 2 * d.header_len,
    ensures
        decode_result(d, input) == Err::<Seq<u8>, DecodeError>(DecodeError::TooShort),
{
}

/// The payload is the asset without its header, and every byte past the
/// masked block is the asset's byte `header_len` places further on.
pub proof fn lemma_tail_passes_through(d: DecryptorView, input: Seq<u8>)
    requires
        decode_result(d, input) is Ok,
    ensures
        ({
            let h = d.header_len as int;
            let out = decode_result(d, input)->Ok_0;
            &&& out.len() == input.len() - h
            &&& forall|i: int| h <= i < out.len() ==> #[trigger] out[i] == input[i + h]
        }),
{
}

} // verus!
