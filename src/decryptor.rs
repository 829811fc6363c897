//! The unmasking transform and its checks.
use vstd::prelude::*;

use crate::hexkey::{decode_hex, hex_bytes, is_hex_text};

verus! {

/// Length of the signature, and of the masked block that follows it.
pub const DEFAULT_HEADER_LEN: usize = 16;

/// The signature of an encoded asset, as hex text: "RPGMV" and zero padding.
pub const DEFAULT_SIGNATURE: &'static str = "5250474d560000000000000000000000";

/// The bytes of [`DEFAULT_SIGNATURE`].
pub open spec fn rpgmv_signature() -> Seq<u8> {
    seq![
        0x52u8, 0x50u8, 0x47u8, 0x4du8, 0x56u8, 0u8, 0u8, 0u8,
        0u8, 0u8, 0u8, 0u8, 0u8, 0u8, 0u8, 0u8,
    ]
}

/// Why an asset could not be decoded.
#[derive(Debug, Clone, Copy, PartialEq, Eq, Structural)]
pub enum DecodeError {
    /// The asset is shorter than twice the header length.
    TooShort,
    /// The asset does not begin with the signature.
    InvalidSignature,
    /// The key has fewer bytes than the masked block.
    KeyTooShort,
}

/// What a [`Decryptor`] is: its key and the format it expects.
pub struct DecryptorView {
    pub key: Seq<u8>,
    pub header_len: nat,
    pub signature: Seq<u8>,
    pub ignore_fake_header: bool,
}

/// A format that can be checked without overflow: the signature fills the
/// header, and twice the header length fits in a `usize`.
pub open spec fn format_ok(d: DecryptorView) -> bool {
    &&& d.signature.len() == d.header_len
    &&& 2 * d.header_len <= usize::MAX
}

/// `buf` with each of its first `n` bytes XOR-ed with the key byte at the same
/// index; the bytes from `n` on are kept.
pub open spec fn unmask(buf: Seq<u8>, key: Seq<u8>, n: nat) -> Seq<u8> {
    Seq::new(buf.len(), |i: int| if i < n { buf[i] ^ key[i] } else { buf[i] })
}

/// Whether `input` begins with `signature`.
pub open spec fn has_signature(input: Seq<u8>, signature: Seq<u8>) -> bool {
    input.len() >= signature.len() && input.subrange(0, signature.len() as int) == signature
}

/// What decoding `input` gives: the size gate, then the signature gate unless
/// it is switched off, then the key length, and on success the input without
/// its header with the masked block restored.
pub open spec fn decode_result(d: DecryptorView, input: Seq<u8>) -> Result<Seq<u8>, DecodeError> {
    let h = d.header_len;
    if input.len() < 2 * h {
        Err(DecodeError::TooShort)
    } else if !d.ignore_fake_header && !has_signature(input, d.signature) {
        Err(DecodeError::InvalidSignature)
    } else if d.key.len() < h {
        Err(DecodeError::KeyTooShort)
    } else {
        Ok(unmask(input.subrange(h as int, input.len() as int), d.key, h))
    }
}

/// Validates and unmasks encoded assets with one key.
pub struct Decryptor {
    decrypt_code: Vec<u8>,
    header_len: usize,
    signature: Vec<u8>,
    ignore_fake_header: bool,
}

impl View for Decryptor {
    type V = DecryptorView;

    closed spec fn view(&self) -> DecryptorView {
        DecryptorView {
            key: self.decrypt_code@,
            header_len: self.header_len as nat,
            signature: self.signature@,
            ignore_fake_header: self.ignore_fake_header,
        }
    }
}

impl Decryptor {
    /// Its key, header length, signature and flag obey [`format_ok`].
    pub open spec fn wf(&self) -> bool {
        format_ok(self@)
    }

    /// A decryptor for the standard format, with the signature check on.
    pub fn new(decryption_code: Vec<u8>) -> (r: Self)
        ensures
            r.wf(),
            r@ == (DecryptorView {
                key: decryption_code@,
                header_len: DEFAULT_HEADER_LEN as nat,
                signature: rpgmv_signature(),
                ignore_fake_header: false,
            }),
    {
        Self::with_ignore_fake_header(decryption_code, false)
    }

    /// A decryptor for the standard format; where `ignore_fake_header` is
    /// set, assets are unmasked whatever their first bytes are.
    pub fn with_ignore_fake_header(decryption_code: Vec<u8>, ignore_fake_header: bool) -> (r: Self)
        ensures
            r.wf(),
            r@ == (DecryptorView {
                key: decryption_code@,
                header_len: DEFAULT_HEADER_LEN as nat,
                signature: rpgmv_signature(),
                ignore_fake_header,
            }),
    {
        Decryptor {
            decrypt_code: decryption_code,
            header_len: DEFAULT_HEADER_LEN,
            signature: default_signature(),
            ignore_fake_header,
        }
    }

    /// A decryptor for a format of its own: `signature` is checked at the
    /// start of each asset, and the `header_len` bytes after it are unmasked.
    pub fn with_format(
        decryption_code: Vec<u8>,
        header_len: usize,
        signature: Vec<u8>,
        ignore_fake_header: bool,
    ) -> (r: Self)
        requires
            signature@.len() == header_len,
            header_len <= usize::MAX / 2,
        ensures
            r.wf(),
            r@ == (DecryptorView {
                key: decryption_code@,
                header_len: header_len as nat,
                signature: signature@,
                ignore_fake_header,
            }),
    {
        Decryptor { decrypt_code: decryption_code, header_len, signature, ignore_fake_header }
    }

    /// A decryptor for the standard format whose key is given as hex text;
    /// `None` where the text is not an even number of hex digits.
    pub fn from_hex_key(key_text: &str) -> (r: Option<Self>)
        ensures
            r.is_some() <==> is_hex_text(key_text@),
            r matches Some(d) ==> d.wf() && d@ == (DecryptorView {
                key: hex_bytes(key_text@),
                header_len: DEFAULT_HEADER_LEN as nat,
                signature: rpgmv_signature(),
                ignore_fake_header: false,
            }),
    {
        match decode_hex(key_text) {
            Some(key) => Some(Self::new(key)),
            None => None,
        }
    }

    /// The key.
    pub fn get_decrypt_code(&self) -> (r: &Vec<u8>)
        ensures
            r@ == self@.key,
    {
        &self.decrypt_code
    }

    /// The length of the signature and of the masked block.
    pub fn get_header_len(&self) -> (r: usize)
        ensures
            r == self@.header_len,
    {
        self.header_len
    }

    /// The signature that assets must begin with.
    pub fn get_signature(&self) -> (r: &Vec<u8>)
        ensures
            r@ == self@.signature,
    {
        &self.signature
    }

    /// Whether the signature check is switched off.
    pub fn is_ignore_fake_header(&self) -> (r: bool)
        ensures
            r == self@.ignore_fake_header,
    {
        self.ignore_fake_header
    }

    /// Whether `content` begins with the signature.
    pub fn check_fake_header(&self, content: &[u8]) -> (r: bool)
        ensures
            r == has_signature(content@, self@.signature),
    {
        let sig = &self.signature;
        if content.len() < sig.len() {
            return false;
        }
        let mut i: usize = 0;
        while i < sig.len()
            invariant
                i <= sig@.len() <= content@.len(),
                sig@ == self@.signature,
                forall|j: int| 0 <= j < i ==> content@[j] == sig@[j],
            decreases sig@.len() - i,
        {
            if content[i] != sig[i] {
                assert(content@.subrange(0, sig@.len() as int)[i as int] != sig@[i as int]);
                return false;
            }
            i += 1;
        }
        assert(content@.subrange(0, sig@.len() as int) =~= sig@);
        true
    }

    /// Checks an encoded asset and returns its payload: the bytes after the
    /// signature, with the first `header_len` of them XOR-ed with the key.
    pub fn decode(&self, content: &[u8]) -> (r: Result<Vec<u8>, DecodeError>)
        requires
            self.wf(),
        ensures
            match r {
                Ok(out) => decode_result(self@, content@) == Ok::<Seq<u8>, DecodeError>(out@),
                Err(e) => decode_result(self@, content@) == Err::<Seq<u8>, DecodeError>(e),
            },
    {
        let h = self.header_len;
        if content.len() < h * 2 {
            return Err(DecodeError::TooShort);
        }
        if !self.ignore_fake_header && !self.check_fake_header(content) {
            return Err(DecodeError::InvalidSignature);
        }
        let key = &self.decrypt_code;
        if key.len() < h {
            return Err(DecodeError::KeyTooShort);
        }
        let ghost body = content@.subrange(h as int, content@.len() as int);
        let mut out: Vec<u8> = Vec::with_capacity(content.len() - h);
        let mut i: usize = h;
        while i < content.len()
            invariant
                h <= i <= content@.len(),
                h <= key@.len(),
                body == content@.subrange(h as int, content@.len() as int),
                out@.len() == i - h,
                forall|j: int|
                    0 <= j < out@.len() ==> #[trigger] out@[j] == unmask(body, key@, h as nat)[j],
            decreases content@.len() - i,
        {
            let j = i - h;
            let b = if j < h {
                content[i] ^ key[j]
            } else {
                content[i]
            };
            out.push(b);
            i += 1;
        }
        assert(out@ =~= unmask(body, key@, h as nat));
        Ok(out)
    }
}

/// The signature bytes, decoded from [`DEFAULT_SIGNATURE`].
pub fn default_signature() -> (r: Vec<u8>)
    ensures
        r@ == rpgmv_signature(),
{
    proof {
        reveal_strlit("5250474d560000000000000000000000");
    }
    let text: &str = DEFAULT_SIGNATURE;
    assert(is_hex_text(text@));
    match decode_hex(text) {
        Some(bytes) => {
            assert(bytes@ =~= rpgmv_signature());
            bytes
        },
        None => {
            assert(false);
            Vec::new()
        },
    }
}

} // verus!
