//! Raw bytes of a source: their text, their fingerprint.
use vstd::prelude::*;
use vstd::utf8::*;

verus! {

/// The hexadecimal SHA-256 of some bytes.
pub uninterp spec fn sha256(data: Seq<u8>) -> Seq<char>;

/// `sha2::Sha256::digest`, printed in hexadecimal: 64 characters that depend on the bytes
/// alone.
#[verifier::external_body]
pub(crate) fn sha256_hex(data: &[u8]) -> (r: String)
    ensures
        r@ == sha256(data@),
        r@.len() == 64,
{
    let digest = <sha2::Sha256 as sha2::Digest>::digest(data);
    format!("{:x}", digest)
}

/// The text of some bytes, with U+FFFD in place of what is not UTF-8.
pub uninterp spec fn lossy_text(data: Seq<u8>) -> Seq<char>;

/// `String::from_utf8_lossy`: valid UTF-8 is decoded as it stands.
#[verifier::external_body]
pub(crate) fn decode_lossy(data: &[u8]) -> (r: String)
    ensures
        r@ == lossy_text(data@),
        valid_utf8(data@) ==> r@ == decode_utf8(data@),
{
    String::from_utf8_lossy(data).into_owned()
}

/// `String::from_utf8`: the text of bytes that are UTF-8, and nothing for any other bytes.
#[verifier::external_body]
pub(crate) fn decode_strict(data: &[u8]) -> (r: Option<String>)
    ensures
        match r {
            Some(s) => valid_utf8(data@) && s@ == decode_utf8(data@),
            None => !valid_utf8(data@),
        },
{
    String::from_utf8(data.to_vec()).ok()
}

/// What a decompressor hands out of some bytes before it first fails.
pub uninterp spec fn zstd_decoded(data: Seq<u8>) -> Seq<u8>;

/// `zstd::stream::read::Decoder`, read in chunks of 64 KiB up to its end or its first failure
/// (damaged input, or input that ends inside a frame): what it handed out until then depends on
/// the bytes alone.
#[verifier::external_body]
pub(crate) fn decode_zstd(data: &[u8]) -> (r: Vec<u8>)
    ensures
        r@ == zstd_decoded(data@),
{
    let mut out: Vec<u8> = Vec::new();
    if let Ok(decoder) = zstd::stream::read::Decoder::new(data) {
        let mut chunks = std::io::BufReader::with_capacity(65536, decoder);
        let _ = std::io::copy(&mut chunks, &mut out);
    }
    out
}

/// How many bytes a text takes.
pub open spec fn byte_len(s: Seq<char>) -> nat {
    encode_utf8(s).len()
}

/// How many bytes the text takes.
pub fn byte_length(s: &str) -> (n: usize)
    ensures
        n == byte_len(s@),
{
    s.as_bytes().len()
}

/// The byte length of two texts together is the sum of their byte lengths.
pub proof fn byte_len_adds(a: Seq<char>, b: Seq<char>)
    ensures
        byte_len(a + b) == byte_len(a) + byte_len(b),
        encode_utf8(a + b) == encode_utf8(a) + encode_utf8(b),
    decreases a.len(),
{
    if a.len() == 0 {
        assert(a + b =~= b);
        assert(encode_utf8(a) =~= Seq::<u8>::empty());
        assert(encode_utf8(a) + encode_utf8(b) =~= encode_utf8(b));
    } else {
        byte_len_adds(a.drop_first(), b);
        assert((a + b).drop_first() =~= a.drop_first() + b);
        assert((a + b)[0] == a[0]);
        assert(encode_scalar(a[0] as u32) + (encode_utf8(a.drop_first()) + encode_utf8(b))
            =~= (encode_scalar(a[0] as u32) + encode_utf8(a.drop_first())) + encode_utf8(b));
    }
}

} // verus!
