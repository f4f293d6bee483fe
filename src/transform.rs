//! The reversing transforms of the known producers, and the strategies that
//! compose them.
use vstd::prelude::*;

verus! {

/// What reading a `flate2::read::GzDecoder` over a byte string to its end
/// yields, if the stream is well formed.
pub uninterp spec fn gunzip_of(data: Seq<u8>) -> Option<Seq<u8>>;

/// What AES-128 in CBC mode with PKCS#7 padding, under a key and an
/// initialisation vector, decrypts a byte string into, if it succeeds.
pub uninterp spec fn aes128_cbc_pkcs7_decrypted(key: Seq<u8>, iv: Seq<u8>, data: Seq<u8>) -> Option<
    Seq<u8>,
>;

/// Relies on `flate2::read::GzDecoder` and `std::io::Read::read_to_end`: the
/// whole decompressed stream, or an error on a malformed or truncated one.
#[verifier::external_body]
fn gunzip(data: &[u8]) -> (r: Option<Vec<u8>>)
    ensures
        r is Some <==> gunzip_of(data@) is Some,
        r matches Some(v) ==> gunzip_of(data@) == Some(v@),
{
    let mut out = Vec::new();
    let mut decoder = flate2::read::GzDecoder::new(data);
    std::io::Read::read_to_end(&mut decoder, &mut out).ok().map(|_| out)
}

/// Relies on `cbc::Decryptor::<aes::Aes128>` and its `decrypt_padded_mut`
/// with `Pkcs7`, which fails on an input that is empty or not a whole number
/// of 16-byte blocks, and on malformed padding.
#[verifier::external_body]
fn aes128_cbc_decrypt(key: &[u8], iv: &[u8], data: &[u8]) -> (r: Option<Vec<u8>>)
    requires
        key@.len() == 16,
        iv@.len() == 16,
    ensures
        r is Some <==> aes128_cbc_pkcs7_decrypted(key@, iv@, data@) is Some,
        r matches Some(v) ==> aes128_cbc_pkcs7_decrypted(key@, iv@, data@) == Some(v@),
        data@.len() % 16 != 0 ==> r is None,
        data@.len() == 0 ==> r is None,
{
    let decryptor = <cbc::Decryptor<aes::Aes128> as cbc::cipher::KeyIvInit>::new_from_slices(key, iv).ok()?;
    let mut buffer = data.to_vec();
    cbc::cipher::BlockDecryptMut::decrypt_padded_mut::<cbc::cipher::block_padding::Pkcs7>(
        decryptor,
        &mut buffer,
    ).ok().map(|plain| plain.to_vec())
}

/// The fixed key of the legacy encrypting producer.
pub open spec fn legacy_key() -> Seq<u8> {
    seq![52u8, 54, 97, 56, 113, 112, 77, 119, 54, 54, 52, 51, 84, 68, 105, 86]
}

/// The fixed initialisation vector of the legacy encrypting producer.
pub open spec fn legacy_iv() -> Seq<u8> {
    seq![87u8, 51, 72, 97, 74, 71, 121, 71, 114, 102, 79, 86, 82, 98, 52, 50]
}

/// Key and initialisation vector of the block cipher, fixed for the process.
pub struct CipherParams {
    pub key: Vec<u8>,
    pub iv: Vec<u8>,
}

impl CipherParams {
    /// Both parameters are one cipher block long.
    pub open spec fn wf(&self) -> bool {
        self.key@.len() == 16 && self.iv@.len() == 16
    }

    /// The parameters of the single known encrypting producer.
    pub fn legacy() -> (r: Self)
        ensures
            r.wf(),
            r.key@ == legacy_key(),
            r.iv@ == legacy_iv(),
    {
        let key = vec![52u8, 54, 97, 56, 113, 112, 77, 119, 54, 54, 52, 51, 84, 68, 105, 86];
        let iv = vec![87u8, 51, 72, 97, 74, 71, 121, 71, 114, 102, 79, 86, 82, 98, 52, 50];
        assert(key@ =~= legacy_key());
        assert(iv@ =~= legacy_iv());
        CipherParams { key, iv }
    }
}

/// Decrypts with the legacy parameters; the input is copied, never changed.
pub fn decrypt_legacy(input: &[u8]) -> (r: Option<Vec<u8>>)
    ensures
        r is Some <==> aes128_cbc_pkcs7_decrypted(legacy_key(), legacy_iv(), input@) is Some,
        r matches Some(v) ==> aes128_cbc_pkcs7_decrypted(legacy_key(), legacy_iv(), input@) == Some(v@),
        input@.len() % 16 != 0 ==> r is None,
        input@.len() == 0 ==> r is None,
{
    let params = CipherParams::legacy();
    aes128_cbc_decrypt(params.key.as_slice(), params.iv.as_slice(), input)
}

/// Reverses a gzip envelope.
pub fn gzip_decompress(input: &[u8]) -> (r: Option<Vec<u8>>)
    ensures
        r is Some <==> gunzip_of(input@) is Some,
        r matches Some(v) ==> gunzip_of(input@) == Some(v@),
{
    gunzip(input)
}

/// What the legacy producer's decrypt-then-decompress reversal yields.
pub open spec fn gzip2_of(input: Seq<u8>) -> Option<Seq<u8>> {
    match aes128_cbc_pkcs7_decrypted(legacy_key(), legacy_iv(), input) {
        Some(plain) => gunzip_of(plain),
        None => None,
    }
}

/// Decrypts with the legacy parameters, then reverses a gzip envelope.
pub fn gzip2_decompress(input: &[u8]) -> (r: Option<Vec<u8>>)
    ensures
        r is Some <==> gzip2_of(input@) is Some,
        r matches Some(v) ==> gzip2_of(input@) == Some(v@),
        input@.len() % 16 != 0 ==> r is None,
        input@.len() == 0 ==> r is None,
{
    match decrypt_legacy(input) {
        Some(plain) => gunzip(plain.as_slice()),
        None => None,
    }
}

/// A fresh copy of a byte slice.
pub fn copy_bytes(s: &[u8]) -> (r: Vec<u8>)
    ensures
        r@ == s@,
{
    let mut v: Vec<u8> = Vec::new();
    let mut i: usize = 0;
    while i < s.len()
        invariant
            i <= s@.len(),
            v@ == s@.subrange(0, i as int),
        decreases s@.len() - i,
    {
        v.push(s[i]);
        i += 1;
    }
    assert(v@ =~= s@);
    v
}

/// One candidate reversal of a known producer's encoding.
#[derive(PartialEq, Eq, Structural, Clone, Copy, Debug)]
pub enum Strategy {
    /// A gzip envelope.
    Gzip,
    /// Block-cipher encryption of a gzip envelope.
    Gzip2,
    /// No envelope: the bytes are the serialized record.
    Direct,
}

/// How many strategies there are.
pub const STRATEGY_COUNT: usize = 3;

/// The strategies in the fixed order in which they are tried.
pub open spec fn strategy_at(i: int) -> Strategy {
    if i == 0 {
        Strategy::Gzip
    } else if i == 1 {
        Strategy::Gzip2
    } else {
        Strategy::Direct
    }
}

/// The name under which a strategy is reported.
pub open spec fn strategy_name(s: Strategy) -> Seq<char> {
    match s {
        Strategy::Gzip => "CommonUtility::GzipDecompress"@,
        Strategy::Gzip2 => "AppSecurity::Gzip2Decompress"@,
        Strategy::Direct => "直接解析"@,
    }
}

/// The bytes that a strategy's transforms turn the input into, if they succeed.
pub open spec fn transformed(s: Strategy, input: Seq<u8>) -> Option<Seq<u8>> {
    match s {
        Strategy::Gzip => gunzip_of(input),
        Strategy::Gzip2 => gzip2_of(input),
        Strategy::Direct => Some(input),
    }
}

impl Strategy {
    /// The strategy at a position of the fixed order.
    pub fn at(i: usize) -> (r: Strategy)
        requires
            i < STRATEGY_COUNT,
        ensures
            r == strategy_at(i as int),
    {
        if i == 0 {
            Strategy::Gzip
        } else if i == 1 {
            Strategy::Gzip2
        } else {
            Strategy::Direct
        }
    }

    /// The name under which the strategy is reported.
    pub fn name(&self) -> (r: &'static str)
        ensures
            r@ == strategy_name(*self),
    {
        match self {
            Strategy::Gzip => "CommonUtility::GzipDecompress",
            Strategy::Gzip2 => "AppSecurity::Gzip2Decompress",
            Strategy::Direct => "直接解析",
        }
    }

    /// Applies the strategy's transforms to a copy of the input.
    pub fn apply(&self, input: &[u8]) -> (r: Option<Vec<u8>>)
        ensures
            r is Some <==> transformed(*self, input@) is Some,
            r matches Some(v) ==> transformed(*self, input@) == Some(v@),
    {
        match self {
            Strategy::Gzip => gzip_decompress(input),
            Strategy::Gzip2 => gzip2_decompress(input),
            Strategy::Direct => Some(copy_bytes(input)),
        }
    }
}

} // verus!
