use vstd::prelude::*;
use crate::codec::push_bytes;

verus! {

/// The secret half of an RSA key pair, kept as the outside crate's own type
/// and treated as opaque: the library never looks inside it.
#[verifier::external_type_specification]
#[verifier::external_body]
pub struct ExRSAPrivateKey(rsa::RSAPrivateKey);

/// Whether PKCS#1 v1.5 verification over SHA-256 accepts `sig` as a
/// signature on `msg` under the public key with big-endian modulus bytes
/// `n` and exponent bytes `e`. Left abstract: verification is a pure
/// computation of these four byte sequences, and the library never states
/// which signatures are accepted, only how acceptance propagates.
pub uninterp spec fn rsa_verifies(n: Seq<u8>, e: Seq<u8>, msg: Seq<u8>, sig: Seq<u8>) -> bool;

/// An RSA public key as plain values: the big-endian bytes of its modulus
/// and of its public exponent.
#[derive(Clone)]
pub struct PublicKey {
    pub n: Vec<u8>,
    pub e: Vec<u8>,
}

/// Key generation failed in the outside generator.
#[derive(Debug)]
pub enum KeyError {
    GenerationFailed,
}

/// The outside signer refused to sign.
#[derive(Debug)]
pub enum SignError {
    SigningFailed,
}

/// An RSA key pair: the opaque secret key beside the plain bytes of its
/// public half. The fields are private and every value is built by
/// `generate`, so the secret key always matches the public bytes.
pub struct KeyPair {
    sk: rsa::RSAPrivateKey,
    pk_n: Vec<u8>,
    pk_e: Vec<u8>,
}

impl KeyPair {
    /// The big-endian modulus bytes of the public half.
    pub closed spec fn spec_n(&self) -> Seq<u8> {
        self.pk_n@
    }

    /// The big-endian exponent bytes of the public half.
    pub closed spec fn spec_e(&self) -> Seq<u8> {
        self.pk_e@
    }

    /// Relies on rsa::RSAPrivateKey::new with rand's OsRng: a fresh 512-bit
    /// key pair, or an error from the generator. The keys are random, so
    /// nothing is promised about their bytes.
    #[verifier::external_body]
    pub(crate) fn generate() -> (r: Result<KeyPair, KeyError>) {
        let mut rng = rand::rngs::OsRng;
        let sk = match rsa::RSAPrivateKey::new(&mut rng, 512) {
            Ok(k) => k,
            Err(_) => {
                return Err(KeyError::GenerationFailed);
            },
        };
        let pk = rsa::RSAPublicKey::from(&sk);
        let pk_n = rsa::PublicKeyParts::n(&pk).to_bytes_be();
        let pk_e = rsa::PublicKeyParts::e(&pk).to_bytes_be();
        Ok(KeyPair { sk, pk_n, pk_e })
    }

    /// The public half, as plain bytes.
    pub fn public_key(&self) -> (r: PublicKey)
        ensures
            r.n@ == self.spec_n(),
            r.e@ == self.spec_e(),
    {
        let mut n: Vec<u8> = Vec::new();
        push_bytes(&mut n, &self.pk_n);
        let mut e: Vec<u8> = Vec::new();
        push_bytes(&mut e, &self.pk_e);
        PublicKey { n, e }
    }

    /// Relies on rsa::RSAPrivateKey::sign with PKCS#1 v1.5 padding over
    /// SHA-256: a signature it produces verifies under the matching public
    /// key; the fields are private and built only by `generate`, so this
    /// pair's public bytes are the matching ones.
    #[verifier::external_body]
    pub(crate) fn sign_digest(&self, msg: &Vec<u8>) -> (r: Result<Vec<u8>, SignError>)
        ensures
            r matches Ok(sig) ==> rsa_verifies(self.spec_n(), self.spec_e(), msg@, sig@),
    {
        let padding = rsa::PaddingScheme::new_pkcs1v15_sign(Some(rsa::Hash::SHA2_256));
        match self.sk.sign(padding, msg.as_slice()) {
            Ok(sig) => Ok(sig),
            Err(_) => Err(SignError::SigningFailed),
        }
    }
}

/// Relies on rsa::RSAPublicKey::new and verify with PKCS#1 v1.5 padding
/// over SHA-256: verification is a deterministic computation of the key
/// bytes, the message and the signature. Bytes that do not form a key it
/// accepts reject every signature.
#[verifier::external_body]
pub(crate) fn rsa_verify(key: &PublicKey, msg: &Vec<u8>, sig: &Vec<u8>) -> (r: bool)
    ensures
        r == rsa_verifies(key.n@, key.e@, msg@, sig@),
{
    let n = rsa::BigUint::from_bytes_be(key.n.as_slice());
    let e = rsa::BigUint::from_bytes_be(key.e.as_slice());
    let pk = match rsa::RSAPublicKey::new(n, e) {
        Ok(k) => k,
        Err(_) => {
            return false;
        },
    };
    let padding = rsa::PaddingScheme::new_pkcs1v15_sign(Some(rsa::Hash::SHA2_256));
    rsa::PublicKey::verify(&pk, padding, msg.as_slice(), sig.as_slice()).is_ok()
}

} // verus!
