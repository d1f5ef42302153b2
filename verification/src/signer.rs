//! Key management and signing for the protocol's Poseidon-based scheme.
//!
//! Key derivation and signing are placeholders pending the native
//! implementation: they return zeroed keys and signatures of the right
//! shape, and the contracts say exactly that.

use vstd::prelude::*;
use vstd::slice::slice_to_vec;
use crate::constants::{PRIVATE_KEY_LENGTH, PUBLIC_KEY_LENGTH, SIGNATURE_LENGTH};
use crate::errors::LighterError;
use crate::utils::{hex_to_bytes, hex_ok, hex_decoded, strip_hex_prefix};

verus! {

/// A signer produces fixed-length signatures over 40-byte hashed
/// messages.
pub trait Signer {
    /// Sign a hashed message.
    fn sign(&self, hashed_message: &[u8]) -> (r: Result<Vec<u8>, LighterError>)
        ensures
            r matches Ok(v) ==> v@.len() == SIGNATURE_LENGTH,
    ;
}

/// Key management: access to the public key and the private key bytes.
pub trait KeyManager: Signer {
    /// The manager is in good standing: its keys have their fixed
    /// lengths.
    spec fn km_wf(&self) -> bool;

    /// The public key bytes.
    fn pub_key(&self) -> (r: &[u8])
        requires
            self.km_wf(),
        ensures
            r@.len() == PUBLIC_KEY_LENGTH,
    ;

    /// The public key as a fixed-size array.
    fn pub_key_bytes(&self) -> (r: [u8; PUBLIC_KEY_LENGTH])
        requires
            self.km_wf(),
    ;

    /// A copy of the private key bytes.
    fn prv_key_bytes(&self) -> (r: Vec<u8>);
}

/// Key manager for the Poseidon scheme.
#[derive(Debug)]
pub struct PoseidonKeyManager {
    private_key: Vec<u8>,
    public_key: Vec<u8>,
}

impl PoseidonKeyManager {
    /// Well-formed: the public key has its fixed length and the private
    /// key one of the accepted lengths.
    pub closed spec fn wf(self) -> bool {
        self.public_key@.len() == PUBLIC_KEY_LENGTH && (self.private_key@.len() == 32
            || self.private_key@.len() == PRIVATE_KEY_LENGTH)
    }

    /// The stored private key bytes.
    pub closed spec fn prv_key_spec(self) -> Seq<u8> {
        self.private_key@
    }

    /// Build a key manager from raw private key bytes. Accepts 32-byte
    /// keys (common elsewhere) and 40-byte keys (the protocol's format);
    /// every other length is rejected.
    pub fn new(private_key_bytes: &[u8]) -> (r: Result<PoseidonKeyManager, LighterError>)
        ensures
            r is Ok <==> (private_key_bytes@.len() == 32 || private_key_bytes@.len()
                == PRIVATE_KEY_LENGTH),
            r matches Ok(m) ==> (m.wf() && m.prv_key_spec() == private_key_bytes@),
            r matches Err(e) ==> e == (LighterError::InvalidPrivateKeyLength {
                expected: PRIVATE_KEY_LENGTH,
                actual: private_key_bytes@.len() as usize,
            }),
    {
        if private_key_bytes.len() != 32 && private_key_bytes.len() != PRIVATE_KEY_LENGTH {
            return Err(
                LighterError::InvalidPrivateKeyLength {
                    expected: PRIVATE_KEY_LENGTH,
                    actual: private_key_bytes.len(),
                },
            );
        }
        let public_key = match PoseidonKeyManager::derive_public_key(private_key_bytes) {
            Ok(k) => k,
            Err(e) => {
                return Err(e);
            },
        };
        Ok(PoseidonKeyManager { private_key: slice_to_vec(private_key_bytes), public_key })
    }

    /// Build a key manager from a hex private key, with or without a
    /// `0x` prefix.
    pub fn from_hex(hex_private_key: &str) -> (r: Result<PoseidonKeyManager, LighterError>)
        ensures
            r is Ok <==> (hex_ok(strip_hex_prefix(hex_private_key@)) && (hex_decoded(
                strip_hex_prefix(hex_private_key@),
            ).len() == 32 || hex_decoded(strip_hex_prefix(hex_private_key@)).len()
                == PRIVATE_KEY_LENGTH)),
            r matches Ok(m) ==> (m.wf() && m.prv_key_spec() == hex_decoded(
                strip_hex_prefix(hex_private_key@),
            )),
    {
        let bytes = match hex_to_bytes(hex_private_key) {
            Ok(b) => b,
            Err(e) => {
                return Err(e);
            },
        };
        PoseidonKeyManager::new(bytes.as_slice())
    }

    /// Derive the public key for a private key. Placeholder pending the
    /// native Schnorr/Poseidon derivation: a zeroed key of the right
    /// length.
    pub fn derive_public_key(private_key: &[u8]) -> (r: Result<Vec<u8>, LighterError>)
        ensures
            r is Ok,
            r matches Ok(v) ==> (v@.len() == PUBLIC_KEY_LENGTH && forall|i: int|
                0 <= i < v@.len() ==> v@[i] == 0),
    {
        let v = vec![0u8; PUBLIC_KEY_LENGTH];
        Ok(v)
    }
}

impl Signer for PoseidonKeyManager {
    /// Sign a 40-byte hashed message. Placeholder pending the native
    /// Schnorr/Poseidon signing: a zeroed signature of the right length.
    /// A message of any other length is rejected.
    fn sign(&self, hashed_message: &[u8]) -> (r: Result<Vec<u8>, LighterError>) {
        if hashed_message.len() != 40 {
            return Err(LighterError::CryptoError("invalid hashed message length".to_owned()));
        }
        let v = vec![0u8; SIGNATURE_LENGTH];
        Ok(v)
    }
}

impl KeyManager for PoseidonKeyManager {
    open spec fn km_wf(&self) -> bool {
        self.wf()
    }

    fn pub_key(&self) -> (r: &[u8]) {
        self.public_key.as_slice()
    }

    fn pub_key_bytes(&self) -> (r: [u8; PUBLIC_KEY_LENGTH]) {
        let mut result = [0u8; PUBLIC_KEY_LENGTH];
        let mut i: usize = 0;
        while i < PUBLIC_KEY_LENGTH
            invariant
                i <= PUBLIC_KEY_LENGTH,
                self.public_key@.len() == PUBLIC_KEY_LENGTH,
            decreases PUBLIC_KEY_LENGTH - i,
        {
            result[i] = self.public_key[i];
            i = i + 1;
        }
        result
    }

    fn prv_key_bytes(&self) -> (r: Vec<u8>) {
        self.private_key.clone()
    }
}

/// Build a key manager from a hex private key.
pub fn new_key_manager(hex_key: &str) -> (r: Result<PoseidonKeyManager, LighterError>)
    ensures
        r is Ok <==> (hex_ok(strip_hex_prefix(hex_key@)) && (hex_decoded(
            strip_hex_prefix(hex_key@),
        ).len() == 32 || hex_decoded(strip_hex_prefix(hex_key@)).len() == PRIVATE_KEY_LENGTH)),
        r matches Ok(m) ==> m.wf(),
{
    PoseidonKeyManager::from_hex(hex_key)
}

} // verus!
