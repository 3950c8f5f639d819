//! Key pairs: the secret material and the public identifier it stands behind.

use vstd::prelude::*;

verus! {

/// A key pair as a mathematical value.
pub struct KeypairView {
    /// The bytes of the secret and public key.
    pub private_material: Seq<u8>,
    /// The public key written in the 58-symbol alphabet.
    pub public_identifier: Seq<char>,
}

/// A key pair: its bytes, and its public identifier as text.
#[derive(Debug, PartialEq, Eq)]
pub struct Keypair {
    /// The bytes of the secret and public key.
    pub private_material: Vec<u8>,
    /// The public key written in the 58-symbol alphabet.
    pub public_identifier: String,
}

impl View for Keypair {
    type V = KeypairView;

    open spec fn view(&self) -> KeypairView {
        KeypairView {
            private_material: self.private_material@,
            public_identifier: self.public_identifier@,
        }
    }
}

/// The number of bytes of a key pair: 32 of the secret key, then 32 of the public.
pub const KEYPAIR_LENGTH: usize = 64;

/// Draws a key pair at random: calls `Keypair::new` of `solana_sdk`, then takes its
/// bytes with `Keypair::to_bytes` and its public key, from `Signer::pubkey`, as
/// text. Which pair comes is a matter of chance; only the number of bytes is
/// claimed.
#[verifier::external_body]
#[allow(deprecated)]
pub(crate) fn fresh_keypair() -> (pair: Keypair)
    ensures
        pair@.private_material.len() == KEYPAIR_LENGTH,
{
    let drawn = solana_sdk::signature::Keypair::new();
    let public_identifier = solana_sdk::signature::Signer::pubkey(&drawn).to_string();
    Keypair { private_material: drawn.to_bytes().to_vec(), public_identifier }
}

} // verus!
