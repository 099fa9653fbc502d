use vstd::prelude::*;

use crate::codec::{base64_decoded, base64_std_decode, hex_decode, hex_value, spec_hex_decode};
use crate::config::SponsorConfig;
use crate::digest::{blake2b256, blake2b256_of};
use crate::error::{error_message, RelayError};
use crate::intent::Address;
use crate::sui::{ed25519_address, ed25519_public_key, ed25519_public_of, ed25519_sign, ed25519_signature_of};
use crate::text::push_text;
use vstd::string::StringSliceAdditionalSpecFns;
use vstd::utf8::encode_utf8;

verus! {

/// The key that signs as the sender of sponsored transactions.
#[derive(Debug)]
pub struct SponsorService {
    seed: Address,
    public_key: Address,
    sponsor_address: Address,
}

/// `"sponsor key must be 33 bytes (scheme flag + 32-byte secret)"`.
pub open spec fn key_length_text() -> Seq<char> {
    "sponsor key must be 33 bytes (scheme flag + 32-byte secret)"@
}

/// `"sponsor key scheme must be ed25519"`.
pub open spec fn key_scheme_text() -> Seq<char> {
    "sponsor key scheme must be ed25519"@
}

/// `"invalid sponsor key base64: "`, which the decoder's message follows.
pub open spec fn key_base64_prefix() -> Seq<char> {
    "invalid sponsor key base64: "@
}

fn seed_of(bytes: &Vec<u8>) -> (r: Address)
    requires
        bytes@.len() == 33,
    ensures
        r@ == bytes@.subrange(1, 33),
{
    let mut seed = [0u8; 32];
    let mut i: usize = 0;
    while i < 32
        invariant
            bytes@.len() == 33,
            i <= 32,
            forall|j: int| 0 <= j < i ==> seed@[j] == bytes@[j + 1],
        decreases 32 - i,
    {
        seed[i] = bytes[i + 1];
        i = i + 1;
    }
    assert(seed@ =~= bytes@.subrange(1, 33));
    seed
}

impl SponsorService {
    /// The public key and the address belong to the seed.
    #[verifier::type_invariant]
    spec fn keys_match(self) -> bool {
        &&& self.public_key@ == ed25519_public_of(self.seed@)
        &&& self.sponsor_address@ == blake2b256_of(seq![0u8] + self.public_key@)
    }

    /// The secret seed of the key.
    pub closed spec fn seed_bytes(self) -> Seq<u8> {
        self.seed@
    }

    /// Reads the sponsor key: base64 of the Ed25519 scheme flag (0) and the
    /// 32-byte secret.
    pub fn new(cfg: &SponsorConfig) -> (r: Result<Self, RelayError>)
        ensures
            match base64_decoded(encode_utf8(cfg.private_key_base64@)) {
                None => r is Err && r->Err_0 is SponsorConfig && error_message(r->Err_0).take(
                    key_base64_prefix().len() as int,
                ) == key_base64_prefix(),
                Some(b) => if b.len() != 33 {
                    r is Err && r->Err_0 is SponsorConfig && error_message(r->Err_0)
                        == key_length_text()
                } else if b[0] != 0 {
                    r is Err && r->Err_0 is SponsorConfig && error_message(r->Err_0)
                        == key_scheme_text()
                } else {
                    r is Ok && r->Ok_0.seed_bytes() == b.subrange(1, 33)
                },
            },
    {
        let text = cfg.private_key_base64.as_str().as_bytes();
        let key = match base64_std_decode(text) {
            Ok(k) => k,
            Err(e) => {
                let mut m = "invalid sponsor key base64: ".to_string();
                let ghost prefix = m@;
                push_text(&mut m, e.as_str());
                proof {
                    reveal_strlit("invalid sponsor key base64: ");
                    assert(m@.take(prefix.len() as int) =~= prefix);
                }
                return Err(RelayError::SponsorConfig(m));
            },
        };
        if key.len() != 33 {
            return Err(
                RelayError::SponsorConfig(
                    "sponsor key must be 33 bytes (scheme flag + 32-byte secret)".to_string(),
                ),
            );
        }
        if key[0] != 0 {
            return Err(RelayError::SponsorConfig("sponsor key scheme must be ed25519".to_string()));
        }
        let seed = seed_of(&key);
        let public_key = ed25519_public_key(&seed);
        let sponsor_address = ed25519_address(&public_key);
        Ok(SponsorService { seed, public_key, sponsor_address })
    }

    /// The sponsor's account address.
    pub fn sponsor_address(&self) -> (r: Address)
        ensures
            r@ == blake2b256_of(seq![0u8] + ed25519_public_of(self.seed_bytes())),
    {
        proof {
            use_type_invariant(self);
        }
        self.sponsor_address
    }

    /// The sponsor's public key.
    pub fn sponsor_public_key(&self) -> (r: Address)
        ensures
            r@ == ed25519_public_of(self.seed_bytes()),
    {
        proof {
            use_type_invariant(self);
        }
        self.public_key
    }

    /// Signs a message (a transaction's signing digest) with the sponsor key.
    pub fn sign(&self, msg: &[u8]) -> (r: [u8; 64])
        ensures
            r@ == ed25519_signature_of(self.seed_bytes(), msg@),
    {
        ed25519_sign(&self.seed, msg)
    }

    /// Signs the BLAKE2b-256 digest of a message with the sponsor key.
    pub fn sign_blake2b(&self, msg: &[u8]) -> (r: [u8; 64])
        ensures
            r@ == ed25519_signature_of(self.seed_bytes(), blake2b256_of(msg@)),
    {
        let digest = blake2b256(msg);
        ed25519_sign(&self.seed, digest.as_slice())
    }
}

/// Whether a key is written as 64 hexadecimal digits.
pub open spec fn hex_seed_text(b: Seq<u8>) -> bool {
    b.len() == 64 && forall|i: int| 0 <= i < b.len() ==> (#[trigger] hex_value(b[i])) is Some
}

/// `"admin key base64: "`, which the decoder's message follows.
pub open spec fn admin_base64_prefix() -> Seq<char> {
    "admin key base64: "@
}

fn all_hex(b: &[u8]) -> (r: bool)
    ensures
        r == forall|i: int| 0 <= i < b@.len() ==> (#[trigger] hex_value(b@[i])) is Some,
{
    let mut i: usize = 0;
    while i < b.len()
        invariant
            i <= b@.len(),
            forall|j: int| 0 <= j < i ==> (#[trigger] hex_value(b@[j])) is Some,
        decreases b.len() - i,
    {
        let c = b[i];
        if !((0x30 <= c && c <= 0x39) || (0x61 <= c && c <= 0x66) || (0x41 <= c && c <= 0x46)) {
            assert(hex_value(b@[i as int]) is None);
            return false;
        }
        i = i + 1;
    }
    true
}

fn seed_from_hex(bytes: &Vec<u8>) -> (r: Address)
    requires
        bytes@.len() == 32,
    ensures
        r@ == bytes@,
{
    let mut seed = [0u8; 32];
    let mut i: usize = 0;
    while i < 32
        invariant
            bytes@.len() == 32,
            i <= 32,
            forall|j: int| 0 <= j < i ==> seed@[j] == bytes@[j],
        decreases 32 - i,
    {
        seed[i] = bytes[i];
        i = i + 1;
    }
    assert(seed@ =~= bytes@);
    seed
}

/// Reads the secret seed of the admin key used to replay a board: 64
/// hexadecimal digits, or base64 of a scheme flag and the 32-byte secret.
pub fn parse_admin_key(input: &str) -> (r: Result<Address, RelayError>)
    ensures
        hex_seed_text(input.spec_bytes()) ==> r is Ok && spec_hex_decode(input.spec_bytes())
            == Some(r->Ok_0@),
        !hex_seed_text(input.spec_bytes()) ==> match base64_decoded(input.spec_bytes()) {
            None => r is Err && r->Err_0 is SponsorBuild && error_message(r->Err_0).take(
                admin_base64_prefix().len() as int,
            ) == admin_base64_prefix(),
            Some(b) => if b.len() != 33 {
                r is Err && r->Err_0 is SponsorBuild && error_message(r->Err_0)
                    == "admin key must be 33-byte base64 or 64-char hex"@
            } else {
                r is Ok && r->Ok_0@ == b.subrange(1, 33)
            },
        },
{
    let b = input.as_bytes();
    if b.len() == 64 && all_hex(b) {
        match hex_decode(b) {
            Ok(bytes) => {
                assert(bytes@.len() == 32);
                Ok(seed_from_hex(&bytes))
            },
            Err(e) => {
                let mut m = "admin key hex: ".to_string();
                push_text(&mut m, e.as_str());
                Err(RelayError::SponsorBuild(m))
            },
        }
    } else {
        match base64_std_decode(b) {
            Ok(bytes) => {
                if bytes.len() != 33 {
                    Err(RelayError::SponsorBuild("admin key must be 33-byte base64 or 64-char hex".to_string()))
                } else {
                    Ok(seed_of(&bytes))
                }
            },
            Err(e) => {
                let mut m = "admin key base64: ".to_string();
                let ghost prefix = m@;
                push_text(&mut m, e.as_str());
                proof {
                    reveal_strlit("admin key base64: ");
                    assert(m@.take(prefix.len() as int) =~= prefix);
                }
                Err(RelayError::SponsorBuild(m))
            },
        }
    }
}

} // verus!
