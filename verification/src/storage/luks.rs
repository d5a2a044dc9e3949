//! LUKS2 cipher profiles and what they become in a manifest.
use vstd::prelude::*;

use crate::qrse::keyslot::{Argon2idKdf, Keyslot, KeyslotKind, KeyslotStatus, WrapSpec};
use crate::qrse::manifest::{DataPlane, Integrity};
use crate::text;

verus! {

/// A LUKS2 profile.
#[derive(Debug, PartialEq, Eq)]
pub struct Luks2Profile {
    /// Cipher, in the kernel's notation.
    pub cipher: &'static str,
    /// Size of the volume key in bits.
    pub key_size_bits: u16,
    /// Password-based key derivation function.
    pub pbkdf: &'static str,
}

impl Clone for Luks2Profile {
    fn clone(&self) -> (r: Self)
        ensures
            r == *self,
    {
        Luks2Profile {
            cipher: self.cipher,
            key_size_bits: self.key_size_bits,
            pbkdf: self.pbkdf,
        }
    }
}

/// AES-256 in XTS mode with an Argon2id passphrase.
pub fn aes_256_xts_argon2id() -> (r: Luks2Profile)
    ensures
        r.cipher@ == "aes-xts-plain64"@,
        r.key_size_bits == 512,
        r.pbkdf@ == "argon2id"@,
{
    Luks2Profile { cipher: "aes-xts-plain64", key_size_bits: 512, pbkdf: "argon2id" }
}

/// Cost of an Argon2id derivation.
#[derive(Debug, Clone, Copy, PartialEq, Eq, Structural)]
pub struct Argon2idParams {
    /// Memory in KiB.
    pub memory_kib: u32,
    /// Passes.
    pub time_cost: u32,
    /// Lanes.
    pub parallelism: u32,
}

/// The cost that provisioning uses unless told otherwise.
pub fn default_argon2id_params() -> (r: Argon2idParams)
    ensures
        r == (Argon2idParams { memory_kib: 1_048_576, time_cost: 3, parallelism: 4 }),
{
    Argon2idParams { memory_kib: 1_048_576, time_cost: 3, parallelism: 4 }
}

/// Why a profile cannot be provisioned.
#[derive(Debug, PartialEq, Eq)]
pub enum LuksError {
    /// The profile derives passphrase keys with something other than Argon2id.
    NotArgon2id {
        /// What the profile uses.
        pbkdf: &'static str,
    },
}

/// Sector size of a provisioned volume in bytes.
pub const SECTOR_SIZE: u32 = 4096;

impl Luks2Profile {
    /// The cipher's name in a manifest.
    pub open spec fn cipher_name(self) -> Seq<char> {
        if self.cipher@ == "aes-xts-plain64"@ && self.key_size_bits == 512 {
            "AES-256-XTS"@
        } else {
            self.cipher@
        }
    }

    /// The data plane section of a manifest for this profile.
    pub fn data_plane(&self) -> (r: DataPlane)
        ensures
            r.cipher@ == self.cipher_name(),
            r.xts_raw_key_bits == self.key_size_bits,
            r.sector_size == SECTOR_SIZE,
            r.integrity.mode@ == "none"@,
            text::views(r.integrity.alternatives@) == seq!["dm-integrity"@],
    {
        let cipher = if text::same(self.cipher, "aes-xts-plain64") && self.key_size_bits == 512 {
            "AES-256-XTS"
        } else {
            self.cipher
        };
        let mut alternatives: Vec<String> = Vec::new();
        alternatives.push("dm-integrity".to_string());
        assert(text::views(alternatives@) =~= seq!["dm-integrity"@]);
        DataPlane {
            cipher: cipher.to_string(),
            xts_raw_key_bits: self.key_size_bits as u32,
            sector_size: SECTOR_SIZE,
            integrity: Integrity { mode: "none".to_string(), alternatives },
        }
    }

    /// The profile derives passphrase keys with Argon2id.
    pub open spec fn uses_argon2id(self) -> bool {
        self.pbkdf@ == "argon2id"@
    }

    /// `k` is an active passphrase slot with these parameters.
    pub open spec fn is_passphrase_slot(
        k: Keyslot,
        slot: u32,
        params: Argon2idParams,
        wrapped_key_ref: Seq<char>,
    ) -> bool {
        &&& k.slot == slot
        &&& k.status == KeyslotStatus::Active
        &&& k.kind matches KeyslotKind::Argon2idPassphrase { kdf, wrap } && {
            &&& kdf.algorithm@ == "argon2id"@
            &&& kdf.memory_kib == params.memory_kib
            &&& kdf.time_cost == params.time_cost
            &&& kdf.parallelism == params.parallelism
            &&& wrap.algorithm@ == "aes-256-gcm"@
            &&& wrap.wrapped_key_ref@ == wrapped_key_ref
        }
    }

    /// An active passphrase slot; fails closed when the profile does not use
    /// Argon2id.
    pub fn argon2id_keyslot(&self, slot: u32, params: &Argon2idParams, wrapped_key_ref: &str) -> (r:
        Result<Keyslot, LuksError>)
        ensures
            match r {
                Ok(k) => self.uses_argon2id() && Self::is_passphrase_slot(
                    k,
                    slot,
                    *params,
                    wrapped_key_ref@,
                ),
                Err(e) => !self.uses_argon2id() && e == (LuksError::NotArgon2id {
                    pbkdf: self.pbkdf,
                }),
            },
    {
        if !text::same(self.pbkdf, "argon2id") {
            return Err(LuksError::NotArgon2id { pbkdf: self.pbkdf });
        }
        Ok(
            Keyslot::new(
                slot,
                KeyslotStatus::Active,
                KeyslotKind::Argon2idPassphrase {
                    kdf: Argon2idKdf {
                        algorithm: "argon2id".to_string(),
                        memory_kib: params.memory_kib,
                        time_cost: params.time_cost,
                        parallelism: params.parallelism,
                    },
                    wrap: WrapSpec {
                        algorithm: "aes-256-gcm".to_string(),
                        wrapped_key_ref: wrapped_key_ref.to_string(),
                    },
                },
            ),
        )
    }
}

} // verus!
