//! Software (password/recovery-key) FileVault decryption.
//!
//! Implements the on-disk key-unwrapping chain used by password-protected
//! APFS volumes:
//!
//! 1. The container keybag is itself AES-XTS-128 encrypted with the
//!    *container's own UUID* as both halves of the XTS key. This isn't a
//!    secret, just obfuscation, since every key inside is still wrapped.
//! 2. The container keybag's `VolumeUnlockRecords` entry for a volume's UUID
//!    points at that volume's own keybag (encrypted the same way, with the
//!    *volume's* UUID as the XTS key).
//! 3. The volume keybag holds one wrapped Key Encryption Key (KEK) per
//!    enrolled password/recovery key, itself derived via PBKDF2-HMAC-SHA256
//!    from a salt and iteration count stored alongside it, and unwrapped
//!    with RFC 3394 AES key-wrap.
//! 4. The container keybag's `VolumeKey` entry for the volume holds the
//!    wrapped Volume Encryption Key (VEK), unwrapped with the KEK from step 3.
//!
//! The unwrapped VEK is a 32-byte AES-XTS-128 key (first half: data key,
//! second half: tweak key) used to decrypt the volume's filesystem tree and
//! file contents.
//!
//! This module **cannot** decrypt Secure-Enclave-sealed volumes (every
//! internal volume on T2 and Apple Silicon Macs): their VEK is only ever
//! released by the SEP after authenticating through Apple's private
//! `CryptoUserService`, never by unwrapping bytes found on disk.

pub mod primitives;
pub mod unlock;
pub mod wrapped_key;
pub mod xts;

pub use self::unlock::unlock_volume_key;
pub use self::xts::{decrypt_keybag_block, decrypt_volume_block, xts_decrypt, VolumeEncryptionKey};
