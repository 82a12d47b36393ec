# hadris-apfs

Reading support for APFS containers, with the reading logic verified by Verus.

- `src/` is the library. It parses keybags and volume superblocks, unlocks
  password-protected volumes (keybag parsing, PBKDF2 key derivation, RFC 3394
  AES key-unwrap and AES-XTS block decryption), and decides every step of a
  container walk: opening, checkpoints, object maps, B-trees, snapshots, paths
  and file contents. It does no I/O: a walk names the block that it wants next
  and is handed what was read.
- `app/` drives the walks asynchronously over a block device.
- `tests/` runs the library on small in-memory disks and on known answers.

Software decryption **cannot** unlock Secure-Enclave-sealed volumes (every
internal volume on T2 and Apple Silicon Macs): their key is only ever released
by the SEP after OS-level authentication, never by unwrapping bytes found on
disk.

The results of the ciphers, of the key derivation and of the digest are taken
from the `aes`, `aes-kw`, `pbkdf2`, `sha2` and `xts-mode` crates as they are;
`src/crypto/primitives.rs` says what is relied on.
