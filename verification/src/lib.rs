//! Single-block AES encryption built from first principles: GF(2^8) byte
//! arithmetic, the Rijndael key schedule for 128/192/256-bit keys, and the
//! SubBytes / ShiftRows / MixColumns / AddRoundKey round pipeline.

/// The AES engine: state, S-box, key schedule and round pipeline.
pub mod aes;
/// Arithmetic on bytes seen as elements of GF(2^8).
pub mod galois;
