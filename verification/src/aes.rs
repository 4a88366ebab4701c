use vstd::prelude::*;

use crate::galois::GaloisField;
use crate::galois::gf_mul_spec;

verus! {

/// The AES S-box: the fixed 256-entry substitution table of FIPS-197.
pub const S_BOX: [u8; 256] = [
    0x63, 0x7c, 0x77, 0x7b, 0xf2, 0x6b, 0x6f, 0xc5, 0x30, 0x01, 0x67, 0x2b, 0xfe, 0xd7, 0xab, 0x76,
    0xca, 0x82, 0xc9, 0x7d, 0xfa, 0x59, 0x47, 0xf0, 0xad, 0xd4, 0xa2, 0xaf, 0x9c, 0xa4, 0x72, 0xc0,
    0xb7, 0xfd, 0x93, 0x26, 0x36, 0x3f, 0xf7, 0xcc, 0x34, 0xa5, 0xe5, 0xf1, 0x71, 0xd8, 0x31, 0x15,
    0x04, 0xc7, 0x23, 0xc3, 0x18, 0x96, 0x05, 0x9a, 0x07, 0x12, 0x80, 0xe2, 0xeb, 0x27, 0xb2, 0x75,
    0x09, 0x83, 0x2c, 0x1a, 0x1b, 0x6e, 0x5a, 0xa0, 0x52, 0x3b, 0xd6, 0xb3, 0x29, 0xe3, 0x2f, 0x84,
    0x53, 0xd1, 0x00, 0xed, 0x20, 0xfc, 0xb1, 0x5b, 0x6a, 0xcb, 0xbe, 0x39, 0x4a, 0x4c, 0x58, 0xcf,
    0xd0, 0xef, 0xaa, 0xfb, 0x43, 0x4d, 0x33, 0x85, 0x45, 0xf9, 0x02, 0x7f, 0x50, 0x3c, 0x9f, 0xa8,
    0x51, 0xa3, 0x40, 0x8f, 0x92, 0x9d, 0x38, 0xf5, 0xbc, 0xb6, 0xda, 0x21, 0x10, 0xff, 0xf3, 0xd2,
    0xcd, 0x0c, 0x13, 0xec, 0x5f, 0x97, 0x44, 0x17, 0xc4, 0xa7, 0x7e, 0x3d, 0x64, 0x5d, 0x19, 0x73,
    0x60, 0x81, 0x4f, 0xdc, 0x22, 0x2a, 0x90, 0x88, 0x46, 0xee, 0xb8, 0x14, 0xde, 0x5e, 0x0b, 0xdb,
    0xe0, 0x32, 0x3a, 0x0a, 0x49, 0x06, 0x24, 0x5c, 0xc2, 0xd3, 0xac, 0x62, 0x91, 0x95, 0xe4, 0x79,
    0xe7, 0xc8, 0x37, 0x6d, 0x8d, 0xd5, 0x4e, 0xa9, 0x6c, 0x56, 0xf4, 0xea, 0x65, 0x7a, 0xae, 0x08,
    0xba, 0x78, 0x25, 0x2e, 0x1c, 0xa6, 0xb4, 0xc6, 0xe8, 0xdd, 0x74, 0x1f, 0x4b, 0xbd, 0x8b, 0x8a,
    0x70, 0x3e, 0xb5, 0x66, 0x48, 0x03, 0xf6, 0x0e, 0x61, 0x35, 0x57, 0xb9, 0x86, 0xc1, 0x1d, 0x9e,
    0xe1, 0xf8, 0x98, 0x11, 0x69, 0xd9, 0x8e, 0x94, 0x9b, 0x1e, 0x87, 0xe9, 0xce, 0x55, 0x28, 0xdf,
    0x8c, 0xa1, 0x89, 0x0d, 0xbf, 0xe6, 0x42, 0x68, 0x41, 0x99, 0x2d, 0x0f, 0xb0, 0x54, 0xbb, 0x16,
];

/// Byte `r` (0 is the most significant) of a big-endian word.
pub open spec fn word_byte(w: u32, r: int) -> u8
    recommends
        0 <= r < 4,
{
    (w >> ((24 - 8 * r) as u32)) as u8
}

/// The big-endian word made of four bytes.
pub open spec fn word_from_bytes(b0: u8, b1: u8, b2: u8, b3: u8) -> u32 {
    ((b0 as u32) << 24) | ((b1 as u32) << 16) | ((b2 as u32) << 8) | (b3 as u32)
}

/// The S-box image of one byte.
pub open spec fn sub_byte_spec(a: u8) -> u8 {
    S_BOX[a as int]
}

/// SubWord: the S-box applied to each byte of a word.
pub open spec fn sub_word_spec(w: u32) -> u32 {
    word_from_bytes(
        sub_byte_spec(word_byte(w, 0)),
        sub_byte_spec(word_byte(w, 1)),
        sub_byte_spec(word_byte(w, 2)),
        sub_byte_spec(word_byte(w, 3)),
    )
}

/// RotWord: the four bytes of a word rotated left by one byte.
pub open spec fn rot_word_spec(w: u32) -> u32 {
    (w << 8) | (w >> 24)
}

/// S-box lookup for one byte, the index split into its two nibbles as in the
/// standard's description of SubBytes.
fn sbox_lookup(a: u8) -> (r: u8)
    ensures
        r == sub_byte_spec(a),
{
    proof {
        assert((a >> 4) * 16 <= 240 && ((a << 4) >> 4) <= 15 && (a >> 4) * 16 + ((a << 4) >> 4)
            == a) by (bit_vector);
    }
    let idx: usize = ((a >> 4) * 16 + ((a << 4) >> 4)) as usize;
    S_BOX[idx]
}

/// SubWord on a whole big-endian word.
fn sub_word(a: u32) -> (r: u32)
    ensures
        r == sub_word_spec(a),
{
    proof {
        assert(a >> 0 == a) by (bit_vector);
    }
    let b0 = sbox_lookup(#[verifier::truncate] ((a >> 24) as u8));
    let b1 = sbox_lookup(#[verifier::truncate] ((a >> 16) as u8));
    let b2 = sbox_lookup(#[verifier::truncate] ((a >> 8) as u8));
    let b3 = sbox_lookup(#[verifier::truncate] (a as u8));
    ((b0 as u32) << 24) | ((b1 as u32) << 16) | ((b2 as u32) << 8) | (b3 as u32)
}

/// RotWord on a word.
fn rot_word(a: u32) -> (r: u32)
    ensures
        r == rot_word_spec(a),
{
    (a << 8) | (a >> 24)
}

/// The supported key sizes.
#[allow(non_camel_case_types)]
#[derive(Copy, Clone, Debug, PartialEq, Eq, Structural, PartialOrd, Ord)]
pub enum KeySize {
    /// A 128 bit key
    AES_128,
    /// A 192 bit key
    AES_192,
    /// A 256 bit key
    AES_256,
}

/// The round-constant words of the key schedule: Rcon[k] has 2^k in GF(2^8)
/// as its first byte and zeroes elsewhere.
pub const R_CON: [u32; 10] = [
    0x01000000, 0x02000000, 0x04000000, 0x08000000, 0x10000000, 0x20000000, 0x40000000,
    0x80000000, 0x1B000000, 0x36000000,
];

/// Word `i` of the Rijndael expanded key for an `nk`-word key: the first `nk`
/// words are the key itself; each later word combines its two predecessors,
/// with SubWord / RotWord / Rcon applied at the schedule's special positions.
pub open spec fn key_expansion_word(key: Seq<u32>, nk: nat, i: nat) -> u32
    recommends
        nk == 4 || nk == 6 || nk == 8,
        key.len() == nk,
    decreases i,
{
    if i < nk {
        key[i as int]
    } else if nk < 4 {
        0
    } else {
        let prev = key_expansion_word(key, nk, (i - 1) as nat);
        let back = key_expansion_word(key, nk, (i - nk) as nat);
        if i % nk == 0 {
            sub_word_spec(rot_word_spec(prev)) ^ R_CON[i as int / nk as int - 1] ^ back
        } else if nk == 8 && i % 8 == 4 {
            sub_word_spec(prev) ^ back
        } else {
            prev ^ back
        }
    }
}

/// The four words of round key `j` in the expanded schedule.
pub open spec fn round_key_words(key: Seq<u32>, nk: nat, j: int) -> Seq<u32> {
    Seq::new(4, |t: int| key_expansion_word(key, nk, (4 * j + t) as nat))
}

/// A struct that represents an AES round key.
/// This must always be 128 bits.
#[derive(Copy, Clone, Debug, PartialEq, Eq, PartialOrd, Ord)]
pub struct AesRoundKey {
    /// The four big-endian words of the round key.
    pub data: [u32; 4],
}

/// A trait that describes all of the possible key operations.
pub trait AesKeyOps<const N: usize, const N_ROUND_KEYS: usize> {
    /// The key's words, most significant word first.
    spec fn key_words(&self) -> Seq<u32>;

    /// Performs an S-box lookup on each byte of the given word.
    fn sub_bytes(a: u32) -> (r: u32)
        ensures
            r == sub_word_spec(a),
    ;

    /// Rotates an integer 8 bits to the left.
    fn rot_bytes(a: u32) -> (r: u32)
        ensures
            r == rot_word_spec(a),
    ;

    /// Derives round keys from the original key.
    fn derive_round_keys(&self) -> (keys: Vec<AesRoundKey>)
        requires
            self.key_words().len() == N,
        ensures
            keys@.len() == N_ROUND_KEYS,
            forall|j: int|
                0 <= j < N_ROUND_KEYS ==> (#[trigger] keys@[j]).data@ == round_key_words(
                    self.key_words(),
                    N as nat,
                    j,
                ),
    ;
}

/// Runs the key expansion of an `N`-word key out to `n_words` words.
fn expand_words<const N: usize>(key: &[u32; N], n_words: usize) -> (words: Vec<u32>)
    requires
        N == 4 || N == 6 || N == 8,
        n_words == 4 * (N + 7),
    ensures
        words@.len() == n_words,
        forall|i: int|
            0 <= i < n_words ==> words@[i] == key_expansion_word(key@, N as nat, i as nat),
{
    let mut words: Vec<u32> = Vec::new();
    let mut x: usize = 0;
    while x < N
        invariant
            x <= N,
            words@.len() == x,
            forall|i: int| 0 <= i < x ==> words@[i] == key_expansion_word(key@, N as nat, i as nat),
        decreases N - x,
    {
        words.push(key[x]);
        x = x + 1;
    }
    while x < n_words
        invariant
            N == 4 || N == 6 || N == 8,
            n_words == 4 * (N + 7),
            N <= x <= n_words,
            words@.len() == x,
            forall|i: int| 0 <= i < x ==> words@[i] == key_expansion_word(key@, N as nat, i as nat),
        decreases n_words - x,
    {
        let prev = words[x - 1];
        let back = words[x - N];
        let w: u32;
        if x % N == 0 {
            assert(1 <= x / N < 11);
            w = sub_word(rot_word(prev)) ^ R_CON[x / N - 1] ^ back;
        } else if N == 8 && x % 8 == 4 {
            w = sub_word(prev) ^ back;
        } else {
            w = prev ^ back;
        }
        words.push(w);
        x = x + 1;
        proof {
            assert(words@[x - 1] == key_expansion_word(key@, N as nat, (x - 1) as nat));
        }
    }
    words
}

/// Groups a word sequence into consecutive four-word round keys.
fn group_round_keys(words: &Vec<u32>) -> (keys: Vec<AesRoundKey>)
    requires
        words@.len() % 4 == 0,
    ensures
        keys@.len() == words@.len() / 4,
        forall|j: int|
            0 <= j < keys@.len() ==> (#[trigger] keys@[j]).data@ == words@.subrange(
                4 * j,
                4 * j + 4,
            ),
{
    let mut keys: Vec<AesRoundKey> = Vec::new();
    let mut x: usize = 0;
    while x < words.len()
        invariant
            words@.len() % 4 == 0,
            x % 4 == 0,
            x <= words@.len(),
            keys@.len() == x / 4,
            forall|j: int|
                0 <= j < keys@.len() ==> (#[trigger] keys@[j]).data@ == words@.subrange(
                    4 * j,
                    4 * j + 4,
                ),
        decreases words@.len() - x,
    {
        assert(words@.len() - x >= 4);
        let data: [u32; 4] = [words[x], words[x + 1], words[x + 2], words[x + 3]];
        keys.push(AesRoundKey { data });
        x = x + 4;
        proof {
            assert(keys@[keys@.len() - 1].data@ =~= words@.subrange(
                4 * (keys@.len() - 1),
                4 * (keys@.len() - 1) + 4,
            ));
        }
    }
    keys
}

/// Represents an AES key.
/// This can be 128, 192, or 256 bits.
#[derive(Copy, Clone, Debug, PartialEq, Eq, PartialOrd, Ord)]
pub struct AesKey<const N: usize> {
    /// The key's size
    pub size: KeySize,
    /// The raw key data, most significant word first.
    pub data: [u32; N],
}

impl AesKeyOps<4, 11> for AesKey<4> {
    open spec fn key_words(&self) -> Seq<u32> {
        self.data@
    }

    fn sub_bytes(a: u32) -> u32 {
        sub_word(a)
    }

    fn rot_bytes(a: u32) -> u32 {
        rot_word(a)
    }

    fn derive_round_keys(&self) -> (keys: Vec<AesRoundKey>) {
        let words = expand_words(&self.data, 44);
        let keys = group_round_keys(&words);
        proof {
            assert forall|j: int| 0 <= j < 11 implies (#[trigger] keys@[j]).data@
                == round_key_words(self.data@, 4, j) by {
                assert(keys@[j].data@ =~= round_key_words(self.data@, 4, j));
            }
        }
        keys
    }
}

impl AesKeyOps<6, 13> for AesKey<6> {
    open spec fn key_words(&self) -> Seq<u32> {
        self.data@
    }

    fn sub_bytes(a: u32) -> u32 {
        sub_word(a)
    }

    fn rot_bytes(a: u32) -> u32 {
        rot_word(a)
    }

    fn derive_round_keys(&self) -> (keys: Vec<AesRoundKey>) {
        let words = expand_words(&self.data, 52);
        let keys = group_round_keys(&words);
        proof {
            assert forall|j: int| 0 <= j < 13 implies (#[trigger] keys@[j]).data@
                == round_key_words(self.data@, 6, j) by {
                assert(keys@[j].data@ =~= round_key_words(self.data@, 6, j));
            }
        }
        keys
    }
}

impl AesKeyOps<8, 15> for AesKey<8> {
    open spec fn key_words(&self) -> Seq<u32> {
        self.data@
    }

    fn sub_bytes(a: u32) -> u32 {
        sub_word(a)
    }

    fn rot_bytes(a: u32) -> u32 {
        rot_word(a)
    }

    fn derive_round_keys(&self) -> (keys: Vec<AesRoundKey>) {
        let words = expand_words(&self.data, 60);
        let keys = group_round_keys(&words);
        proof {
            assert forall|j: int| 0 <= j < 15 implies (#[trigger] keys@[j]).data@
                == round_key_words(self.data@, 8, j) by {
                assert(keys@[j].data@ =~= round_key_words(self.data@, 8, j));
            }
        }
        keys
    }
}

/// SubBytes: the S-box applied to every byte of the state.
pub open spec fn sub_bytes_spec(s: Seq<u32>) -> Seq<u32> {
    Seq::new(4, |c: int| sub_word_spec(s[c]))
}

/// ShiftRows: row `r` rotated left by `r`, so byte `r` of column `c` comes
/// from column `(c + r) % 4`.
pub open spec fn shift_rows_spec(s: Seq<u32>) -> Seq<u32> {
    Seq::new(
        4,
        |c: int|
            word_from_bytes(
                word_byte(s[c], 0),
                word_byte(s[(c + 1) % 4], 1),
                word_byte(s[(c + 2) % 4], 2),
                word_byte(s[(c + 3) % 4], 3),
            ),
    )
}

/// MixColumns on a single column: the product of the fixed AES matrix
/// [[2,3,1,1],[1,2,3,1],[1,1,2,3],[3,1,1,2]] with the column's four bytes,
/// over GF(2^8).
pub open spec fn mix_column_spec(w: u32) -> u32 {
    let b0 = word_byte(w, 0);
    let b1 = word_byte(w, 1);
    let b2 = word_byte(w, 2);
    let b3 = word_byte(w, 3);
    word_from_bytes(
        gf_mul_spec(b0, 2) ^ gf_mul_spec(b1, 3) ^ b2 ^ b3,
        b0 ^ gf_mul_spec(b1, 2) ^ gf_mul_spec(b2, 3) ^ b3,
        b0 ^ b1 ^ gf_mul_spec(b2, 2) ^ gf_mul_spec(b3, 3),
        gf_mul_spec(b0, 3) ^ b1 ^ b2 ^ gf_mul_spec(b3, 2),
    )
}

/// MixColumns on the whole state.
pub open spec fn mix_columns_spec(s: Seq<u32>) -> Seq<u32> {
    Seq::new(4, |c: int| mix_column_spec(s[c]))
}

/// AddRoundKey: the state XORed with a round key, word by word.
pub open spec fn add_round_key_spec(s: Seq<u32>, k: Seq<u32>) -> Seq<u32> {
    Seq::new(4, |c: int| s[c] ^ k[c])
}

/// Row `r` of the state: byte `r` of each column in column order.
pub open spec fn row_spec(s: Seq<u32>, r: int) -> Seq<u8> {
    Seq::new(4, |c: int| word_byte(s[c], r))
}

/// A word with byte `r` replaced by `b`.
pub open spec fn set_byte_spec(w: u32, r: int, b: u8) -> u32 {
    (w & !(0xffu32 << ((24 - 8 * r) as u32))) | ((b as u32) << ((24 - 8 * r) as u32))
}

/// The state with row `r` replaced by the given four bytes.
pub open spec fn set_row_spec(s: Seq<u32>, r: int, row: Seq<u8>) -> Seq<u32> {
    Seq::new(4, |c: int| set_byte_spec(s[c], r, row[c]))
}

/// The AES internal state: one 128-bit block as four big-endian columns,
/// serving for both plain and cipher text.
#[derive(Copy, Clone, Debug, PartialEq, Eq)]
pub struct AesState(pub [u32; 4]);

/// Implements the operations that can be applied to the state.
pub trait AesStateOps<const N: usize> {
    /// The state's columns, as big-endian words.
    spec fn words(&self) -> Seq<u32>;

    /// Gets a given row from the state.
    fn row(&self, index: usize) -> (r: [u8; N])
        requires
            index < 4,
        ensures
            r@ == row_spec(self.words(), index as int),
    ;

    /// Sets a given row in the state.
    fn set_row(&mut self, index: usize, row: [u8; N])
        requires
            index < 4,
        ensures
            final(self).words() == set_row_spec(old(self).words(), index as int, row@),
    ;

    /// Performs a lookup on the AES S-box with the given byte.
    fn sub_byte(a: u8) -> (r: u8)
        ensures
            r == sub_byte_spec(a),
    ;

    /// Performs an S-box lookup on the entire state.
    fn sub_bytes(&mut self)
        ensures
            final(self).words() == sub_bytes_spec(old(self).words()),
    ;

    /// Shifts each row of the state.
    fn shift_rows(&mut self)
        ensures
            final(self).words() == shift_rows_spec(old(self).words()),
    ;

    /// Mixes a given column.
    fn mix_column(a: u32) -> (r: u32)
        ensures
            r == mix_column_spec(a),
    ;

    /// Mixes each column of the state.
    fn mix_columns(&mut self)
        ensures
            final(self).words() == mix_columns_spec(old(self).words()),
    ;

    /// XORs a given round key into the state.
    fn add_round_key(&mut self, key: &AesRoundKey)
        ensures
            final(self).words() == add_round_key_spec(old(self).words(), key.data@),
    ;
}

impl AesStateOps<4> for AesState {
    open spec fn words(&self) -> Seq<u32> {
        self.0@
    }

    fn row(&self, index: usize) -> (r: [u8; 4]) {
        let sh: u32 = (24 - 8 * index) as u32;
        let r: [u8; 4] = [
            #[verifier::truncate] ((self.0[0] >> sh) as u8),
            #[verifier::truncate] ((self.0[1] >> sh) as u8),
            #[verifier::truncate] ((self.0[2] >> sh) as u8),
            #[verifier::truncate] ((self.0[3] >> sh) as u8),
        ];
        proof {
            assert(r@ =~= row_spec(self.0@, index as int));
        }
        r
    }

    fn set_row(&mut self, index: usize, row: [u8; 4]) {
        let sh: u32 = (24 - 8 * index) as u32;
        let mask: u32 = !(0xffu32 << sh);
        let mut c: usize = 0;
        while c < 4
            invariant
                c <= 4,
                sh == (24 - 8 * (index as int)) as u32,
                mask == !(0xffu32 << sh),
                index < 4,
                self.0@.len() == 4,
                forall|i: int|
                    0 <= i < c ==> self.0@[i] == set_byte_spec(
                        old(self).0@[i],
                        index as int,
                        row@[i],
                    ),
                forall|i: int| c <= i < 4 ==> self.0@[i] == old(self).0@[i],
            decreases 4 - c,
        {
            self.0[c] = (self.0[c] & mask) | ((row[c] as u32) << sh);
            c = c + 1;
        }
        proof {
            assert(self.0@ =~= set_row_spec(old(self).0@, index as int, row@));
        }
    }

    fn sub_byte(a: u8) -> (r: u8) {
        sbox_lookup(a)
    }

    fn sub_bytes(&mut self) {
        let mut c: usize = 0;
        while c < 4
            invariant
                c <= 4,
                self.0@.len() == 4,
                forall|i: int| 0 <= i < c ==> self.0@[i] == sub_word_spec(old(self).0@[i]),
                forall|i: int| c <= i < 4 ==> self.0@[i] == old(self).0@[i],
            decreases 4 - c,
        {
            self.0[c] = sub_word(self.0[c]);
            c = c + 1;
        }
        proof {
            assert(self.0@ =~= sub_bytes_spec(old(self).0@));
        }
    }

    fn shift_rows(&mut self) {
        let c0 = self.0[0];
        let c1 = self.0[1];
        let c2 = self.0[2];
        let c3 = self.0[3];
        self.0[0] = (c0 & 0xFF000000) | (c1 & 0x00FF0000) | (c2 & 0x0000FF00) | (c3 & 0x000000FF);
        self.0[1] = (c1 & 0xFF000000) | (c2 & 0x00FF0000) | (c3 & 0x0000FF00) | (c0 & 0x000000FF);
        self.0[2] = (c2 & 0xFF000000) | (c3 & 0x00FF0000) | (c0 & 0x0000FF00) | (c1 & 0x000000FF);
        self.0[3] = (c3 & 0xFF000000) | (c0 & 0x00FF0000) | (c1 & 0x0000FF00) | (c2 & 0x000000FF);
        proof {
            lemma_shift_rows_word(c0, c1, c2, c3);
            lemma_shift_rows_word(c1, c2, c3, c0);
            lemma_shift_rows_word(c2, c3, c0, c1);
            lemma_shift_rows_word(c3, c0, c1, c2);
            assert(self.0@ =~= shift_rows_spec(old(self).0@));
        }
    }

    fn mix_column(a: u32) -> (r: u32) {
        proof {
            assert(a >> 0 == a) by (bit_vector);
        }
        let b0 = #[verifier::truncate] ((a >> 24) as u8);
        let b1 = #[verifier::truncate] ((a >> 16) as u8);
        let b2 = #[verifier::truncate] ((a >> 8) as u8);
        let b3 = #[verifier::truncate] (a as u8);
        let t0 = GaloisField(b0).mul_byte(0x02).0 ^ GaloisField(b1).mul_byte(0x03).0 ^ b2 ^ b3;
        let t1 = b0 ^ GaloisField(b1).mul_byte(0x02).0 ^ GaloisField(b2).mul_byte(0x03).0 ^ b3;
        let t2 = b0 ^ b1 ^ GaloisField(b2).mul_byte(0x02).0 ^ GaloisField(b3).mul_byte(0x03).0;
        let t3 = GaloisField(b0).mul_byte(0x03).0 ^ b1 ^ b2 ^ GaloisField(b3).mul_byte(0x02).0;
        ((t0 as u32) << 24) | ((t1 as u32) << 16) | ((t2 as u32) << 8) | (t3 as u32)
    }

    fn mix_columns(&mut self) {
        let mut c: usize = 0;
        while c < 4
            invariant
                c <= 4,
                self.0@.len() == 4,
                forall|i: int| 0 <= i < c ==> self.0@[i] == mix_column_spec(old(self).0@[i]),
                forall|i: int| c <= i < 4 ==> self.0@[i] == old(self).0@[i],
            decreases 4 - c,
        {
            self.0[c] = Self::mix_column(self.0[c]);
            c = c + 1;
        }
        proof {
            assert(self.0@ =~= mix_columns_spec(old(self).0@));
        }
    }

    fn add_round_key(&mut self, key: &AesRoundKey) {
        let mut c: usize = 0;
        while c < 4
            invariant
                c <= 4,
                self.0@.len() == 4,
                forall|i: int| 0 <= i < c ==> self.0@[i] == old(self).0@[i] ^ key.data@[i],
                forall|i: int| c <= i < 4 ==> self.0@[i] == old(self).0@[i],
            decreases 4 - c,
        {
            self.0[c] = self.0[c] ^ key.data[c];
            c = c + 1;
        }
        proof {
            assert(self.0@ =~= add_round_key_spec(old(self).0@, key.data@));
        }
    }
}

proof fn lemma_shift_rows_word(c0: u32, c1: u32, c2: u32, c3: u32)
    ensures
        (c0 & 0xFF000000) | (c1 & 0x00FF0000) | (c2 & 0x0000FF00) | (c3 & 0x000000FF)
            == word_from_bytes(word_byte(c0, 0), word_byte(c1, 1), word_byte(c2, 2), word_byte(c3, 3)),
{
    assert((c0 & 0xFF000000) | (c1 & 0x00FF0000) | (c2 & 0x0000FF00) | (c3 & 0x000000FF)
        == ((((c0 >> 24) as u8) as u32) << 24) | ((((c1 >> 16) as u8) as u32) << 16) | ((((c2
        >> 8) as u8) as u32) << 8) | (((c3 >> 0) as u8) as u32)) by (bit_vector);
}

/// One middle round: SubBytes, ShiftRows, MixColumns, then AddRoundKey.
pub open spec fn round_spec(s: Seq<u32>, k: Seq<u32>) -> Seq<u32> {
    add_round_key_spec(mix_columns_spec(shift_rows_spec(sub_bytes_spec(s))), k)
}

/// The final round: like a middle round, but MixColumns is omitted.
pub open spec fn final_round_spec(s: Seq<u32>, k: Seq<u32>) -> Seq<u32> {
    add_round_key_spec(shift_rows_spec(sub_bytes_spec(s)), k)
}

/// The state after one middle round for each of the given round keys, in order.
pub open spec fn middle_rounds_spec(s: Seq<u32>, keys: Seq<Seq<u32>>) -> Seq<u32>
    decreases keys.len(),
{
    if keys.len() == 0 {
        s
    } else {
        middle_rounds_spec(round_spec(s, keys[0]), keys.drop_first())
    }
}

/// The whole round pipeline over a schedule of round keys: the initial
/// AddRoundKey with the first key, a middle round for each key in between,
/// and the final round with the last key.
pub open spec fn encrypt_block_spec(s: Seq<u32>, keys: Seq<Seq<u32>>) -> Seq<u32>
    recommends
        keys.len() >= 2,
{
    let n = keys.len() as int;
    final_round_spec(
        middle_rounds_spec(add_round_key_spec(s, keys[0]), keys.subrange(1, n - 1)),
        keys[n - 1],
    )
}

/// The full schedule of an `nk`-word key: its `nk + 7` round keys.
pub open spec fn key_schedule_spec(key: Seq<u32>, nk: nat) -> Seq<Seq<u32>> {
    Seq::new((nk + 7) as nat, |j: int| round_key_words(key, nk, j))
}

/// The ciphertext columns of one block under an `nk`-word key.
pub open spec fn encrypt_spec(s: Seq<u32>, key: Seq<u32>, nk: nat) -> Seq<u32> {
    encrypt_block_spec(s, key_schedule_spec(key, nk))
}

/// Appending one round key to the middle rounds runs one more round at the end.
proof fn lemma_middle_rounds_snoc(s: Seq<u32>, keys: Seq<Seq<u32>>, k: Seq<u32>)
    ensures
        middle_rounds_spec(s, keys.push(k)) == round_spec(middle_rounds_spec(s, keys), k),
    decreases keys.len(),
{
    let kk = keys.push(k);
    assert(kk.len() == keys.len() + 1);
    assert(middle_rounds_spec(s, kk) == middle_rounds_spec(round_spec(s, kk[0]), kk.drop_first()));
    if keys.len() == 0 {
        assert(kk[0] == k);
        assert(kk.drop_first() =~= Seq::<Seq<u32>>::empty());
        assert(middle_rounds_spec(round_spec(s, k), Seq::<Seq<u32>>::empty()) == round_spec(s, k));
        assert(middle_rounds_spec(s, keys) == s);
    } else {
        assert(kk[0] == keys[0]);
        assert(kk.drop_first() =~= keys.drop_first().push(k));
        lemma_middle_rounds_snoc(round_spec(s, keys[0]), keys.drop_first(), k);
        assert(middle_rounds_spec(s, keys) == middle_rounds_spec(round_spec(s, keys[0]), keys.drop_first()));
    }
}

/// The AES modes of operation.
/// Currently only ECB is supported.
#[allow(non_camel_case_types)]
#[derive(Copy, Clone, Debug)]
pub enum AesMode {
    /// ECB (Electronic Code Book)
    AES_ECB,
}

/// Handles the AES state.
/// This is responsible for encrypting given data one block at a time.
#[derive(Copy, Clone, Debug)]
pub struct Aes {
    /// The AES mode of operation
    pub mode: AesMode,
    /// The internal state
    pub state: AesState,
}

impl Aes {
    /// One middle round of the pipeline on the internal state.
    fn round(&mut self, round_key: &AesRoundKey)
        ensures
            final(self).state.0@ == round_spec(old(self).state.0@, round_key.data@),
            final(self).mode == old(self).mode,
    {
        self.state.sub_bytes();
        self.state.shift_rows();
        self.state.mix_columns();
        self.state.add_round_key(round_key);
    }

    /// The final round of the pipeline: MixColumns is omitted by design.
    fn final_round(&mut self, round_key: &AesRoundKey)
        ensures
            final(self).state.0@ == final_round_spec(old(self).state.0@, round_key.data@),
            final(self).mode == old(self).mode,
    {
        self.state.sub_bytes();
        self.state.shift_rows();
        self.state.add_round_key(round_key);
    }

    /// Loads raw data into the AES 128 bit state.
    pub fn load_state(&mut self, data: AesState)
        ensures
            final(self).state == data,
            final(self).mode == old(self).mode,
    {
        self.state = data;
    }

    /// Encrypts a block with a given 128-bit key: 10 rounds under its 11 round keys.
    pub fn encrypt_block_128(&mut self, key: &AesKey<4>)
        ensures
            final(self).state.0@ == encrypt_spec(old(self).state.0@, key.data@, 4),
            final(self).mode == old(self).mode,
    {
        let ghost s0 = self.state.0@;
        let ghost ks = key_schedule_spec(key.data@, 4);
        let ghost mid = ks.subrange(1, 10);

        // Derives the round keys
        let round_keys = key.derive_round_keys();

        // Adds the first round key
        self.state.add_round_key(&round_keys[0]);

        proof {
            assert(mid.take(0) =~= Seq::<Seq<u32>>::empty());
        }
        // Executes rounds
        let mut x: usize = 0;
        while x < 9
            invariant
                x <= 9,
                round_keys@.len() == 11,
                forall|j: int|
                    0 <= j < 11 ==> (#[trigger] round_keys@[j]).data@ == ks[j],
                ks == key_schedule_spec(key.data@, 4),
                mid == ks.subrange(1, 10),
                self.state.0@ == middle_rounds_spec(add_round_key_spec(s0, ks[0]), mid.take(x as int)),
                self.mode == old(self).mode,
            decreases 9 - x,
        {
            self.round(&round_keys[x + 1]);
            x = x + 1;
            proof {
                assert(mid.take(x as int) =~= mid.take(x - 1).push(mid[x - 1]));
                lemma_middle_rounds_snoc(add_round_key_spec(s0, ks[0]), mid.take(x - 1), mid[x - 1]);
            }
        }
        self.final_round(&round_keys[10]);
        proof {
            assert(mid.take(9) =~= mid);
        }
    }

    /// Encrypts a block with a given 192-bit key: 12 rounds under its 13 round keys.
    pub fn encrypt_block_192(&mut self, key: &AesKey<6>)
        ensures
            final(self).state.0@ == encrypt_spec(old(self).state.0@, key.data@, 6),
            final(self).mode == old(self).mode,
    {
        let ghost s0 = self.state.0@;
        let ghost ks = key_schedule_spec(key.data@, 6);
        let ghost mid = ks.subrange(1, 12);

        // Derives the round keys
        let round_keys = key.derive_round_keys();

        // Adds the first round key
        self.state.add_round_key(&round_keys[0]);

        proof {
            assert(mid.take(0) =~= Seq::<Seq<u32>>::empty());
        }
        // Executes rounds
        let mut x: usize = 0;
        while x < 11
            invariant
                x <= 11,
                round_keys@.len() == 13,
                forall|j: int|
                    0 <= j < 13 ==> (#[trigger] round_keys@[j]).data@ == ks[j],
                ks == key_schedule_spec(key.data@, 6),
                mid == ks.subrange(1, 12),
                self.state.0@ == middle_rounds_spec(add_round_key_spec(s0, ks[0]), mid.take(x as int)),
                self.mode == old(self).mode,
            decreases 11 - x,
        {
            self.round(&round_keys[x + 1]);
            x = x + 1;
            proof {
                assert(mid.take(x as int) =~= mid.take(x - 1).push(mid[x - 1]));
                lemma_middle_rounds_snoc(add_round_key_spec(s0, ks[0]), mid.take(x - 1), mid[x - 1]);
            }
        }
        self.final_round(&round_keys[12]);
        proof {
            assert(mid.take(11) =~= mid);
        }
    }

    /// Encrypts a block with a given 256-bit key: 14 rounds under its 15 round keys.
    pub fn encrypt_block_256(&mut self, key: &AesKey<8>)
        ensures
            final(self).state.0@ == encrypt_spec(old(self).state.0@, key.data@, 8),
            final(self).mode == old(self).mode,
    {
        let ghost s0 = self.state.0@;
        let ghost ks = key_schedule_spec(key.data@, 8);
        let ghost mid = ks.subrange(1, 14);

        // Derives the round keys
        let round_keys = key.derive_round_keys();

        // Adds the first round key
        self.state.add_round_key(&round_keys[0]);

        proof {
            assert(mid.take(0) =~= Seq::<Seq<u32>>::empty());
        }
        // Executes rounds
        let mut x: usize = 0;
        while x < 13
            invariant
                x <= 13,
                round_keys@.len() == 15,
                forall|j: int|
                    0 <= j < 15 ==> (#[trigger] round_keys@[j]).data@ == ks[j],
                ks == key_schedule_spec(key.data@, 8),
                mid == ks.subrange(1, 14),
                self.state.0@ == middle_rounds_spec(add_round_key_spec(s0, ks[0]), mid.take(x as int)),
                self.mode == old(self).mode,
            decreases 13 - x,
        {
            self.round(&round_keys[x + 1]);
            x = x + 1;
            proof {
                assert(mid.take(x as int) =~= mid.take(x - 1).push(mid[x - 1]));
                lemma_middle_rounds_snoc(add_round_key_spec(s0, ks[0]), mid.take(x - 1), mid[x - 1]);
            }
        }
        self.final_round(&round_keys[14]);
        proof {
            assert(mid.take(13) =~= mid);
        }
    }
}

/// The bytes of a word sequence, most significant byte of each word first.
pub open spec fn bytes_of_words(w: Seq<u32>) -> Seq<u8> {
    Seq::new(w.len() * 4, |i: int| word_byte(w[i / 4], i % 4))
}

/// The words packed from bytes, four big-endian bytes to a word.
pub open spec fn words_of_bytes(b: Seq<u8>) -> Seq<u32>
    recommends
        b.len() % 4 == 0,
{
    Seq::new((b.len() / 4) as nat, |j: int| word_from_bytes(b[4 * j], b[4 * j + 1], b[4 * j + 2], b[4 * j + 3]))
}

/// Each byte of a packed word reads back unchanged.
proof fn lemma_word_bytes_roundtrip(b0: u8, b1: u8, b2: u8, b3: u8)
    ensures
        word_byte(word_from_bytes(b0, b1, b2, b3), 0) == b0,
        word_byte(word_from_bytes(b0, b1, b2, b3), 1) == b1,
        word_byte(word_from_bytes(b0, b1, b2, b3), 2) == b2,
        word_byte(word_from_bytes(b0, b1, b2, b3), 3) == b3,
{
    assert(word_byte(word_from_bytes(b0, b1, b2, b3), 0) == b0) by (bit_vector);
    assert(word_byte(word_from_bytes(b0, b1, b2, b3), 1) == b1) by (bit_vector);
    assert(word_byte(word_from_bytes(b0, b1, b2, b3), 2) == b2) by (bit_vector);
    assert(word_byte(word_from_bytes(b0, b1, b2, b3), 3) == b3) by (bit_vector);
}

/// Loading a 16-byte block into a state and reading it back yields the
/// original bytes, for every 16-byte input.
pub proof fn lemma_state_bytes_roundtrip(b: Seq<u8>)
    requires
        b.len() == 16,
    ensures
        bytes_of_words(words_of_bytes(b)) == b,
{
    let w = words_of_bytes(b);
    assert forall|i: int| 0 <= i < 16 implies bytes_of_words(w)[i] == b[i] by {
        let j = i / 4;
        lemma_word_bytes_roundtrip(b[4 * j], b[4 * j + 1], b[4 * j + 2], b[4 * j + 3]);
        assert(4 * j + i % 4 == i);
    }
    assert(bytes_of_words(w) =~= b);
}

/// The schedule of an `nk`-word key holds exactly `nk + 7` round keys.
pub proof fn lemma_key_schedule_length(key: Seq<u32>, nk: nat)
    ensures
        key_schedule_spec(key, nk).len() == nk + 7,
{
}

/// Row 0 is unchanged by ShiftRows, for any state.
pub proof fn lemma_shift_rows_row0(s: Seq<u32>)
    requires
        s.len() == 4,
    ensures
        row_spec(shift_rows_spec(s), 0) == row_spec(s, 0),
{
    assert forall|c: int| 0 <= c < 4 implies row_spec(shift_rows_spec(s), 0)[c] == row_spec(s, 0)[c] by {
        lemma_word_bytes_roundtrip(
            word_byte(s[c], 0),
            word_byte(s[(c + 1) % 4], 1),
            word_byte(s[(c + 2) % 4], 2),
            word_byte(s[(c + 3) % 4], 3),
        );
    }
    assert(row_spec(shift_rows_spec(s), 0) =~= row_spec(s, 0));
}

/// Packs four bytes into one big-endian word.
fn pack_word(b0: u8, b1: u8, b2: u8, b3: u8) -> (r: u32)
    ensures
        r == word_from_bytes(b0, b1, b2, b3),
{
    ((b0 as u32) << 24) | ((b1 as u32) << 16) | ((b2 as u32) << 8) | (b3 as u32)
}

impl AesState {
    /// Builds a state from exactly 16 bytes of one block; any other length
    /// is rejected.
    pub fn from_bytes(bytes: &[u8]) -> (r: Option<AesState>)
        ensures
            r is Some <==> bytes@.len() == 16,
            r matches Some(st) ==> st.0@ == words_of_bytes(bytes@),
    {
        if bytes.len() != 16 {
            return None;
        }
        let words: [u32; 4] = [
            pack_word(bytes[0], bytes[1], bytes[2], bytes[3]),
            pack_word(bytes[4], bytes[5], bytes[6], bytes[7]),
            pack_word(bytes[8], bytes[9], bytes[10], bytes[11]),
            pack_word(bytes[12], bytes[13], bytes[14], bytes[15]),
        ];
        proof {
            assert(words@ =~= words_of_bytes(bytes@));
        }
        Some(AesState(words))
    }

    /// Reads the state back out as its 16 bytes, column by column.
    pub fn to_bytes(&self) -> (r: Vec<u8>)
        ensures
            r@ == bytes_of_words(self.0@),
    {
        let mut r: Vec<u8> = Vec::new();
        let mut c: usize = 0;
        while c < 4
            invariant
                c <= 4,
                r@.len() == 4 * c,
                forall|i: int| 0 <= i < 4 * c ==> r@[i] == word_byte(self.0@[i / 4], i % 4),
            decreases 4 - c,
        {
            let w = self.0[c];
            proof {
                assert(w >> 0 == w) by (bit_vector);
            }
            r.push(#[verifier::truncate] ((w >> 24) as u8));
            r.push(#[verifier::truncate] ((w >> 16) as u8));
            r.push(#[verifier::truncate] ((w >> 8) as u8));
            r.push(#[verifier::truncate] (w as u8));
            c = c + 1;
        }
        proof {
            assert(r@ =~= bytes_of_words(self.0@));
        }
        r
    }
}

impl AesKey<4> {
    /// Builds a 128-bit key from exactly 16 bytes of raw key material; any
    /// other length is rejected.
    pub fn from_bytes(bytes: &[u8]) -> (r: Option<AesKey<4>>)
        ensures
            r is Some <==> bytes@.len() == 16,
            r matches Some(k) ==> k.data@ == words_of_bytes(bytes@) && k.size == KeySize::AES_128,
    {
        if bytes.len() != 16 {
            return None;
        }
        let data: [u32; 4] = [
            pack_word(bytes[0], bytes[1], bytes[2], bytes[3]),
            pack_word(bytes[4], bytes[5], bytes[6], bytes[7]),
            pack_word(bytes[8], bytes[9], bytes[10], bytes[11]),
            pack_word(bytes[12], bytes[13], bytes[14], bytes[15]),
        ];
        proof {
            assert(data@ =~= words_of_bytes(bytes@));
        }
        Some(AesKey { size: KeySize::AES_128, data })
    }
}

impl AesKey<6> {
    /// Builds a 192-bit key from exactly 24 bytes of raw key material; any
    /// other length is rejected.
    pub fn from_bytes(bytes: &[u8]) -> (r: Option<AesKey<6>>)
        ensures
            r is Some <==> bytes@.len() == 24,
            r matches Some(k) ==> k.data@ == words_of_bytes(bytes@) && k.size == KeySize::AES_192,
    {
        if bytes.len() != 24 {
            return None;
        }
        let data: [u32; 6] = [
            pack_word(bytes[0], bytes[1], bytes[2], bytes[3]),
            pack_word(bytes[4], bytes[5], bytes[6], bytes[7]),
            pack_word(bytes[8], bytes[9], bytes[10], bytes[11]),
            pack_word(bytes[12], bytes[13], bytes[14], bytes[15]),
            pack_word(bytes[16], bytes[17], bytes[18], bytes[19]),
            pack_word(bytes[20], bytes[21], bytes[22], bytes[23]),
        ];
        proof {
            assert(data@ =~= words_of_bytes(bytes@));
        }
        Some(AesKey { size: KeySize::AES_192, data })
    }
}

impl AesKey<8> {
    /// Builds a 256-bit key from exactly 32 bytes of raw key material; any
    /// other length is rejected.
    pub fn from_bytes(bytes: &[u8]) -> (r: Option<AesKey<8>>)
        ensures
            r is Some <==> bytes@.len() == 32,
            r matches Some(k) ==> k.data@ == words_of_bytes(bytes@) && k.size == KeySize::AES_256,
    {
        if bytes.len() != 32 {
            return None;
        }
        let data: [u32; 8] = [
            pack_word(bytes[0], bytes[1], bytes[2], bytes[3]),
            pack_word(bytes[4], bytes[5], bytes[6], bytes[7]),
            pack_word(bytes[8], bytes[9], bytes[10], bytes[11]),
            pack_word(bytes[12], bytes[13], bytes[14], bytes[15]),
            pack_word(bytes[16], bytes[17], bytes[18], bytes[19]),
            pack_word(bytes[20], bytes[21], bytes[22], bytes[23]),
            pack_word(bytes[24], bytes[25], bytes[26], bytes[27]),
            pack_word(bytes[28], bytes[29], bytes[30], bytes[31]),
        ];
        proof {
            assert(data@ =~= words_of_bytes(bytes@));
        }
        Some(AesKey { size: KeySize::AES_256, data })
    }
}

impl Default for AesMode {
    /// The default mode is ECB, the only one supported.
    fn default() -> (r: Self)
        ensures
            r == AesMode::AES_ECB,
    {
        AesMode::AES_ECB
    }
}

impl Default for AesRoundKey {
    /// An all-zero round key.
    fn default() -> (r: Self)
        ensures
            r.data@ == seq![0u32, 0u32, 0u32, 0u32],
    {
        let r = AesRoundKey { data: [0, 0, 0, 0] };
        proof {
            assert(r.data@ =~= seq![0u32, 0u32, 0u32, 0u32]);
        }
        r
    }
}

impl Default for AesState {
    /// An all-zero state.
    fn default() -> (r: Self)
        ensures
            r.0@ == seq![0u32, 0u32, 0u32, 0u32],
    {
        let r = AesState([0, 0, 0, 0]);
        proof {
            assert(r.0@ =~= seq![0u32, 0u32, 0u32, 0u32]);
        }
        r
    }
}

impl Default for AesKey<4> {
    /// An all-zero 128-bit key.
    fn default() -> (r: Self)
        ensures
            r.size == KeySize::AES_128,
            r.data@ == seq![0u32, 0u32, 0u32, 0u32],
    {
        let r = AesKey { size: KeySize::AES_128, data: [0, 0, 0, 0] };
        proof {
            assert(r.data@ =~= seq![0u32, 0u32, 0u32, 0u32]);
        }
        r
    }
}

impl Default for AesKey<6> {
    /// An all-zero 192-bit key.
    fn default() -> (r: Self)
        ensures
            r.size == KeySize::AES_192,
            r.data@ == seq![0u32, 0u32, 0u32, 0u32, 0u32, 0u32],
    {
        let r = AesKey { size: KeySize::AES_192, data: [0, 0, 0, 0, 0, 0] };
        proof {
            assert(r.data@ =~= seq![0u32, 0u32, 0u32, 0u32, 0u32, 0u32]);
        }
        r
    }
}

impl Default for AesKey<8> {
    /// An all-zero 256-bit key.
    fn default() -> (r: Self)
        ensures
            r.size == KeySize::AES_256,
            r.data@ == seq![0u32, 0u32, 0u32, 0u32, 0u32, 0u32, 0u32, 0u32],
    {
        let r = AesKey { size: KeySize::AES_256, data: [0, 0, 0, 0, 0, 0, 0, 0] };
        proof {
            assert(r.data@ =~= seq![0u32, 0u32, 0u32, 0u32, 0u32, 0u32, 0u32, 0u32]);
        }
        r
    }
}

impl Default for Aes {
    /// An engine in ECB mode over an all-zero state.
    fn default() -> (r: Self)
        ensures
            r.mode == AesMode::AES_ECB,
            r.state.0@ == seq![0u32, 0u32, 0u32, 0u32],
    {
        let r = Aes { mode: AesMode::AES_ECB, state: AesState([0, 0, 0, 0]) };
        proof {
            assert(r.state.0@ =~= seq![0u32, 0u32, 0u32, 0u32]);
        }
        r
    }
}

/// One step of the round pipeline, named so that the shape of an encryption
/// can be stated and its steps counted.
pub enum PipelineStep {
    /// SubBytes over the whole state
    SubBytes,
    /// ShiftRows over the whole state
    ShiftRows,
    /// MixColumns over the whole state
    MixColumns,
    /// AddRoundKey with the round key at the given schedule index
    AddRoundKey(int),
}

/// The state after one named pipeline step.
pub open spec fn apply_pipeline_step(s: Seq<u32>, keys: Seq<Seq<u32>>, step: PipelineStep) -> Seq<
    u32,
> {
    match step {
        PipelineStep::SubBytes => sub_bytes_spec(s),
        PipelineStep::ShiftRows => shift_rows_spec(s),
        PipelineStep::MixColumns => mix_columns_spec(s),
        PipelineStep::AddRoundKey(j) => add_round_key_spec(s, keys[j]),
    }
}

/// The state after a sequence of pipeline steps, run in order.
pub open spec fn apply_pipeline(s: Seq<u32>, keys: Seq<Seq<u32>>, steps: Seq<PipelineStep>) -> Seq<
    u32,
>
    decreases steps.len(),
{
    if steps.len() == 0 {
        s
    } else {
        apply_pipeline(apply_pipeline_step(s, keys, steps[0]), keys, steps.drop_first())
    }
}

/// The four steps of middle round `j`.
pub open spec fn round_steps(j: int) -> Seq<PipelineStep> {
    seq![
        PipelineStep::SubBytes,
        PipelineStep::ShiftRows,
        PipelineStep::MixColumns,
        PipelineStep::AddRoundKey(j),
    ]
}

/// The steps of middle rounds 1 through `n`, in order.
pub open spec fn middle_steps(n: int) -> Seq<PipelineStep>
    decreases n,
{
    if n <= 0 {
        Seq::empty()
    } else {
        middle_steps(n - 1) + round_steps(n)
    }
}

/// The full step trace of an `nr`-round encryption: the initial AddRoundKey,
/// the middle rounds, and the final round without MixColumns.
pub open spec fn encrypt_steps(nr: int) -> Seq<PipelineStep> {
    seq![PipelineStep::AddRoundKey(0)] + middle_steps(nr - 1) + seq![
        PipelineStep::SubBytes,
        PipelineStep::ShiftRows,
        PipelineStep::AddRoundKey(nr),
    ]
}

/// How many steps of a trace are AddRoundKey.
pub open spec fn add_round_key_count(steps: Seq<PipelineStep>) -> nat
    decreases steps.len(),
{
    if steps.len() == 0 {
        0
    } else {
        (if steps[0] is AddRoundKey {
            1nat
        } else {
            0nat
        }) + add_round_key_count(steps.drop_first())
    }
}

/// How many steps of a trace are MixColumns.
pub open spec fn mix_columns_count(steps: Seq<PipelineStep>) -> nat
    decreases steps.len(),
{
    if steps.len() == 0 {
        0
    } else {
        (if steps[0] is MixColumns {
            1nat
        } else {
            0nat
        }) + mix_columns_count(steps.drop_first())
    }
}

proof fn lemma_apply_pipeline_concat(s: Seq<u32>, keys: Seq<Seq<u32>>, a: Seq<PipelineStep>, b: Seq<PipelineStep>)
    ensures
        apply_pipeline(s, keys, a + b) == apply_pipeline(apply_pipeline(s, keys, a), keys, b),
    decreases a.len(),
{
    if a.len() == 0 {
        assert(a + b =~= b);
        assert(apply_pipeline(s, keys, a) == s);
    } else {
        assert((a + b).len() == a.len() + b.len());
        assert((a + b)[0] == a[0]);
        assert((a + b).drop_first() =~= a.drop_first() + b);
        lemma_apply_pipeline_concat(apply_pipeline_step(s, keys, a[0]), keys, a.drop_first(), b);
    }
}

proof fn lemma_step_counts_concat(a: Seq<PipelineStep>, b: Seq<PipelineStep>)
    ensures
        add_round_key_count(a + b) == add_round_key_count(a) + add_round_key_count(b),
        mix_columns_count(a + b) == mix_columns_count(a) + mix_columns_count(b),
    decreases a.len(),
{
    if a.len() == 0 {
        assert(a + b =~= b);
        assert(add_round_key_count(a) == 0);
        assert(mix_columns_count(a) == 0);
    } else {
        assert((a + b).len() == a.len() + b.len());
        assert((a + b)[0] == a[0]);
        assert((a + b).drop_first() =~= a.drop_first() + b);
        lemma_step_counts_concat(a.drop_first(), b);
    }
}

proof fn lemma_round_steps_facts(s: Seq<u32>, keys: Seq<Seq<u32>>, j: int)
    ensures
        apply_pipeline(s, keys, round_steps(j)) == round_spec(s, keys[j]),
        add_round_key_count(round_steps(j)) == 1,
        mix_columns_count(round_steps(j)) == 1,
{
    let st = round_steps(j);
    let st1 = st.drop_first();
    let st2 = st1.drop_first();
    let st3 = st2.drop_first();
    let st4 = st3.drop_first();
    assert(st.len() == 4 && st[0] == PipelineStep::SubBytes && st[1] == PipelineStep::ShiftRows
        && st[2] == PipelineStep::MixColumns && st[3] == PipelineStep::AddRoundKey(j));
    assert(st1.len() == 3 && st1[0] == PipelineStep::ShiftRows && st1[1]
        == PipelineStep::MixColumns && st1[2] == PipelineStep::AddRoundKey(j));
    assert(st2.len() == 2 && st2[0] == PipelineStep::MixColumns && st2[1]
        == PipelineStep::AddRoundKey(j));
    assert(st3.len() == 1 && st3[0] == PipelineStep::AddRoundKey(j));
    assert(st4.len() == 0);
    let s1 = sub_bytes_spec(s);
    let s2 = shift_rows_spec(s1);
    let s3 = mix_columns_spec(s2);
    let s4 = add_round_key_spec(s3, keys[j]);
    assert(apply_pipeline(s, keys, st) == apply_pipeline(s1, keys, st1));
    assert(apply_pipeline(s1, keys, st1) == apply_pipeline(s2, keys, st2));
    assert(apply_pipeline(s2, keys, st2) == apply_pipeline(s3, keys, st3));
    assert(apply_pipeline(s3, keys, st3) == apply_pipeline(s4, keys, st4));
    assert(apply_pipeline(s4, keys, st4) == s4);
    assert(add_round_key_count(st4) == 0);
    assert(add_round_key_count(st3) == 1);
    assert(add_round_key_count(st2) == 1);
    assert(add_round_key_count(st1) == 1);
    assert(add_round_key_count(st) == 1);
    assert(mix_columns_count(st4) == 0);
    assert(mix_columns_count(st3) == 0);
    assert(mix_columns_count(st2) == 1);
    assert(mix_columns_count(st1) == 1);
    assert(mix_columns_count(st) == 1);
}

proof fn lemma_middle_steps_facts(s: Seq<u32>, keys: Seq<Seq<u32>>, n: int)
    requires
        0 <= n,
        n + 1 <= keys.len(),
    ensures
        apply_pipeline(s, keys, middle_steps(n)) == middle_rounds_spec(s, keys.subrange(1, n + 1)),
        add_round_key_count(middle_steps(n)) == n,
        mix_columns_count(middle_steps(n)) == n,
    decreases n,
{
    if n == 0 {
        assert(middle_steps(0) == Seq::<PipelineStep>::empty());
        assert(keys.subrange(1, 1) =~= Seq::<Seq<u32>>::empty());
        assert(middle_rounds_spec(s, Seq::<Seq<u32>>::empty()) == s);
        assert(apply_pipeline(s, keys, Seq::<PipelineStep>::empty()) == s);
        assert(add_round_key_count(Seq::<PipelineStep>::empty()) == 0);
        assert(mix_columns_count(Seq::<PipelineStep>::empty()) == 0);
    } else {
        lemma_middle_steps_facts(s, keys, n - 1);
        lemma_apply_pipeline_concat(s, keys, middle_steps(n - 1), round_steps(n));
        lemma_round_steps_facts(apply_pipeline(s, keys, middle_steps(n - 1)), keys, n);
        lemma_step_counts_concat(middle_steps(n - 1), round_steps(n));
        assert(keys.subrange(1, n + 1) =~= keys.subrange(1, n).push(keys[n]));
        lemma_middle_rounds_snoc(s, keys.subrange(1, n), keys[n]);
    }
}

/// Per encryption the pipeline performs one AddRoundKey for each of the
/// schedule's `nr + 1` round keys — the initial key addition, one per middle
/// round, one in the final round — while MixColumns runs in the middle rounds
/// only, `nr - 1` times: the cipher equals its step trace, and the trace has
/// exactly those counts.
pub proof fn lemma_round_count_invariant(s: Seq<u32>, keys: Seq<Seq<u32>>, nr: int)
    requires
        1 <= nr,
        keys.len() == nr + 1,
    ensures
        encrypt_block_spec(s, keys) == apply_pipeline(s, keys, encrypt_steps(nr)),
        add_round_key_count(encrypt_steps(nr)) == keys.len(),
        mix_columns_count(encrypt_steps(nr)) == nr - 1,
{
    let pre = seq![PipelineStep::AddRoundKey(0)];
    let post = seq![PipelineStep::SubBytes, PipelineStep::ShiftRows, PipelineStep::AddRoundKey(nr)];
    let mid = middle_steps(nr - 1);
    assert(encrypt_steps(nr) == pre + mid + post);

    // The trace computes the cipher.
    lemma_apply_pipeline_concat(s, keys, pre + mid, post);
    lemma_apply_pipeline_concat(s, keys, pre, mid);
    let pre1 = pre.drop_first();
    assert(pre.len() == 1 && pre[0] == PipelineStep::AddRoundKey(0) && pre1.len() == 0);
    let a0 = add_round_key_spec(s, keys[0]);
    assert(apply_pipeline(s, keys, pre) == apply_pipeline(a0, keys, pre1));
    assert(apply_pipeline(a0, keys, pre1) == a0);
    lemma_middle_steps_facts(a0, keys, nr - 1);
    let m = middle_rounds_spec(a0, keys.subrange(1, nr));
    let post1 = post.drop_first();
    let post2 = post1.drop_first();
    let post3 = post2.drop_first();
    assert(post.len() == 3 && post[0] == PipelineStep::SubBytes && post[1]
        == PipelineStep::ShiftRows && post[2] == PipelineStep::AddRoundKey(nr));
    assert(post1.len() == 2 && post1[0] == PipelineStep::ShiftRows && post1[1]
        == PipelineStep::AddRoundKey(nr));
    assert(post2.len() == 1 && post2[0] == PipelineStep::AddRoundKey(nr));
    assert(post3.len() == 0);
    let m1 = sub_bytes_spec(m);
    let m2 = shift_rows_spec(m1);
    let m3 = add_round_key_spec(m2, keys[nr]);
    assert(apply_pipeline(m, keys, post) == apply_pipeline(m1, keys, post1));
    assert(apply_pipeline(m1, keys, post1) == apply_pipeline(m2, keys, post2));
    assert(apply_pipeline(m2, keys, post2) == apply_pipeline(m3, keys, post3));
    assert(apply_pipeline(m3, keys, post3) == m3);
    assert(m3 == final_round_spec(m, keys[nr]));

    // The counts.
    lemma_step_counts_concat(pre + mid, post);
    lemma_step_counts_concat(pre, mid);
    assert(add_round_key_count(pre1) == 0 && mix_columns_count(pre1) == 0);
    assert(add_round_key_count(pre) == 1 && mix_columns_count(pre) == 0);
    assert(add_round_key_count(post3) == 0 && mix_columns_count(post3) == 0);
    assert(add_round_key_count(post2) == 1 && mix_columns_count(post2) == 0);
    assert(add_round_key_count(post1) == 1 && mix_columns_count(post1) == 0);
    assert(add_round_key_count(post) == 1 && mix_columns_count(post) == 0);
}

} // verus!
