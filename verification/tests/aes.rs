use aes::aes::Aes;
use aes::aes::AesKey;
use aes::aes::AesKeyOps;
use aes::aes::AesRoundKey;
use aes::aes::AesState;
use aes::aes::AesStateOps;
use aes::aes::KeySize;

#[test]
fn key_128_rot_bytes() {
    assert_eq!(AesKey::<4>::rot_bytes(0x01020304), 0x02030401);
}

#[test]
fn key_192_rot_bytes() {
    assert_eq!(AesKey::<6>::rot_bytes(0x01020304), 0x02030401);
}

#[test]
fn key_256_rot_bytes() {
    assert_eq!(AesKey::<8>::rot_bytes(0x01020304), 0x02030401);
}

#[test]
fn key_128_sub_bytes() {
    assert_eq!(AesKey::<4>::sub_bytes(0x01200340), 0x7CB77B09);
}

#[test]
fn key_192_sub_bytes() {
    assert_eq!(AesKey::<6>::sub_bytes(0x01200340), 0x7CB77B09);
}

#[test]
fn key_256_sub_bytes() {
    assert_eq!(AesKey::<8>::sub_bytes(0x01200340), 0x7CB77B09);
}

#[test]
fn key_128_derive_round_keys() {
    let key = AesKey {
        size: KeySize::AES_128,
        data: [0x0F1571C9, 0x47D9E859, 0x0CB7ADD6, 0xAF7F6798],
    };

    let result = AesRoundKey {
        data: [0xB48EF352, 0xBA98134E, 0x7F4D5920, 0x86261876],
    };

    let round_keys = key.derive_round_keys();

    assert_eq!(*round_keys.last().unwrap(), result);
}

#[test]
fn key_192_derive_round_keys() {
    let key = AesKey {
        size: KeySize::AES_192,
        data: [
            0x8E73B0F7, 0xDA0E6452, 0xc810F32B, 0x809079E5, 0x62F8EAD2, 0x522C6b7B,
        ],
    };

    let result = AesRoundKey {
        data: [0xE98BA06F, 0x448C773C, 0x8ECC7204, 0x1002202],
    };

    let round_keys = key.derive_round_keys();

    assert_eq!(*round_keys.last().unwrap(), result);
}

#[test]
fn key_256_derive_round_keys() {
    let key = AesKey {
        size: KeySize::AES_256,
        data: [
            0x603deb10, 0x15ca71be, 0x2b73aef0, 0x857d7781, 0x1f352c07, 0x3b6108d7, 0x2d9810a3,
            0x0914dff4,
        ],
    };

    let result = AesRoundKey {
        data: [0xfe4890d1, 0xe6188d0b, 0x46df344, 0x706c631e],
    };

    let round_keys = key.derive_round_keys();

    assert_eq!(*round_keys.last().unwrap(), result);
}

#[test]
fn state_128_row() {
    let state = AesState([0x01020304, 0x05060708, 0x090A0B0C, 0x0D0E0F00]);

    assert_eq!(state.row(1), [0x02, 0x06, 0x0A, 0x0E]);
    assert_eq!(state.row(3), [0x04, 0x08, 0x0C, 0x00]);
}

#[test]
fn state_128_set_row() {
    let mut state = AesState([0x01020304, 0x05060708, 0x090A0B0C, 0x0D0E0F00]);

    state.set_row(1, [0x10, 0x20, 0x30, 0x40]);
    state.set_row(3, [0x00, 0x00, 0x00, 0x00]);

    assert_eq!(state.row(1), [0x10, 0x20, 0x30, 0x40]);
    assert_eq!(state.row(3), [0x00, 0x00, 0x00, 0x00]);
}

#[test]
fn state_128_sub_byte() {
    assert_eq!(AesState::sub_byte(0xFF), 0x16);
    assert_eq!(AesState::sub_byte(0x00), 0x63);
    assert_eq!(AesState::sub_byte(0xE2), 0x98);
    assert_eq!(AesState::sub_byte(0x7B), 0x21);
}

#[test]
fn state_128_sub_bytes() {
    let mut state = AesState([0x01020304, 0x05060708, 0x090A0B0C, 0x0D0E0F00]);
    let result = AesState([0x7c777bf2, 0x6b6fc530, 0x01672bfe, 0xd7ab7663]);

    state.sub_bytes();
    assert_eq!(state, result);
}

#[test]
fn state_128_shift_rows() {
    let mut state = AesState([0xD42711AE, 0xE0BF98F1, 0xB8B45DE5, 0x1E415230]);
    let result = AesState([0xD4BF5D30, 0xE0B452AE, 0xB84111F1, 0x1E2798E5]);

    state.shift_rows();
    assert_eq!(state, result);
}

#[test]
fn state_128_mix_column() {
    assert_eq!(AesState::mix_column(0xDB135345), 0x8E4DA1BC);
    assert_eq!(AesState::mix_column(0xF20A225C), 0x9FDC589D);
    assert_eq!(AesState::mix_column(0x2D26314C), 0x4D7EBDF8);
}

#[test]
fn state_128_mix_columns() {
    let mut state = AesState([0xDB135345, 0xF20A225C, 0x2D26314C, 0xC6C6C6C6]);
    let result = AesState([0x8E4DA1BC, 0x9FDC589D, 0x4D7EBDF8, 0xC6C6C6C6]);

    state.mix_columns();
    assert_eq!(state, result);
}

#[test]
fn state_128_add_round_key() {
    let mut state = AesState([0xB9945775, 0xE48E1651, 0x47209A3F, 0xC5D6F53B]);

    let round_key = AesRoundKey {
        data: [0xDC9B9738, 0x9049FE81, 0x37DF7215, 0xB0E93FA7],
    };

    let result = AesState([0x650FC04D, 0x74C7E8D0, 0x70FFE82A, 0x753FCA9C]);

    state.add_round_key(&round_key);
    assert_eq!(state, result);
}

#[test]
fn aes_encrypt_block_128() {
    let key = AesKey::<4> {
        size: KeySize::AES_128,
        data: [0x2b7E1516, 0x28AED2A6, 0xABF71588, 0x09CF4F3C],
    };

    let result = AesState([0x3925841D, 0x2DC09FB, 0xDC118597, 0x196A0B32]);

    let mut aes = Aes::default();
    aes.load_state(AesState([0x3243F6A8, 0x885A308D, 0x313198A2, 0xE0370734]));
    aes.encrypt_block_128(&key);

    assert_eq!(aes.state, result);
}

#[test]
fn aes_encrypt_block_192() {
    let key = AesKey::<6> {
        size: KeySize::AES_192,
        data: [
            0x00010203, 0x04050607, 0x08090A0B, 0x0C0D0E0F, 0x10111213, 0x14151617,
        ],
    };

    let result = AesState([0xDDA97CA4, 0x864CDFE0, 0x6EAF70A0, 0xEC0D7191]);

    let mut aes = Aes::default();
    aes.load_state(AesState([0x00112233, 0x44556677, 0x8899AABB, 0xCCDDEEFF]));
    aes.encrypt_block_192(&key);

    assert_eq!(aes.state, result);
}

#[test]
fn aes_encrypt_block_256() {
    let key = AesKey::<8> {
        size: KeySize::AES_256,
        data: [
            0x00010203, 0x04050607, 0x08090A0B, 0x0C0D0E0F, 0x10111213, 0x14151617, 0x18191A1B,
            0x1C1D1E1F,
        ],
    };

    let result = AesState([0x8EA2b7CA, 0x516745BF, 0xEAFC4990, 0x4B496089]);

    let mut aes = Aes::default();
    aes.load_state(AesState([0x00112233, 0x44556677, 0x8899AABB, 0xCCDDEEFF]));
    aes.encrypt_block_256(&key);

    assert_eq!(aes.state, result);
}
