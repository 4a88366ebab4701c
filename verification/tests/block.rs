use aes::aes::Aes;
use aes::aes::AesKey;
use aes::aes::AesKeyOps;
use aes::aes::AesMode;
use aes::aes::AesState;
use aes::aes::AesStateOps;
use aes::aes::KeySize;

fn range_bytes(n: usize) -> Vec<u8> {
    (0..n).map(|i| i as u8).collect()
}

#[test]
fn fips_vector_128() {
    let plaintext: Vec<u8> = vec![
        0x00, 0x11, 0x22, 0x33, 0x44, 0x55, 0x66, 0x77, 0x88, 0x99, 0xaa, 0xbb, 0xcc, 0xdd, 0xee,
        0xff,
    ];
    let ciphertext: Vec<u8> = vec![
        0x69, 0xc4, 0xe0, 0xd8, 0x6a, 0x7b, 0x04, 0x30, 0xd8, 0xcd, 0xb7, 0x80, 0x70, 0xb4, 0xc5,
        0x5a,
    ];
    let key = AesKey::<4>::from_bytes(&range_bytes(16)).unwrap();
    let state = AesState::from_bytes(&plaintext).unwrap();
    let mut engine = Aes::default();
    engine.load_state(state);
    engine.encrypt_block_128(&key);
    assert_eq!(engine.state.to_bytes(), ciphertext);
}

#[test]
fn fips_vector_192() {
    let plaintext: Vec<u8> = vec![
        0x00, 0x11, 0x22, 0x33, 0x44, 0x55, 0x66, 0x77, 0x88, 0x99, 0xaa, 0xbb, 0xcc, 0xdd, 0xee,
        0xff,
    ];
    let ciphertext: Vec<u8> = vec![
        0xdd, 0xa9, 0x7c, 0xa4, 0x86, 0x4c, 0xdf, 0xe0, 0x6e, 0xaf, 0x70, 0xa0, 0xec, 0x0d, 0x71,
        0x91,
    ];
    let key = AesKey::<6>::from_bytes(&range_bytes(24)).unwrap();
    let state = AesState::from_bytes(&plaintext).unwrap();
    let mut engine = Aes::default();
    engine.load_state(state);
    engine.encrypt_block_192(&key);
    assert_eq!(engine.state.to_bytes(), ciphertext);
}

#[test]
fn fips_vector_256() {
    let plaintext: Vec<u8> = vec![
        0x00, 0x11, 0x22, 0x33, 0x44, 0x55, 0x66, 0x77, 0x88, 0x99, 0xaa, 0xbb, 0xcc, 0xdd, 0xee,
        0xff,
    ];
    let ciphertext: Vec<u8> = vec![
        0x8e, 0xa2, 0xb7, 0xca, 0x51, 0x67, 0x45, 0xbf, 0xea, 0xfc, 0x49, 0x90, 0x4b, 0x49, 0x60,
        0x89,
    ];
    let key = AesKey::<8>::from_bytes(&range_bytes(32)).unwrap();
    let state = AesState::from_bytes(&plaintext).unwrap();
    let mut engine = Aes::default();
    engine.load_state(state);
    engine.encrypt_block_256(&key);
    assert_eq!(engine.state.to_bytes(), ciphertext);
}

#[test]
fn schedule_lengths() {
    let key128 = AesKey::<4>::default();
    let key192 = AesKey::<6>::default();
    let key256 = AesKey::<8>::default();
    assert_eq!(key128.derive_round_keys().len(), 11);
    assert_eq!(key192.derive_round_keys().len(), 13);
    assert_eq!(key256.derive_round_keys().len(), 15);
}

#[test]
fn shift_rows_keeps_row_0() {
    let mut state = AesState([0xD42711AE, 0xE0BF98F1, 0xB8B45DE5, 0x1E415230]);
    let before = state.row(0);
    state.shift_rows();
    assert_eq!(state.row(0), before);
}

#[test]
fn state_bytes_round_trip() {
    let bytes = range_bytes(16);
    let state = AesState::from_bytes(&bytes).unwrap();
    assert_eq!(state.to_bytes(), bytes);

    let block: Vec<u8> = vec![
        0xd4, 0x27, 0x11, 0xae, 0xe0, 0xbf, 0x98, 0xf1, 0xb8, 0xb4, 0x5d, 0xe5, 0x1e, 0x41, 0x52,
        0x30,
    ];
    let state = AesState::from_bytes(&block).unwrap();
    assert_eq!(state.to_bytes(), block);
    assert_eq!(
        state,
        AesState([0xD42711AE, 0xE0BF98F1, 0xB8B45DE5, 0x1E415230])
    );
}

#[test]
fn state_from_bytes_rejects_wrong_length() {
    assert!(AesState::from_bytes(&range_bytes(15)).is_none());
    assert!(AesState::from_bytes(&range_bytes(17)).is_none());
    assert!(AesState::from_bytes(&range_bytes(0)).is_none());
}

#[test]
fn key_from_bytes_rejects_wrong_length() {
    assert!(AesKey::<4>::from_bytes(&range_bytes(15)).is_none());
    assert!(AesKey::<4>::from_bytes(&range_bytes(24)).is_none());
    assert!(AesKey::<6>::from_bytes(&range_bytes(16)).is_none());
    assert!(AesKey::<6>::from_bytes(&range_bytes(25)).is_none());
    assert!(AesKey::<8>::from_bytes(&range_bytes(24)).is_none());
    assert!(AesKey::<8>::from_bytes(&range_bytes(33)).is_none());
}

#[test]
fn key_from_bytes_packs_big_endian() {
    let key = AesKey::<4>::from_bytes(&range_bytes(16)).unwrap();
    assert_eq!(key.size, KeySize::AES_128);
    assert_eq!(key.data, [0x00010203, 0x04050607, 0x08090A0B, 0x0C0D0E0F]);
}

#[test]
fn pipeline_round_counts() {
    // Rebuild an encryption from the public state operations: one initial
    // AddRoundKey, nine middle rounds, and a final round without MixColumns,
    // so AddRoundKey runs once per round key (11 times) and MixColumns 9 times.
    let key = AesKey::<4> {
        size: KeySize::AES_128,
        data: [0x2b7E1516, 0x28AED2A6, 0xABF71588, 0x09CF4F3C],
    };
    let round_keys = key.derive_round_keys();
    assert_eq!(round_keys.len(), 11);

    let mut state = AesState([0x3243F6A8, 0x885A308D, 0x313198A2, 0xE0370734]);
    let mut add_round_key_runs = 0;
    let mut mix_columns_runs = 0;
    state.add_round_key(&round_keys[0]);
    add_round_key_runs += 1;
    for x in 1..10 {
        state.sub_bytes();
        state.shift_rows();
        state.mix_columns();
        mix_columns_runs += 1;
        state.add_round_key(&round_keys[x]);
        add_round_key_runs += 1;
    }
    state.sub_bytes();
    state.shift_rows();
    state.add_round_key(&round_keys[10]);
    add_round_key_runs += 1;

    assert_eq!(add_round_key_runs, round_keys.len());
    assert_eq!(mix_columns_runs, 9);

    let mut engine = Aes::default();
    engine.load_state(AesState([0x3243F6A8, 0x885A308D, 0x313198A2, 0xE0370734]));
    engine.encrypt_block_128(&key);
    assert_eq!(engine.state, state);
}

#[test]
fn default_values() {
    let engine = Aes::default();
    assert!(matches!(engine.mode, AesMode::AES_ECB));
    assert_eq!(engine.state, AesState([0, 0, 0, 0]));
    assert_eq!(AesKey::<4>::default().size, KeySize::AES_128);
    assert_eq!(AesKey::<6>::default().size, KeySize::AES_192);
    assert_eq!(AesKey::<8>::default().size, KeySize::AES_256);
    assert_eq!(AesKey::<8>::default().data, [0u32; 8]);
}
