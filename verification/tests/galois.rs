use aes::galois::GaloisField;

#[test]
fn add() {
    assert_eq!(
        GaloisField::<u8>(5).add(GaloisField::<u8>(7)),
        GaloisField::<u8>(2)
    );
    assert_eq!(GaloisField::<u8>(5).add_byte(7), GaloisField::<u8>(2));
    assert_eq!(GaloisField::<u8>(7).add(GaloisField::<u8>(5)).0, 2);
}

#[test]
fn sub() {
    assert_eq!(
        GaloisField::<u8>(5).sub(GaloisField::<u8>(7)),
        GaloisField::<u8>(2)
    );
    assert_eq!(GaloisField::<u8>(5).sub_byte(7), GaloisField::<u8>(2));
    assert_eq!(GaloisField::<u8>(7).sub(GaloisField::<u8>(5)).0, 2);
}

#[test]
fn multiplication() {
    assert_eq!(
        GaloisField::<u8>(5).mul(GaloisField::<u8>(7)),
        GaloisField::<u8>(27)
    );
    assert_eq!(GaloisField::<u8>(5).mul_byte(7), GaloisField::<u8>(27));
    assert_eq!(GaloisField::<u8>(7).mul(GaloisField::<u8>(5)).0, 27);
}

#[test]
fn bitwise_or() {
    assert_eq!(
        GaloisField::<u8>(5).bitor(GaloisField::<u8>(7)),
        GaloisField::<u8>(7)
    );
    assert_eq!(GaloisField::<u8>(5).bitor_byte(7), GaloisField::<u8>(7));
    assert_eq!(GaloisField::<u8>(5).bitor(GaloisField::<u8>(7)).0, 7);
}

#[test]
fn bitwise_xor() {
    assert_eq!(
        GaloisField::<u8>(5).bitxor(GaloisField::<u8>(7)),
        GaloisField::<u8>(2)
    );
    assert_eq!(GaloisField::<u8>(5).bitxor_byte(7), GaloisField::<u8>(2));
    assert_eq!(GaloisField::<u8>(5).bitxor(GaloisField::<u8>(7)).0, 2);
}

#[test]
fn bitwise_and() {
    assert_eq!(
        GaloisField::<u8>(5).bitand(GaloisField::<u8>(7)),
        GaloisField::<u8>(5)
    );
    assert_eq!(GaloisField::<u8>(5).bitand_byte(7), GaloisField::<u8>(5));
    assert_eq!(GaloisField::<u8>(5).bitand(GaloisField::<u8>(7)).0, 5);
}

#[test]
fn bitwise_shr() {
    assert_eq!(
        GaloisField::<u8>(5).shr(GaloisField::<u8>(7)),
        GaloisField::<u8>(0)
    );
    assert_eq!(GaloisField::<u8>(5).shr_byte(7), GaloisField::<u8>(0));
    assert_eq!(GaloisField::<u8>(5).shr(GaloisField::<u8>(7)).0, 0);
}

#[test]
fn bitwise_shl() {
    assert_eq!(
        GaloisField::<u8>(5).shl(GaloisField::<u8>(2)),
        GaloisField::<u8>(20)
    );
    assert_eq!(GaloisField::<u8>(5).shl_byte(2), GaloisField::<u8>(20));
    assert_eq!(GaloisField::<u8>(5).shl(GaloisField::<u8>(2)).0, 20);
}

#[test]
fn field_addition_laws() {
    for (a, b) in [(0x00u8, 0xffu8), (0x53, 0xca), (0x01, 0x80)] {
        assert_eq!(
            GaloisField::<u8>(a).add(GaloisField::<u8>(b)),
            GaloisField::<u8>(b).add(GaloisField::<u8>(a))
        );
        assert_eq!(GaloisField::<u8>(a).add_byte(0), GaloisField::<u8>(a));
        assert_eq!(
            GaloisField::<u8>(a).add(GaloisField::<u8>(a)),
            GaloisField::<u8>(0)
        );
    }
}

#[test]
fn field_multiplication_laws() {
    for (a, b) in [(0x57u8, 0x83u8), (0x02, 0x80), (0xff, 0xff)] {
        assert_eq!(
            GaloisField::<u8>(a).mul(GaloisField::<u8>(b)),
            GaloisField::<u8>(b).mul(GaloisField::<u8>(a))
        );
        assert_eq!(GaloisField::<u8>(a).mul_byte(1), GaloisField::<u8>(a));
        assert_eq!(GaloisField::<u8>(a).mul_byte(0), GaloisField::<u8>(0));
    }
    // 0x57 * 0x83 == 0xc1 is the worked example of FIPS-197 section 4.2.
    assert_eq!(GaloisField::<u8>(0x57).mul_byte(0x83), GaloisField::<u8>(0xc1));
}

#[test]
fn field_assign_operations() {
    let mut a = GaloisField::<u8>(5);
    a.add_assign(GaloisField::<u8>(7));
    assert_eq!(a, GaloisField::<u8>(2));
    a.sub_assign(GaloisField::<u8>(7));
    assert_eq!(a, GaloisField::<u8>(5));
    a.mul_assign(GaloisField::<u8>(7));
    assert_eq!(a, GaloisField::<u8>(27));
    a.bitor_assign(GaloisField::<u8>(4));
    assert_eq!(a, GaloisField::<u8>(31));
    a.bitand_assign(GaloisField::<u8>(0x0f));
    assert_eq!(a, GaloisField::<u8>(15));
    a.bitxor_assign(GaloisField::<u8>(1));
    assert_eq!(a, GaloisField::<u8>(14));
    a.shr_assign(GaloisField::<u8>(1));
    assert_eq!(a, GaloisField::<u8>(7));
    a.shl_assign(GaloisField::<u8>(2));
    assert_eq!(a, GaloisField::<u8>(28));
}

#[test]
fn from_byte() {
    assert_eq!(GaloisField::<u8>::from(0xab), GaloisField::<u8>(0xab));
}
