use pg_replicate::lsn::PgLsn;

#[test]
fn positions_are_read() {
    assert_eq!(PgLsn::parse("0/0"), Some(PgLsn { value: 0 }));
    assert_eq!(PgLsn::parse("16/B374D848"), Some(PgLsn { value: 0x16_B374_D848 }));
    assert_eq!(PgLsn::parse("16/b374d848"), Some(PgLsn { value: 0x16_B374_D848 }));
    assert_eq!(PgLsn::parse("+1/+2"), Some(PgLsn { value: 0x1_0000_0002 }));
    assert_eq!(PgLsn::parse("FFFFFFFF/FFFFFFFF"), Some(PgLsn { value: u64::MAX }));
}

#[test]
fn halves_that_are_too_wide_are_joined_bit_by_bit() {
    assert_eq!(PgLsn::parse("100000001/2"), Some(PgLsn { value: 0x1_0000_0002 }));
    assert_eq!(PgLsn::parse("1/300000005"), Some(PgLsn { value: 0x3_0000_0005 }));
}

#[test]
fn texts_that_are_no_positions() {
    for text in ["", "/", "1", "1/", "/1", "1/2/3", "1 /2", "G/0", "-1/0", "10000000000000000/0"] {
        assert_eq!(PgLsn::parse(text), None, "{text}");
    }
}

#[test]
fn positions_are_written() {
    assert_eq!(PgLsn { value: 0 }.to_text(), "0/0");
    assert_eq!(PgLsn { value: 0x16_B374_D848 }.to_text(), "16/B374D848");
    assert_eq!(PgLsn { value: 0x1_0000_000A }.to_text(), "1/A");
}

#[test]
fn a_written_position_is_read_back() {
    for value in [0, 1, 0xffff_ffff, 0x1_0000_0000, 0x1234_5678_9abc_def0, u64::MAX] {
        let lsn = PgLsn::from(value);
        assert_eq!(PgLsn::parse(&lsn.to_text()), Some(lsn));
    }
}
