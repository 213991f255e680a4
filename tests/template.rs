use rhexdump::{hexdump, hexdump_offset, Base, Endianess, Rhexdump, RhexdumpError};

#[test]
fn rhx_default() {
    let rhx = Rhexdump::default();
    let a = [0u8; 0x38];
    let mut rhx_iter = rhx.iter(&a);

    assert_eq!(
        rhx_iter.next().unwrap(),
        String::from(
            "00000000: 00 00 00 00 00 00 00 00 00 00 00 00 00 00 00 00 | ................"
        )
    );
    assert_eq!(
        rhx_iter.next().unwrap(),
        String::from(
            "00000010: 00 00 00 00 00 00 00 00 00 00 00 00 00 00 00 00 | ................"
        )
    );
    assert_eq!(
        rhx_iter.next().unwrap(),
        String::from(
            "00000020: 00 00 00 00 00 00 00 00 00 00 00 00 00 00 00 00 | ................"
        )
    );
    assert_eq!(
        rhx_iter.next().unwrap(),
        String::from(
            "00000030: 00 00 00 00 00 00 00 00                         | ........        "
        )
    );
    assert_eq!(rhx_iter.next().is_none(), true);
}

#[test]
fn rhx_custom_bin() {
    let v = (0..0x10).collect::<Vec<u8>>();
    let rhx = Rhexdump::new(
        Base::Bin,
        Endianess::LittleEndian,
        2,
        8,
        true,
        "#[OFFSET] | #[RAW] | #[ASCII]",
    );
    assert_eq!(rhx.is_ok(), true);
    let rhx = rhx.unwrap();
    let mut rhx_iter = rhx.iter(&v);

    assert_eq!(
        rhx_iter.next().unwrap(),
        String::from(
            "00000000 | 0000000100000000 0000001100000010 0000010100000100 0000011100000110 | ........"
        )
    );
    assert_eq!(
        rhx_iter.next().unwrap(),
        String::from(
            "00000008 | 0000100100001000 0000101100001010 0000110100001100 0000111100001110 | ........"
        )
    );
    assert_eq!(rhx_iter.next().is_none(), true);
}

#[test]
fn rhx_custom_oct() {
    let v = (0..0x10).collect::<Vec<u8>>();
    let rhx = Rhexdump::new(
        Base::Oct,
        Endianess::LittleEndian,
        4,
        4,
        true,
        "- #[OFFSET] - #[RAW] - #[ASCII] -",
    );
    assert_eq!(rhx.is_ok(), true);
    let rhx = rhx.unwrap();
    let mut rhx_iter = rhx.iter(&v);

    assert_eq!(
        rhx_iter.next().unwrap(),
        String::from("- 00000000 - 00300400400 - .... -")
    );
    assert_eq!(
        rhx_iter.next().unwrap(),
        String::from("- 00000004 - 00701402404 - .... -")
    );
    assert_eq!(
        rhx_iter.next().unwrap(),
        String::from("- 00000008 - 01302404410 - .... -")
    );
    assert_eq!(
        rhx_iter.next().unwrap(),
        String::from("- 0000000c - 01703406414 - .... -")
    );
    assert_eq!(rhx_iter.next().is_none(), true);
}

#[test]
fn rhx_custom_dec() {
    let v = (0..0x10).collect::<Vec<u8>>();
    let rhx = Rhexdump::new(
        Base::Dec,
        Endianess::BigEndian,
        4,
        16,
        true,
        "# #[OFFSET] # #[RAW] # #[ASCII] #",
    );
    assert_eq!(rhx.is_ok(), true);
    let rhx = rhx.unwrap();
    let mut rhx_iter = rhx.iter(&v);

    assert_eq!(
        rhx_iter.next().unwrap(),
        String::from(
            "# 00000000 # 0000066051 0067438087 0134810123 0202182159 # ................ #"
        )
    );
    assert_eq!(rhx_iter.next().is_none(), true);
}

#[test]
fn rhx_custom_hex() {
    let v = (0..0x10).collect::<Vec<u8>>();
    let rhx = Rhexdump::new(
        Base::Hex,
        Endianess::BigEndian,
        2,
        16,
        true,
        "#[ASCII] | #[RAW] | #[OFFSET]",
    );
    assert_eq!(rhx.is_ok(), true);
    let rhx = rhx.unwrap();
    let mut rhx_iter = rhx.iter(&v);

    assert_eq!(
        rhx_iter.next().unwrap(),
        String::from("................ | 0001 0203 0405 0607 0809 0a0b 0c0d 0e0f | 00000000")
    );
    assert_eq!(rhx_iter.next().is_none(), true);
}

#[test]
fn rhx_base_offset() {
    let v = (0..0x10).collect::<Vec<u8>>();
    let rhx = Rhexdump::default();
    let mut rhx_iter = rhx.iter_offset(&v, 0x1000);

    assert_eq!(
        rhx_iter.next().unwrap(),
        String::from(
            "00001000: 00 01 02 03 04 05 06 07 08 09 0a 0b 0c 0d 0e 0f | ................"
        )
    );
    assert_eq!(rhx_iter.next().is_none(), true);
}

#[test]
fn rhx_file() {
    let rhx = Rhexdump::default();
    let v = (0..0x10).collect::<Vec<u8>>();

    let mut it = rhx.iter_file(None);
    assert_eq!(it.bytes_wanted(), 16);
    assert_eq!(
        it.feed(&v).unwrap(),
        "00000000: 00 01 02 03 04 05 06 07 08 09 0a 0b 0c 0d 0e 0f | ................"
    );
    assert!(it.finish().is_none());

    let mut it = rhx.iter_file(Some(0x8));
    assert_eq!(it.bytes_wanted(), 8);
    assert_eq!(
        it.feed(&v[..8]).unwrap(),
        "00000000: 00 01 02 03 04 05 06 07                         | ........        "
    );
    assert_eq!(it.bytes_wanted(), 0);

    let mut it = rhx.iter_file_offset(None, 0x1000);
    assert_eq!(
        it.feed(&v).unwrap(),
        "00001000: 00 01 02 03 04 05 06 07 08 09 0a 0b 0c 0d 0e 0f | ................"
    );

    let mut it = rhx.iter_file_offset(Some(0x8), 0x1000);
    assert_eq!(
        it.feed(&v[..8]).unwrap(),
        "00001000: 00 01 02 03 04 05 06 07                         | ........        "
    );
}

#[test]
fn default_hexdump_joins_lines() {
    let v = (0..0x14).collect::<Vec<u8>>();
    assert_eq!(
        hexdump(&v),
        "00000000: 00 01 02 03 04 05 06 07 08 09 0a 0b 0c 0d 0e 0f | ................\n\
         00000010: 10 11 12 13                                     | ....            "
    );
    assert_eq!(
        hexdump_offset(&v[..4], 0xdeadbeef),
        "deadbeef: 00 01 02 03                                     | ....            "
    );
    assert_eq!(hexdump(&[]), "");
}

#[test]
fn unknown_field_is_an_error() {
    let r = Rhexdump::new(Base::Hex, Endianess::LittleEndian, 1, 16, true, "#[OFFSET] #[FOO]");
    assert_eq!(r.err(), Some(RhexdumpError::UnknownFormatType(String::from("FOO"))));
}

#[test]
fn invalid_group_size_is_an_error() {
    let r = Rhexdump::new(Base::Hex, Endianess::LittleEndian, 3, 16, true, "#[RAW]");
    assert_eq!(r.err(), Some(RhexdumpError::InvalidArgument));
    let mut d = Rhexdump::default();
    assert_eq!(d.set_bytes_per_group(9), Err(RhexdumpError::InvalidArgument));
    assert_eq!(d.set_bytes_per_group(2), Ok(()));
    assert_eq!(
        d.hexdump(&[1, 0]),
        "00000000: 0001                                    | ..              "
    );
}

#[test]
fn template_without_closing_mark_is_text() {
    let d = Rhexdump::new(Base::Hex, Endianess::LittleEndian, 1, 2, true, "#[RAW] #[ASCII").unwrap();
    assert_eq!(d.hexdump(&[0x41, 0x42]), "41 42 #[ASCII");
}

#[test]
fn setters_change_the_output() {
    let mut d = Rhexdump::default();
    d.set_base(Base::Oct);
    d.set_bytes_per_line(4);
    assert_eq!(d.set_format("#[RAW]|#[ASCII]"), Ok(()));
    assert_eq!(d.hexdump(&[8, 0x41]), "010 101        |.A  ");
    assert!(d.set_format("#[NOPE]").is_err());
    assert_eq!(d.hexdump(&[8]), "010            |.   ");
    d.set_bytes_per_line(0);
    assert_eq!(d.hexdump(&[8, 9]), "010|.\n011|.");
}

#[test]
fn template_duplicates_collapse() {
    let mut d = Rhexdump::default();
    d.display_duplicate_lines(false);
    d.set_bytes_per_line(4);
    let out = d.hexdump(&[0u8; 16]);
    assert_eq!(
        out,
        "00000000: 00 00 00 00 | ....\n*\n0000000c: 00 00 00 00 | ...."
    );
}

#[test]
fn stream_feed_hides_duplicates() {
    let mut d = Rhexdump::default();
    d.display_duplicate_lines(false);
    d.set_bytes_per_line(2);
    let mut it = d.iter_file(None);
    assert!(it.feed(&[5, 5]).is_some());
    assert_eq!(it.feed(&[5, 5]).unwrap(), "*");
    assert!(it.feed(&[5, 5]).is_none());
    assert_eq!(it.finish().unwrap(), "00000004: 05 05 | ..");
    assert!(it.finish().is_none());
}
