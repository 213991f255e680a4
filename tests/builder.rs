use rhexdump::builder::{Base, BitWidth, Endianness, GroupSize, RhexdumpBuilder};

fn bytes_0_to_16() -> Vec<u8> {
    (0..0x10).collect::<Vec<u8>>()
}

#[test]
fn rhx_builder_build() {
    let v = bytes_0_to_16();
    let rh = RhexdumpBuilder::new().build_string();
    let out = rh.hexdump_bytes(&v);
    assert_eq!(
        &out,
        "00000000: 00 01 02 03 04 05 06 07 08 09 0a 0b 0c 0d 0e 0f  ................\n"
    );
}

#[test]
fn rhx_builder_base() {
    let v = bytes_0_to_16();
    let rh = RhexdumpBuilder::new().base(Base::Oct).build_string();
    let out = rh.hexdump_bytes(&v);
    assert_eq!(
        &out,
        "00000000: 000 001 002 003 004 005 006 007 010 011 012 013 014 015 016 017  ................\n"
    );
}

#[test]
fn rhx_builder_endianness() {
    let v = bytes_0_to_16();
    let rh = RhexdumpBuilder::new()
        .group_size(GroupSize::Dword)
        .groups_per_line(4)
        .endianness(Endianness::BigEndian)
        .build_string();
    let out = rh.hexdump_bytes(&v);
    assert_eq!(
        &out,
        "00000000: 00010203 04050607 08090a0b 0c0d0e0f  ................\n"
    );
}

#[test]
fn rhx_builder_bit_width() {
    let v = bytes_0_to_16();
    let rh = RhexdumpBuilder::new()
        .bit_width(BitWidth::BW64)
        .build_string();
    let out = rh.hexdump_bytes(&v);
    assert_eq!(
        &out,
        "0000000000000000: 00 01 02 03 04 05 06 07 08 09 0a 0b 0c 0d 0e 0f  ................\n"
    );
}

#[test]
fn rhx_builder_group_size() {
    let v = bytes_0_to_16();
    let rh = RhexdumpBuilder::new()
        .group_size(GroupSize::Dword)
        .groups_per_line(4)
        .build_string();
    let out = rh.hexdump_bytes(&v);
    assert_eq!(
        &out,
        "00000000: 03020100 07060504 0b0a0908 0f0e0d0c  ................\n"
    );
}

#[test]
fn rhx_builder_groups_per_line() {
    let v = bytes_0_to_16();
    let rh = RhexdumpBuilder::new().groups_per_line(4).build_string();
    let out = rh.hexdump_bytes(&v);
    assert_eq!(
        &out,
        "00000000: 00 01 02 03  ....\n\
        00000004: 04 05 06 07  ....\n\
        00000008: 08 09 0a 0b  ....\n\
        0000000c: 0c 0d 0e 0f  ....\n"
    );
}

#[test]
fn rhx_builder_hide_duplicate_lines() {
    let v = vec![0u8; 0x10];
    let rh = RhexdumpBuilder::new()
        .hide_duplicate_lines(true)
        .groups_per_line(4)
        .build_string();
    let out = rh.hexdump_bytes(&v);
    assert_eq!(
        &out,
        "00000000: 00 00 00 00  ....\n\
        *\n\
        0000000c: 00 00 00 00  ....\n"
    );
}

#[test]
fn builder_groups_per_line_zero_is_one() {
    let v = vec![0x41u8, 0x42];
    let rh = RhexdumpBuilder::new().groups_per_line(0).build_string();
    assert_eq!(rh.hexdump_bytes(&v), "00000000: 41  A\n00000001: 42  B\n");
}

#[test]
fn group_size_widths() {
    assert_eq!(GroupSize::Byte.get_size(Base::Hex), 2);
    assert_eq!(GroupSize::Byte.get_size(Base::Bin), 8);
    assert_eq!(GroupSize::Byte.get_size(Base::Dec), 3);
    assert_eq!(GroupSize::Word.get_size(Base::Oct), 6);
    assert_eq!(GroupSize::Dword.get_size(Base::Oct), 11);
    assert_eq!(GroupSize::Dword.get_size(Base::Dec), 10);
    assert_eq!(GroupSize::Qword.get_size(Base::Hex), 16);
    assert_eq!(GroupSize::Qword.get_size(Base::Oct), 22);
    assert_eq!(GroupSize::Qword.get_size(Base::Dec), 20);
    assert_eq!(GroupSize::Qword.get_size(Base::Bin), 64);
}

#[test]
fn config_derives_bytes_per_line() {
    let c = RhexdumpBuilder::new()
        .group_size(GroupSize::Word)
        .groups_per_line(3)
        .config();
    assert_eq!(c.bytes_per_line, 6);
    assert_eq!(c.groups_per_line, 3);
    assert!(c.is_valid());
}
