use rhexdump::builder::{Base, BitWidth, Endianness, GroupSize, RhexdumpBuilder};
use rhexdump::config::RhexdumpGetConfig;
use rhexdump::hexdump::{Rhexdump, RhexdumpStdout, RhexdumpString};
use rhexdump::iter::{RhexdumpIter, RhexdumpStdoutIter, RhexdumpStringIter};

const LOREM: &str = "Lorem ipsum dolor sit amet, consectetur adipiscing elit";

fn bytes_0_to_20() -> Vec<u8> {
    (0..0x14).collect::<Vec<u8>>()
}

#[test]
fn rhx_rhexdump_string_hexdump_offset() {
    let v = bytes_0_to_20();
    let rh = RhexdumpString::new();
    let out = rh.hexdump_offset(&v, 0x12340000);
    assert_eq!(
        &out,
        "12340000: 00 01 02 03 04 05 06 07 08 09 0a 0b 0c 0d 0e 0f  ................\n\
         12340010: 10 11 12 13                                      ....            \n"
    );
}

#[test]
fn rhx_rhexdump_string_hexdump() {
    let v = bytes_0_to_20();
    let rh = RhexdumpString::new();
    let out = rh.hexdump(&v);
    assert_eq!(
        &out,
        "00000000: 00 01 02 03 04 05 06 07 08 09 0a 0b 0c 0d 0e 0f  ................\n\
         00000010: 10 11 12 13                                      ....            \n"
    );
}

#[test]
fn rhx_rhexdump_string_hexdump_bytes_offset() {
    let v = bytes_0_to_20();
    let rh = RhexdumpString::new();
    let out = rh.hexdump_bytes_offset(&v, 0x12340000);
    assert_eq!(
        &out,
        "12340000: 00 01 02 03 04 05 06 07 08 09 0a 0b 0c 0d 0e 0f  ................\n\
         12340010: 10 11 12 13                                      ....            \n"
    );
}

#[test]
fn rhx_rhexdump_string_hexdump_bytes() {
    let v = bytes_0_to_20();
    let rh = RhexdumpString::new();
    let out = rh.hexdump_bytes(&v);
    assert_eq!(
        &out,
        "00000000: 00 01 02 03 04 05 06 07 08 09 0a 0b 0c 0d 0e 0f  ................\n\
         00000010: 10 11 12 13                                      ....            \n"
    );
}

#[test]
fn rhx_rhexdump_string_iter_offset() {
    let v = bytes_0_to_20();
    let rh = RhexdumpString::new();
    let mut iter = rh.iter(&v).offset(0x12340000);
    let out = iter.next().unwrap();
    assert_eq!(
        &out,
        "12340000: 00 01 02 03 04 05 06 07 08 09 0a 0b 0c 0d 0e 0f  ................"
    );
}

#[test]
fn rhx_rhexdump_string_iter() {
    let v = bytes_0_to_20();
    let rh = RhexdumpString::new();
    let mut iter = rh.iter(&v);
    let out = iter.next().unwrap();
    assert_eq!(
        &out,
        "00000000: 00 01 02 03 04 05 06 07 08 09 0a 0b 0c 0d 0e 0f  ................"
    );
}

#[test]
fn rhx_rhexdump_hexdump_offset() {
    let rhx = Rhexdump::new();
    let mut output = Vec::new();
    rhx.hexdump_offset(&mut output, LOREM.as_bytes(), 0x12340000);
    assert_eq!(
        &String::from_utf8_lossy(&output),
        "12340000: 4c 6f 72 65 6d 20 69 70 73 75 6d 20 64 6f 6c 6f  Lorem.ipsum.dolo\n\
         12340010: 72 20 73 69 74 20 61 6d 65 74 2c 20 63 6f 6e 73  r.sit.amet,.cons\n\
         12340020: 65 63 74 65 74 75 72 20 61 64 69 70 69 73 63 69  ectetur.adipisci\n\
         12340030: 6e 67 20 65 6c 69 74                             ng.elit         \n"
    );
}

#[test]
fn rhx_rhexdump_hexdump() {
    let rhx = Rhexdump::new();
    let mut output = Vec::new();
    rhx.hexdump(&mut output, LOREM.as_bytes());
    assert_eq!(
        &String::from_utf8_lossy(&output),
        "00000000: 4c 6f 72 65 6d 20 69 70 73 75 6d 20 64 6f 6c 6f  Lorem.ipsum.dolo\n\
         00000010: 72 20 73 69 74 20 61 6d 65 74 2c 20 63 6f 6e 73  r.sit.amet,.cons\n\
         00000020: 65 63 74 65 74 75 72 20 61 64 69 70 69 73 63 69  ectetur.adipisci\n\
         00000030: 6e 67 20 65 6c 69 74                             ng.elit         \n"
    );
}

#[test]
fn rhx_rhexdump_iter_offset() {
    let rhx = Rhexdump::new();
    let mut output = Vec::new();
    {
        let mut iter = RhexdumpIter::new(rhx, &mut output, LOREM.as_bytes()).offset(0x12340000);
        iter.next();
        iter.next();
    }
    assert_eq!(
        &String::from_utf8_lossy(&output),
        "12340000: 4c 6f 72 65 6d 20 69 70 73 75 6d 20 64 6f 6c 6f  Lorem.ipsum.dolo\n\
         12340010: 72 20 73 69 74 20 61 6d 65 74 2c 20 63 6f 6e 73  r.sit.amet,.cons\n"
    );
}

#[test]
fn rhx_rhexdump_iter() {
    let rhx = Rhexdump::new();
    let mut output = Vec::new();
    {
        let mut iter = rhx.iter(&mut output, LOREM.as_bytes());
        iter.next();
        iter.next();
    }
    assert_eq!(
        &String::from_utf8_lossy(&output),
        "00000000: 4c 6f 72 65 6d 20 69 70 73 75 6d 20 64 6f 6c 6f  Lorem.ipsum.dolo\n\
         00000010: 72 20 73 69 74 20 61 6d 65 74 2c 20 63 6f 6e 73  r.sit.amet,.cons\n"
    );
}

#[test]
fn rhx_rhexdump_stdout_hexdump_offset() {
    let rhx = RhexdumpStdout::new();
    let out = rhx.hexdump_offset(LOREM.as_bytes(), 0x12340000);
    assert!(out.starts_with("12340000: 4c 6f 72 65"));
}

#[test]
fn rhx_rhexdump_stdout_hexdump() {
    let rhx = RhexdumpStdout::new();
    let out = rhx.hexdump(LOREM.as_bytes());
    assert!(out.starts_with("00000000: 4c 6f 72 65"));
}

#[test]
fn rhx_rhexdump_stdout_hexdump_bytes_offset() {
    let rhx = RhexdumpStdout::new();
    let out = rhx.hexdump_bytes_offset(LOREM.as_bytes(), 0x12340000);
    assert_eq!(out.lines().count(), 4);
}

#[test]
fn rhx_rhexdump_stdout_hexdump_bytes() {
    let rhx = RhexdumpStdout::new();
    let out = rhx.hexdump_bytes(LOREM.as_bytes());
    assert_eq!(out.lines().count(), 4);
}

#[test]
fn rhx_rhexdump_stdout_iter_offset() {
    let v = bytes_0_to_20();
    let rh = RhexdumpStdout::new();
    let mut iter = rh.iter(&v).offset(0x12340000);
    assert_eq!(
        iter.next().unwrap(),
        "12340000: 00 01 02 03 04 05 06 07 08 09 0a 0b 0c 0d 0e 0f  ................\n"
    );
    assert!(iter.next().is_some());
    assert!(iter.next().is_none());
}

#[test]
fn rhx_rhexdump_stdout_iter() {
    let v = bytes_0_to_20();
    let rh = RhexdumpStdout::new();
    let mut iter = rh.iter(&v);
    assert!(iter.next().is_some());
    assert_eq!(
        iter.next().unwrap(),
        "00000010: 10 11 12 13                                      ....            \n"
    );
}

#[test]
fn rhx_iter_string() {
    let rhx = Rhexdump::new();
    let mut iter = RhexdumpStringIter::new(rhx, LOREM.as_bytes());
    let _ = iter.next().unwrap();
    let output = iter.next().unwrap();
    assert_eq!(
        &output,
        "00000010: 72 20 73 69 74 20 61 6d 65 74 2c 20 63 6f 6e 73  r.sit.amet,.cons"
    );
}

#[test]
fn rhx_iter_generic() {
    let rhx = Rhexdump::new();
    let mut output = Vec::new();
    {
        let mut iter = RhexdumpIter::new(rhx, &mut output, LOREM.as_bytes());
        let _ = iter.next().unwrap();
        let _ = iter.next().unwrap();
    }
    assert_eq!(
        &String::from_utf8_lossy(&output),
        "00000000: 4c 6f 72 65 6d 20 69 70 73 75 6d 20 64 6f 6c 6f  Lorem.ipsum.dolo\n\
         00000010: 72 20 73 69 74 20 61 6d 65 74 2c 20 63 6f 6e 73  r.sit.amet,.cons\n"
    );
}

#[test]
fn rhx_iter_stdout() {
    let rhx = Rhexdump::new();
    let mut iter = RhexdumpStdoutIter::new(rhx, LOREM.as_bytes());
    let _ = iter.next().unwrap();
    let _ = iter.next().unwrap();
}

#[test]
fn scenario_default_sixteen_bytes() {
    let v = (0..0x10).collect::<Vec<u8>>();
    let out = RhexdumpString::new().hexdump_bytes(&v);
    assert_eq!(
        out,
        "00000000: 00 01 02 03 04 05 06 07 08 09 0a 0b 0c 0d 0e 0f  ................\n"
    );
}

#[test]
fn scenario_big_endian_dwords() {
    let v = (0..0x10).collect::<Vec<u8>>();
    let rh = RhexdumpBuilder::new()
        .endianness(Endianness::BigEndian)
        .group_size(GroupSize::Dword)
        .groups_per_line(4)
        .build_string();
    let mut iter = rh.iter(&v);
    assert_eq!(
        iter.next().unwrap(),
        "00000000: 00010203 04050607 08090a0b 0c0d0e0f  ................"
    );
    assert!(iter.next().is_none());
}

#[test]
fn scenario_octal_dword_of_zeros() {
    let rh = RhexdumpBuilder::new()
        .base(Base::Oct)
        .group_size(GroupSize::Dword)
        .groups_per_line(1)
        .build_string();
    let out = rh.hexdump_bytes(&[0u8; 4]);
    assert_eq!(out, "00000000: 00000000000  ....\n");
}

#[test]
fn empty_input_gives_no_line() {
    let out = RhexdumpString::new().hexdump_bytes(&[]);
    assert_eq!(out, "");
    let mut iter = RhexdumpString::new().iter(&[]);
    assert!(iter.next().is_none());
}

#[test]
fn line_count_without_duplicate_hiding() {
    let rh = RhexdumpBuilder::new().groups_per_line(4).build_string();
    for n in 1..40usize {
        let v = vec![7u8; n];
        let out = rh.hexdump_bytes(&v);
        assert_eq!(out.lines().count(), (n + 3) / 4);
    }
}

#[test]
fn short_last_line_has_full_width() {
    let rh = RhexdumpString::new();
    let v = (0..31).collect::<Vec<u8>>();
    let out = rh.hexdump_bytes(&v);
    let lines: Vec<&str> = out.lines().collect();
    assert_eq!(lines.len(), 2);
    assert_eq!(lines[0].len(), lines[1].len());
    assert_eq!(lines[0].len() + 1, rh.get_size_line());
    assert!(lines[1].ends_with("............... "));
}

#[test]
fn exact_multiple_has_no_padded_line() {
    let rh = RhexdumpBuilder::new().groups_per_line(4).build_string();
    let v = (0x41..0x49).collect::<Vec<u8>>();
    assert_eq!(
        rh.hexdump_bytes(&v),
        "00000000: 41 42 43 44  ABCD\n00000004: 45 46 47 48  EFGH\n"
    );
}

#[test]
fn short_group_big_endian_keeps_value() {
    let rh = RhexdumpBuilder::new()
        .endianness(Endianness::BigEndian)
        .group_size(GroupSize::Dword)
        .groups_per_line(1)
        .build_string();
    let out = rh.hexdump_bytes(&[0xde, 0xad, 0xbe, 0xef, 0xde, 0xad]);
    assert_eq!(out, "00000000: deadbeef  ....\n00000004: 0000dead  ..  \n");
}

#[test]
fn short_group_little_endian_keeps_value() {
    let rh = RhexdumpBuilder::new()
        .group_size(GroupSize::Word)
        .groups_per_line(2)
        .build_string();
    let out = rh.hexdump_bytes(&[0x01, 0x02, 0x03]);
    assert_eq!(out, "00000000: 0201 0003  ... \n");
}

#[test]
fn rendering_twice_is_identical() {
    let rh = RhexdumpBuilder::new().hide_duplicate_lines(true).build_string();
    let v = LOREM.as_bytes();
    assert_eq!(rh.hexdump_bytes(v), rh.hexdump_bytes(v));
}

#[test]
fn duplicate_run_ending_in_marker_line_shows_last_line() {
    let rh = RhexdumpBuilder::new()
        .hide_duplicate_lines(true)
        .groups_per_line(4)
        .build_string();
    let out = rh.hexdump_bytes(&[0u8; 8]);
    assert_eq!(
        out,
        "00000000: 00 00 00 00  ....\n*\n00000004: 00 00 00 00  ....\n"
    );
}

#[test]
fn short_last_line_is_never_a_duplicate() {
    let rh = RhexdumpBuilder::new()
        .hide_duplicate_lines(true)
        .groups_per_line(4)
        .build_string();
    let out = rh.hexdump_bytes(&[0u8; 14]);
    assert_eq!(
        out,
        "00000000: 00 00 00 00  ....\n*\n0000000c: 00 00        ..  \n"
    );
}

#[test]
fn distinct_line_ends_a_run() {
    let rh = RhexdumpBuilder::new()
        .hide_duplicate_lines(true)
        .groups_per_line(2)
        .build_string();
    let out = rh.hexdump_bytes(&[1, 1, 1, 1, 1, 1, 2, 2]);
    assert_eq!(
        out,
        "00000000: 01 01  ..\n*\n00000006: 02 02  ..\n"
    );
}

#[test]
fn offset_wraps_in_32_bits() {
    let rh = RhexdumpString::new();
    let out = rh.hexdump_bytes_offset(&[0x30], 0x1_0000_0010);
    assert!(out.starts_with("00000010: 30 "));
    let rh64 = RhexdumpBuilder::new().bit_width(BitWidth::BW64).build_string();
    let out = rh64.hexdump_bytes_offset(&[0x30], 0x1_0000_0010);
    assert!(out.starts_with("0000000100000010: 30 "));
}

#[test]
fn decimal_and_binary_groups() {
    let rh = RhexdumpBuilder::new()
        .base(Base::Dec)
        .groups_per_line(2)
        .build_string();
    assert_eq!(rh.hexdump_bytes(&[7, 255]), "00000000: 007 255  ..\n");
    let rh = RhexdumpBuilder::new()
        .base(Base::Bin)
        .groups_per_line(1)
        .build_string();
    assert_eq!(rh.hexdump_bytes(&[5]), "00000000: 00000101  .\n");
}

#[test]
fn size_line_default() {
    assert_eq!(RhexdumpString::new().get_size_line(), 8 + 1 + 48 + 2 + 16 + 1);
}

#[test]
fn ascii_panel_has_one_char_per_byte() {
    let rh = RhexdumpString::new();
    let out = rh.hexdump_bytes(b"ab\x00cd");
    let line = out.strip_suffix('\n').unwrap();
    let panel = &line[line.len() - 16..];
    assert_eq!(panel, "ab.cd           ");
    assert_eq!(panel.trim_end().len(), 5);
}

#[test]
fn widest_group_binary_qword() {
    let rh = RhexdumpBuilder::new()
        .base(Base::Bin)
        .group_size(GroupSize::Qword)
        .groups_per_line(1)
        .bit_width(BitWidth::BW64)
        .build_string();
    let out = rh.hexdump_bytes_offset(&[0xff; 8], u64::MAX - 7);
    assert_eq!(
        out,
        format!("fffffffffffffff8: {}  ........\n", "1".repeat(64))
    );
}

#[test]
fn qword_decimal_max_value() {
    let rh = RhexdumpBuilder::new()
        .base(Base::Dec)
        .group_size(GroupSize::Qword)
        .groups_per_line(1)
        .build_string();
    assert_eq!(
        rh.hexdump_bytes(&[0xff; 8]),
        "00000000: 18446744073709551615  ........\n"
    );
}
