use rhexdump::builder::{Base, BitWidth, Endianness, GroupSize, RhexdumpBuilder};
use rhexdump::config::RhexdumpConfig;
use rhexdump::hexdump::{Rhexdump, RhexdumpStdout, RhexdumpString};

#[test]
fn setting_names() {
    assert_eq!(Base::Bin.to_text(), "Binary");
    assert_eq!(Base::Oct.to_text(), "Octal");
    assert_eq!(Base::Dec.to_text(), "Decimal");
    assert_eq!(Base::Hex.to_text(), "Hexadecimal");
    assert_eq!(Endianness::BigEndian.to_text(), "BigEndian");
    assert_eq!(Endianness::LittleEndian.to_text(), "LittleEndian");
    assert_eq!(BitWidth::BW64.to_text(), "64-bits");
    assert_eq!(BitWidth::BW32.to_text(), "32-bits");
    assert_eq!(GroupSize::Byte.to_text(), "Byte (8-bit)");
    assert_eq!(GroupSize::Word.to_text(), "Word (16-bit)");
    assert_eq!(GroupSize::Dword.to_text(), "Dword (32-bit)");
    assert_eq!(GroupSize::Qword.to_text(), "Qword (64-bit)");
}

#[test]
fn config_description() {
    assert_eq!(
        RhexdumpConfig::default().to_text(),
        "RhexdumpConfig { base: Hexadecimal, endianness: LittleEndian, bit_width: 32-bits, \
         group_size: Byte (8-bit), groups_per_line: 16, hide_duplicate_lines: false }"
    );
}

#[test]
fn builder_and_dumper_descriptions() {
    let b = RhexdumpBuilder::new()
        .base(Base::Bin)
        .groups_per_line(120)
        .hide_duplicate_lines(true);
    assert_eq!(
        b.to_text(),
        "RhexdumpBuilder { RhexdumpConfig { base: Binary, endianness: LittleEndian, \
         bit_width: 32-bits, group_size: Byte (8-bit), groups_per_line: 120, \
         hide_duplicate_lines: true } }"
    );
    let fields = "base: Hexadecimal, endianness: LittleEndian, bit_width: 32-bits, \
                  group_size: Byte (8-bit), groups_per_line: 16, hide_duplicate_lines: false";
    assert_eq!(Rhexdump::new().to_text(), format!("Rhexdump {{ {} }}", fields));
    assert_eq!(RhexdumpString::new().to_text(), format!("RhexdumpString {{ {} }}", fields));
    assert_eq!(RhexdumpStdout::new().to_text(), format!("RhexdumpStdout {{ {} }}", fields));
}
