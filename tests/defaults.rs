use rhexdump::builder::{Base, BitWidth, GroupSize, RhexdumpBuilder};
use rhexdump::defaults::DefaultConfig;

#[test]
fn rhx_macro_rhexdump() {
    let defaults = DefaultConfig::new();
    let v = (0..0x14).collect::<Vec<u8>>();
    let out = defaults.rhexdump(&v);
    assert_eq!(out.lines().count(), 2);
    let out = defaults.rhexdump_offset(&v, 0x12340000);
    assert!(out.starts_with("12340000: "));
}

#[test]
fn rhx_macro_rhexdumps() {
    let defaults = DefaultConfig::new();
    let v = (0..0x14).collect::<Vec<u8>>();
    let output = defaults.rhexdumps(&v);
    assert_eq!(
        &output,
        "00000000: 00 01 02 03 04 05 06 07 08 09 0a 0b 0c 0d 0e 0f  ................\n\
         00000010: 10 11 12 13                                      ....            \n"
    );
    let output = defaults.rhexdumps_offset(&v, 0x12340000);
    assert_eq!(
        &output,
        "12340000: 00 01 02 03 04 05 06 07 08 09 0a 0b 0c 0d 0e 0f  ................\n\
         12340010: 10 11 12 13                                      ....            \n"
    );
}

#[test]
fn rhx_macro_install() {
    let mut defaults = DefaultConfig::new();
    let v = (0..0x14).collect::<Vec<u8>>();
    let output = defaults.rhexdumps(&v);
    assert_eq!(
        &output,
        "00000000: 00 01 02 03 04 05 06 07 08 09 0a 0b 0c 0d 0e 0f  ................\n\
         00000010: 10 11 12 13                                      ....            \n"
    );
    let config = RhexdumpBuilder::new()
        .base(Base::Oct)
        .bit_width(BitWidth::BW64)
        .group_size(GroupSize::Word)
        .groups_per_line(4)
        .config();
    defaults.install(config);
    let output = defaults.rhexdumps(&v);
    assert_eq!(
        &output,
        "0000000000000000: 000400 001402 002404 003406  ........\n\
         0000000000000008: 004410 005412 006414 007416  ........\n\
         0000000000000010: 010420 011422                ....    \n"
    );
}
