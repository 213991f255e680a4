//! Settings of a dump and the builder that combines them into a configuration.

use vstd::prelude::*;
use vstd::string::StringExecFns;

use crate::config::{RhexdumpConfig, RhexdumpGetConfig, MAX_GROUPS_PER_LINE};
use crate::hexdump::{Rhexdump, RhexdumpStdout, RhexdumpString};
use crate::render::{digit_count, digits, group_max, group_max_exec, push_str};

verus! {

/// Supported numeral bases.
#[derive(Copy, Clone, PartialEq, Eq, Structural, Hash, Debug)]
pub enum Base {
    /// Formats the output in base 2.
    Bin,
    /// Formats the output in base 8.
    Oct,
    /// Formats the output in base 10.
    Dec,
    /// Formats the output in base 16.
    Hex,
}

impl Base {
    /// The radix this base stands for.
    pub open spec fn spec_radix(self) -> nat {
        match self {
            Base::Bin => 2,
            Base::Oct => 8,
            Base::Dec => 10,
            Base::Hex => 16,
        }
    }

    /// The radix this base stands for.
    pub fn radix(&self) -> (r: u64)
        ensures
            r as nat == self.spec_radix(),
    {
        match self {
            Base::Bin => 2,
            Base::Oct => 8,
            Base::Dec => 10,
            Base::Hex => 16,
        }
    }
}

impl Base {
    /// Name of the setting, as shown in descriptions.
    pub open spec fn spec_text(self) -> Seq<char> {
        match self {
            Base::Bin => "Binary"@,
            Base::Oct => "Octal"@,
            Base::Dec => "Decimal"@,
            Base::Hex => "Hexadecimal"@,
        }
    }

    /// Name of the setting, as shown in descriptions.
    pub fn to_text(&self) -> (r: String)
        ensures
            r@ == self.spec_text(),
    {
        match self {
            Base::Bin => String::from_str("Binary"),
            Base::Oct => String::from_str("Octal"),
            Base::Dec => String::from_str("Decimal"),
            Base::Hex => String::from_str("Hexadecimal"),
        }
    }
}

impl Default for Base {
    fn default() -> (r: Self)
        ensures
            r == Base::Hex,
    {
        Base::Hex
    }
}

/// Supported endianness modes.
#[derive(Copy, Clone, PartialEq, Eq, Structural, Hash, Debug)]
pub enum Endianness {
    /// Big endian.
    BigEndian,
    /// Little endian.
    LittleEndian,
}

impl Endianness {
    pub open spec fn spec_is_big(self) -> bool {
        self == Endianness::BigEndian
    }

    /// Whether groups are read most significant byte first.
    pub fn is_big(&self) -> (r: bool)
        ensures
            r == self.spec_is_big(),
    {
        match self {
            Endianness::BigEndian => true,
            Endianness::LittleEndian => false,
        }
    }
}

impl Endianness {
    /// Name of the setting, as shown in descriptions.
    pub open spec fn spec_text(self) -> Seq<char> {
        match self {
            Endianness::BigEndian => "BigEndian"@,
            Endianness::LittleEndian => "LittleEndian"@,
        }
    }

    /// Name of the setting, as shown in descriptions.
    pub fn to_text(&self) -> (r: String)
        ensures
            r@ == self.spec_text(),
    {
        match self {
            Endianness::BigEndian => String::from_str("BigEndian"),
            Endianness::LittleEndian => String::from_str("LittleEndian"),
        }
    }
}

impl Default for Endianness {
    fn default() -> (r: Self)
        ensures
            r == Endianness::LittleEndian,
    {
        Endianness::LittleEndian
    }
}

/// Supported offset bit widths.
#[derive(Copy, Clone, PartialEq, Eq, Structural, Hash, Debug)]
pub enum BitWidth {
    /// 64-bit mode.
    BW64,
    /// 32-bit mode.
    BW32,
}

impl BitWidth {
    /// Hex digits of the offset field.
    pub open spec fn spec_digits(self) -> nat {
        match self {
            BitWidth::BW64 => 16,
            BitWidth::BW32 => 8,
        }
    }

    /// Hex digits of the offset field.
    pub fn digits(&self) -> (r: usize)
        ensures
            r as nat == self.spec_digits(),
    {
        match self {
            BitWidth::BW64 => 16,
            BitWidth::BW32 => 8,
        }
    }
}

impl BitWidth {
    /// Name of the setting, as shown in descriptions.
    pub open spec fn spec_text(self) -> Seq<char> {
        match self {
            BitWidth::BW64 => "64-bits"@,
            BitWidth::BW32 => "32-bits"@,
        }
    }

    /// Name of the setting, as shown in descriptions.
    pub fn to_text(&self) -> (r: String)
        ensures
            r@ == self.spec_text(),
    {
        match self {
            BitWidth::BW64 => String::from_str("64-bits"),
            BitWidth::BW32 => String::from_str("32-bits"),
        }
    }
}

impl Default for BitWidth {
    fn default() -> (r: Self)
        ensures
            r == BitWidth::BW32,
    {
        BitWidth::BW32
    }
}

/// Supported byte group sizes.
#[derive(Copy, Clone, PartialEq, Eq, Structural, Hash, Debug)]
pub enum GroupSize {
    /// Data grouped as 8-bit values.
    Byte,
    /// Data grouped as 16-bit values.
    Word,
    /// Data grouped as 32-bit values.
    Dword,
    /// Data grouped as 64-bit values.
    Qword,
}

impl GroupSize {
    /// Bytes in a group.
    pub open spec fn spec_bytes(self) -> nat {
        match self {
            GroupSize::Byte => 1,
            GroupSize::Word => 2,
            GroupSize::Dword => 4,
            GroupSize::Qword => 8,
        }
    }

    /// Bytes in a group.
    pub fn bytes(&self) -> (r: usize)
        ensures
            r as nat == self.spec_bytes(),
    {
        match self {
            GroupSize::Byte => 1,
            GroupSize::Word => 2,
            GroupSize::Dword => 4,
            GroupSize::Qword => 8,
        }
    }

    /// Digits of the numeral of one group in `base`: those of the largest value a group holds.
    pub open spec fn spec_width(self, base: Base) -> nat {
        digits(group_max(self.spec_bytes()), base.spec_radix()).len()
    }

    /// Number of digits of the largest value of a group, written in `base`; every numeral of
    /// a group is zero-padded to this width.
    pub fn get_size(&self, base: Base) -> (r: usize)
        ensures
            r as nat == self.spec_width(base),
            r <= 64,
    {
        digit_count(group_max_exec(self.bytes()), base.radix())
    }
}

impl GroupSize {
    /// Name of the setting, as shown in descriptions.
    pub open spec fn spec_text(self) -> Seq<char> {
        match self {
            GroupSize::Byte => "Byte (8-bit)"@,
            GroupSize::Word => "Word (16-bit)"@,
            GroupSize::Dword => "Dword (32-bit)"@,
            GroupSize::Qword => "Qword (64-bit)"@,
        }
    }

    /// Name of the setting, as shown in descriptions.
    pub fn to_text(&self) -> (r: String)
        ensures
            r@ == self.spec_text(),
    {
        match self {
            GroupSize::Byte => String::from_str("Byte (8-bit)"),
            GroupSize::Word => String::from_str("Word (16-bit)"),
            GroupSize::Dword => String::from_str("Dword (32-bit)"),
            GroupSize::Qword => String::from_str("Qword (64-bit)"),
        }
    }
}

impl Default for GroupSize {
    fn default() -> (r: Self)
        ensures
            r == GroupSize::Byte,
    {
        GroupSize::Byte
    }
}

/// Maximum number of bytes per group.
pub const MAX_BYTES_PER_GROUP: usize = 8;

/// Builder for a configuration, and for the dumpers that use it.
#[derive(Copy, Clone, PartialEq, Eq, Structural, Hash, Debug)]
pub struct RhexdumpBuilder(pub RhexdumpConfig);

impl RhexdumpBuilder {
    /// The builder's groups per line are in range; the line size is derived by `config`.
    pub open spec fn wf(&self) -> bool {
        1 <= self.0.groups_per_line <= MAX_GROUPS_PER_LINE
    }

    /// Creates a builder holding the default configuration.
    pub fn new() -> (r: Self)
        ensures
            r.wf(),
            r.0 == RhexdumpConfig::spec_default(),
    {
        RhexdumpBuilder(RhexdumpConfig::default())
    }

    /// Consumes the builder and returns its configuration, with the bytes per line derived
    /// from the group size and the number of groups per line.
    pub fn config(self) -> (r: RhexdumpConfig)
        requires
            self.wf(),
        ensures
            r.wf(),
            r == (RhexdumpConfig {
                bytes_per_line: (self.0.group_size.spec_bytes() * self.0.groups_per_line) as usize,
                ..self.0
            }),
    {
        let mut c = self.0;
        c.bytes_per_line = c.group_size.bytes() * c.groups_per_line;
        c
    }

    /// Builds a dumper that writes to a byte sink.
    pub fn build(self) -> (r: Rhexdump)
        requires
            self.wf(),
        ensures
            r.spec_config() == self.spec_built(),
    {
        Rhexdump::with_config(self.config())
    }

    /// Builds a dumper that renders to strings.
    pub fn build_string(self) -> (r: RhexdumpString)
        requires
            self.wf(),
        ensures
            r.spec_config() == self.spec_built(),
    {
        RhexdumpString::with_config(self.config())
    }

    /// Builds a dumper whose output is meant for the standard output.
    pub fn build_stdout(self) -> (r: RhexdumpStdout)
        requires
            self.wf(),
        ensures
            r.spec_config() == self.spec_built(),
    {
        RhexdumpStdout::with_config(self.config())
    }

    /// The configuration that `config` returns.
    pub open spec fn spec_built(self) -> RhexdumpConfig {
        RhexdumpConfig {
            bytes_per_line: (self.0.group_size.spec_bytes() * self.0.groups_per_line) as usize,
            ..self.0
        }
    }

    /// Sets the numeral base.
    pub fn base(self, base: Base) -> (r: Self)
        requires
            self.wf(),
        ensures
            r.wf(),
            r.0 == (RhexdumpConfig { base, ..self.0 }),
    {
        let mut c = self.0;
        c.base = base;
        RhexdumpBuilder(c)
    }

    /// Sets the endianness.
    pub fn endianness(self, endianness: Endianness) -> (r: Self)
        requires
            self.wf(),
        ensures
            r.wf(),
            r.0 == (RhexdumpConfig { endianness, ..self.0 }),
    {
        let mut c = self.0;
        c.endianness = endianness;
        RhexdumpBuilder(c)
    }

    /// Sets the offset bit width.
    pub fn bit_width(self, bit_width: BitWidth) -> (r: Self)
        requires
            self.wf(),
        ensures
            r.wf(),
            r.0 == (RhexdumpConfig { bit_width, ..self.0 }),
    {
        let mut c = self.0;
        c.bit_width = bit_width;
        RhexdumpBuilder(c)
    }

    /// Sets the byte group size.
    pub fn group_size(self, group_size: GroupSize) -> (r: Self)
        requires
            self.wf(),
        ensures
            r.wf(),
            r.0 == (RhexdumpConfig { group_size, ..self.0 }),
    {
        let mut c = self.0;
        c.group_size = group_size;
        RhexdumpBuilder(c)
    }

    /// Sets the number of groups per line; zero is taken as one.
    pub fn groups_per_line(self, groups_per_line: usize) -> (r: Self)
        requires
            self.wf(),
            groups_per_line <= MAX_GROUPS_PER_LINE,
        ensures
            r.wf(),
            r.0 == (RhexdumpConfig {
                groups_per_line: if groups_per_line == 0 {
                    1
                } else {
                    groups_per_line
                },
                ..self.0
            }),
    {
        let mut c = self.0;
        c.groups_per_line = if groups_per_line == 0 {
            1
        } else {
            groups_per_line
        };
        RhexdumpBuilder(c)
    }

    /// Sets whether runs of duplicate lines are collapsed.
    pub fn hide_duplicate_lines(self, hide_duplicate_lines: bool) -> (r: Self)
        requires
            self.wf(),
        ensures
            r.wf(),
            r.0 == (RhexdumpConfig { hide_duplicate_lines, ..self.0 }),
    {
        let mut c = self.0;
        c.hide_duplicate_lines = hide_duplicate_lines;
        RhexdumpBuilder(c)
    }
}

impl RhexdumpBuilder {
    /// Description of the builder's settings.
    pub fn to_text(&self) -> (r: String)
        ensures
            r@ == "RhexdumpBuilder { "@ + self.0.spec_text() + " }"@,
    {
        let mut r = String::from_str("RhexdumpBuilder { ");
        push_str(&mut r, self.0.to_text().as_str());
        push_str(&mut r, " }");
        r
    }
}

impl Default for RhexdumpBuilder {
    fn default() -> (r: Self)
        ensures
            r.wf(),
            r.0 == RhexdumpConfig::spec_default(),
    {
        RhexdumpBuilder::new()
    }
}

} // verus!
