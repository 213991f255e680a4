//! Configuration of the output format.

use vstd::prelude::*;
use vstd::string::StringExecFns;

use crate::builder::{Base, BitWidth, Endianness, GroupSize};
use crate::render::{digits, push_str, push_zero_padded};

verus! {

/// Largest number of groups on one line: keeps every width of a line within 32 bits.
pub const MAX_GROUPS_PER_LINE: usize = 0x0100_0000;

/// Settings of the output format.
#[derive(Copy, Clone, PartialEq, Eq, Structural, Hash, Debug)]
pub struct RhexdumpConfig {
    /// Numeral base.
    pub base: Base,
    /// Endianness mode.
    pub endianness: Endianness,
    /// Offset bit width.
    pub bit_width: BitWidth,
    /// Formatted bytes can be grouped together. If the actual data is `de ad be ef`, grouping them
    /// by two with a little endian output format gives `adde efbe`.
    pub group_size: GroupSize,
    /// Number of groups per formatted line.
    pub groups_per_line: usize,
    /// Number of data bytes per formatted line (`group_size * groups_per_line`).
    pub bytes_per_line: usize,
    /// Whether runs of duplicate lines are replaced by a single `*`.
    pub hide_duplicate_lines: bool,
}

impl RhexdumpConfig {
    /// At least one group per line, and the bytes per line derived from the groups.
    pub open spec fn wf(&self) -> bool {
        &&& 1 <= self.groups_per_line <= MAX_GROUPS_PER_LINE
        &&& self.bytes_per_line == self.group_size.spec_bytes() * self.groups_per_line
    }

    /// Whether the configuration is well formed.
    pub fn is_valid(&self) -> (r: bool)
        ensures
            r == self.wf(),
    {
        1 <= self.groups_per_line && self.groups_per_line <= MAX_GROUPS_PER_LINE
            && self.bytes_per_line == self.group_size.bytes() * self.groups_per_line
    }

    /// Hexadecimal, little endian, 32-bit offsets, 16 single-byte groups, duplicates shown.
    pub open spec fn spec_default() -> RhexdumpConfig {
        RhexdumpConfig {
            base: Base::Hex,
            endianness: Endianness::LittleEndian,
            bit_width: BitWidth::BW32,
            group_size: GroupSize::Byte,
            groups_per_line: 16,
            bytes_per_line: 16,
            hide_duplicate_lines: false,
        }
    }

    /// Digits of one numeral.
    pub open spec fn group_width(&self) -> nat {
        self.group_size.spec_width(self.base)
    }

    /// Characters of the numeral field of a full line: a space and a numeral per group.
    pub open spec fn raw_width(&self) -> nat {
        ((self.group_width() + 1) * self.groups_per_line) as nat
    }

    /// Characters of a rendered line, with a line terminator counted.
    pub open spec fn size_line(&self) -> nat {
        (self.bit_width.spec_digits() + 1 + self.raw_width() + 2 + self.bytes_per_line + 1) as nat
    }
}

/// `true` or `false`.
pub open spec fn bool_text(b: bool) -> Seq<char> {
    if b {
        "true"@
    } else {
        "false"@
    }
}

/// Appends `true` or `false`.
pub(crate) fn push_bool(s: &mut String, b: bool)
    ensures
        final(s)@ == old(s)@ + bool_text(b),
{
    if b {
        push_str(s, "true");
    } else {
        push_str(s, "false");
    }
}

impl RhexdumpConfig {
    /// The settings, field by field, as they are described in text.
    pub open spec fn spec_fields_text(&self) -> Seq<char> {
        "base: "@ + self.base.spec_text() + ", endianness: "@ + self.endianness.spec_text()
            + ", bit_width: "@ + self.bit_width.spec_text() + ", group_size: "@
            + self.group_size.spec_text() + ", groups_per_line: "@ + digits(
            self.groups_per_line as nat,
            10,
        ) + ", hide_duplicate_lines: "@ + bool_text(self.hide_duplicate_lines)
    }

    /// Description of the configuration.
    pub open spec fn spec_text(&self) -> Seq<char> {
        "RhexdumpConfig { "@ + self.spec_fields_text() + " }"@
    }

    /// Appends the settings, field by field.
    pub(crate) fn push_fields_text(&self, s: &mut String)
        ensures
            final(s)@ == old(s)@ + self.spec_fields_text(),
    {
        push_str(s, "base: ");
        push_str(s, self.base.to_text().as_str());
        push_str(s, ", endianness: ");
        push_str(s, self.endianness.to_text().as_str());
        push_str(s, ", bit_width: ");
        push_str(s, self.bit_width.to_text().as_str());
        push_str(s, ", group_size: ");
        push_str(s, self.group_size.to_text().as_str());
        push_str(s, ", groups_per_line: ");
        push_zero_padded(s, self.groups_per_line as u64, 10, 0);
        push_str(s, ", hide_duplicate_lines: ");
        push_bool(s, self.hide_duplicate_lines);
        assert(s@ =~= old(s)@ + self.spec_fields_text());
    }

    /// Description of the configuration.
    pub fn to_text(&self) -> (r: String)
        ensures
            r@ == self.spec_text(),
    {
        let mut r = String::from_str("RhexdumpConfig { ");
        self.push_fields_text(&mut r);
        push_str(&mut r, " }");
        assert(r@ =~= self.spec_text());
        r
    }
}

impl Default for RhexdumpConfig {
    fn default() -> (r: Self)
        ensures
            r == RhexdumpConfig::spec_default(),
    {
        RhexdumpConfig {
            base: Base::Hex,
            endianness: Endianness::LittleEndian,
            bit_width: BitWidth::BW32,
            group_size: GroupSize::Byte,
            groups_per_line: 16,
            bytes_per_line: 16,
            hide_duplicate_lines: false,
        }
    }
}

/// Types that carry a configuration.
pub trait RhexdumpGetConfig {
    /// The configuration carried.
    spec fn spec_config(&self) -> RhexdumpConfig;

    /// Returns the configuration carried.
    fn get_config(&self) -> (r: RhexdumpConfig)
        ensures
            r == self.spec_config(),
    ;

    /// Returns the total size of a formatted line, line terminator included.
    fn get_size_line(&self) -> (r: usize)
        requires
            self.spec_config().wf(),
        ensures
            r as nat == self.spec_config().size_line(),
    {
        let config = self.get_config();
        let width = config.group_size.get_size(config.base);
        assert((width + 1) * config.groups_per_line <= 65 * MAX_GROUPS_PER_LINE) by (nonlinear_arith)
            requires
                width <= 64,
                config.groups_per_line <= MAX_GROUPS_PER_LINE,
        ;
        assert(config.bytes_per_line <= 8 * MAX_GROUPS_PER_LINE) by (nonlinear_arith)
            requires
                config.bytes_per_line == config.group_size.spec_bytes() * config.groups_per_line,
                config.group_size.spec_bytes() <= 8,
                config.groups_per_line <= MAX_GROUPS_PER_LINE,
        ;
        let ascii_hex_len = config.bit_width.digits() + 1 + (width + 1) * config.groups_per_line;
        ascii_hex_len + 2 + config.bytes_per_line + 1
    }
}

} // verus!
