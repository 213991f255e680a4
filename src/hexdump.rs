//! Dumpers: to a byte sink, to a string, and to the text meant for the standard output.

use vstd::prelude::*;
use vstd::string::StringExecFns;

use crate::config::{RhexdumpConfig, RhexdumpGetConfig};
use crate::iter::{
    dump_lines, lines_bytes, lines_text, write_line, RhexdumpIter, RhexdumpStdoutIter,
    RhexdumpStringIter,
};
use crate::render::{push_char, push_str};

verus! {

/// Appends the text of every line still to come from `it`, each followed by a line feed.
fn collect_text(it: &mut RhexdumpStringIter, out: &mut String)
    requires
        old(it).wf(),
    ensures
        final(out)@ == old(out)@ + lines_text(old(it).remaining()),
{
    loop
        invariant
            it.wf(),
            old(out)@ + lines_text(old(it).remaining()) == out@ + lines_text(it.remaining()),
        decreases it.remaining().len(),
    {
        match it.next() {
            Some(line) => {
                assert((seq![line@] + it.remaining()).drop_first() =~= it.remaining());
                push_str(out, line.as_str());
                push_char(out, '\n');
                assert(out@ + lines_text(it.remaining()) =~= old(out)@ + lines_text(old(it).remaining()));
            },
            None => {
                assert(out@ =~= old(out)@ + lines_text(old(it).remaining()));
                return;
            },
        }
    }
}

/// Writes every line still to come from `it` to `dst`, each followed by a line feed.
fn collect_bytes(it: &mut RhexdumpStringIter, dst: &mut Vec<u8>)
    requires
        old(it).wf(),
    ensures
        final(dst)@ == old(dst)@ + lines_bytes(old(it).remaining()),
{
    loop
        invariant
            it.wf(),
            old(dst)@ + lines_bytes(old(it).remaining()) == dst@ + lines_bytes(it.remaining()),
        decreases it.remaining().len(),
    {
        match it.next() {
            Some(line) => {
                assert((seq![line@] + it.remaining()).drop_first() =~= it.remaining());
                write_line(dst, &line);
                assert(dst@ + lines_bytes(it.remaining()) =~= old(dst)@ + lines_bytes(old(it).remaining()));
            },
            None => {
                assert(dst@ =~= old(dst)@ + lines_bytes(old(it).remaining()));
                return;
            },
        }
    }
}

/// The text of the dump of `src`, each line followed by a line feed.
fn dump_text(config: RhexdumpConfig, src: &[u8], offset: u64) -> (r: String)
    requires
        config.wf(),
    ensures
        r@ == lines_text(dump_lines(config, offset, src@)),
{
    let mut it = RhexdumpStringIter::new(RhexdumpString::with_config(config), src).offset(offset);
    let mut out = String::new();
    collect_text(&mut it, &mut out);
    assert(out@ =~= lines_text(dump_lines(config, offset, src@)));
    out
}

/// Dumper that writes its lines to a byte sink.
#[derive(Copy, Clone, PartialEq, Eq, Structural, Hash, Debug)]
pub struct Rhexdump {
    config: RhexdumpConfig,
}

impl Rhexdump {
    /// A dumper with the default configuration.
    pub fn new() -> (r: Self)
        ensures
            r.spec_config() == RhexdumpConfig::spec_default(),
    {
        Rhexdump { config: RhexdumpConfig::default() }
    }

    /// A dumper with the configuration `config`.
    pub fn with_config(config: RhexdumpConfig) -> (r: Self)
        ensures
            r.spec_config() == config,
    {
        Rhexdump { config }
    }

    /// Writes the dump of `src` to `dst`, offsets counted from `offset`, each line followed by
    /// a line feed.
    pub fn hexdump_offset(&self, dst: &mut Vec<u8>, src: &[u8], offset: u64)
        requires
            self.spec_config().wf(),
        ensures
            final(dst)@ == old(dst)@ + lines_bytes(dump_lines(self.spec_config(), offset, src@)),
    {
        let mut it = RhexdumpStringIter::new(*self, src).offset(offset);
        collect_bytes(&mut it, dst);
    }

    /// Writes the dump of `src` to `dst`, offsets counted from zero.
    pub fn hexdump(&self, dst: &mut Vec<u8>, src: &[u8])
        requires
            self.spec_config().wf(),
        ensures
            final(dst)@ == old(dst)@ + lines_bytes(dump_lines(self.spec_config(), 0, src@)),
    {
        self.hexdump_offset(dst, src, 0)
    }

    /// An iterator that writes one line of the dump of `src` to `dst` at each step.
    pub fn iter<'w>(&self, dst: &'w mut Vec<u8>, src: &[u8]) -> (r: RhexdumpIter<'w>)
        requires
            self.spec_config().wf(),
        ensures
            r.wf(),
            r.sink() == old(dst)@,
            r.remaining() == dump_lines(self.spec_config(), 0, src@),
    {
        RhexdumpIter::new(*self, dst, src)
    }
}

impl Rhexdump {
    /// Description of the dumper's configuration.
    pub fn to_text(&self) -> (r: String)
        ensures
            r@ == "Rhexdump { "@ + self.spec_config().spec_fields_text() + " }"@,
    {
        let mut r = String::from_str("Rhexdump { ");
        self.config.push_fields_text(&mut r);
        push_str(&mut r, " }");
        r
    }
}

impl RhexdumpGetConfig for Rhexdump {
    closed spec fn spec_config(&self) -> RhexdumpConfig {
        self.config
    }

    fn get_config(&self) -> (r: RhexdumpConfig) {
        self.config
    }
}

impl Default for Rhexdump {
    fn default() -> (r: Self)
        ensures
            r.spec_config() == RhexdumpConfig::spec_default(),
    {
        Rhexdump::new()
    }
}

/// Dumper that renders to strings.
#[derive(Copy, Clone, PartialEq, Eq, Structural, Hash, Debug)]
pub struct RhexdumpString {
    config: RhexdumpConfig,
}

impl RhexdumpString {
    /// A dumper with the default configuration.
    pub fn new() -> (r: Self)
        ensures
            r.spec_config() == RhexdumpConfig::spec_default(),
    {
        RhexdumpString { config: RhexdumpConfig::default() }
    }

    /// A dumper with the configuration `config`.
    pub fn with_config(config: RhexdumpConfig) -> (r: Self)
        ensures
            r.spec_config() == config,
    {
        RhexdumpString { config }
    }

    /// The dump of the source `src`, offsets counted from `offset`, each line followed by a
    /// line feed.
    pub fn hexdump_offset(&self, src: &[u8], offset: u64) -> (r: String)
        requires
            self.spec_config().wf(),
        ensures
            r@ == lines_text(dump_lines(self.spec_config(), offset, src@)),
    {
        dump_text(self.config, src, offset)
    }

    /// The dump of the source `src`, offsets counted from zero.
    pub fn hexdump(&self, src: &[u8]) -> (r: String)
        requires
            self.spec_config().wf(),
        ensures
            r@ == lines_text(dump_lines(self.spec_config(), 0, src@)),
    {
        dump_text(self.config, src, 0)
    }

    /// The dump of the bytes `src`, offsets counted from `offset`, each line followed by a
    /// line feed.
    pub fn hexdump_bytes_offset(&self, src: &[u8], offset: u64) -> (r: String)
        requires
            self.spec_config().wf(),
        ensures
            r@ == lines_text(dump_lines(self.spec_config(), offset, src@)),
    {
        dump_text(self.config, src, offset)
    }

    /// The dump of the bytes `src`, offsets counted from zero.
    pub fn hexdump_bytes(&self, src: &[u8]) -> (r: String)
        requires
            self.spec_config().wf(),
        ensures
            r@ == lines_text(dump_lines(self.spec_config(), 0, src@)),
    {
        dump_text(self.config, src, 0)
    }

    /// An iterator over the lines of the dump of `src`, without line terminators.
    pub fn iter(&self, src: &[u8]) -> (r: RhexdumpStringIter)
        requires
            self.spec_config().wf(),
        ensures
            r.wf(),
            r.spec_config() == self.spec_config(),
            r.remaining() == dump_lines(self.spec_config(), 0, src@),
    {
        RhexdumpStringIter::new(*self, src)
    }
}

impl RhexdumpString {
    /// Description of the dumper's configuration.
    pub fn to_text(&self) -> (r: String)
        ensures
            r@ == "RhexdumpString { "@ + self.spec_config().spec_fields_text() + " }"@,
    {
        let mut r = String::from_str("RhexdumpString { ");
        self.config.push_fields_text(&mut r);
        push_str(&mut r, " }");
        r
    }
}

impl RhexdumpGetConfig for RhexdumpString {
    closed spec fn spec_config(&self) -> RhexdumpConfig {
        self.config
    }

    fn get_config(&self) -> (r: RhexdumpConfig) {
        self.config
    }
}

impl Default for RhexdumpString {
    fn default() -> (r: Self)
        ensures
            r.spec_config() == RhexdumpConfig::spec_default(),
    {
        RhexdumpString::new()
    }
}

/// Dumper for the standard output: it renders the text that a program prints, line
/// terminators included; the printing itself belongs to the program.
#[derive(Copy, Clone, PartialEq, Eq, Structural, Hash, Debug)]
pub struct RhexdumpStdout {
    config: RhexdumpConfig,
}

impl RhexdumpStdout {
    /// A dumper with the default configuration.
    pub fn new() -> (r: Self)
        ensures
            r.spec_config() == RhexdumpConfig::spec_default(),
    {
        RhexdumpStdout { config: RhexdumpConfig::default() }
    }

    /// A dumper with the configuration `config`.
    pub fn with_config(config: RhexdumpConfig) -> (r: Self)
        ensures
            r.spec_config() == config,
    {
        RhexdumpStdout { config }
    }

    /// The text to print for the source `src`, offsets counted from `offset`.
    pub fn hexdump_offset(&self, src: &[u8], offset: u64) -> (r: String)
        requires
            self.spec_config().wf(),
        ensures
            r@ == lines_text(dump_lines(self.spec_config(), offset, src@)),
    {
        dump_text(self.config, src, offset)
    }

    /// The text to print for the source `src`, offsets counted from zero.
    pub fn hexdump(&self, src: &[u8]) -> (r: String)
        requires
            self.spec_config().wf(),
        ensures
            r@ == lines_text(dump_lines(self.spec_config(), 0, src@)),
    {
        dump_text(self.config, src, 0)
    }

    /// The text to print for the bytes `src`, offsets counted from `offset`.
    pub fn hexdump_bytes_offset(&self, src: &[u8], offset: u64) -> (r: String)
        requires
            self.spec_config().wf(),
        ensures
            r@ == lines_text(dump_lines(self.spec_config(), offset, src@)),
    {
        dump_text(self.config, src, offset)
    }

    /// The text to print for the bytes `src`, offsets counted from zero.
    pub fn hexdump_bytes(&self, src: &[u8]) -> (r: String)
        requires
            self.spec_config().wf(),
        ensures
            r@ == lines_text(dump_lines(self.spec_config(), 0, src@)),
    {
        dump_text(self.config, src, 0)
    }

    /// An iterator over the text to print for each line of the dump of `src`.
    pub fn iter(&self, src: &[u8]) -> (r: RhexdumpStdoutIter)
        requires
            self.spec_config().wf(),
        ensures
            r.wf(),
            r.remaining() == dump_lines(self.spec_config(), 0, src@),
    {
        RhexdumpStdoutIter::new(*self, src)
    }
}

impl RhexdumpStdout {
    /// Description of the dumper's configuration.
    pub fn to_text(&self) -> (r: String)
        ensures
            r@ == "RhexdumpStdout { "@ + self.spec_config().spec_fields_text() + " }"@,
    {
        let mut r = String::from_str("RhexdumpStdout { ");
        self.config.push_fields_text(&mut r);
        push_str(&mut r, " }");
        r
    }
}

impl RhexdumpGetConfig for RhexdumpStdout {
    closed spec fn spec_config(&self) -> RhexdumpConfig {
        self.config
    }

    fn get_config(&self) -> (r: RhexdumpConfig) {
        self.config
    }
}

impl Default for RhexdumpStdout {
    fn default() -> (r: Self)
        ensures
            r.spec_config() == RhexdumpConfig::spec_default(),
    {
        RhexdumpStdout::new()
    }
}

} // verus!
