//! A default configuration that callers hold and pass around, with a way to replace it.

use vstd::prelude::*;

use crate::config::RhexdumpConfig;
use crate::hexdump::{RhexdumpStdout, RhexdumpString};
use crate::iter::{dump_lines, lines_text};

verus! {

/// The configuration used by dumps that are not given one.
pub struct DefaultConfig {
    config: RhexdumpConfig,
}

impl DefaultConfig {
    pub closed spec fn spec_config(&self) -> RhexdumpConfig {
        self.config
    }

    pub closed spec fn wf(&self) -> bool {
        self.config.wf()
    }

    /// Starts from the default configuration.
    pub fn new() -> (r: Self)
        ensures
            r.wf(),
            r.spec_config() == RhexdumpConfig::spec_default(),
    {
        DefaultConfig { config: RhexdumpConfig::default() }
    }

    /// Replaces the configuration.
    pub fn install(&mut self, config: RhexdumpConfig)
        requires
            config.wf(),
        ensures
            final(self).wf(),
            final(self).spec_config() == config,
    {
        self.config = config;
    }

    /// The configuration held.
    pub fn config(&self) -> (r: RhexdumpConfig)
        ensures
            r == self.spec_config(),
    {
        self.config
    }

    /// The dump of `data` as a string, with the configuration held.
    pub fn rhexdumps(&self, data: &[u8]) -> (r: String)
        requires
            self.wf(),
        ensures
            r@ == lines_text(dump_lines(self.spec_config(), 0, data@)),
    {
        RhexdumpString::with_config(self.config).hexdump_bytes(data)
    }

    /// The dump of `data` as a string, offsets counted from `offset`.
    pub fn rhexdumps_offset(&self, data: &[u8], offset: u64) -> (r: String)
        requires
            self.wf(),
        ensures
            r@ == lines_text(dump_lines(self.spec_config(), offset, data@)),
    {
        RhexdumpString::with_config(self.config).hexdump_bytes_offset(data, offset)
    }

    /// The text to print for `data`, with the configuration held.
    pub fn rhexdump(&self, data: &[u8]) -> (r: String)
        requires
            self.wf(),
        ensures
            r@ == lines_text(dump_lines(self.spec_config(), 0, data@)),
    {
        RhexdumpStdout::with_config(self.config).hexdump_bytes(data)
    }

    /// The text to print for `data`, offsets counted from `offset`.
    pub fn rhexdump_offset(&self, data: &[u8], offset: u64) -> (r: String)
        requires
            self.wf(),
        ensures
            r@ == lines_text(dump_lines(self.spec_config(), offset, data@)),
    {
        RhexdumpStdout::with_config(self.config).hexdump_bytes_offset(data, offset)
    }
}

} // verus!
