//! The line renderer and the iterators over the lines of a dump.

use vstd::prelude::*;
use vstd::string::StringSliceAdditionalSpecFns;
use vstd::utf8::encode_utf8;

use crate::builder::BitWidth;
use crate::config::{RhexdumpConfig, RhexdumpGetConfig, MAX_GROUPS_PER_LINE};
use crate::detect::{
    finish, initial_state, kind_events, lemma_run_line, run, step, DetectParams, DetectState, Event, LineDetector,
    LineKind,
};
use crate::render::{
    ascii_of, group_max, lemma_digits_len_bound, lemma_group_max_monotone, lemma_group_max_values,
    pad_right, push_ascii, push_char, push_repeat, push_zero_padded, zero_padded, GroupFormat,
};

verus! {

/// The numeral encoding that `c` asks for.
pub open spec fn group_format_of(c: RhexdumpConfig) -> GroupFormat {
    GroupFormat {
        radix: c.base.spec_radix() as u64,
        big_endian: c.endianness.spec_is_big(),
        group_bytes: c.group_size.spec_bytes() as usize,
        width: c.group_width() as usize,
    }
}

/// The offset field: 8 hex digits of the offset modulo 2^32, or 16 hex digits.
pub open spec fn offset_text(bw: BitWidth, off: u64) -> Seq<char> {
    match bw {
        BitWidth::BW32 => zero_padded(off as nat % 0x1_0000_0000, 16, 8),
        BitWidth::BW64 => zero_padded(off as nat, 16, 16),
    }
}

/// One rendered line for the bytes `s` at offset `off`: the offset, `:`, the numeral field
/// padded to the width of a full line, two spaces, and the ASCII panel padded to the bytes of a
/// full line.
pub open spec fn render_line(c: RhexdumpConfig, off: u64, s: Seq<u8>) -> Seq<char> {
    offset_text(c.bit_width, off) + seq![':'] + pad_right(group_format_of(c).groups_text(s), c.raw_width())
        + seq![' ', ' '] + pad_right(ascii_of(s), c.bytes_per_line as nat)
}

/// The text of one event: the marker line `*`, or a rendered line.
pub open spec fn render_event(c: RhexdumpConfig, e: Event) -> Seq<char> {
    match e {
        None => seq!['*'],
        Some(x) => render_line(c, x.0, x.1),
    }
}

/// Detector parameters of a configuration and a base offset.
pub open spec fn params_of(c: RhexdumpConfig, base: u64) -> DetectParams {
    DetectParams {
        bytes_per_line: c.bytes_per_line,
        hide: c.hide_duplicate_lines,
        base_offset: base,
    }
}

/// Lines that remain from detector state `st` with the bytes `rest` still to read.
pub open spec fn lines_from(c: RhexdumpConfig, base: u64, st: DetectState, rest: Seq<u8>) -> Seq<
    Seq<char>,
> {
    render_all(c, run(params_of(c, base), st, rest))
}

/// The text of each event.
pub open spec fn render_all(c: RhexdumpConfig, es: Seq<Event>) -> Seq<Seq<char>> {
    es.map_values(|e: Event| render_event(c, e))
}

/// Rendering events one after the other renders their concatenation.
pub proof fn lemma_render_all_concat(c: RhexdumpConfig, a: Seq<Event>, b: Seq<Event>)
    ensures
        render_all(c, a + b) == render_all(c, a) + render_all(c, b),
{
    assert(render_all(c, a + b) =~= render_all(c, a) + render_all(c, b));
}

/// All lines of the dump of `data`, offsets counted from `base`.
pub open spec fn dump_lines(c: RhexdumpConfig, base: u64, data: Seq<u8>) -> Seq<Seq<char>> {
    lines_from(c, base, initial_state(), data)
}

/// Bytes written to a sink for one line: its UTF-8 encoding and a line feed.
pub open spec fn line_bytes(l: Seq<char>) -> Seq<u8> {
    encode_utf8(l) + seq![10u8]
}

/// Bytes written to a sink for the lines `ls`, in order.
pub open spec fn lines_bytes(ls: Seq<Seq<char>>) -> Seq<u8>
    decreases ls.len(),
{
    if ls.len() == 0 {
        Seq::empty()
    } else {
        line_bytes(ls[0]) + lines_bytes(ls.drop_first())
    }
}

/// Text of the lines `ls`, each followed by a line feed.
pub open spec fn lines_text(ls: Seq<Seq<char>>) -> Seq<char>
    decreases ls.len(),
{
    if ls.len() == 0 {
        Seq::empty()
    } else {
        ls[0] + seq!['\n'] + lines_text(ls.drop_first())
    }
}

/// Bytes per line are positive in a well-formed configuration.
pub proof fn lemma_bytes_per_line_positive(c: RhexdumpConfig)
    requires
        c.wf(),
    ensures
        c.bytes_per_line >= 1,
        c.bytes_per_line >= c.group_size.spec_bytes(),
{
    let g = c.group_size.spec_bytes();
    let n = c.groups_per_line as nat;
    assert(g * n >= g) by (nonlinear_arith)
        requires
            n >= 1,
    ;
}

/// Appends the text of a line to a byte sink, followed by a line feed.
pub fn write_line(dst: &mut Vec<u8>, line: &String)
    ensures
        final(dst)@ == old(dst)@ + line_bytes(line@),
{
    let ls = line.as_str();
    let b = ls.as_bytes();
    let mut i: usize = 0;
    while i < b.len()
        invariant
            i <= b@.len(),
            b@ == ls.spec_bytes(),
            dst@ == old(dst)@ + b@.take(i as int),
        decreases b@.len() - i,
    {
        dst.push(b[i]);
        i = i + 1;
        assert(dst@ =~= old(dst)@ + b@.take(i as int));
    }
    assert(b@.take(b@.len() as int) =~= b@);
    dst.push(10u8);
    assert(ls@ == line@);
    assert(dst@ =~= old(dst)@ + line_bytes(line@));
}

/// Appends the offset field.
fn push_offset(line: &mut String, bw: BitWidth, offset: u64)
    ensures
        final(line)@ == old(line)@ + offset_text(bw, offset),
{
    match bw {
        BitWidth::BW32 => push_zero_padded(line, offset % 0x1_0000_0000, 16, 8),
        BitWidth::BW64 => push_zero_padded(line, offset, 16, 16),
    }
}

/// Appends the numeral field of `data[start..end]`, padded to the width of `gpl` groups.
fn push_raw_field(line: &mut String, fmt: &GroupFormat, gpl: usize, data: &[u8], start: usize, end: usize)
    requires
        fmt.wf(),
        1 <= gpl <= MAX_GROUPS_PER_LINE,
        start <= end <= data@.len(),
        end - start <= fmt.group_bytes * gpl,
    ensures
        final(line)@ == old(line)@ + pad_right(
            fmt.groups_text(data@.subrange(start as int, end as int)),
            ((fmt.width + 1) * gpl) as nat,
        ),
{
    let ghost s = data@.subrange(start as int, end as int);
    fmt.push_groups(line, data, start, end);
    let len = end - start;
    let k = fmt.group_bytes;
    let w = fmt.width;
    proof {
        fmt.lemma_groups_text_len(s);
        lemma_group_max_monotone(fmt.group_bytes as nat, 8);
        lemma_group_max_values();
        lemma_digits_len_bound(group_max(fmt.group_bytes as nat), fmt.radix as nat);
        let (li, ki, gi, wi) = (len as int, k as int, gpl as int, w as int);
        assert(ki * gi <= 8 * 0x0100_0000) by (nonlinear_arith)
            requires
                1 <= ki <= 8,
                0 <= gi <= 0x0100_0000,
        ;
        assert((li + ki - 1) / ki <= gi) by (nonlinear_arith)
            requires
                1 <= ki,
                0 <= li <= ki * gi,
        ;
        assert(((li + ki - 1) / ki) * (wi + 1) <= (wi + 1) * gi) by (nonlinear_arith)
            requires
                (li + ki - 1) / ki <= gi,
                0 <= wi,
                1 <= ki,
                0 <= li,
        ;
        assert((wi + 1) * gi <= 65 * 0x0100_0000) by (nonlinear_arith)
            requires
                0 <= wi <= 64,
                0 <= gi <= 0x0100_0000,
        ;
    }
    let used = ((len + k - 1) / k) * (w + 1);
    let raw = (w + 1) * gpl;
    if used < raw {
        push_repeat(line, ' ', raw - used);
    }
    assert(line@ =~= old(line)@ + pad_right(fmt.groups_text(s), ((w + 1) * gpl) as nat));
}

/// Appends the ASCII panel of `data[start..end]`, padded to `width` characters.
fn push_ascii_field(line: &mut String, data: &[u8], start: usize, end: usize, width: usize)
    requires
        start <= end <= data@.len(),
    ensures
        final(line)@ == old(line)@ + pad_right(
            ascii_of(data@.subrange(start as int, end as int)),
            width as nat,
        ),
{
    push_ascii(line, data, start, end);
    let len = end - start;
    if len < width {
        push_repeat(line, ' ', width - len);
    }
    assert(line@ =~= old(line)@ + pad_right(
        ascii_of(data@.subrange(start as int, end as int)),
        width as nat,
    ));
}

/// Iterator over the rendered lines of a dump, without line terminators.
pub struct RhexdumpStringIter {
    config: RhexdumpConfig,
    data: Vec<u8>,
    pos: usize,
    detector: LineDetector,
}

impl RhexdumpStringIter {
    pub closed spec fn wf(&self) -> bool {
        &&& self.config.wf()
        &&& self.pos <= self.data@.len()
        &&& self.detector.params.bytes_per_line == self.config.bytes_per_line
        &&& self.detector.params.hide == self.config.hide_duplicate_lines
        &&& match self.detector.prev_line {
            Some(v) => v@.len() <= self.config.bytes_per_line,
            None => true,
        }
    }

    /// The configuration used.
    pub closed spec fn spec_config(&self) -> RhexdumpConfig {
        self.config
    }

    /// The offset of the first byte.
    pub closed spec fn spec_base(&self) -> u64 {
        self.detector.params.base_offset
    }

    /// The state of duplicate detection.
    pub closed spec fn spec_state(&self) -> DetectState {
        self.detector.state()
    }

    /// The bytes not read yet.
    pub closed spec fn spec_rest(&self) -> Seq<u8> {
        self.data@.skip(self.pos as int)
    }

    /// The lines still to come.
    pub open spec fn remaining(&self) -> Seq<Seq<char>> {
        lines_from(self.spec_config(), self.spec_base(), self.spec_state(), self.spec_rest())
    }

    /// Iterates over the lines of the dump of `src`, with the configuration of `rhx`.
    pub fn new<X: RhexdumpGetConfig>(rhx: X, src: &[u8]) -> (r: Self)
        requires
            rhx.spec_config().wf(),
        ensures
            r.wf(),
            r.spec_config() == rhx.spec_config(),
            r.spec_base() == 0,
            r.spec_state() == initial_state(),
            r.spec_rest() == src@,
            r.remaining() == dump_lines(rhx.spec_config(), 0, src@),
    {
        let config = rhx.get_config();
        let data = crate::detect::copy_range(src, 0, src.len());
        assert(data@.skip(0) =~= src@);
        RhexdumpStringIter {
            config,
            data,
            pos: 0,
            detector: LineDetector::new(config.bytes_per_line, config.hide_duplicate_lines, 0),
        }
    }

    /// Renders the bytes `data[start..end]` as the line at `offset`.
    pub fn format_line(config: &RhexdumpConfig, offset: u64, data: &[u8], start: usize, end: usize) -> (r:
        String)
        requires
            config.wf(),
            start <= end <= data@.len(),
            end - start <= config.bytes_per_line,
        ensures
            r@ == render_line(*config, offset, data@.subrange(start as int, end as int)),
    {
        let ghost s = data@.subrange(start as int, end as int);
        let fmt = GroupFormat::new(
            config.base.radix(),
            config.endianness.is_big(),
            config.group_size.bytes(),
        );
        assert(fmt == group_format_of(*config));
        let mut line = String::new();
        push_offset(&mut line, config.bit_width, offset);
        push_char(&mut line, ':');
        push_raw_field(&mut line, &fmt, config.groups_per_line, data, start, end);
        push_char(&mut line, ' ');
        push_char(&mut line, ' ');
        push_ascii_field(&mut line, data, start, end, config.bytes_per_line);
        assert(line@ =~= render_line(*config, offset, s));
        line
    }

    /// Sets the offset that the first byte is shown at.
    pub fn offset(self, offset: u64) -> (r: Self)
        requires
            self.wf(),
        ensures
            r.wf(),
            r.spec_config() == self.spec_config(),
            r.spec_base() == offset,
            r.spec_state() == self.spec_state(),
            r.spec_rest() == self.spec_rest(),
    {
        let mut s = self;
        s.detector.params.base_offset = offset;
        s
    }

    /// The next line, or `None` at the end of the dump.
    pub fn next(&mut self) -> (r: Option<String>)
        requires
            old(self).wf(),
        ensures
            final(self).wf(),
            final(self).spec_config() == old(self).spec_config(),
            final(self).spec_base() == old(self).spec_base(),
            match r {
                Some(l) => old(self).remaining() == seq![l@] + final(self).remaining(),
                None => old(self).remaining().len() == 0 && final(self).remaining().len() == 0,
            },
    {
        let ghost c = self.config;
        proof {
            lemma_bytes_per_line_positive(self.config);
        }
        loop
            invariant
                self.wf(),
                self.config == c,
                c == old(self).config,
                self.spec_base() == old(self).spec_base(),
                self.remaining() == old(self).remaining(),
                c.bytes_per_line >= 1,
            decreases self.data@.len() - self.pos,
        {
            let ghost p = self.detector.params;
            let ghost st = self.detector.state();
            if self.pos >= self.data.len() {
                assert(st.1 is Some ==> st.1->0.len() <= self.config.bytes_per_line);
                let done = self.detector.finish();
                proof {
                    assert(self.data@.skip(self.pos as int) =~= Seq::<u8>::empty());
                }
                match done {
                    Some((off, bytes)) => {
                        assert(finish(p, st).1[0] == Some((off, bytes@)));
                        assert(bytes@ == st.1->0);
                        let line = Self::format_line(&self.config, off, bytes.as_slice(), 0, bytes.len());
                        assert(bytes@.subrange(0, bytes@.len() as int) =~= bytes@);
                        assert(old(self).remaining() =~= seq![line@] + self.remaining());
                        return Some(line);
                    },
                    None => {
                        return None;
                    },
                }
            }
            let start = self.pos;
            let end = if self.data.len() - start < self.config.bytes_per_line {
                self.data.len()
            } else {
                start + self.config.bytes_per_line
            };
            proof {
                lemma_run_line(p, st, self.data@, start as int, end as int);
            }
            let kind = self.detector.step(self.data.as_slice(), start, end);
            self.pos = end;
            let ghost out = kind_events(kind, self.data@.subrange(start as int, end as int));
            assert(run(p, st, self.data@.skip(start as int)) == out + run(
                p,
                self.detector.state(),
                self.data@.skip(end as int),
            ));
            proof {
                lemma_render_all_concat(c, out, run(p, self.detector.state(), self.data@.skip(end as int)));
            }
            match kind {
                LineKind::Real(off) => {
                    let line = Self::format_line(&self.config, off, self.data.as_slice(), start, end);
                    assert(render_all(c, out) =~= seq![line@]);
                    return Some(line);
                },
                LineKind::Marker => {
                    let mut line = String::new();
                    push_char(&mut line, '*');
                    assert(render_all(c, out) =~= seq![line@]);
                    return Some(line);
                },
                LineKind::Hidden => {
                    assert(render_all(c, out) =~= Seq::<Seq<char>>::empty());
                },
            }
        }
    }
}


/// Iterator that writes one line of a dump, with a line feed, to a byte sink at each step.
pub struct RhexdumpIter<'w> {
    iter: RhexdumpStringIter,
    dst: &'w mut Vec<u8>,
}

impl<'w> RhexdumpIter<'w> {
    pub closed spec fn wf(&self) -> bool {
        self.iter.wf()
    }

    /// The bytes in the sink.
    pub closed spec fn sink(&self) -> Seq<u8> {
        self.dst@
    }

    /// The configuration used.
    pub closed spec fn spec_config(&self) -> RhexdumpConfig {
        self.iter.spec_config()
    }

    /// The offset of the first byte.
    pub closed spec fn spec_base(&self) -> u64 {
        self.iter.spec_base()
    }

    /// The state of duplicate detection.
    pub closed spec fn spec_state(&self) -> DetectState {
        self.iter.spec_state()
    }

    /// The bytes not read yet.
    pub closed spec fn spec_rest(&self) -> Seq<u8> {
        self.iter.spec_rest()
    }

    /// The lines still to come.
    pub open spec fn remaining(&self) -> Seq<Seq<char>> {
        lines_from(self.spec_config(), self.spec_base(), self.spec_state(), self.spec_rest())
    }

    /// Writes the lines of the dump of `src` to `dst`, with the configuration of `rhx`.
    pub fn new<X: RhexdumpGetConfig>(rhx: X, dst: &'w mut Vec<u8>, src: &[u8]) -> (r: Self)
        requires
            rhx.spec_config().wf(),
        ensures
            r.wf(),
            r.sink() == old(dst)@,
            r.spec_config() == rhx.spec_config(),
            r.spec_base() == 0,
            r.spec_state() == initial_state(),
            r.spec_rest() == src@,
            r.remaining() == dump_lines(rhx.spec_config(), 0, src@),
    {
        RhexdumpIter { iter: RhexdumpStringIter::new(rhx, src), dst }
    }

    /// Sets the offset that the first byte is shown at.
    pub fn offset(self, offset: u64) -> (r: Self)
        requires
            self.wf(),
        ensures
            r.wf(),
            r.sink() == self.sink(),
            r.spec_config() == self.spec_config(),
            r.spec_base() == offset,
            r.spec_state() == self.spec_state(),
            r.spec_rest() == self.spec_rest(),
    {
        let RhexdumpIter { iter, dst } = self;
        RhexdumpIter { iter: iter.offset(offset), dst }
    }

    /// Writes the next line; `None` at the end of the dump.
    pub fn next(&mut self) -> (r: Option<()>)
        requires
            old(self).wf(),
        ensures
            final(self).wf(),
            match r {
                Some(_) => old(self).remaining().len() > 0 && final(self).remaining()
                    == old(self).remaining().drop_first() && final(self).sink() == old(self).sink()
                    + line_bytes(old(self).remaining()[0]),
                None => old(self).remaining().len() == 0 && final(self).sink() == old(self).sink(),
            },
    {
        match self.iter.next() {
            Some(line) => {
                write_line(self.dst, &line);
                assert((seq![line@] + self.iter.remaining()).drop_first() =~= self.iter.remaining());
                Some(())
            },
            None => None,
        }
    }
}

/// Iterator over the text to print for each line of a dump, line feed included.
pub struct RhexdumpStdoutIter {
    iter: RhexdumpStringIter,
}

impl RhexdumpStdoutIter {
    pub closed spec fn wf(&self) -> bool {
        self.iter.wf()
    }

    /// The configuration used.
    pub closed spec fn spec_config(&self) -> RhexdumpConfig {
        self.iter.spec_config()
    }

    /// The offset of the first byte.
    pub closed spec fn spec_base(&self) -> u64 {
        self.iter.spec_base()
    }

    /// The state of duplicate detection.
    pub closed spec fn spec_state(&self) -> DetectState {
        self.iter.spec_state()
    }

    /// The bytes not read yet.
    pub closed spec fn spec_rest(&self) -> Seq<u8> {
        self.iter.spec_rest()
    }

    /// The lines still to come.
    pub open spec fn remaining(&self) -> Seq<Seq<char>> {
        lines_from(self.spec_config(), self.spec_base(), self.spec_state(), self.spec_rest())
    }

    /// Iterates over the lines of the dump of `src`, with the configuration of `rhx`.
    pub fn new<X: RhexdumpGetConfig>(rhx: X, src: &[u8]) -> (r: Self)
        requires
            rhx.spec_config().wf(),
        ensures
            r.wf(),
            r.spec_config() == rhx.spec_config(),
            r.spec_base() == 0,
            r.spec_state() == initial_state(),
            r.spec_rest() == src@,
            r.remaining() == dump_lines(rhx.spec_config(), 0, src@),
    {
        RhexdumpStdoutIter { iter: RhexdumpStringIter::new(rhx, src) }
    }

    /// Sets the offset that the first byte is shown at.
    pub fn offset(self, offset: u64) -> (r: Self)
        requires
            self.wf(),
        ensures
            r.wf(),
            r.spec_config() == self.spec_config(),
            r.spec_base() == offset,
            r.spec_state() == self.spec_state(),
            r.spec_rest() == self.spec_rest(),
    {
        RhexdumpStdoutIter { iter: self.iter.offset(offset) }
    }

    /// The next line followed by a line feed; `None` at the end of the dump.
    pub fn next(&mut self) -> (r: Option<String>)
        requires
            old(self).wf(),
        ensures
            final(self).wf(),
            match r {
                Some(t) => old(self).remaining().len() > 0 && final(self).remaining()
                    == old(self).remaining().drop_first() && t@ == old(self).remaining()[0]
                    + seq!['\n'],
                None => old(self).remaining().len() == 0,
            },
    {
        match self.iter.next() {
            Some(line) => {
                let mut t = line;
                push_char(&mut t, '\n');
                assert((seq![line@] + self.iter.remaining()).drop_first() =~= self.iter.remaining());
                Some(t)
            },
            None => None,
        }
    }
}

} // verus!
