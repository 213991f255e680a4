//! Dumps whose line layout is a template: `#[OFFSET]`, `#[RAW]` and `#[ASCII]` stand for the
//! offset, the numeral field and the ASCII panel; any other text is copied as it stands.

use vstd::prelude::*;
use vstd::string::StrSliceExecFns;

use crate::detect::{
    finish, initial_state, kind_events, lemma_run_line, run, step, DetectParams, DetectState, Event,
    LineDetector, LineKind,
};
use crate::render::{
    ascii_of, digits, group_count, group_max, lemma_digits_len_bound, lemma_group_max_monotone,
    lemma_group_max_values, pad_right, push_ascii, push_char, push_repeat, push_str,
    push_zero_padded, read_group, zero_padded, GroupFormat,
};

verus! {

/// Numeral bases.
#[derive(Copy, Clone, Debug, PartialEq, Eq, Structural)]
pub enum Base {
    Bin,
    Oct,
    Dec,
    Hex,
}

impl Base {
    pub open spec fn spec_radix(self) -> nat {
        match self {
            Base::Bin => 2,
            Base::Oct => 8,
            Base::Dec => 10,
            Base::Hex => 16,
        }
    }

    fn radix(&self) -> (r: u64)
        ensures
            r as nat == self.spec_radix(),
    {
        match self {
            Base::Bin => 2,
            Base::Oct => 8,
            Base::Dec => 10,
            Base::Hex => 16,
        }
    }
}

/// Endianness of the byte groups.
#[derive(Copy, Clone, Debug, PartialEq, Eq, Structural)]
pub enum Endianess {
    BigEndian,
    LittleEndian,
}

/// Kinds of information a template can show.
#[allow(non_camel_case_types)]
#[derive(Copy, Clone, Debug, PartialEq, Eq, Structural)]
pub enum FormatType {
    /// The line offset.
    OFFSET,
    /// The bytes, grouped and written in the chosen base.
    RAW,
    /// The ASCII panel of the bytes.
    ASCII,
}

/// Errors.
#[derive(Debug, PartialEq, Eq)]
pub enum RhexdumpError {
    /// A group size other than 1, 2, 4 or 8 bytes.
    InvalidArgument,
    /// A template names an unknown field.
    UnknownFormatType(String),
}

/// A parsed template: the fields in order, and the text around them. `separators` has one
/// more entry than `info`: the first is the prefix, the last the suffix.
pub struct Format {
    pub info: Vec<FormatType>,
    pub separators: Vec<String>,
}

impl Format {
    pub open spec fn spec_separators(&self) -> Seq<Seq<char>> {
        self.separators@.map_values(|t: String| t@)
    }

    pub open spec fn wf(&self) -> bool {
        self.separators@.len() == self.info@.len() + 1
    }
}

/// Opening mark of a field.
pub open spec fn open_mark() -> Seq<char> {
    seq!['#', '[']
}

/// Closing mark of a field.
pub open spec fn close_mark() -> Seq<char> {
    seq![']']
}

/// The field a name stands for.
pub open spec fn spec_field(name: Seq<char>) -> Option<FormatType> {
    if name == seq!['O', 'F', 'F', 'S', 'E', 'T'] {
        Some(FormatType::OFFSET)
    } else if name == seq!['R', 'A', 'W'] {
        Some(FormatType::RAW)
    } else if name == seq!['A', 'S', 'C', 'I', 'I'] {
        Some(FormatType::ASCII)
    } else {
        None
    }
}

/// First position at or after `i` where `pat` occurs in `s`.
pub open spec fn find_from(s: Seq<char>, pat: Seq<char>, i: int) -> Option<int>
    decreases s.len() + 1 - i,
{
    if i < 0 || i + pat.len() > s.len() {
        None
    } else if s.subrange(i, i + pat.len()) == pat {
        Some(i)
    } else {
        find_from(s, pat, i + 1)
    }
}

/// A match lies at or after the start and within the text.
pub proof fn lemma_find_from_range(s: Seq<char>, pat: Seq<char>, i: int)
    ensures
        find_from(s, pat, i) matches Some(j) ==> i <= j && j + pat.len() <= s.len() && s.subrange(
            j,
            j + pat.len(),
        ) == pat,
    decreases s.len() + 1 - i,
{
    if !(i < 0 || i + pat.len() > s.len()) && s.subrange(i, i + pat.len()) != pat {
        lemma_find_from_range(s, pat, i + 1);
    }
}

/// The template `s` parsed from position `off`: fields and separators, or the unknown name.
pub open spec fn parse_from(s: Seq<char>, off: int) -> Result<(Seq<FormatType>, Seq<Seq<char>>), Seq<char>>
    decreases s.len() - off,
{
    if off < 0 || off > s.len() {
        Ok((Seq::empty(), seq![Seq::empty()]))
    } else {
        match find_from(s, open_mark(), off) {
            None => Ok((Seq::empty(), seq![s.subrange(off, s.len() as int)])),
            Some(a) => match find_from(s, close_mark(), a) {
                None => Ok((Seq::empty(), seq![s.subrange(off, s.len() as int)])),
                Some(b) => {
                    let name = s.subrange(a + 2, b);
                    match spec_field(name) {
                        None => Err(name),
                        Some(f) => {
                            proof {
                                lemma_find_from_range(s, close_mark(), a);
                                lemma_find_from_range(s, open_mark(), off);
                            }
                            match parse_from(s, b + 1) {
                                Ok(rest) => Ok(
                                    (seq![f] + rest.0, seq![s.subrange(off, a)] + rest.1),
                                ),
                                Err(e) => Err(e),
                            }
                        },
                    }
                },
            },
        }
    }
}

/// The template `s` parsed.
pub open spec fn parse_template(s: Seq<char>) -> Result<(Seq<FormatType>, Seq<Seq<char>>), Seq<char>> {
    parse_from(s, 0)
}

/// Whether `pat` occurs in `s` at `i`.
fn matches_at(s: &Vec<char>, pat: &Vec<char>, i: usize) -> (r: bool)
    requires
        i + pat@.len() <= s@.len(),
    ensures
        r == (s@.subrange(i as int, i + pat@.len()) == pat@),
{
    let n = s.len();
    let mut j: usize = 0;
    while j < pat.len()
        invariant
            n == s@.len(),
            i + pat@.len() <= s@.len(),
            j <= pat@.len(),
            forall|k: int| 0 <= k < j ==> s@[i + k] == pat@[k],
        decreases pat@.len() - j,
    {
        if s[i + j] != pat[j] {
            assert(s@.subrange(i as int, i + pat@.len())[j as int] != pat@[j as int]);
            return false;
        }
        j = j + 1;
    }
    assert(s@.subrange(i as int, i + pat@.len()) =~= pat@);
    true
}

/// First position at or after `from` where `pat` occurs in `s`.
fn find(s: &Vec<char>, pat: &Vec<char>, from: usize) -> (r: Option<usize>)
    requires
        pat@.len() >= 1,
    ensures
        match r {
            Some(j) => find_from(s@, pat@, from as int) == Some(j as int),
            None => find_from(s@, pat@, from as int) is None,
        },
{
    if pat.len() > s.len() {
        return None;
    }
    let mut i = from;
    while i <= s.len() - pat.len()
        invariant
            1 <= pat@.len() <= s@.len(),
            from <= i,
            find_from(s@, pat@, from as int) == find_from(s@, pat@, i as int),
        decreases s@.len() - i,
    {
        if matches_at(s, pat, i) {
            return Some(i);
        }
        i = i + 1;
    }
    None
}

/// The characters `s[a..b]` as a string.
fn string_of(s: &Vec<char>, a: usize, b: usize) -> (r: String)
    requires
        a <= b <= s@.len(),
    ensures
        r@ == s@.subrange(a as int, b as int),
{
    let mut t = String::new();
    let mut i = a;
    while i < b
        invariant
            a <= i <= b <= s@.len(),
            t@ == s@.subrange(a as int, i as int),
        decreases b - i,
    {
        push_char(&mut t, s[i]);
        i = i + 1;
        assert(t@ =~= s@.subrange(a as int, i as int));
    }
    t
}

/// The field named by `s[a..b]`.
fn field_at(s: &Vec<char>, a: usize, b: usize) -> (r: Option<FormatType>)
    requires
        a <= b <= s@.len(),
    ensures
        r == spec_field(s@.subrange(a as int, b as int)),
{
    let ghost name = s@.subrange(a as int, b as int);
    let offset_name = vec!['O', 'F', 'F', 'S', 'E', 'T'];
    let raw_name = vec!['R', 'A', 'W'];
    let ascii_name = vec!['A', 'S', 'C', 'I', 'I'];
    if b - a == 6 && matches_at(s, &offset_name, a) {
        assert(name =~= seq!['O', 'F', 'F', 'S', 'E', 'T']);
        return Some(FormatType::OFFSET);
    }
    if b - a == 3 && matches_at(s, &raw_name, a) {
        assert(name =~= seq!['R', 'A', 'W']);
        return Some(FormatType::RAW);
    }
    if b - a == 5 && matches_at(s, &ascii_name, a) {
        assert(name =~= seq!['A', 'S', 'C', 'I', 'I']);
        return Some(FormatType::ASCII);
    }
    assert(name != seq!['O', 'F', 'F', 'S', 'E', 'T']) by {
        if b - a == 6 {
            assert(s@.subrange(a as int, a + 6) == name);
        }
    }
    assert(name != seq!['R', 'A', 'W']) by {
        if b - a == 3 {
            assert(s@.subrange(a as int, a + 3) == name);
        }
    }
    assert(name != seq!['A', 'S', 'C', 'I', 'I']) by {
        if b - a == 5 {
            assert(s@.subrange(a as int, a + 5) == name);
        }
    }
    None
}

/// The characters of a string slice.
fn chars_of(t: &str) -> (r: Vec<char>)
    ensures
        r@ == t@,
{
    let n = t.unicode_len();
    let mut v: Vec<char> = Vec::new();
    let mut i: usize = 0;
    while i < n
        invariant
            n == t@.len(),
            i <= n,
            v@ == t@.take(i as int),
        decreases n - i,
    {
        v.push(t.get_char(i));
        i = i + 1;
        assert(v@ =~= t@.take(i as int));
    }
    assert(t@.take(n as int) =~= t@);
    v
}


/// A parse result with `info` and `seps` put before its fields and separators.
pub open spec fn prepend(
    info: Seq<FormatType>,
    seps: Seq<Seq<char>>,
    r: Result<(Seq<FormatType>, Seq<Seq<char>>), Seq<char>>,
) -> Result<(Seq<FormatType>, Seq<Seq<char>>), Seq<char>> {
    match r {
        Ok(x) => Ok((info + x.0, seps + x.1)),
        Err(e) => Err(e),
    }
}

/// Parses a template: the fields `#[OFFSET]`, `#[RAW]` and `#[ASCII]` and the separators
/// between them; an unknown name between `#[` and `]` is an error.
fn parse_format(fmt: &str) -> (r: Result<Format, RhexdumpError>)
    ensures
        match parse_template(fmt@) {
            Ok(x) => r matches Ok(f) && f.info@ == x.0 && f.spec_separators() == x.1 && f.wf(),
            Err(name) => r matches Err(RhexdumpError::UnknownFormatType(n)) && n@ == name,
        },
{
    let s = chars_of(fmt);
    let n = s.len();
    let open = vec!['#', '['];
    let close = vec![']'];
    assert(open@ =~= open_mark());
    assert(close@ =~= close_mark());
    let mut offset: usize = 0;
    let mut info: Vec<FormatType> = Vec::new();
    let mut separators: Vec<String> = Vec::new();
    loop
        invariant
            n == s@.len(),
            s@ == fmt@,
            open@ == open_mark(),
            close@ == close_mark(),
            offset <= s@.len(),
            separators@.len() == info@.len(),
            parse_template(s@) == prepend(
                info@,
                separators@.map_values(|t: String| t@),
                parse_from(s@, offset as int),
            ),
        ensures
            offset <= s@.len(),
            separators@.len() == info@.len(),
            parse_template(s@) == prepend(
                info@,
                separators@.map_values(|t: String| t@),
                parse_from(s@, offset as int),
            ),
            parse_from(s@, offset as int) == Ok::<(Seq<FormatType>, Seq<Seq<char>>), Seq<char>>(
                (Seq::<FormatType>::empty(), seq![s@.subrange(offset as int, s@.len() as int)]),
            ),
        decreases s@.len() - offset,
    {
        let ghost seps = separators@.map_values(|t: String| t@);
        let a = match find(&s, &open, offset) {
            Some(a) => a,
            None => break,
        };
        proof {
            lemma_find_from_range(s@, open_mark(), offset as int);
        }
        let b = match find(&s, &close, a) {
            Some(b) => b,
            None => break,
        };
        proof {
            lemma_find_from_range(s@, close_mark(), a as int);
            if b < a + 2 {
                assert(s@.subrange(a as int, a + 2) == open_mark());
                assert(s@[b as int] == s@.subrange(b as int, b + 1)[0]);
                if b == a {
                    assert(s@[b as int] == '#');
                } else {
                    assert(s@[b as int] == '[');
                }
                assert(s@.subrange(b as int, b + 1)[0] == ']');
            }
        }
        match field_at(&s, a + 2, b) {
            None => {
                let name = string_of(&s, a + 2, b);
                return Err(RhexdumpError::UnknownFormatType(name));
            },
            Some(f) => {
                let sep = string_of(&s, offset, a);
                let ghost sep_view = sep@;
                let ghost info_old = info@;
                separators.push(sep);
                info.push(f);
                proof {
                    let r = parse_from(s@, b + 1);
                    assert(parse_from(s@, offset as int) == prepend(seq![f], seq![sep_view], r));
                    assert(separators@.map_values(|t: String| t@) =~= seps + seq![sep_view]);
                    assert(info@ =~= info_old + seq![f]);
                    match r {
                        Ok(x) => {
                            assert(info_old + (seq![f] + x.0) =~= info@ + x.0);
                            assert(seps + (seq![sep_view] + x.1) =~= (seps + seq![sep_view]) + x.1);
                        },
                        Err(e) => {},
                    }
                    assert(prepend(info_old, seps, prepend(seq![f], seq![sep_view], r)) == prepend(
                        info@,
                        separators@.map_values(|t: String| t@),
                        r,
                    ));
                }
                offset = b + 1;
            },
        }
    }
    let last = string_of(&s, offset, s.len());
    let ghost last_view = last@;
    let ghost seps = separators@.map_values(|t: String| t@);
    separators.push(last);
    assert(separators@.map_values(|t: String| t@) =~= seps + seq![last_view]);
    assert(info@ + Seq::<FormatType>::empty() =~= info@);
    Ok(Format { info, separators })
}


/// The text of a template filled in: each separator followed by its field, then the suffix.
pub open spec fn fill(
    info: Seq<FormatType>,
    seps: Seq<Seq<char>>,
    offset: Seq<char>,
    raw: Seq<char>,
    ascii: Seq<char>,
) -> Seq<char>
    decreases info.len(),
{
    if seps.len() == 0 {
        Seq::empty()
    } else if info.len() == 0 {
        seps[0]
    } else {
        seps[0] + match info[0] {
            FormatType::OFFSET => offset,
            FormatType::RAW => raw,
            FormatType::ASCII => ascii,
        } + fill(info.drop_first(), seps.drop_first(), offset, raw, ascii)
    }
}

/// Lines joined by line feeds, with no line feed after the last.
pub open spec fn joined(ls: Seq<Seq<char>>) -> Seq<char> {
    if ls.len() == 0 {
        Seq::empty()
    } else {
        ls[0] + each_after_newline(ls.drop_first())
    }
}

/// Each line preceded by a line feed.
pub open spec fn each_after_newline(ls: Seq<Seq<char>>) -> Seq<char>
    decreases ls.len(),
{
    if ls.len() == 0 {
        Seq::empty()
    } else {
        seq!['\n'] + ls[0] + each_after_newline(ls.drop_first())
    }
}

/// Group sizes that a dump accepts.
pub open spec fn valid_group(n: u8) -> bool {
    n == 1 || n == 2 || n == 4 || n == 8
}

/// Settings of a template-based dump.
pub struct Rhexdump {
    /// Numeral base of the groups.
    pub base: Base,
    /// Endianness of the groups.
    pub endianess: Endianess,
    /// Layout of a line.
    pub format: Format,
    /// Bytes per group: 1, 2, 4 or 8.
    pub bytes_per_group: u8,
    /// Bytes per line, at least one.
    pub bytes_per_line: u8,
    /// Whether runs of duplicate lines are shown in full.
    pub display_duplicate_lines: bool,
}

impl Rhexdump {
    pub open spec fn wf(&self) -> bool {
        &&& valid_group(self.bytes_per_group)
        &&& self.bytes_per_line >= 1
        &&& self.format.wf()
    }

    /// Whether the settings are well formed.
    pub fn is_valid(&self) -> (r: bool)
        ensures
            r == self.wf(),
    {
        let g = self.bytes_per_group;
        (g == 1 || g == 2 || g == 4 || g == 8) && self.bytes_per_line >= 1
            && self.format.info.len() < self.format.separators.len()
            && self.format.separators.len() - 1 == self.format.info.len()
    }

    /// The numeral encoding of the groups.
    pub open spec fn group_format(&self) -> GroupFormat {
        GroupFormat {
            radix: self.base.spec_radix() as u64,
            big_endian: self.endianess == Endianess::BigEndian,
            group_bytes: self.bytes_per_group as usize,
            width: digits(group_max(self.bytes_per_group as nat), self.base.spec_radix()).len() as usize,
        }
    }

    /// Characters of the numeral field of a full line.
    pub open spec fn raw_width(&self) -> nat {
        (group_count(self.bytes_per_line as nat, self.bytes_per_group as nat) * (
        self.group_format().width + 1) - 1) as nat
    }

    /// The numeral field of `s`: its numerals separated by single spaces.
    pub open spec fn spec_raw(&self, s: Seq<u8>) -> Seq<char> {
        self.group_format().groups_text(s).skip(1)
    }

    /// The line for the bytes `s` at offset `off`.
    pub open spec fn render(&self, off: u64, s: Seq<u8>) -> Seq<char> {
        fill(
            self.format.info@,
            self.format.spec_separators(),
            zero_padded(off as nat % 0x1_0000_0000, 16, 8),
            pad_right(self.spec_raw(s), self.raw_width()),
            pad_right(ascii_of(s), self.bytes_per_line as nat),
        )
    }

    /// The text of one event: the marker line, or a rendered line.
    pub open spec fn render_event(&self, e: Event) -> Seq<char> {
        match e {
            None => seq!['*'],
            Some(x) => self.render(x.0, x.1),
        }
    }

    /// Detector parameters for offsets counted from `base`.
    pub open spec fn params(&self, base: u32) -> DetectParams {
        DetectParams {
            bytes_per_line: self.bytes_per_line as usize,
            hide: !self.display_duplicate_lines,
            base_offset: base as u64,
        }
    }

    /// The lines of the dump of `data`, from detector state `st`.
    pub open spec fn lines_from(&self, base: u32, st: DetectState, data: Seq<u8>) -> Seq<Seq<char>> {
        run(self.params(base), st, data).map_values(|e: Event| self.render_event(e))
    }

    /// The lines of the dump of `data`, offsets counted from `base`.
    pub open spec fn lines(&self, base: u32, data: Seq<u8>) -> Seq<Seq<char>> {
        self.lines_from(base, initial_state(), data)
    }

    /// Default settings: hexadecimal, little endian, single-byte groups, 16 bytes per line,
    /// duplicates shown, layout `#[OFFSET]: #[RAW] | #[ASCII]`.
    pub open spec fn is_default(&self) -> bool {
        &&& self.base == Base::Hex
        &&& self.endianess == Endianess::LittleEndian
        &&& self.bytes_per_group == 1
        &&& self.bytes_per_line == 16
        &&& self.display_duplicate_lines
        &&& self.format.info@ == seq![FormatType::OFFSET, FormatType::RAW, FormatType::ASCII]
        &&& self.format.spec_separators() == seq![
            Seq::<char>::empty(),
            seq![':', ' '],
            seq![' ', '|', ' '],
            Seq::<char>::empty(),
        ]
    }

    /// Creates a dump with the given settings; the layout is parsed from `format`.
    pub fn new(
        base: Base,
        endianess: Endianess,
        bytes_per_group: u8,
        bytes_per_line: u8,
        display_duplicate_lines: bool,
        format: &str,
    ) -> (r: Result<Self, RhexdumpError>)
        ensures
            !valid_group(bytes_per_group) ==> (r matches Err(RhexdumpError::InvalidArgument)),
            valid_group(bytes_per_group) ==> match parse_template(format@) {
                Ok(x) => r matches Ok(d) && d.wf() && d.base == base && d.endianess == endianess
                    && d.bytes_per_group == bytes_per_group && d.bytes_per_line == (if bytes_per_line
                    == 0 {
                    1
                } else {
                    bytes_per_line
                }) && d.display_duplicate_lines == display_duplicate_lines && d.format.info@ == x.0
                    && d.format.spec_separators() == x.1,
                Err(name) => r matches Err(RhexdumpError::UnknownFormatType(n)) && n@ == name,
            },
    {
        if !(bytes_per_group == 1 || bytes_per_group == 2 || bytes_per_group == 4 || bytes_per_group
            == 8) {
            return Err(RhexdumpError::InvalidArgument);
        }
        let format = match Self::format_parse(format) {
            Ok(f) => f,
            Err(e) => return Err(e),
        };
        Ok(Rhexdump {
            base,
            endianess,
            format,
            bytes_per_group,
            bytes_per_line: if bytes_per_line == 0 {
                1
            } else {
                bytes_per_line
            },
            display_duplicate_lines,
        })
    }

    /// Parses a template.
    fn format_parse(fmt: &str) -> (r: Result<Format, RhexdumpError>)
        ensures
            match parse_template(fmt@) {
                Ok(x) => r matches Ok(f) && f.info@ == x.0 && f.spec_separators() == x.1 && f.wf(),
                Err(name) => r matches Err(RhexdumpError::UnknownFormatType(n)) && n@ == name,
            },
    {
        parse_format(fmt)
    }

    /// Sets the numeral base.
    pub fn set_base(&mut self, base: Base)
        ensures
            final(self).base == base,
            final(self).endianess == old(self).endianess,
            final(self).format == old(self).format,
            final(self).bytes_per_group == old(self).bytes_per_group,
            final(self).bytes_per_line == old(self).bytes_per_line,
            final(self).display_duplicate_lines == old(self).display_duplicate_lines,
    {
        self.base = base;
    }

    /// Sets the bytes per group; sizes other than 1, 2, 4 and 8 are refused and change
    /// nothing.
    pub fn set_bytes_per_group(&mut self, size: u8) -> (r: Result<(), RhexdumpError>)
        ensures
            valid_group(size) ==> r is Ok && final(self).bytes_per_group == size,
            !valid_group(size) ==> (r matches Err(RhexdumpError::InvalidArgument))
                && final(self).bytes_per_group == old(self).bytes_per_group,
            final(self).base == old(self).base,
            final(self).endianess == old(self).endianess,
            final(self).format == old(self).format,
            final(self).bytes_per_line == old(self).bytes_per_line,
            final(self).display_duplicate_lines == old(self).display_duplicate_lines,
    {
        if !(size == 1 || size == 2 || size == 4 || size == 8) {
            return Err(RhexdumpError::InvalidArgument);
        }
        self.bytes_per_group = size;
        Ok(())
    }

    /// Sets the bytes per line; zero is taken as one.
    pub fn set_bytes_per_line(&mut self, count: u8)
        ensures
            final(self).bytes_per_line == if count == 0 {
                1
            } else {
                count
            },
            final(self).base == old(self).base,
            final(self).endianess == old(self).endianess,
            final(self).format == old(self).format,
            final(self).bytes_per_group == old(self).bytes_per_group,
            final(self).display_duplicate_lines == old(self).display_duplicate_lines,
    {
        self.bytes_per_line = if count == 0 {
            1
        } else {
            count
        };
    }

    /// Sets whether runs of duplicate lines are shown in full.
    pub fn display_duplicate_lines(&mut self, display: bool)
        ensures
            final(self).display_duplicate_lines == display,
            final(self).base == old(self).base,
            final(self).endianess == old(self).endianess,
            final(self).format == old(self).format,
            final(self).bytes_per_group == old(self).bytes_per_group,
            final(self).bytes_per_line == old(self).bytes_per_line,
    {
        self.display_duplicate_lines = display;
    }

    /// Sets the layout of a line; on an unknown field name the layout is kept.
    pub fn set_format(&mut self, format: &str) -> (r: Result<(), RhexdumpError>)
        ensures
            final(self).base == old(self).base,
            final(self).endianess == old(self).endianess,
            final(self).bytes_per_group == old(self).bytes_per_group,
            final(self).bytes_per_line == old(self).bytes_per_line,
            final(self).display_duplicate_lines == old(self).display_duplicate_lines,
            match parse_template(format@) {
                Ok(x) => r is Ok && final(self).format.info@ == x.0
                    && final(self).format.spec_separators() == x.1 && final(self).format.wf(),
                Err(name) => r matches Err(RhexdumpError::UnknownFormatType(n)) && n@ == name
                    && final(self).format == old(self).format,
            },
    {
        match Self::format_parse(format) {
            Ok(f) => {
                self.format = f;
                Ok(())
            },
            Err(e) => Err(e),
        }
    }
}


/// A string holding the characters `cs`.
fn string_from(cs: &Vec<char>) -> (r: String)
    ensures
        r@ == cs@,
{
    let r = string_of(cs, 0, cs.len());
    assert(cs@.subrange(0, cs@.len() as int) =~= cs@);
    r
}

impl Default for Rhexdump {
    fn default() -> (r: Self)
        ensures
            r.is_default(),
            r.wf(),
    {
        let mut separators: Vec<String> = Vec::new();
        separators.push(String::new());
        separators.push(string_from(&vec![':', ' ']));
        separators.push(string_from(&vec![' ', '|', ' ']));
        separators.push(String::new());
        let info = vec![FormatType::OFFSET, FormatType::RAW, FormatType::ASCII];
        let r = Rhexdump {
            base: Base::Hex,
            endianess: Endianess::LittleEndian,
            format: Format { info, separators },
            bytes_per_group: 1,
            bytes_per_line: 16,
            display_duplicate_lines: true,
        };
        assert(r.format.info@ =~= seq![FormatType::OFFSET, FormatType::RAW, FormatType::ASCII]);
        assert(r.format.spec_separators() =~= seq![
            Seq::<char>::empty(),
            seq![':', ' '],
            seq![' ', '|', ' '],
            Seq::<char>::empty(),
        ]);
        r
    }
}

impl Rhexdump {
    /// The numeral encoding of the groups.
    fn make_group_format(&self) -> (r: GroupFormat)
        requires
            self.wf(),
        ensures
            r == self.group_format(),
            r.wf(),
    {
        GroupFormat::new(
            self.base.radix(),
            match self.endianess {
                Endianess::BigEndian => true,
                Endianess::LittleEndian => false,
            },
            self.bytes_per_group as usize,
        )
    }

    /// The numeral field and the ASCII panel of the bytes `data[start..end]`, unpadded.
    fn format_line_raw_ascii(&self, data: &[u8], start: usize, end: usize) -> (r: (String, String))
        requires
            self.wf(),
            start < end <= data@.len(),
        ensures
            r.0@ == self.spec_raw(data@.subrange(start as int, end as int)),
            r.1@ == ascii_of(data@.subrange(start as int, end as int)),
    {
        let ghost s = data@.subrange(start as int, end as int);
        let fmt = self.make_group_format();
        let k = fmt.group_bytes;
        let stop = if end - start <= k {
            end
        } else {
            start + k
        };
        let mut raw = String::new();
        let v = read_group(data, start, stop, fmt.big_endian);
        push_zero_padded(&mut raw, v, fmt.radix, fmt.width);
        fmt.push_groups(&mut raw, data, stop, end);
        proof {
            if end - start <= k {
                assert(data@.subrange(stop as int, end as int) =~= Seq::<u8>::empty());
                assert(fmt.groups_text(s) =~= seq![' '] + fmt.numeral(s));
            } else {
                assert(s.take(k as int) =~= data@.subrange(start as int, stop as int));
                assert(s.skip(k as int) =~= data@.subrange(stop as int, end as int));
            }
            assert(raw@ =~= fmt.groups_text(s).skip(1));
        }
        let mut ascii = String::new();
        push_ascii(&mut ascii, data, start, end);
        (raw, ascii)
    }

    /// Fills the layout with the offset, the numeral field and the ASCII panel.
    fn format_line(&self, offset: u32, raw: String, ascii: String) -> (r: String)
        requires
            self.format.wf(),
        ensures
            r@ == fill(
                self.format.info@,
                self.format.spec_separators(),
                zero_padded(offset as nat, 16, 8),
                raw@,
                ascii@,
            ),
    {
        let ghost info = self.format.info@;
        let ghost seps = self.format.spec_separators();
        let ghost o = zero_padded(offset as nat, 16, 8);
        let mut output = String::new();
        let n = self.format.info.len();
        let mut i: usize = 0;
        assert(info.skip(0) =~= info);
        assert(seps.skip(0) =~= seps);
        assert(output@ + fill(info, seps, o, raw@, ascii@) =~= fill(info, seps, o, raw@, ascii@));
        while i < n
            invariant
                n == info.len(),
                self.format.wf(),
                info == self.format.info@,
                seps == self.format.spec_separators(),
                o == zero_padded(offset as nat, 16, 8),
                i <= n,
                output@ + fill(info.skip(i as int), seps.skip(i as int), o, raw@, ascii@) == fill(
                    info,
                    seps,
                    o,
                    raw@,
                    ascii@,
                ),
            decreases n - i,
        {
            let ghost before = output@;
            push_str(&mut output, self.format.separators[i].as_str());
            match self.format.info[i] {
                FormatType::ASCII => push_str(&mut output, ascii.as_str()),
                FormatType::OFFSET => push_zero_padded(&mut output, offset as u64, 16, 8),
                FormatType::RAW => push_str(&mut output, raw.as_str()),
            }
            proof {
                assert(info.skip(i as int).drop_first() =~= info.skip(i + 1));
                assert(seps.skip(i as int).drop_first() =~= seps.skip(i + 1));
                assert(seps.skip(i as int)[0] == self.format.separators@[i as int]@);
                assert(output@ + fill(info.skip(i + 1), seps.skip(i + 1), o, raw@, ascii@) =~= before
                    + fill(info.skip(i as int), seps.skip(i as int), o, raw@, ascii@));
            }
            i = i + 1;
        }
        push_str(&mut output, self.format.separators[n].as_str());
        proof {
            assert(info.skip(n as int) =~= Seq::<FormatType>::empty());
            assert(seps.skip(n as int)[0] == self.format.separators@[n as int]@);
        }
        assert(output@ =~= fill(info, seps, o, raw@, ascii@));
        output
    }

    /// The line for the bytes `data[start..end]` at `offset`.
    fn render_line(&self, offset: u64, data: &[u8], start: usize, end: usize) -> (r: String)
        requires
            self.wf(),
            start < end <= data@.len(),
            end - start <= self.bytes_per_line,
        ensures
            r@ == self.render(offset, data@.subrange(start as int, end as int)),
    {
        let ghost s = data@.subrange(start as int, end as int);
        let (mut raw, mut ascii) = self.format_line_raw_ascii(data, start, end);
        let fmt = self.make_group_format();
        let len = end - start;
        let k = fmt.group_bytes;
        let w = fmt.width;
        let bpl = self.bytes_per_line as usize;
        proof {
            fmt.lemma_groups_text_len(s);
            lemma_group_max_monotone(k as nat, 8);
            lemma_group_max_values();
            lemma_digits_len_bound(group_max(k as nat), fmt.radix as nat);
            let (li, ki, bi, wi) = (len as int, k as int, bpl as int, w as int);
            assert(1 <= (li + ki - 1) / ki <= (bi + ki - 1) / ki <= 255) by (nonlinear_arith)
                requires
                    1 <= ki <= 8,
                    1 <= li <= bi <= 255,
            ;
            assert(((li + ki - 1) / ki) * (wi + 1) <= ((bi + ki - 1) / ki) * (wi + 1) <= 255 * 65)
                by (nonlinear_arith)
                requires
                    1 <= (li + ki - 1) / ki <= (bi + ki - 1) / ki <= 255,
                    0 <= wi <= 64,
            ;
            assert(((li + ki - 1) / ki) * (wi + 1) >= 1) by (nonlinear_arith)
                requires
                    1 <= (li + ki - 1) / ki,
                    0 <= wi,
            ;
        }
        let used = ((len + k - 1) / k) * (w + 1) - 1;
        let full = ((bpl + k - 1) / k) * (w + 1) - 1;
        if used < full {
            push_repeat(&mut raw, ' ', full - used);
        }
        assert(raw@ =~= pad_right(self.spec_raw(s), self.raw_width()));
        if len < bpl {
            push_repeat(&mut ascii, ' ', bpl - len);
        }
        assert(ascii@ =~= pad_right(ascii_of(s), self.bytes_per_line as nat));
        assert((offset % 0x1_0000_0000) as nat == offset as nat % 0x1_0000_0000);
        self.format_line((offset % 0x1_0000_0000) as u32, raw, ascii)
    }
}


/// Rendering events one after the other renders their concatenation.
pub proof fn lemma_render_events_concat(rhx: Rhexdump, a: Seq<Event>, b: Seq<Event>)
    ensures
        (a + b).map_values(|e: Event| rhx.render_event(e)) == a.map_values(
            |e: Event| rhx.render_event(e),
        ) + b.map_values(|e: Event| rhx.render_event(e)),
{
    assert((a + b).map_values(|e: Event| rhx.render_event(e)) =~= a.map_values(
        |e: Event| rhx.render_event(e),
    ) + b.map_values(|e: Event| rhx.render_event(e)));
}

/// Iterator over the lines of a template-based dump of a byte slice.
pub struct RhexdumpIter<'r, 'd> {
    rhx: &'r Rhexdump,
    data: &'d [u8],
    pos: usize,
    detector: LineDetector,
}

impl<'r, 'd> RhexdumpIter<'r, 'd> {
    pub closed spec fn wf(&self) -> bool {
        &&& self.rhx.wf()
        &&& self.pos <= self.data@.len()
        &&& self.detector.params == self.rhx.params(self.detector.params.base_offset as u32)
        &&& self.detector.params.base_offset <= u32::MAX
        &&& match self.detector.prev_line {
            Some(v) => 1 <= v@.len() <= self.rhx.bytes_per_line,
            None => true,
        }
    }

    /// The settings used.
    pub closed spec fn spec_rhx(&self) -> Rhexdump {
        *self.rhx
    }

    /// The offset of the first byte.
    pub closed spec fn spec_base(&self) -> u32 {
        self.detector.params.base_offset as u32
    }

    /// The state of duplicate detection.
    pub closed spec fn spec_state(&self) -> DetectState {
        self.detector.state()
    }

    /// The bytes not read yet.
    pub closed spec fn spec_rest(&self) -> Seq<u8> {
        self.data@.skip(self.pos as int)
    }

    /// The lines still to come.
    pub open spec fn remaining(&self) -> Seq<Seq<char>> {
        self.spec_rhx().lines_from(self.spec_base(), self.spec_state(), self.spec_rest())
    }

    /// The next line, or `None` at the end of the dump.
    pub fn next(&mut self) -> (r: Option<String>)
        requires
            old(self).wf(),
        ensures
            final(self).wf(),
            final(self).spec_rhx() == old(self).spec_rhx(),
            final(self).spec_base() == old(self).spec_base(),
            match r {
                Some(l) => old(self).remaining() == seq![l@] + final(self).remaining(),
                None => old(self).remaining().len() == 0 && final(self).remaining().len() == 0,
            },
    {
        let ghost rhx = *self.rhx;
        loop
            invariant
                self.wf(),
                *self.rhx == rhx,
                rhx == *old(self).rhx,
                self.spec_base() == old(self).spec_base(),
                self.remaining() == old(self).remaining(),
            decreases self.data@.len() - self.pos,
        {
            let ghost p = self.detector.params;
            let ghost st = self.detector.state();
            if self.pos >= self.data.len() {
                assert(st.1 is Some ==> 1 <= st.1->0.len() <= rhx.bytes_per_line);
                let done = self.detector.finish();
                assert(self.data@.skip(self.pos as int) =~= Seq::<u8>::empty());
                match done {
                    Some((off, bytes)) => {
                        assert(finish(p, st).1[0] == Some((off, bytes@)));
                        assert(bytes@ == st.1->0);
                        let line = self.rhx.render_line(off, bytes.as_slice(), 0, bytes.len());
                        assert(bytes@.subrange(0, bytes@.len() as int) =~= bytes@);
                        assert(old(self).remaining() =~= seq![line@] + self.remaining());
                        return Some(line);
                    },
                    None => {
                        return None;
                    },
                }
            }
            let start = self.pos;
            let bpl = self.rhx.bytes_per_line as usize;
            let end = if self.data.len() - start < bpl {
                self.data.len()
            } else {
                start + bpl
            };
            proof {
                lemma_run_line(p, st, self.data@, start as int, end as int);
            }
            let kind = self.detector.step(self.data, start, end);
            self.pos = end;
            let ghost out = kind_events(kind, self.data@.subrange(start as int, end as int));
            proof {
                lemma_render_events_concat(rhx, out, run(p, self.detector.state(), self.data@.skip(end as int)));
            }
            match kind {
                LineKind::Real(off) => {
                    let line = self.rhx.render_line(off, self.data, start, end);
                    assert(out.map_values(|e: Event| rhx.render_event(e)) =~= seq![line@]);
                    return Some(line);
                },
                LineKind::Marker => {
                    let mut line = String::new();
                    push_char(&mut line, '*');
                    assert(out.map_values(|e: Event| rhx.render_event(e)) =~= seq![line@]);
                    return Some(line);
                },
                LineKind::Hidden => {
                    assert(out.map_values(|e: Event| rhx.render_event(e)) =~= Seq::<Seq<char>>::empty());
                },
            }
        }
    }
}

impl Rhexdump {
    /// An iterator over the lines of the dump of `data`, offsets counted from zero.
    pub fn iter<'r, 'd>(&'r self, data: &'d [u8]) -> (r: RhexdumpIter<'r, 'd>)
        requires
            self.wf(),
        ensures
            r.wf(),
            r.spec_rhx() == *self,
            r.spec_base() == 0,
            r.remaining() == self.lines(0, data@),
    {
        self.iter_offset(data, 0)
    }

    /// An iterator over the lines of the dump of `data`, offsets counted from `base_offset`.
    pub fn iter_offset<'r, 'd>(&'r self, data: &'d [u8], base_offset: u32) -> (r: RhexdumpIter<'r, 'd>)
        requires
            self.wf(),
        ensures
            r.wf(),
            r.spec_rhx() == *self,
            r.spec_base() == base_offset,
            r.remaining() == self.lines(base_offset, data@),
    {
        let r = RhexdumpIter {
            rhx: self,
            data,
            pos: 0,
            detector: LineDetector::new(
                self.bytes_per_line as usize,
                !self.display_duplicate_lines,
                base_offset as u64,
            ),
        };
        assert(data@.skip(0) =~= data@);
        r
    }

    /// The dump of `data` as one string, lines joined by line feeds, offsets counted from
    /// `offset`.
    pub fn hexdump_offset(&self, data: &[u8], offset: u32) -> (r: String)
        requires
            self.wf(),
        ensures
            r@ == joined(self.lines(offset, data@)),
    {
        let mut it = self.iter_offset(data, offset);
        let mut out = String::new();
        let ghost all = it.remaining();
        match it.next() {
            None => {
                assert(out@ =~= joined(all));
                return out;
            },
            Some(first) => {
                push_str(&mut out, first.as_str());
                assert((seq![first@] + it.remaining()).drop_first() =~= it.remaining());
            },
        }
        loop
            invariant
                it.wf(),
                all == self.lines(offset, data@),
                all.len() > 0,
                joined(all) == out@ + each_after_newline(it.remaining()),
            decreases it.remaining().len(),
        {
            match it.next() {
                None => {
                    assert(out@ =~= joined(all));
                    return out;
                },
                Some(line) => {
                    let ghost before = out@;
                    push_char(&mut out, '\n');
                    push_str(&mut out, line.as_str());
                    assert((seq![line@] + it.remaining()).drop_first() =~= it.remaining());
                    assert(out@ + each_after_newline(it.remaining()) =~= before
                        + each_after_newline(seq![line@] + it.remaining()));
                },
            }
        }
    }

    /// The dump of `data` as one string, lines joined by line feeds, offsets counted from zero.
    pub fn hexdump(&self, data: &[u8]) -> (r: String)
        requires
            self.wf(),
        ensures
            r@ == joined(self.lines(0, data@)),
    {
        self.hexdump_offset(data, 0)
    }
}

/// The dump of `data` with the default settings.
pub fn hexdump(data: &[u8]) -> (r: String)
    ensures
        forall|d: Rhexdump| d.is_default() ==> r@ == joined(d.lines(0, data@)),
{
    let d = Rhexdump::default();
    let r = d.hexdump(data);
    proof {
        assert forall|e: Rhexdump| e.is_default() implies r@ == joined(e.lines(0, data@)) by {
            lemma_default_lines(d, e, 0, data@);
        }
    }
    r
}

/// The dump of `data` with the default settings, offsets counted from `offset`.
pub fn hexdump_offset(data: &[u8], offset: u32) -> (r: String)
    ensures
        forall|d: Rhexdump| d.is_default() ==> r@ == joined(d.lines(offset, data@)),
{
    let d = Rhexdump::default();
    let r = d.hexdump_offset(data, offset);
    proof {
        assert forall|e: Rhexdump| e.is_default() implies r@ == joined(e.lines(offset, data@)) by {
            lemma_default_lines(d, e, offset, data@);
        }
    }
    r
}

/// Two settings that agree on everything shown give the same lines.
proof fn lemma_default_lines(a: Rhexdump, b: Rhexdump, base: u32, data: Seq<u8>)
    requires
        a.is_default(),
        b.is_default(),
    ensures
        a.lines(base, data) == b.lines(base, data),
{
    assert(a.params(base) == b.params(base));
    assert forall|e: Event| a.render_event(e) == b.render_event(e) by {
        assert(a.group_format() == b.group_format());
    }
    assert(a.lines(base, data) =~= b.lines(base, data));
}


/// Lines of a template-based dump of a stream, fed one read at a time.
///
/// The reader asks `bytes_wanted` for the size of the next read, hands each read to `feed`,
/// and calls `finish` once the stream is exhausted or nothing more is wanted.
pub struct RhexdumpFileIter<'r> {
    rhx: &'r Rhexdump,
    size: Option<usize>,
    taken: usize,
    detector: LineDetector,
}

impl<'r> RhexdumpFileIter<'r> {
    pub closed spec fn wf(&self) -> bool {
        &&& self.rhx.wf()
        &&& self.detector.params == self.rhx.params(self.detector.params.base_offset as u32)
        &&& self.detector.params.base_offset <= u32::MAX
        &&& match self.detector.prev_line {
            Some(v) => 1 <= v@.len() <= self.rhx.bytes_per_line,
            None => true,
        }
        &&& match self.size {
            Some(n) => self.taken <= n,
            None => true,
        }
    }

    /// The settings used.
    pub closed spec fn spec_rhx(&self) -> Rhexdump {
        *self.rhx
    }

    /// The offset of the first byte.
    pub closed spec fn spec_base(&self) -> u32 {
        self.detector.params.base_offset as u32
    }

    /// The state of duplicate detection.
    pub closed spec fn spec_state(&self) -> DetectState {
        self.detector.state()
    }

    /// Size of the next read: a line, or less where the size limit is near.
    pub closed spec fn spec_wanted(&self) -> nat {
        match self.size {
            Some(n) => if n - self.taken < self.rhx.bytes_per_line {
                (n - self.taken) as nat
            } else {
                self.rhx.bytes_per_line as nat
            },
            None => self.rhx.bytes_per_line as nat,
        }
    }

    /// Size of the next read; zero once the size limit is reached.
    pub fn bytes_wanted(&self) -> (r: usize)
        requires
            self.wf(),
        ensures
            r == self.spec_wanted(),
    {
        match self.size {
            Some(n) => if n - self.taken < self.rhx.bytes_per_line as usize {
                n - self.taken
            } else {
                self.rhx.bytes_per_line as usize
            },
            None => self.rhx.bytes_per_line as usize,
        }
    }

    /// Takes one read: returns the line to show for it, if any.
    pub fn feed(&mut self, chunk: &[u8]) -> (r: Option<String>)
        requires
            old(self).wf(),
            1 <= chunk@.len() <= old(self).spec_wanted(),
        ensures
            final(self).wf(),
            final(self).spec_rhx() == old(self).spec_rhx(),
            final(self).spec_base() == old(self).spec_base(),
            final(self).spec_state() == step(
                old(self).spec_rhx().params(old(self).spec_base()),
                old(self).spec_state(),
                chunk@,
            ).0,
            step(old(self).spec_rhx().params(old(self).spec_base()), old(self).spec_state(), chunk@).1.map_values(
                |e: Event| old(self).spec_rhx().render_event(e),
            ) == match r {
                Some(l) => seq![l@],
                None => Seq::<Seq<char>>::empty(),
            },
    {
        let ghost rhx = *self.rhx;
        let n = chunk.len();
        if let Some(limit) = self.size {
            self.taken = self.taken + n;
        }
        let kind = self.detector.step(chunk, 0, n);
        assert(chunk@.subrange(0, n as int) =~= chunk@);
        let ghost out = kind_events(kind, chunk@);
        match kind {
            LineKind::Real(off) => {
                let line = self.rhx.render_line(off, chunk, 0, n);
                assert(out.map_values(|e: Event| rhx.render_event(e)) =~= seq![line@]);
                Some(line)
            },
            LineKind::Marker => {
                let mut line = String::new();
                push_char(&mut line, '*');
                assert(out.map_values(|e: Event| rhx.render_event(e)) =~= seq![line@]);
                Some(line)
            },
            LineKind::Hidden => {
                assert(out.map_values(|e: Event| rhx.render_event(e)) =~= Seq::<Seq<char>>::empty());
                None
            },
        }
    }

    /// Ends the stream: returns the line to show last, if any.
    pub fn finish(&mut self) -> (r: Option<String>)
        requires
            old(self).wf(),
        ensures
            final(self).wf(),
            final(self).spec_rhx() == old(self).spec_rhx(),
            final(self).spec_base() == old(self).spec_base(),
            final(self).spec_state() == finish(
                old(self).spec_rhx().params(old(self).spec_base()),
                old(self).spec_state(),
            ).0,
            finish(old(self).spec_rhx().params(old(self).spec_base()), old(self).spec_state()).1.map_values(
                |e: Event| old(self).spec_rhx().render_event(e),
            ) == match r {
                Some(l) => seq![l@],
                None => Seq::<Seq<char>>::empty(),
            },
    {
        let ghost rhx = *self.rhx;
        let ghost p = self.detector.params;
        let ghost st = self.detector.state();
        assert(st.1 is Some ==> 1 <= st.1->0.len() <= rhx.bytes_per_line);
        match self.detector.finish() {
            Some((off, bytes)) => {
                assert(finish(p, st).1[0] == Some((off, bytes@)));
                let line = self.rhx.render_line(off, bytes.as_slice(), 0, bytes.len());
                assert(bytes@.subrange(0, bytes@.len() as int) =~= bytes@);
                assert(finish(p, st).1.map_values(|e: Event| rhx.render_event(e)) =~= seq![line@]);
                Some(line)
            },
            None => {
                assert(finish(p, st).1.map_values(|e: Event| rhx.render_event(e)) =~= Seq::<
                    Seq<char>,
                >::empty());
                None
            },
        }
    }
}

impl Rhexdump {
    /// The lines of a stream of at most `size` bytes (no limit for `None`), offsets counted
    /// from zero.
    pub fn iter_file<'r>(&'r self, size: Option<usize>) -> (r: RhexdumpFileIter<'r>)
        requires
            self.wf(),
        ensures
            r.wf(),
            r.spec_rhx() == *self,
            r.spec_base() == 0,
            r.spec_state() == initial_state(),
            r.spec_wanted() == match size {
                Some(n) => if n < self.bytes_per_line {
                    n as nat
                } else {
                    self.bytes_per_line as nat
                },
                None => self.bytes_per_line as nat,
            },
    {
        self.iter_file_offset(size, 0)
    }

    /// The lines of a stream of at most `size` bytes (no limit for `None`), offsets counted
    /// from `base_offset`.
    pub fn iter_file_offset<'r>(&'r self, size: Option<usize>, base_offset: u32) -> (r: RhexdumpFileIter<'r>)
        requires
            self.wf(),
        ensures
            r.wf(),
            r.spec_rhx() == *self,
            r.spec_base() == base_offset,
            r.spec_state() == initial_state(),
            r.spec_wanted() == match size {
                Some(n) => if n < self.bytes_per_line {
                    n as nat
                } else {
                    self.bytes_per_line as nat
                },
                None => self.bytes_per_line as nat,
            },
    {
        RhexdumpFileIter {
            rhx: self,
            size,
            taken: 0,
            detector: LineDetector::new(
                self.bytes_per_line as usize,
                !self.display_duplicate_lines,
                base_offset as u64,
            ),
        }
    }
}

} // verus!
