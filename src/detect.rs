//! Splitting a byte stream into lines and collapsing runs of duplicate lines.
//!
//! The detector sees one raw line at a time and decides whether it is shown, replaced by the
//! marker line `*`, or hidden. It knows nothing of how a line is rendered: a run of it yields
//! events, each either the marker or a line's offset and bytes.

use vstd::prelude::*;

verus! {

/// `a + b` in 64-bit wrapping arithmetic.
pub open spec fn add64(a: u64, b: int) -> u64 {
    ((a as int + b) % 0x1_0000_0000_0000_0000) as u64
}

/// What a run of the detector shows: `None` for the marker line, or a line's offset and bytes.
pub type Event = Option<(u64, Seq<u8>)>;

/// Detector state: bytes consumed so far, the last line shown, whether the marker was shown for
/// the current run.
pub type DetectState = (u64, Option<Seq<u8>>, bool);

/// Parameters of the detector: bytes per line, whether duplicates are hidden, base offset.
pub struct DetectParams {
    pub bytes_per_line: usize,
    pub hide: bool,
    pub base_offset: u64,
}

/// The state before the first line.
pub open spec fn initial_state() -> DetectState {
    (0, None, false)
}

/// Whether `chunk` repeats the last line shown, in a full line, while duplicates are hidden.
pub open spec fn is_repeat(p: DetectParams, st: DetectState, chunk: Seq<u8>) -> bool {
    &&& p.hide
    &&& chunk.len() == p.bytes_per_line
    &&& st.1 == Some(chunk)
}

/// One raw line: the next state, and what is shown for it (nothing, or one event).
pub open spec fn step(p: DetectParams, st: DetectState, chunk: Seq<u8>) -> (DetectState, Seq<
    Event,
>) {
    let next = add64(st.0, chunk.len() as int);
    if is_repeat(p, st, chunk) {
        if st.2 {
            ((next, st.1, true), Seq::empty())
        } else {
            ((next, st.1, true), seq![None])
        }
    } else {
        ((next, Some(chunk), false), seq![Some((add64(p.base_offset, st.0 as int), chunk))])
    }
}

/// End of the source: when the marker stands for the latest lines, the last of them is shown
/// again with its own offset, so that a dump never ends on the marker.
pub open spec fn finish(p: DetectParams, st: DetectState) -> (DetectState, Seq<Event>) {
    if st.2 && st.1 is Some {
        let line = st.1->0;
        (
            (st.0, st.1, false),
            seq![Some((add64(p.base_offset, st.0 as int - line.len()), line))],
        )
    } else {
        (st, Seq::empty())
    }
}

/// Events of the detector from state `st` on the remaining bytes `data`.
pub open spec fn run(p: DetectParams, st: DetectState, data: Seq<u8>) -> Seq<Event>
    decreases data.len(),
{
    if data.len() == 0 || p.bytes_per_line == 0 {
        finish(p, st).1
    } else {
        let n = if data.len() < p.bytes_per_line {
            data.len() as int
        } else {
            p.bytes_per_line as int
        };
        let (st2, out) = step(p, st, data.take(n));
        out + run(p, st2, data.skip(n))
    }
}

/// A run on the bytes from `start` on takes the line `start..end` first, where `end` is a full
/// line further or the end of the bytes.
pub proof fn lemma_run_line(p: DetectParams, st: DetectState, data: Seq<u8>, start: int, end: int)
    requires
        p.bytes_per_line >= 1,
        0 <= start < end <= data.len(),
        end == if data.len() - start < p.bytes_per_line {
            data.len() as int
        } else {
            start + p.bytes_per_line
        },
    ensures
        run(p, st, data.skip(start)) == step(p, st, data.subrange(start, end)).1 + run(
            p,
            step(p, st, data.subrange(start, end)).0,
            data.skip(end),
        ),
{
    let rest = data.skip(start);
    assert(rest.take(end - start) =~= data.subrange(start, end));
    assert(rest.skip(end - start) =~= data.skip(end));
}

/// The detector.
pub struct LineDetector {
    /// Bytes per line, duplicate hiding and base offset.
    pub params: DetectParams,
    /// Bytes consumed so far.
    pub consumed: u64,
    /// The last line shown.
    pub prev_line: Option<Vec<u8>>,
    /// Whether the marker was shown for the current run of duplicates.
    pub duplicate_line_displayed: bool,
}

/// What the detector decided for one raw line.
#[derive(Copy, Clone, PartialEq, Eq, Structural, Debug)]
pub enum LineKind {
    /// Show the line, at this offset.
    Real(u64),
    /// Show the marker line.
    Marker,
    /// Show nothing.
    Hidden,
}

/// The events that a decision stands for, given the line it was made on.
pub open spec fn kind_events(k: LineKind, chunk: Seq<u8>) -> Seq<Event> {
    match k {
        LineKind::Real(off) => seq![Some((off, chunk))],
        LineKind::Marker => seq![None],
        LineKind::Hidden => Seq::empty(),
    }
}

impl LineDetector {
    /// The abstract state.
    pub open spec fn state(&self) -> DetectState {
        (
            self.consumed,
            match self.prev_line {
                Some(v) => Some(v@),
                None => None,
            },
            self.duplicate_line_displayed,
        )
    }

    /// A fresh detector.
    pub fn new(bytes_per_line: usize, hide: bool, base_offset: u64) -> (r: Self)
        ensures
            r.params == (DetectParams { bytes_per_line, hide, base_offset }),
            r.state() == initial_state(),
    {
        LineDetector {
            params: DetectParams { bytes_per_line, hide, base_offset },
            consumed: 0,
            prev_line: None,
            duplicate_line_displayed: false,
        }
    }

    /// Decides on the raw line `data[start..end]`.
    pub fn step(&mut self, data: &[u8], start: usize, end: usize) -> (r: LineKind)
        requires
            start <= end <= data@.len(),
        ensures
            final(self).params == old(self).params,
            (final(self).state(), kind_events(r, data@.subrange(start as int, end as int))) == step(
                old(self).params,
                old(self).state(),
                data@.subrange(start as int, end as int),
            ),
    {
        let ghost chunk = data@.subrange(start as int, end as int);
        let len = end - start;
        let offset = self.params.base_offset.wrapping_add(self.consumed);
        let is_duplicate = self.params.hide && len == self.params.bytes_per_line && match &self.prev_line {
            Some(prev) => same_bytes(prev, data, start, end),
            None => false,
        };
        assert(is_duplicate == is_repeat(self.params, self.state(), chunk));
        self.consumed = self.consumed.wrapping_add(len as u64);
        if is_duplicate {
            if self.duplicate_line_displayed {
                LineKind::Hidden
            } else {
                self.duplicate_line_displayed = true;
                LineKind::Marker
            }
        } else {
            self.prev_line = Some(copy_range(data, start, end));
            self.duplicate_line_displayed = false;
            LineKind::Real(offset)
        }
    }

    /// Handles the end of the source: returns the line to show last, with its offset, if any.
    pub fn finish(&mut self) -> (r: Option<(u64, Vec<u8>)>)
        ensures
            final(self).params == old(self).params,
            final(self).state() == finish(old(self).params, old(self).state()).0,
            finish(old(self).params, old(self).state()).1 == match r {
                Some(x) => seq![Some((x.0, x.1@))],
                None => Seq::<Event>::empty(),
            },
    {
        if self.duplicate_line_displayed {
            match &self.prev_line {
                Some(prev) => {
                    let line = copy_range(prev.as_slice(), 0, prev.len());
                    assert(line@ =~= prev@);
                    let offset = self.params.base_offset.wrapping_add(self.consumed).wrapping_sub(
                        line.len() as u64,
                    );
                    assert(offset == add64(
                        self.params.base_offset,
                        self.consumed as int - line@.len(),
                    ));
                    self.duplicate_line_displayed = false;
                    Some((offset, line))
                },
                None => None,
            }
        } else {
            None
        }
    }
}

/// Whether `prev` holds the same bytes as `data[start..end]`.
fn same_bytes(prev: &Vec<u8>, data: &[u8], start: usize, end: usize) -> (r: bool)
    requires
        start <= end <= data@.len(),
    ensures
        r == (prev@ == data@.subrange(start as int, end as int)),
{
    if prev.len() != end - start {
        return false;
    }
    let mut i: usize = 0;
    while i < prev.len()
        invariant
            start <= end <= data@.len(),
            prev@.len() == end - start,
            i <= prev@.len(),
            forall|j: int| 0 <= j < i ==> prev@[j] == data@[start + j],
        decreases prev@.len() - i,
    {
        if prev[i] != data[start + i] {
            assert(prev@[i as int] != data@.subrange(start as int, end as int)[i as int]);
            return false;
        }
        i = i + 1;
    }
    assert(prev@ =~= data@.subrange(start as int, end as int));
    true
}

/// A copy of `data[start..end]`.
pub fn copy_range(data: &[u8], start: usize, end: usize) -> (r: Vec<u8>)
    requires
        start <= end <= data@.len(),
    ensures
        r@ == data@.subrange(start as int, end as int),
{
    let mut v: Vec<u8> = Vec::with_capacity(end - start);
    let mut i = start;
    while i < end
        invariant
            start <= i <= end <= data@.len(),
            v@ == data@.subrange(start as int, i as int),
        decreases end - i,
    {
        v.push(data[i]);
        i = i + 1;
        assert(v@ =~= data@.subrange(start as int, i as int));
    }
    v
}

} // verus!
