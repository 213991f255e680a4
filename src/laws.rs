//! Properties of dumps that hold of every input or relate several calls.

use vstd::arithmetic::div_mod::lemma_add_mod_noop_right;
use vstd::prelude::*;

use crate::config::RhexdumpConfig;
use crate::detect::{
    add64, finish, initial_state, is_repeat, run, step, DetectParams, DetectState, Event,
};
use crate::iter::{
    dump_lines, group_format_of, lemma_bytes_per_line_positive, lines_text, offset_text, params_of,
    render_line,
};
use crate::render::{
    ascii_of, digits, group_count, group_max, lemma_digits_len_bound, lemma_digits_monotone,
    lemma_group_max_monotone, lemma_group_max_values, pad_right, repeat,
};
use crate::builder::BitWidth;

verus! {

/// Number of lines of `n` bytes at `bpl` bytes per line, the last one possibly short.
pub open spec fn line_count(n: nat, bpl: nat) -> nat {
    group_count(n, bpl)
}

/// End of line `i` of `n` bytes at `bpl` bytes per line.
pub open spec fn line_end(n: nat, bpl: nat, i: int) -> int {
    if (i + 1) * bpl < n {
        (i + 1) * bpl
    } else {
        n as int
    }
}

proof fn lemma_offset_shift(base: u64, c: u64, n: int, k: int)
    ensures
        add64(base, add64(c, n) as int + k) == add64(base, c as int + n + k),
{
    let m = 0x1_0000_0000_0000_0000int;
    lemma_add_mod_noop_right(base as int + k, c as int + n, m);
    assert(add64(c, n) as int == (c as int + n) % m);
    assert(base as int + (add64(c, n) as int + k) == (base as int + k) + (c as int + n) % m);
    assert(base as int + (c as int + n + k) == (base as int + k) + (c as int + n));
}

/// Without duplicate hiding and with no marker pending, the detector shows every line, at
/// consecutive offsets.
proof fn lemma_run_plain(p: DetectParams, st: DetectState, d: Seq<u8>)
    requires
        !p.hide,
        !st.2,
        p.bytes_per_line >= 1,
    ensures
        run(p, st, d).len() == line_count(d.len(), p.bytes_per_line as nat),
        forall|i: int|
            0 <= i < run(p, st, d).len() ==> #[trigger] run(p, st, d)[i] == Some(
                (
                    add64(p.base_offset, st.0 as int + i * p.bytes_per_line),
                    d.subrange(i * p.bytes_per_line, line_end(d.len(), p.bytes_per_line as nat, i)),
                ),
            ),
    decreases d.len(),
{
    let b = p.bytes_per_line as int;
    let len = d.len() as int;
    if len == 0 {
        assert(line_count(0, b as nat) == 0) by (nonlinear_arith)
            requires
                b >= 1,
                line_count(0, b as nat) == (0 + b - 1) / b,
        ;
    } else {
        let n = if len < b {
            len
        } else {
            b
        };
        let st2 = step(p, st, d.take(n)).0;
        let rest = d.skip(n);
        lemma_run_plain(p, st2, rest);
        let r = run(p, st, d);
        assert(r == seq![Some((add64(p.base_offset, st.0 as int), d.take(n)))] + run(p, st2, rest));
        assert(line_count(len as nat, b as nat) == 1 + line_count((len - n) as nat, b as nat)) by {
            if len <= b {
                assert(len - n == 0);
                assert((len + b - 1) / b == 1) by (nonlinear_arith)
                    requires
                        1 <= len <= b,
                ;
                assert((0 + b - 1) / b == 0) by (nonlinear_arith)
                    requires
                        1 <= b,
                ;
            } else {
                assert((len + b - 1) / b == 1 + ((len - b) + b - 1) / b) by (nonlinear_arith)
                    requires
                        len > b >= 1,
                ;
            }
        }
        assert forall|i: int| 0 <= i < r.len() implies #[trigger] r[i] == Some(
            (
                add64(p.base_offset, st.0 as int + i * b),
                d.subrange(i * b, line_end(d.len(), b as nat, i)),
            ),
        ) by {
            if i == 0 {
                assert(line_end(d.len(), b as nat, 0) == n);
                assert(d.take(n) =~= d.subrange(0, n));
            } else {
                assert(len > b) by {
                    if len <= b {
                        assert(r.len() == 1);
                    }
                }
                assert(n == b);
                let j = i - 1;
                assert(r[i] == run(p, st2, rest)[j]);
                assert(st2.0 == add64(st.0, b));
                assert(j * b + b == i * b) by (nonlinear_arith)
                    requires
                        j == i - 1,
                ;
                lemma_offset_shift(p.base_offset, st.0, b, j * b);
                assert(j * b >= 0) by (nonlinear_arith)
                    requires
                        j >= 0,
                        b >= 1,
                ;
                assert(line_end(rest.len(), b as nat, j) + b == line_end(d.len(), b as nat, i)) by {
                    assert((j + 1) * b + b == (i + 1) * b) by (nonlinear_arith)
                        requires
                            j == i - 1,
                    ;
                    assert((j + 1) * b == i * b) by (nonlinear_arith)
                        requires
                            j == i - 1,
                    ;
                }
                let rl = rest.len() as int;
                assert(j < line_count(rest.len(), b as nat));
                assert(j * b < rl) by (nonlinear_arith)
                    requires
                        0 <= j < (rl + b - 1) / b,
                        b >= 1,
                        rl >= 0,
                ;
                assert(rest.subrange(j * b, line_end(rest.len(), b as nat, j)) =~= d.subrange(
                    i * b,
                    line_end(d.len(), b as nat, i),
                ));
            }
        }
    }
}

/// Without duplicate hiding, a dump of `n` bytes has one line per started run of
/// `bytes_per_line` bytes: `ceil(n / bytes_per_line)` lines.
pub proof fn law_line_count(c: RhexdumpConfig, base: u64, data: Seq<u8>)
    requires
        c.wf(),
        !c.hide_duplicate_lines,
    ensures
        dump_lines(c, base, data).len() == line_count(data.len(), c.bytes_per_line as nat),
{
    lemma_bytes_per_line_positive(c);
    lemma_run_plain(params_of(c, base), initial_state(), data);
}

/// Without duplicate hiding, line `i` of a dump renders the bytes from `i * bytes_per_line` to
/// the end of that line, at offset `base + i * bytes_per_line`.
pub proof fn law_lines_are_consecutive(c: RhexdumpConfig, base: u64, data: Seq<u8>)
    requires
        c.wf(),
        !c.hide_duplicate_lines,
    ensures
        forall|i: int|
            0 <= i < dump_lines(c, base, data).len() ==> #[trigger] dump_lines(c, base, data)[i]
                == render_line(
                c,
                add64(base, i * c.bytes_per_line),
                data.subrange(
                    i * c.bytes_per_line,
                    line_end(data.len(), c.bytes_per_line as nat, i),
                ),
            ),
{
    lemma_bytes_per_line_positive(c);
    let p = params_of(c, base);
    lemma_run_plain(p, initial_state(), data);
    assert forall|i: int| 0 <= i < dump_lines(c, base, data).len() implies #[trigger] dump_lines(
        c,
        base,
        data,
    )[i] == render_line(
        c,
        add64(base, i * c.bytes_per_line),
        data.subrange(i * c.bytes_per_line, line_end(data.len(), c.bytes_per_line as nat, i)),
    ) by {
        assert(run(p, initial_state(), data)[i] == Some(
            (
                add64(base, 0 + i * c.bytes_per_line),
                data.subrange(i * c.bytes_per_line, line_end(data.len(), c.bytes_per_line as nat, i)),
            ),
        ));
        assert(0 + i * c.bytes_per_line == i * c.bytes_per_line);
    }
}

/// Without duplicate hiding, when the length is a multiple of `bytes_per_line` every line holds
/// a full `bytes_per_line` bytes: there is no short, padded last line.
pub proof fn law_exact_multiple_has_full_lines(c: RhexdumpConfig, base: u64, data: Seq<u8>)
    requires
        c.wf(),
        !c.hide_duplicate_lines,
        data.len() % (c.bytes_per_line as nat) == 0,
    ensures
        forall|i: int|
            0 <= i < dump_lines(c, base, data).len() ==> #[trigger] dump_lines(c, base, data)[i]
                == render_line(
                c,
                add64(base, i * c.bytes_per_line),
                data.subrange(i * c.bytes_per_line, (i + 1) * c.bytes_per_line),
            ),
{
    law_line_count(c, base, data);
    law_lines_are_consecutive(c, base, data);
    lemma_bytes_per_line_positive(c);
    let b = c.bytes_per_line as int;
    let n = data.len() as int;
    assert forall|i: int| 0 <= i < dump_lines(c, base, data).len() implies #[trigger] dump_lines(
        c,
        base,
        data,
    )[i] == render_line(c, add64(base, i * b), data.subrange(i * b, (i + 1) * b)) by {
        assert((i + 1) * b <= n) by (nonlinear_arith)
            requires
                0 <= i < (n + b - 1) / b,
                n % b == 0,
                b >= 1,
                n >= 0,
        ;
        assert(line_end(data.len(), b as nat, i) == (i + 1) * b);
    }
}

/// Two dumps of the same bytes with the same configuration and base offset are identical.
pub proof fn law_dump_is_deterministic(
    c1: RhexdumpConfig,
    c2: RhexdumpConfig,
    base1: u64,
    base2: u64,
    data1: Seq<u8>,
    data2: Seq<u8>,
)
    requires
        c1 == c2,
        base1 == base2,
        data1 == data2,
    ensures
        dump_lines(c1, base1, data1) == dump_lines(c2, base2, data2),
        lines_text(dump_lines(c1, base1, data1)) == lines_text(dump_lines(c2, base2, data2)),
{
}


/// The offset field has the width of its bit width: 8 or 16 hex digits.
pub proof fn lemma_offset_text_len(bw: BitWidth, off: u64)
    ensures
        offset_text(bw, off).len() == bw.spec_digits(),
{
    match bw {
        BitWidth::BW32 => {
            let v = off as nat % 0x1_0000_0000;
            lemma_digits_monotone(v, 0xffff_ffff, 16);
            assert(digits(0xffff_ffff, 16).len() == 8) by {
                reveal_with_fuel(digits, 9);
            }
        },
        BitWidth::BW64 => {
            lemma_digits_monotone(off as nat, 0xffff_ffff_ffff_ffff, 16);
            assert(digits(0xffff_ffff_ffff_ffff, 16).len() == 16) by {
                reveal_with_fuel(digits, 17);
            }
        },
    }
}

/// Every rendered line, short or full, is `size_line - 1` characters long (the line terminator
/// is not part of it), and ends with its ASCII panel: one character per byte of the line, then
/// spaces up to the width of a full line's panel.
pub proof fn law_line_layout(c: RhexdumpConfig, off: u64, s: Seq<u8>)
    requires
        c.wf(),
        s.len() <= c.bytes_per_line,
    ensures
        ascii_of(s).len() == s.len(),
        render_line(c, off, s).len() == c.size_line() - 1,
        render_line(c, off, s) == render_line(c, off, s).take(
            c.size_line() - 1 - c.bytes_per_line,
        ) + ascii_of(s) + repeat(' ', (c.bytes_per_line - s.len()) as nat),
{
    let fmt = group_format_of(c);
    let k = fmt.group_bytes as int;
    let gpl = c.groups_per_line as int;
    let w = fmt.width as int;
    lemma_offset_text_len(c.bit_width, off);
    lemma_group_max_monotone(k as nat, 8);
    lemma_group_max_values();
    lemma_digits_len_bound(group_max(k as nat), fmt.radix as nat);
    assert(fmt.wf());
    fmt.lemma_groups_text_len(s);
    let len = s.len() as int;
    assert(group_count(s.len(), k as nat) * (w + 1) <= (w + 1) * gpl) by {
        assert((len + k - 1) / k <= gpl) by (nonlinear_arith)
            requires
                1 <= k,
                0 <= len <= k * gpl,
        ;
        assert(((len + k - 1) / k) * (w + 1) <= (w + 1) * gpl) by (nonlinear_arith)
            requires
                (len + k - 1) / k <= gpl,
                0 <= w,
        ;
    }
    let head = offset_text(c.bit_width, off) + seq![':'] + pad_right(fmt.groups_text(s), c.raw_width())
        + seq![' ', ' '];
    assert(head.len() == c.size_line() - 1 - c.bytes_per_line);
    let l = render_line(c, off, s);
    assert(l == head + pad_right(ascii_of(s), c.bytes_per_line as nat));
    assert(l.take(head.len() as int) =~= head);
    assert(l =~= head + ascii_of(s) + repeat(' ', (c.bytes_per_line - s.len()) as nat));
}


/// `k` copies of the line `l`, one after the other.
pub open spec fn repeat_line(l: Seq<u8>, k: nat) -> Seq<u8>
    decreases k,
{
    if k == 0 {
        Seq::empty()
    } else {
        l + repeat_line(l, (k - 1) as nat)
    }
}

proof fn lemma_repeat_line_len(l: Seq<u8>, k: nat)
    ensures
        repeat_line(l, k).len() == k * l.len(),
    decreases k,
{
    if k > 0 {
        let k1 = (k - 1) as nat;
        lemma_repeat_line_len(l, k1);
        assert(repeat_line(l, k) == l + repeat_line(l, k1));
        assert(k * l.len() == k1 * l.len() + l.len()) by (nonlinear_arith)
            requires
                k1 == k - 1,
        ;
    } else {
        assert(k * l.len() == 0) by (nonlinear_arith)
            requires
                k == 0,
        ;
    }
}

/// A source of at least one full line: its first line is taken whole.
proof fn lemma_run_full_step(p: DetectParams, st: DetectState, d: Seq<u8>)
    requires
        p.bytes_per_line >= 1,
        d.len() >= p.bytes_per_line,
    ensures
        run(p, st, d) == step(p, st, d.take(p.bytes_per_line as int)).1 + run(
            p,
            step(p, st, d.take(p.bytes_per_line as int)).0,
            d.skip(p.bytes_per_line as int),
        ),
{
}

/// `k >= 1` copies of `l` start with `l`, followed by `k - 1` copies.
proof fn lemma_repeat_line_split(l: Seq<u8>, k: nat)
    requires
        k >= 1,
    ensures
        repeat_line(l, k).len() >= l.len(),
        repeat_line(l, k).take(l.len() as int) == l,
        repeat_line(l, k).skip(l.len() as int) == repeat_line(l, (k - 1) as nat),
{
    let k1 = (k - 1) as nat;
    lemma_repeat_line_len(l, k);
    assert(repeat_line(l, k) == l + repeat_line(l, k1));
    assert(repeat_line(l, k).take(l.len() as int) =~= l);
    assert(repeat_line(l, k).skip(l.len() as int) =~= repeat_line(l, k1));
}

/// While the marker stands for a run, further copies of its line show nothing, and the end
/// of the source shows the last copy.
proof fn lemma_run_suppressed(p: DetectParams, c: u64, l: Seq<u8>, j: nat)
    requires
        p.hide,
        l.len() == p.bytes_per_line,
        p.bytes_per_line >= 1,
    ensures
        run(p, (c, Some(l), true), repeat_line(l, j)) == seq![
            Some((add64(p.base_offset, c as int + j * l.len() - l.len()), l)),
        ],
    decreases j,
{
    let b = l.len() as int;
    let d = repeat_line(l, j);
    let st: DetectState = (c, Some(l), true);
    if j == 0 {
        assert(j * b == 0) by (nonlinear_arith)
            requires
                j == 0,
        ;
        lemma_repeat_line_len(l, j);
        assert(d.len() == 0);
        assert(run(p, st, d) == finish(p, st).1);
    } else {
        let j1 = (j - 1) as nat;
        lemma_repeat_line_split(l, j);
        lemma_run_full_step(p, st, d);
        assert(is_repeat(p, st, l));
        let c2 = add64(c, b);
        assert(step(p, st, l) == ((c2, Some(l), true), Seq::<Event>::empty()));
        lemma_run_suppressed(p, c2, l, j1);
        assert(run(p, st, d) =~= run(p, (c2, Some(l), true), repeat_line(l, j1)));
        lemma_offset_shift(p.base_offset, c, b, j1 * b - b);
        assert(c as int + b + (j1 * b - b) == c as int + j * b - b) by (nonlinear_arith)
            requires
                j1 == j - 1,
        ;
    }
}

/// With duplicates hidden, the events of `k >= 2` copies of one full line: the first copy,
/// the marker, and the last copy.
proof fn lemma_run_copies(p: DetectParams, l: Seq<u8>, k: nat)
    requires
        p.hide,
        l.len() == p.bytes_per_line,
        1 <= p.bytes_per_line <= 0x1_0000_0000,
        k >= 2,
    ensures
        run(p, initial_state(), repeat_line(l, k)) == seq![
            Some((p.base_offset, l)),
            None,
            Some((add64(p.base_offset, (k - 1) * l.len()), l)),
        ],
{
    let b = l.len() as int;
    let k1 = (k - 1) as nat;
    let k2 = (k - 2) as nat;
    let st0 = initial_state();
    lemma_repeat_line_split(l, k);
    lemma_repeat_line_split(l, k1);
    lemma_run_full_step(p, st0, repeat_line(l, k));
    assert(!is_repeat(p, st0, l));
    let st1: DetectState = (add64(0, b), Some(l), false);
    assert(step(p, st0, l) == (st1, seq![Some((add64(p.base_offset, 0), l))]));
    lemma_run_full_step(p, st1, repeat_line(l, k1));
    assert(is_repeat(p, st1, l));
    let c2 = add64(add64(0, b), b);
    let st2: DetectState = (c2, Some(l), true);
    assert(step(p, st1, l) == (st2, seq![None::<(u64, Seq<u8>)>]));
    lemma_run_suppressed(p, c2, l, k2);
    assert(add64(0, b) == b);
    assert(c2 == 2 * b);
    assert(2 * b + k2 * b - b == (k - 1) * b) by (nonlinear_arith)
        requires
            k2 == k - 2,
    ;
    assert(add64(p.base_offset, 0) == p.base_offset);
    assert(run(p, st0, repeat_line(l, k)) =~= seq![
        Some((p.base_offset, l)),
        None,
        Some((add64(p.base_offset, (k - 1) * b), l)),
    ]);
}

/// With duplicates hidden, `k >= 2` copies of one full line show as three lines: the first
/// copy, the marker `*`, and the last copy at its own offset.
pub proof fn law_duplicate_run_collapses(c: RhexdumpConfig, base: u64, l: Seq<u8>, k: nat)
    requires
        c.wf(),
        c.hide_duplicate_lines,
        l.len() == c.bytes_per_line,
        k >= 2,
    ensures
        dump_lines(c, base, repeat_line(l, k)) == seq![
            render_line(c, base, l),
            seq!['*'],
            render_line(c, add64(base, (k - 1) * l.len()), l),
        ],
{
    lemma_bytes_per_line_positive(c);
    assert(c.bytes_per_line <= 0x1_0000_0000) by (nonlinear_arith)
        requires
            c.bytes_per_line == c.group_size.spec_bytes() * c.groups_per_line,
            c.group_size.spec_bytes() <= 8,
            c.groups_per_line <= 0x0100_0000,
    ;
    lemma_run_copies(params_of(c, base), l, k);
    assert(dump_lines(c, base, repeat_line(l, k)) =~= seq![
        render_line(c, base, l),
        seq!['*'],
        render_line(c, add64(base, (k - 1) * l.len()), l),
    ]);
}

} // verus!
