//! Text encoding of byte groups: numerals in a radix, zero padding, the
//! ASCII side panel, and the whole numeral field of a line.

use vstd::prelude::*;

verus! {

/// Character of a single digit `d` (`0-9`, then `a-f`).
pub open spec fn digit_char(d: nat) -> char {
    if d < 10 {
        ((d + 48) as u8) as char
    } else {
        ((d + 87) as u8) as char
    }
}

/// Digits of `v` written in `radix`, most significant first, without leading zeros.
pub open spec fn digits(v: nat, radix: nat) -> Seq<char>
    decreases v,
{
    if radix < 2 || v < radix {
        seq![digit_char(v)]
    } else {
        proof {
            lemma_div_smaller(v, radix);
        }
        digits(v / radix, radix).push(digit_char(v % radix))
    }
}

/// `n` copies of the character `c`.
pub open spec fn repeat(c: char, n: nat) -> Seq<char> {
    Seq::new(n, |i: int| c)
}

/// `t` extended on the right with spaces up to `n` characters.
pub open spec fn pad_right(t: Seq<char>, n: nat) -> Seq<char> {
    if t.len() < n {
        t + repeat(' ', (n - t.len()) as nat)
    } else {
        t
    }
}

/// `v` in `radix`, left-padded with zeros to at least `width` digits.
pub open spec fn zero_padded(v: nat, radix: nat, width: nat) -> Seq<char> {
    let d = digits(v, radix);
    if d.len() < width {
        repeat('0', (width - d.len()) as nat) + d
    } else {
        d
    }
}

/// Largest value of an unsigned integer of `n` bytes (`256^n - 1`).
pub open spec fn group_max(n: nat) -> nat
    decreases n,
{
    if n == 0 {
        0
    } else {
        256 * group_max((n - 1) as nat) + 255
    }
}

/// Value of bytes read as a little-endian unsigned integer.
pub open spec fn le_value(s: Seq<u8>) -> nat
    decreases s.len(),
{
    if s.len() == 0 {
        0
    } else {
        s[0] as nat + 256 * le_value(s.drop_first())
    }
}

/// Value of bytes read as a big-endian unsigned integer.
pub open spec fn be_value(s: Seq<u8>) -> nat
    decreases s.len(),
{
    if s.len() == 0 {
        0
    } else {
        256 * be_value(s.drop_last()) + s.last() as nat
    }
}

/// Numeric value of one group of bytes.
pub open spec fn group_value(s: Seq<u8>, big_endian: bool) -> nat {
    if big_endian {
        be_value(s)
    } else {
        le_value(s)
    }
}

/// Printable, non-space ASCII.
pub open spec fn is_graphic(b: u8) -> bool {
    0x21 <= b <= 0x7e
}

/// Character that stands for a byte in the ASCII panel.
pub open spec fn ascii_char(b: u8) -> char {
    if is_graphic(b) {
        b as char
    } else {
        '.'
    }
}

/// The ASCII panel of some bytes: one character per byte.
pub open spec fn ascii_of(s: Seq<u8>) -> Seq<char> {
    s.map_values(|b: u8| ascii_char(b))
}

/// Parameters of the numeral encoding of groups.
pub struct GroupFormat {
    /// Radix of the numerals: 2, 8, 10 or 16.
    pub radix: u64,
    /// Whether a group is read most significant byte first.
    pub big_endian: bool,
    /// Bytes per group: 1 to 8.
    pub group_bytes: usize,
    /// Digits of each numeral, after zero padding.
    pub width: usize,
}

impl GroupFormat {
    pub open spec fn wf(&self) -> bool {
        &&& 2 <= self.radix <= 16
        &&& 1 <= self.group_bytes <= 8
        &&& self.width as nat == digits(group_max(self.group_bytes as nat), self.radix as nat).len()
    }

    /// Numeral of one group.
    pub open spec fn numeral(&self, g: Seq<u8>) -> Seq<char> {
        zero_padded(group_value(g, self.big_endian), self.radix as nat, self.width as nat)
    }

    /// The groups of `s`, each preceded by one space; the last group may be short.
    pub open spec fn groups_text(&self, s: Seq<u8>) -> Seq<char>
        decreases s.len(),
    {
        if s.len() == 0 || self.group_bytes == 0 {
            Seq::empty()
        } else if s.len() <= self.group_bytes {
            seq![' '] + self.numeral(s)
        } else {
            seq![' '] + self.numeral(s.take(self.group_bytes as int)) + self.groups_text(
                s.skip(self.group_bytes as int),
            )
        }
    }
}

/// Number of groups of `k` bytes needed for `n` bytes.
pub open spec fn group_count(n: nat, k: nat) -> nat {
    if k == 0 {
        0
    } else {
        ((n + k - 1) as nat / k) as nat
    }
}

/// Relies on `String::push`: appends one character.
#[verifier::external_body]
pub(crate) fn push_char(s: &mut String, c: char)
    ensures
        final(s)@ == old(s)@.push(c),
{
    s.push(c)
}

/// Appends `n` copies of `c`.
pub(crate) fn push_repeat(s: &mut String, c: char, n: usize)
    ensures
        final(s)@ == old(s)@ + repeat(c, n as nat),
{
    let mut i: usize = 0;
    while i < n
        invariant
            i <= n,
            s@ == old(s)@ + repeat(c, i as nat),
        decreases n - i,
    {
        push_char(s, c);
        i = i + 1;
        assert(s@ =~= old(s)@ + repeat(c, i as nat));
    }
}

/// Appends the characters of a `&str`.
pub(crate) fn push_str(s: &mut String, t: &str)
    ensures
        final(s)@ == old(s)@ + t@,
{
    s.append(t);
}

fn digit_char_exec(d: u64) -> (c: char)
    requires
        d < 16,
    ensures
        c == digit_char(d as nat),
{
    if d < 10 {
        ((d + 48) as u8) as char
    } else {
        ((d + 87) as u8) as char
    }
}

/// Appends the digits of `v` in `radix`.
fn push_digits(s: &mut String, v: u64, radix: u64)
    requires
        2 <= radix <= 16,
    ensures
        final(s)@ == old(s)@ + digits(v as nat, radix as nat),
    decreases v,
{
    if v < radix {
        push_char(s, digit_char_exec(v));
    } else {
        proof {
            lemma_div_smaller(v as nat, radix as nat);
        }
        push_digits(s, v / radix, radix);
        push_char(s, digit_char_exec(v % radix));
        assert(s@ =~= old(s)@ + digits(v as nat, radix as nat));
    }
}

/// Number of digits of `v` in `radix`.
pub fn digit_count(v: u64, radix: u64) -> (n: usize)
    requires
        2 <= radix <= 16,
    ensures
        n as nat == digits(v as nat, radix as nat).len(),
        n <= 64,
    decreases v,
{
    if v < radix {
        1
    } else {
        proof {
            lemma_digits_len_bound(v as nat, radix as nat);
            lemma_div_smaller(v as nat, radix as nat);
        }
        digit_count(v / radix, radix) + 1
    }
}

/// There are at most 64 digits in any radix for a 64-bit value.
pub proof fn lemma_digits_len_bound(v: nat, radix: nat)
    requires
        2 <= radix,
        v <= u64::MAX,
    ensures
        digits(v, radix).len() <= 64,
        digits(v, radix).len() >= 1,
{
    assert(pow2(64) == 0x1_0000_0000_0000_0000nat) by {
        reveal_with_fuel(pow2, 65);
    }
    lemma_digits_len_log(v, radix, 64);
}

proof fn lemma_digits_len_log(v: nat, radix: nat, k: nat)
    requires
        2 <= radix,
        v < pow2(k),
    ensures
        1 <= digits(v, radix).len() <= if k == 0 { 1 } else { k },
    decreases v,
{
    if v >= radix {
        assert(k >= 1) by {
            if k == 0 {
                assert(pow2(0) == 1);
            }
        }
        assert(v / radix < pow2((k - 1) as nat)) by {
            assert(pow2(k) == 2 * pow2((k - 1) as nat));
            assert(v / radix <= v / 2) by (nonlinear_arith)
                requires
                    radix >= 2,
            ;
            assert(v / 2 < pow2((k - 1) as nat)) by (nonlinear_arith)
                requires
                    v < 2 * pow2((k - 1) as nat),
            ;
        }
        lemma_div_smaller(v, radix);
        lemma_digits_len_log(v / radix, radix, (k - 1) as nat);
        if k == 1 {
            assert(pow2(1) == 2 * pow2(0));
            assert(pow2(0) == 1);
            assert(v < 2);
        }
    }
}

/// Dividing by a radix makes a value at least as large as the radix smaller.
pub proof fn lemma_div_smaller(v: nat, radix: nat)
    requires
        2 <= radix <= v,
    ensures
        v / radix < v,
{
    assert(v / radix < v) by (nonlinear_arith)
        requires
            2 <= radix <= v,
    ;
}

/// `2^k`.
pub open spec fn pow2(k: nat) -> nat
    decreases k,
{
    if k == 0 {
        1
    } else {
        2 * pow2((k - 1) as nat)
    }
}


/// `group_max` grows with the number of bytes.
pub proof fn lemma_group_max_monotone(a: nat, b: nat)
    requires
        a <= b,
    ensures
        group_max(a) <= group_max(b),
    decreases b,
{
    if a < b {
        lemma_group_max_monotone(a, (b - 1) as nat);
    }
}

/// The largest 8-byte value is `u64::MAX`; smaller groups leave room for one more byte.
pub proof fn lemma_group_max_values()
    ensures
        group_max(7) == 0xff_ffff_ffff_ffff,
        group_max(8) == 0xffff_ffff_ffff_ffff,
{
    reveal_with_fuel(group_max, 9);
}

/// A little-endian value fits in as many bytes as it was read from.
pub proof fn lemma_le_value_bound(s: Seq<u8>)
    ensures
        le_value(s) <= group_max(s.len()),
    decreases s.len(),
{
    if s.len() > 0 {
        lemma_le_value_bound(s.drop_first());
    }
}

/// A big-endian value fits in as many bytes as it was read from.
pub proof fn lemma_be_value_bound(s: Seq<u8>)
    ensures
        be_value(s) <= group_max(s.len()),
    decreases s.len(),
{
    if s.len() > 0 {
        lemma_be_value_bound(s.drop_last());
    }
}

/// A value has no more digits than any larger value.
pub proof fn lemma_digits_monotone(a: nat, b: nat, radix: nat)
    requires
        2 <= radix,
        a <= b,
    ensures
        digits(a, radix).len() <= digits(b, radix).len(),
    decreases b,
{
    if a >= radix {
        lemma_div_smaller(b, radix);
        assert(a / radix <= b / radix) by (nonlinear_arith)
            requires
                a <= b,
                radix >= 2,
        ;
        lemma_digits_monotone(a / radix, b / radix, radix);
    }
}

/// `256^n - 1` for `n` from 1 to 8.
pub fn group_max_exec(n: usize) -> (r: u64)
    requires
        n <= 8,
    ensures
        r as nat == group_max(n as nat),
{
    let mut v: u64 = 0;
    let mut i: usize = 0;
    while i < n
        invariant
            i <= n <= 8,
            v as nat == group_max(i as nat),
        decreases n - i,
    {
        proof {
            lemma_group_max_monotone(i as nat, 7);
            lemma_group_max_values();
        }
        v = v * 256 + 255;
        i = i + 1;
    }
    v
}

/// Value of `data[start..end]` read as an unsigned integer.
pub fn read_group(data: &[u8], start: usize, end: usize, big_endian: bool) -> (r: u64)
    requires
        start <= end <= data@.len(),
        end - start <= 8,
    ensures
        r as nat == group_value(data@.subrange(start as int, end as int), big_endian),
{
    let ghost s = data@.subrange(start as int, end as int);
    proof {
        lemma_group_max_values();
    }
    if big_endian {
        let mut v: u64 = 0;
        let mut i: usize = start;
        while i < end
            invariant
                start <= i <= end <= data@.len(),
                end - start <= 8,
                s == data@.subrange(start as int, end as int),
                v as nat == be_value(s.take(i - start)),
                group_max(7) == 0xff_ffff_ffff_ffff,
            decreases end - i,
        {
            proof {
                lemma_be_value_bound(s.take(i - start));
                lemma_group_max_monotone((i - start) as nat, 7);
                assert(s.take(i - start + 1).drop_last() =~= s.take(i - start));
            }
            v = v * 256 + data[i] as u64;
            i = i + 1;
        }
        assert(s.take(end - start) =~= s);
        v
    } else {
        let mut v: u64 = 0;
        let mut i: usize = end;
        while i > start
            invariant
                start <= i <= end <= data@.len(),
                end - start <= 8,
                s == data@.subrange(start as int, end as int),
                v as nat == le_value(s.skip(i - start)),
                group_max(7) == 0xff_ffff_ffff_ffff,
            decreases i,
        {
            proof {
                lemma_le_value_bound(s.skip(i - start));
                lemma_group_max_monotone((end - i) as nat, 7);
                assert(s.skip(i - 1 - start).drop_first() =~= s.skip(i - start));
            }
            v = v * 256 + data[i - 1] as u64;
            i = i - 1;
        }
        assert(s.skip(0) =~= s);
        v
    }
}

/// Appends `v` in `radix`, left-padded with zeros to `width` digits.
pub fn push_zero_padded(s: &mut String, v: u64, radix: u64, width: usize)
    requires
        2 <= radix <= 16,
    ensures
        final(s)@ == old(s)@ + zero_padded(v as nat, radix as nat, width as nat),
{
    let n = digit_count(v, radix);
    if n < width {
        push_repeat(s, '0', width - n);
    }
    push_digits(s, v, radix);
    assert(s@ =~= old(s)@ + zero_padded(v as nat, radix as nat, width as nat));
}

impl GroupFormat {
    /// Encoding of groups of `group_bytes` bytes in `radix`, padded to the width of the largest
    /// such group.
    pub fn new(radix: u64, big_endian: bool, group_bytes: usize) -> (r: GroupFormat)
        requires
            2 <= radix <= 16,
            1 <= group_bytes <= 8,
        ensures
            r.wf(),
            r.radix == radix,
            r.big_endian == big_endian,
            r.group_bytes == group_bytes,
    {
        let max = group_max_exec(group_bytes);
        GroupFormat { radix, big_endian, group_bytes, width: digit_count(max, radix) }
    }

    /// Every numeral of a group of at most `group_bytes` bytes is `width` digits long.
    pub proof fn lemma_numeral_len(&self, g: Seq<u8>)
        requires
            self.wf(),
            g.len() <= self.group_bytes,
        ensures
            self.numeral(g).len() == self.width,
    {
        let v = group_value(g, self.big_endian);
        lemma_le_value_bound(g);
        lemma_be_value_bound(g);
        lemma_group_max_monotone(g.len(), self.group_bytes as nat);
        lemma_digits_monotone(v, group_max(self.group_bytes as nat), self.radix as nat);
    }

    /// The numeral field of `s` holds one space and one numeral per group.
    pub proof fn lemma_groups_text_len(&self, s: Seq<u8>)
        requires
            self.wf(),
        ensures
            self.groups_text(s).len() == group_count(s.len(), self.group_bytes as nat) * (
            self.width + 1),
        decreases s.len(),
    {
        let k = self.group_bytes as nat;
        let n = s.len();
        if n == 0 {
            assert(group_count(0, k) == 0) by (nonlinear_arith)
                requires
                    k >= 1,
            ;
        } else if n <= k {
            self.lemma_numeral_len(s);
            assert(group_count(n, k) == 1) by (nonlinear_arith)
                requires
                    1 <= n <= k,
                    group_count(n, k) == (n + k - 1) as int / k as int,
            ;
        } else {
            self.lemma_numeral_len(s.take(k as int));
            self.lemma_groups_text_len(s.skip(k as int));
            assert(group_count(n, k) == group_count((n - k) as nat, k) + 1) by (nonlinear_arith)
                requires
                    n > k >= 1,
                    group_count(n, k) == (n + k - 1) as int / k as int,
                    group_count((n - k) as nat, k) == ((n - k) + k - 1) as int / k as int,
            ;
            assert(group_count(n, k) * (self.width + 1) == group_count((n - k) as nat, k) * (
            self.width + 1) + self.width + 1) by (nonlinear_arith)
                requires
                    group_count(n, k) == group_count((n - k) as nat, k) + 1,
            ;
        }
    }

    /// Appends the numeral field of `data[start..end]`.
    pub fn push_groups(&self, s: &mut String, data: &[u8], start: usize, end: usize)
        requires
            self.wf(),
            start <= end <= data@.len(),
        ensures
            final(s)@ == old(s)@ + self.groups_text(data@.subrange(start as int, end as int)),
    {
        let k = self.group_bytes;
        let mut i = start;
        while i < end
            invariant
                self.wf(),
                k == self.group_bytes,
                start <= i <= end <= data@.len(),
                s@ + self.groups_text(data@.subrange(i as int, end as int)) == old(s)@
                    + self.groups_text(data@.subrange(start as int, end as int)),
            decreases end - i,
        {
            let ghost rest = data@.subrange(i as int, end as int);
            let stop = if end - i <= k {
                end
            } else {
                i + k
            };
            let v = read_group(data, i, stop, self.big_endian);
            let ghost before = s@;
            push_char(s, ' ');
            push_zero_padded(s, v, self.radix, self.width);
            proof {
                if end - i <= k {
                    assert(data@.subrange(stop as int, end as int) =~= Seq::<u8>::empty());
                    assert(self.groups_text(data@.subrange(stop as int, end as int)) =~= Seq::<
                        char,
                    >::empty());
                    assert(s@ =~= before + self.groups_text(rest));
                } else {
                    assert(rest.take(k as int) =~= data@.subrange(i as int, stop as int));
                    assert(rest.skip(k as int) =~= data@.subrange(stop as int, end as int));
                    assert(s@ + self.groups_text(data@.subrange(stop as int, end as int))
                        =~= before + self.groups_text(rest));
                }
            }
            i = stop;
        }
        assert(data@.subrange(end as int, end as int) =~= Seq::<u8>::empty());
        assert(s@ =~= s@ + self.groups_text(data@.subrange(end as int, end as int)));
    }
}

/// Appends the ASCII panel of `data[start..end]`.
pub fn push_ascii(s: &mut String, data: &[u8], start: usize, end: usize)
    requires
        start <= end <= data@.len(),
    ensures
        final(s)@ == old(s)@ + ascii_of(data@.subrange(start as int, end as int)),
{
    let mut i = start;
    while i < end
        invariant
            start <= i <= end <= data@.len(),
            s@ == old(s)@ + ascii_of(data@.subrange(start as int, i as int)),
        decreases end - i,
    {
        let b = data[i];
        let c = if 0x21 <= b && b <= 0x7e {
            b as char
        } else {
            '.'
        };
        push_char(s, c);
        i = i + 1;
        assert(ascii_of(data@.subrange(start as int, i as int)) =~= ascii_of(
            data@.subrange(start as int, (i - 1) as int),
        ).push(c));
        assert(s@ =~= old(s)@ + ascii_of(data@.subrange(start as int, i as int)));
    }
}

} // verus!
