//! Byte layouts of the files a headless render writes: the raw HDR image
//! (`.bin`) and the path-depth histogram (`_depth.csv`).
use vstd::prelude::*;

verus! {

/// Little-endian bytes of a 32-bit value.
pub open spec fn le_bytes(v: u32) -> Seq<u8> {
    seq![(v % 0x100) as u8, ((v / 0x100) % 0x100) as u8, ((v / 0x1_0000) % 0x100) as u8, (v / 0x100_0000) as u8]
}

/// Concatenated little-endian bytes of a run of 32-bit values.
pub open spec fn le_words(words: Seq<u32>) -> Seq<u8>
    decreases words.len(),
{
    if words.len() == 0 {
        Seq::empty()
    } else {
        le_words(words.drop_last()) + le_bytes(words.last())
    }
}

/// The `.bin` image file: width and height as little-endian `u32` (taken
/// modulo 2^32), then the pixel data as the little-endian bytes of each
/// `f32`, given here by its bit pattern.
pub open spec fn spec_bin(width: usize, height: usize, float_bits: Seq<u32>) -> Seq<u8> {
    le_bytes(width as u32) + le_bytes(height as u32) + le_words(float_bits)
}

/// Appends the little-endian bytes of `v`.
fn push_le(out: &mut Vec<u8>, v: u32)
    ensures
        final(out)@ == old(out)@ + le_bytes(v),
{
    out.push((v % 0x100) as u8);
    out.push(((v / 0x100) % 0x100) as u8);
    out.push(((v / 0x1_0000) % 0x100) as u8);
    out.push((v / 0x100_0000) as u8);
    assert(out@ =~= old(out)@ + le_bytes(v));
}

/// Serialises an HDR image for offline analysis.
pub fn encode_bin(width: usize, height: usize, float_bits: &[u32]) -> (out: Vec<u8>)
    ensures
        out@ == spec_bin(width, height, float_bits@),
{
    let mut out: Vec<u8> = Vec::new();
    push_le(&mut out, width as u32);
    push_le(&mut out, height as u32);
    let ghost header = out@;
    let mut i: usize = 0;
    while i < float_bits.len()
        invariant
            i <= float_bits@.len(),
            header == le_bytes(width as u32) + le_bytes(height as u32),
            out@ == header + le_words(float_bits@.take(i as int)),
        decreases float_bits@.len() - i,
    {
        let ghost before = out@;
        push_le(&mut out, float_bits[i]);
        assert(float_bits@.take(i + 1).drop_last() == float_bits@.take(i as int));
        assert(out@ =~= header + le_words(float_bits@.take(i + 1)));
        i = i + 1;
    }
    assert(float_bits@.take(float_bits@.len() as int) == float_bits@);
    out
}

/// Reads a little-endian `u32` back.
pub open spec fn le_value(b: Seq<u8>, p: int) -> int {
    b[p] as int + 0x100 * (b[p + 1] as int) + 0x1_0000 * (b[p + 2] as int) + 0x100_0000 * (b[p + 3] as int)
}

proof fn lemma_le_bytes_value(v: u32)
    ensures
        le_bytes(v).len() == 4,
        le_value(le_bytes(v), 0) == v,
{
    let b = le_bytes(v);
    assert(b[0] as int == v % 0x100);
    assert(b[1] as int == (v / 0x100) % 0x100);
    assert(b[2] as int == (v / 0x1_0000) % 0x100);
    assert(b[3] as int == v / 0x100_0000);
    assert(le_value(b, 0) == v) by (nonlinear_arith)
        requires
            b[0] as int == v % 0x100,
            b[1] as int == (v / 0x100) % 0x100,
            b[2] as int == (v / 0x1_0000) % 0x100,
            b[3] as int == v / 0x100_0000,
            0 <= v < 0x1_0000_0000,
    {
    }
}

proof fn lemma_le_words(words: Seq<u32>)
    ensures
        le_words(words).len() == 4 * words.len(),
        forall|i: int| 0 <= i < words.len() ==> le_value(le_words(words), 4 * i) == #[trigger] words[i],
    decreases words.len(),
{
    if words.len() > 0 {
        let init = words.drop_last();
        lemma_le_words(init);
        lemma_le_bytes_value(words.last());
        let a = le_words(init);
        let b = le_bytes(words.last());
        assert forall|i: int| 0 <= i < words.len() implies le_value(le_words(words), 4 * i) == #[trigger] words[i] by {
            if i < init.len() {
                assert(init[i] == words[i]);
                assert(le_words(words)[4 * i] == a[4 * i]);
                assert(le_words(words)[4 * i + 1] == a[4 * i + 1]);
                assert(le_words(words)[4 * i + 2] == a[4 * i + 2]);
                assert(le_words(words)[4 * i + 3] == a[4 * i + 3]);
            } else {
                assert(le_words(words)[4 * i] == b[0]);
                assert(le_words(words)[4 * i + 1] == b[1]);
                assert(le_words(words)[4 * i + 2] == b[2]);
                assert(le_words(words)[4 * i + 3] == b[3]);
            }
        }
    }
}

/// A reader of the `.bin` layout gets the image back: bytes 0..4 hold the
/// width, bytes 4..8 the height (both modulo 2^32), and pixel value `i` sits
/// at byte `8 + 4 i`; the file is exactly `8 + 4 n` bytes long.
pub proof fn lemma_bin_round_trip(width: usize, height: usize, float_bits: Seq<u32>)
    ensures
        ({
            let b = spec_bin(width, height, float_bits);
            &&& b.len() == 8 + 4 * float_bits.len()
            &&& le_value(b, 0) == width as u32
            &&& le_value(b, 4) == height as u32
            &&& forall|i: int| 0 <= i < float_bits.len() ==> le_value(b, 8 + 4 * i) == #[trigger] float_bits[i]
        }),
{
    let b = spec_bin(width, height, float_bits);
    let hw = le_bytes(width as u32);
    let hh = le_bytes(height as u32);
    let body = le_words(float_bits);
    lemma_le_bytes_value(width as u32);
    lemma_le_bytes_value(height as u32);
    lemma_le_words(float_bits);
    assert(b =~= hw + hh + body);
    assert forall|k: int| 0 <= k < 4 implies b[k] == hw[k] && b[4 + k] == hh[k] by {}
    assert forall|i: int| 0 <= i < float_bits.len() implies le_value(b, 8 + 4 * i) == #[trigger] float_bits[i] by {
        assert(b[8 + 4 * i] == body[4 * i]);
        assert(b[8 + 4 * i + 1] == body[4 * i + 1]);
        assert(b[8 + 4 * i + 2] == body[4 * i + 2]);
        assert(b[8 + 4 * i + 3] == body[4 * i + 3]);
    }
}

/// ASCII decimal digits of `n`, without leading zeros.
pub open spec fn decimal(n: nat) -> Seq<u8>
    decreases n,
{
    if n < 10 {
        seq![(0x30 + n) as u8]
    } else {
        decimal(n / 10) + seq![(0x30 + n % 10) as u8]
    }
}

/// Appends the decimal digits of `n`.
fn push_decimal(out: &mut Vec<u8>, n: u64)
    ensures
        final(out)@ == old(out)@ + decimal(n as nat),
    decreases n,
{
    if n >= 10 {
        push_decimal(out, n / 10);
    }
    out.push((0x30 + n % 10) as u8);
    assert(out@ =~= old(out)@ + decimal(n as nat));
}

/// One histogram row: `depth,count` and a newline.
pub open spec fn csv_row(depth: nat, count: u32) -> Seq<u8> {
    decimal(depth) + seq![0x2Cu8] + decimal(count as nat) + seq![0x0Au8]
}

/// All rows for the first `n` depths.
pub open spec fn csv_rows(counts: Seq<u32>, n: nat) -> Seq<u8>
    decreases n,
{
    if n == 0 {
        Seq::empty()
    } else {
        csv_rows(counts, (n - 1) as nat) + csv_row((n - 1) as nat, counts[n - 1])
    }
}

/// The header line `depth,count`.
pub open spec fn csv_header() -> Seq<u8> {
    seq![0x64u8, 0x65u8, 0x70u8, 0x74u8, 0x68u8, 0x2Cu8, 0x63u8, 0x6Fu8, 0x75u8, 0x6Eu8, 0x74u8, 0x0Au8]
}

/// The depth histogram as CSV text: a `depth,count` header, then one row
/// per depth, in order.
pub fn depth_csv(counts: &[u32]) -> (out: Vec<u8>)
    ensures
        out@ == csv_header() + csv_rows(counts@, counts@.len()),
{
    let mut out: Vec<u8> = Vec::new();
    out.push(0x64);
    out.push(0x65);
    out.push(0x70);
    out.push(0x74);
    out.push(0x68);
    out.push(0x2C);
    out.push(0x63);
    out.push(0x6F);
    out.push(0x75);
    out.push(0x6E);
    out.push(0x74);
    out.push(0x0A);
    assert(out@ =~= csv_header());
    let mut d: usize = 0;
    while d < counts.len()
        invariant
            d <= counts@.len(),
            out@ == csv_header() + csv_rows(counts@, d as nat),
        decreases counts@.len() - d,
    {
        let ghost before = out@;
        push_decimal(&mut out, d as u64);
        out.push(0x2C);
        push_decimal(&mut out, counts[d] as u64);
        out.push(0x0A);
        assert(out@ =~= before + csv_row(d as nat, counts@[d as int]));
        assert(out@ =~= csv_header() + csv_rows(counts@, (d + 1) as nat));
        d = d + 1;
    }
    out
}

/// Per-depth counts of terminated paths.  Depths past the last bin are
/// counted in the last bin.
pub struct DepthHistogram {
    counts: Vec<u32>,
}

impl DepthHistogram {
    pub closed spec fn bins(&self) -> Seq<u32> {
        self.counts@
    }

    /// Bin that a path of the given depth lands in.
    pub open spec fn bin_of(&self, depth: u32) -> int {
        if depth as int >= self.bins().len() - 1 { self.bins().len() - 1 } else { depth as int }
    }

    /// Zeroed bins for depths `0 ..= max_depth`.
    pub fn new(max_depth: u32) -> (h: Self)
        requires
            max_depth as int + 1 <= usize::MAX,
        ensures
            h.bins().len() == max_depth as int + 1,
            forall|k: int| 0 <= k < h.bins().len() ==> h.bins()[k] == 0,
    {
        let n = max_depth as usize + 1;
        let mut counts: Vec<u32> = Vec::new();
        let mut i: usize = 0;
        while i < n
            invariant
                i <= n,
                counts@.len() == i,
                forall|k: int| 0 <= k < i ==> counts@[k] == 0,
            decreases n - i,
        {
            counts.push(0);
            i = i + 1;
        }
        DepthHistogram { counts }
    }

    /// Counts one path that ended at `depth`; a counter that is full wraps
    /// around to zero.
    pub fn record(&mut self, depth: u32)
        requires
            old(self).bins().len() >= 1,
        ensures
            final(self).bins() == old(self).bins().update(
                old(self).bin_of(depth),
                old(self).bins()[old(self).bin_of(depth)].wrapping_add(1),
            ),
    {
        let last = self.counts.len() - 1;
        let bin = if depth as usize >= last { last } else { depth as usize };
        let c = self.counts[bin];
        self.counts.set(bin, c.wrapping_add(1));
    }

    /// The bins, depth 0 first.
    pub fn counts(&self) -> (c: &[u32])
        ensures
            c@ == self.bins(),
    {
        self.counts.as_slice()
    }

    /// Empties every bin.
    pub fn reset(&mut self)
        ensures
            final(self).bins().len() == old(self).bins().len(),
            forall|k: int| 0 <= k < final(self).bins().len() ==> final(self).bins()[k] == 0,
    {
        let n = self.counts.len();
        self.counts = vec![0u32; n];
    }
}

/// Whether a byte is an ASCII decimal digit.
pub open spec fn is_digit(b: u8) -> bool {
    0x30 <= b <= 0x39
}

/// The number that a run of ASCII decimal digits spells, most significant
/// digit first.
pub open spec fn digits_value(s: Seq<u8>) -> nat
    decreases s.len(),
{
    if s.len() == 0 {
        0
    } else {
        digits_value(s.drop_last()) * 10 + (s.last() - 0x30) as nat
    }
}

/// The decimal spelling of `n` is a non-empty run of digits that reads back
/// as `n`.
pub proof fn lemma_decimal_reads_back(n: nat)
    ensures
        decimal(n).len() >= 1,
        forall|j: int| 0 <= j < decimal(n).len() ==> is_digit(#[trigger] decimal(n)[j]),
        digits_value(decimal(n)) == n,
    decreases n,
{
    reveal_with_fuel(digits_value, 2);
    let d = decimal(n);
    if n < 10 {
        assert(d.drop_last() =~= Seq::<u8>::empty());
        assert(d.last() == (0x30 + n) as u8);
        assert(digits_value(d) == digits_value(d.drop_last()) * 10 + (d.last() - 0x30) as nat);
    } else {
        lemma_decimal_reads_back(n / 10);
        assert(d.drop_last() =~= decimal(n / 10));
        assert(n == (n / 10) * 10 + n % 10) by (nonlinear_arith);
        assert(d.last() == (0x30 + n % 10) as u8);
        assert(digits_value(d) == digits_value(d.drop_last()) * 10 + (d.last() - 0x30) as nat);
        assert forall|j: int| 0 <= j < d.len() implies is_digit(#[trigger] d[j]) by {
            if j < d.len() - 1 {
                assert(d[j] == decimal(n / 10)[j]);
            }
        }
    }
}

/// A histogram row is `depth,count` and a newline: it splits at its only
/// comma into two runs of digits that read back as the depth and as the
/// count.
pub proof fn lemma_csv_row_fields(depth: nat, count: u32)
    ensures
        ({
            let r = csv_row(depth, count);
            exists|k: int|
                {
                    &&& 0 < k < r.len() - 2
                    &&& #[trigger] r[k] == 0x2C
                    &&& forall|j: int| 0 <= j < k ==> is_digit(#[trigger] r[j])
                    &&& digits_value(r.subrange(0, k)) == depth
                    &&& forall|j: int| k < j < r.len() - 1 ==> is_digit(#[trigger] r[j])
                    &&& digits_value(r.subrange(k + 1, r.len() - 1)) == count
                    &&& r[r.len() - 1] == 0x0A
                }
        }),
{
    lemma_decimal_reads_back(depth);
    lemma_decimal_reads_back(count as nat);
    let r = csv_row(depth, count);
    let a = decimal(depth);
    let b = decimal(count as nat);
    let k = a.len() as int;
    assert(r.subrange(0, k) =~= a);
    assert(r.subrange(k + 1, r.len() - 1) =~= b);
    assert(r[k] == 0x2C);
    assert forall|j: int| 0 <= j < k implies is_digit(#[trigger] r[j]) by {
        assert(r[j] == a[j]);
    }
    assert forall|j: int| k < j < r.len() - 1 implies is_digit(#[trigger] r[j]) by {
        assert(r[j] == b[j - k - 1]);
    }
}

/// The rows of the first `d` depths are a prefix of the rows of any more
/// depths, and row `d` follows them directly.
pub proof fn lemma_csv_rows_in_order(counts: Seq<u32>, d: nat, n: nat)
    requires
        d < n,
    ensures
        ({
            let before = csv_rows(counts, d);
            let all = csv_rows(counts, n);
            &&& before.len() + csv_row(d, counts[d as int]).len() <= all.len()
            &&& all.subrange(0, before.len() as int) == before
            &&& all.subrange(before.len() as int, (before.len() + csv_row(d, counts[d as int]).len()) as int) == csv_row(
                d,
                counts[d as int],
            )
        }),
    decreases n,
{
    if n > d + 1 {
        lemma_csv_rows_in_order(counts, d, (n - 1) as nat);
        let prev = csv_rows(counts, (n - 1) as nat);
        let all = csv_rows(counts, n);
        let before = csv_rows(counts, d);
        let row = csv_row(d, counts[d as int]);
        assert(all.subrange(0, prev.len() as int) =~= prev);
        assert(all.subrange(0, before.len() as int) =~= prev.subrange(0, before.len() as int));
        assert(all.subrange(before.len() as int, (before.len() + row.len()) as int) =~= prev.subrange(
            before.len() as int,
            (before.len() + row.len()) as int,
        ));
    } else {
        let all = csv_rows(counts, n);
        let before = csv_rows(counts, d);
        assert(all =~= before + csv_row(d, counts[d as int]));
        assert(all.subrange(0, before.len() as int) =~= before);
        assert(all.subrange(before.len() as int, all.len() as int) =~= csv_row(d, counts[d as int]));
    }
}

} // verus!
