use vstd::prelude::*;
use crate::geometry::Rect;

verus! {

/// The master factor is a share of the full extent in thousandths: 500 is
/// half. Values outside `0..=FACTOR_SCALE` are kept as they are and read as
/// the nearest end of that range.
pub const FACTOR_SCALE: i32 = 1000;

/// The two layouts a monitor can show.
#[derive(Clone, Copy, Debug, PartialEq, Eq, Structural)]
pub enum Layout {
    /// Master clients in a left column, the others in a right column.
    Tile,
    /// One column: master clients in a top band, the others below.
    Stack,
}

/// Distributes `total` over `k` slots in turn: each slot takes what is left
/// divided by the slots still open, so the last slot absorbs the remainder.
pub open spec fn split(total: int, k: nat) -> Seq<int>
    decreases k,
{
    if k == 0 {
        Seq::empty()
    } else {
        seq![total / (k as int)] + split(total - total / (k as int), (k - 1) as nat)
    }
}

pub open spec fn sum(s: Seq<int>) -> int
    decreases s.len(),
{
    if s.len() == 0 {
        0
    } else {
        s[0] + sum(s.drop_first())
    }
}

pub open spec fn clamp_factor(f: int) -> int {
    if f < 0 {
        0
    } else if f > FACTOR_SCALE {
        FACTOR_SCALE as int
    } else {
        f
    }
}

/// The part of `total` that the factor `f` gives.
pub open spec fn scaled(total: int, f: int) -> int {
    total * clamp_factor(f) / (FACTOR_SCALE as int)
}

/// The width (Tile) or height (Stack) of the master area for `n` tiled
/// clients of which at most `mc` are masters.
pub open spec fn spec_master_extent(total: int, n: nat, mc: nat, f: int) -> int {
    if n <= mc {
        total
    } else if mc == 0 {
        0
    } else {
        scaled(total, f)
    }
}

/// `k` rectangles stacked downwards from `(x, y)`, of the given width, whose
/// heights are `split(total, k)`.
pub open spec fn column(x: int, y: int, width: int, total: int, k: nat) -> Seq<Rect> {
    Seq::new(
        k,
        |j: int|
            Rect {
                x: x as i32,
                y: (y + sum(split(total, k).take(j))) as i32,
                width: width as i32,
                height: split(total, k)[j] as i32,
            },
    )
}

pub open spec fn master_slots(n: nat, mc: nat) -> nat {
    if n <= mc {
        n
    } else {
        mc
    }
}

/// The Tile placement of `n` tiled clients, newest first.
pub open spec fn tile_rects(area: Rect, n: nat, mc: nat, f: int) -> Seq<Rect> {
    let m = master_slots(n, mc);
    let mw = spec_master_extent(area.width as int, n, mc, f);
    column(area.x as int, area.y as int, mw, area.height as int, m) + column(
        area.x + mw,
        area.y as int,
        area.width - mw,
        area.height as int,
        (n - m) as nat,
    )
}

/// The Stack placement of `n` tiled clients, newest first.
pub open spec fn stack_rects(area: Rect, n: nat, mc: nat, f: int) -> Seq<Rect> {
    let m = master_slots(n, mc);
    let mh = spec_master_extent(area.height as int, n, mc, f);
    column(area.x as int, area.y as int, area.width as int, mh, m) + column(
        area.x as int,
        area.y + mh,
        area.width as int,
        area.height - mh,
        (n - m) as nat,
    )
}

pub proof fn lemma_split_unfold(total: int, k: nat)
    requires
        k > 0,
    ensures
        split(total, k).len() == k,
        split(total, k)[0] == total / (k as int),
        split(total, k).drop_first() == split(total - total / (k as int), (k - 1) as nat),
    decreases k,
{
    lemma_split_len(total, k);
    let rest = split(total - total / (k as int), (k - 1) as nat);
    assert(split(total, k) == seq![total / (k as int)] + rest);
    assert((seq![total / (k as int)] + rest).drop_first() =~= rest);
}

pub proof fn lemma_split_len(total: int, k: nat)
    ensures
        split(total, k).len() == k,
    decreases k,
{
    if k > 0 {
        lemma_split_len(total - total / (k as int), (k - 1) as nat);
    }
}

pub proof fn lemma_sum_push(s: Seq<int>, v: int)
    ensures
        sum(s.push(v)) == sum(s) + v,
    decreases s.len(),
{
    let p = s.push(v);
    if s.len() > 0 {
        assert(p.drop_first() =~= s.drop_first().push(v));
        lemma_sum_push(s.drop_first(), v);
        assert(sum(p) == p[0] + sum(p.drop_first()));
    } else {
        assert(p.drop_first() =~= Seq::<int>::empty());
        assert(sum(p) == p[0] + sum(p.drop_first()));
    }
}

/// The heights of a split add up to what was split, and each is at most what
/// remained before it.
pub proof fn lemma_split_sum(total: int, k: nat)
    requires
        k > 0,
    ensures
        sum(split(total, k)) == total,
    decreases k,
{
    lemma_split_unfold(total, k);
    let h = total / (k as int);
    let s = split(total, k);
    assert(sum(s) == s[0] + sum(s.drop_first()));
    if k > 1 {
        lemma_split_sum(total - h, (k - 1) as nat);
    } else {
        assert(split(total - h, 0) =~= Seq::<int>::empty());
        assert(h == total) by (nonlinear_arith)
            requires
                k == 1,
                h == total / (k as int),
        ;
    }
}

/// A non-negative total splits into non-negative heights whose running sums
/// stay within the total.
pub proof fn lemma_split_bounds(total: int, k: nat, j: int)
    requires
        0 <= total,
        0 <= j < k,
    ensures
        0 <= split(total, k)[j],
        0 <= sum(split(total, k).take(j)),
        sum(split(total, k).take(j)) + split(total, k)[j] <= total,
    decreases k,
{
    lemma_split_unfold(total, k);
    let h = total / (k as int);
    assert(0 <= h <= total) by (nonlinear_arith)
        requires
            0 <= total,
            k >= 1,
            h == total / (k as int),
    ;
    let s = split(total, k);
    let rest = split(total - h, (k - 1) as nat);
    if j == 0 {
        assert(s.take(0) =~= Seq::<int>::empty());
    } else {
        lemma_split_bounds(total - h, (k - 1) as nat, j - 1);
        assert(s.take(j).drop_first() =~= rest.take(j - 1));
    }
}

/// Appends to `out` the column of `k` rectangles at `(x, y)` whose heights
/// split `total`.
fn push_column(out: &mut Vec<Rect>, x: i32, y: i32, width: i32, total: i32, k: u32)
    requires
        0 <= total,
        y + total <= i32::MAX,
    ensures
        final(out)@ == old(out)@ + column(x as int, y as int, width as int, total as int, k as nat),
{
    let ghost base = old(out)@;
    let ghost whole = split(total as int, k as nat);
    let ghost col = column(x as int, y as int, width as int, total as int, k as nat);
    proof {
        lemma_split_len(total as int, k as nat);
        assert(whole.take(0) =~= Seq::<int>::empty());
        assert(whole.subrange(0, k as int) =~= whole);
    }
    let mut used: i32 = 0;
    let mut remaining: i32 = total;
    let mut i: u32 = 0;
    while i < k
        invariant
            0 <= i <= k,
            0 <= used,
            remaining == total - used,
            0 <= remaining,
            whole == split(total as int, k as nat),
            whole.len() == k,
            col == column(x as int, y as int, width as int, total as int, k as nat),
            used == sum(whole.take(i as int)),
            whole.subrange(i as int, k as int) == split(remaining as int, (k - i) as nat),
            y + total <= i32::MAX,
            out@.len() == base.len() + i,
            forall|j: int| 0 <= j < base.len() ==> out@[j] == base[j],
            forall|j: int| 0 <= j < i ==> out@[base.len() + j] == col[j],
        decreases k - i,
    {
        let slots: u32 = k - i;
        let h: i32 = ((remaining as i64) / (slots as i64)) as i32;
        proof {
            lemma_split_unfold(remaining as int, slots as nat);
            lemma_split_bounds(total as int, k as nat, i as int);
            assert(whole[i as int] == whole.subrange(i as int, k as int)[0]);
            assert(whole.take(i as int + 1) =~= whole.take(i as int).push(whole[i as int]));
            lemma_sum_push(whole.take(i as int), whole[i as int]);
            assert(whole.subrange(i as int + 1, k as int) =~= whole.subrange(
                i as int,
                k as int,
            ).drop_first());
        }
        let r = Rect { x, y: y + used, width, height: h };
        out.push(r);
        used = used + h;
        remaining = remaining - h;
        i = i + 1;
    }
    assert(out@ =~= base + col);
}

/// The width of the Tile master column, or the height of the Stack master
/// band: everything when all tiled clients fit in the master area, nothing
/// when there are no master slots, else the factor's share.
pub fn master_extent(total: i32, tiled_count: u32, master_count: u32, factor: i32) -> (r: i32)
    requires
        0 <= total,
    ensures
        r == spec_master_extent(total as int, tiled_count as nat, master_count as nat, factor as int),
        0 <= r <= total,
{
    if tiled_count <= master_count {
        total
    } else if master_count == 0 {
        0
    } else {
        scale(total, factor)
    }
}

/// The factor's share of a non-negative extent.
pub fn scale(total: i32, factor: i32) -> (r: i32)
    requires
        0 <= total,
    ensures
        r == scaled(total as int, factor as int),
        0 <= r <= total,
{
    let f: i64 = if factor < 0 {
        0
    } else if factor > FACTOR_SCALE {
        FACTOR_SCALE as i64
    } else {
        factor as i64
    };
    let t: i64 = total as i64;
    assert(0 <= t * f <= t * 1000) by (nonlinear_arith)
        requires
            0 <= t,
            0 <= f <= 1000,
    ;
    let r = (t * f) / (FACTOR_SCALE as i64);
    assert(0 <= r <= t) by (nonlinear_arith)
        requires
            0 <= t * f <= t * 1000,
            r == (t * f) / 1000,
    ;
    r as i32
}

/// Places `tiled_count` tiled clients, newest first, in the Tile layout.
pub fn tile_layout(area: &Rect, tiled_count: u32, master_count: u32, factor: i32) -> (r: Vec<Rect>)
    requires
        area.wf(),
    ensures
        r@ == tile_rects(*area, tiled_count as nat, master_count as nat, factor as int),
{
    let m: u32 = if tiled_count <= master_count {
        tiled_count
    } else {
        master_count
    };
    let mw = master_extent(area.width, tiled_count, master_count, factor);
    let mut out: Vec<Rect> = Vec::new();
    push_column(&mut out, area.x, area.y, mw, area.height, m);
    push_column(&mut out, area.x + mw, area.y, area.width - mw, area.height, tiled_count - m);
    assert(out@ =~= tile_rects(*area, tiled_count as nat, master_count as nat, factor as int));
    out
}

/// Places `tiled_count` tiled clients, newest first, in the Stack layout.
pub fn stack_layout(area: &Rect, tiled_count: u32, master_count: u32, factor: i32) -> (r: Vec<Rect>)
    requires
        area.wf(),
    ensures
        r@ == stack_rects(*area, tiled_count as nat, master_count as nat, factor as int),
{
    let m: u32 = if tiled_count <= master_count {
        tiled_count
    } else {
        master_count
    };
    let mh = master_extent(area.height, tiled_count, master_count, factor);
    let mut out: Vec<Rect> = Vec::new();
    push_column(&mut out, area.x, area.y, area.width, mh, m);
    push_column(&mut out, area.x, area.y + mh, area.width, area.height - mh, tiled_count - m);
    assert(out@ =~= stack_rects(*area, tiled_count as nat, master_count as nat, factor as int));
    out
}

impl Layout {
    /// The placement of `n` tiled clients, newest first.
    pub open spec fn spec_rects(self, area: Rect, n: nat, mc: nat, f: int) -> Seq<Rect> {
        match self {
            Layout::Tile => tile_rects(area, n, mc, f),
            Layout::Stack => stack_rects(area, n, mc, f),
        }
    }

    /// Tile divides the display left of the master share from the rest,
    /// Stack divides the client area above the master share from the rest.
    pub open spec fn spec_in_master_area(self, rect: Rect, area: Rect, f: int, x: int, y: int) -> bool {
        match self {
            Layout::Tile => x < rect.x + scaled(rect.width as int, f),
            Layout::Stack => y < area.y + scaled(area.height as int, f),
        }
    }

    pub fn arrange(&self, area: &Rect, tiled_count: u32, master_count: u32, factor: i32) -> (r: Vec<Rect>)
        requires
            area.wf(),
        ensures
            r@ == self.spec_rects(*area, tiled_count as nat, master_count as nat, factor as int),
    {
        match self {
            Layout::Tile => tile_layout(area, tiled_count, master_count, factor),
            Layout::Stack => stack_layout(area, tiled_count, master_count, factor),
        }
    }

    /// Whether a point of a monitor with display `rect` and client area
    /// `area` falls in the master area.
    pub fn is_in_master_area(&self, rect: &Rect, area: &Rect, factor: i32, x: i32, y: i32) -> (r: bool)
        requires
            rect.wf(),
            area.wf(),
        ensures
            r == self.spec_in_master_area(*rect, *area, factor as int, x as int, y as int),
    {
        match self {
            Layout::Tile => x < rect.x + scale(rect.width, factor),
            Layout::Stack => y < area.y + scale(area.height, factor),
        }
    }
}

pub open spec fn heights(rs: Seq<Rect>) -> Seq<int> {
    rs.map_values(|r: Rect| r.height as int)
}

/// Each rectangle of a sequence starts where the one before it ends.
pub open spec fn contiguous(rs: Seq<Rect>) -> bool {
    forall|j: int| 0 <= j < rs.len() - 1 ==> #[trigger] rs[j + 1].y == rs[j].y + rs[j].height
}

pub proof fn lemma_column_shape(x: int, y: int, width: int, total: int, k: nat)
    requires
        0 <= total,
        total <= i32::MAX,
        i32::MIN <= y,
        y + total <= i32::MAX,
    ensures
        heights(column(x, y, width, total, k)) == split(total, k),
        contiguous(column(x, y, width, total, k)),
        k > 0 ==> column(x, y, width, total, k)[0].y == y,
{
    let col = column(x, y, width, total, k);
    let s = split(total, k);
    lemma_split_len(total, k);
    assert forall|j: int| 0 <= j < k implies heights(col)[j] == s[j] by {
        lemma_split_bounds(total, k, j);
    }
    assert(heights(col) =~= s);
    assert forall|j: int| 0 <= j < col.len() - 1 implies #[trigger] col[j + 1].y == col[j].y
        + col[j].height by {
        lemma_split_bounds(total, k, j);
        lemma_split_bounds(total, k, j + 1);
        assert(s.take(j + 1) =~= s.take(j).push(s[j]));
        lemma_sum_push(s.take(j), s[j]);
    }
    if k > 0 {
        assert(s.take(0) =~= Seq::<int>::empty());
    }
}

proof fn lemma_sum_concat(a: Seq<int>, b: Seq<int>)
    ensures
        sum(a + b) == sum(a) + sum(b),
    decreases a.len(),
{
    if a.len() > 0 {
        assert((a + b).drop_first() =~= a.drop_first() + b);
        lemma_sum_concat(a.drop_first(), b);
        assert(sum(a + b) == (a + b)[0] + sum((a + b).drop_first()));
    } else {
        assert(a + b =~= b);
    }
}

/// In the Tile layout each non-empty column, the master column (the first
/// `master_slots` rectangles) and the stack column (the rest), fills the
/// client area's height exactly: the heights add up to it, the first starts
/// at its top, and each starts where the one above it ends.
pub proof fn tile_columns_fill_height(area: Rect, n: nat, mc: nat, f: int)
    requires
        area.wf(),
    ensures
        ({
            let rs = tile_rects(area, n, mc, f);
            let m = master_slots(n, mc) as int;
            &&& rs.len() == n
            &&& m > 0 ==> sum(heights(rs.take(m))) == area.height
            &&& m > 0 ==> rs[0].y == area.y
            &&& contiguous(rs.take(m))
            &&& n > m ==> sum(heights(rs.skip(m))) == area.height
            &&& n > m ==> rs[m].y == area.y
            &&& contiguous(rs.skip(m))
        }),
{
    let m = master_slots(n, mc);
    let mw = spec_master_extent(area.width as int, n, mc, f);
    let a = column(area.x as int, area.y as int, mw, area.height as int, m);
    let b = column(area.x + mw, area.y as int, area.width - mw, area.height as int, (n - m) as nat);
    let rs = tile_rects(area, n, mc, f);
    lemma_column_shape(area.x as int, area.y as int, mw, area.height as int, m);
    lemma_column_shape(area.x + mw, area.y as int, area.width - mw, area.height as int, (n - m) as nat);
    assert(rs.take(m as int) =~= a);
    assert(rs.skip(m as int) =~= b);
    if m > 0 {
        lemma_split_sum(area.height as int, m);
    }
    if n > m {
        lemma_split_sum(area.height as int, (n - m) as nat);
    }
}

/// In the Stack layout the single column fills the client area's height
/// exactly: the heights add up to it, the first starts at its top, and each
/// starts where the one above it ends.
pub proof fn stack_column_fills_height(area: Rect, n: nat, mc: nat, f: int)
    requires
        area.wf(),
        n > 0,
    ensures
        ({
            let rs = stack_rects(area, n, mc, f);
            &&& rs.len() == n
            &&& sum(heights(rs)) == area.height
            &&& rs[0].y == area.y
            &&& contiguous(rs)
        }),
{
    let m = master_slots(n, mc);
    let mh = spec_master_extent(area.height as int, n, mc, f);
    assert(0 <= scaled(area.height as int, f) <= area.height) by (nonlinear_arith)
        requires
            0 <= area.height,
            0 <= clamp_factor(f) <= 1000,
    ;
    let a = column(area.x as int, area.y as int, area.width as int, mh, m);
    let b = column(area.x as int, area.y + mh, area.width as int, area.height - mh, (n - m) as nat);
    let rs = stack_rects(area, n, mc, f);
    lemma_column_shape(area.x as int, area.y as int, area.width as int, mh, m);
    lemma_column_shape(area.x as int, area.y + mh, area.width as int, area.height - mh, (n - m) as nat);
    assert(heights(rs) =~= heights(a) + heights(b));
    lemma_sum_concat(split(mh, m), split(area.height - mh, (n - m) as nat));
    if m > 0 {
        lemma_split_sum(mh, m);
    } else {
        assert(split(mh, m) =~= Seq::<int>::empty());
    }
    if n > m {
        lemma_split_sum(area.height - mh, (n - m) as nat);
    } else {
        assert(split(area.height - mh, 0) =~= Seq::<int>::empty());
    }
    if m > 0 && n > m {
        lemma_split_bounds(mh, m, m - 1);
        assert(split(mh, m).take(m - 1).push(split(mh, m)[m - 1]) =~= split(mh, m));
        lemma_sum_push(split(mh, m).take(m - 1), split(mh, m)[m - 1]);
        assert(rs[m - 1 + 1].y == rs[m - 1].y + rs[m - 1].height);
    }
    assert forall|j: int| 0 <= j < rs.len() - 1 implies #[trigger] rs[j + 1].y == rs[j].y
        + rs[j].height by {
        if j + 1 < m {
            assert(a[j + 1].y == a[j].y + a[j].height);
        } else if j >= m {
            assert(b[j - m + 1].y == b[j - m].y + b[j - m].height);
        }
    }
}

/// With no master slots and at least one tiled client the master area is
/// empty; with no more tiled clients than master slots it is everything.
pub proof fn master_extent_edges(total: int, n: nat, mc: nat, f: int)
    ensures
        n > 0 ==> spec_master_extent(total, n, 0, f) == 0,
        n <= mc ==> spec_master_extent(total, n, mc, f) == total,
{
}

} // verus!
