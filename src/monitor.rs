use vstd::prelude::*;
use crate::geometry::Rect;
use crate::layout::{Layout, FACTOR_SCALE};

verus! {

/// The number of tags a client can carry.
pub const TAG_COUNT: u32 = 9;

/// The mask of all tags, `(1 << TAG_COUNT) - 1`.
pub const TAGMASK: u32 = 0x1ff;

/// The handle that stands for no window.
pub const NO_WINDOW: isize = 0;

/// One managed top-level window.
#[derive(Debug)]
pub struct Client {
    pub hwnd: isize,
    pub title: String,
    pub class: String,
    pub process_filename: String,
    pub parent: isize,
    pub root: isize,
    /// Where the window was last placed or seen.
    pub rect: Rect,
    /// One bit per tag.
    pub tags: u32,
    pub is_minimized: bool,
    pub is_floating: bool,
    pub is_cloaked: bool,
    /// Set while the layout keeps the window hidden because no visible tag
    /// covers it.
    pub is_hide: bool,
    /// The index of the monitor whose directory holds the client.
    pub monitor: usize,
}

/// One display, with its tag state and its client directory. The directory
/// keeps the order of management: the most recently added client is last
/// and takes the first slot of the layout.
#[derive(Debug)]
pub struct Monitor {
    pub index: usize,
    pub rect: Rect,
    pub client_area: Rect,
    pub master_count: u32,
    /// Share of the client area given to the master area, see `FACTOR_SCALE`.
    pub master_factor: i32,
    pub selected_hwnd: isize,
    pub clients: Vec<Client>,
    pub tagset: [u32; 2],
    pub selected_tag_index: usize,
    pub layout: Layout,
}

/// A window's new place, for the window system to apply.
#[derive(Clone, Copy, Debug, PartialEq, Eq, Structural)]
pub struct Placement {
    pub hwnd: isize,
    pub rect: Rect,
}

/// A window to show (`show == true`) or hide.
#[derive(Clone, Copy, Debug, PartialEq, Eq, Structural)]
pub struct Visibility {
    pub hwnd: isize,
    pub show: bool,
}

pub open spec fn spec_is_visible(tags: u32, mask: u32) -> bool {
    mask & tags != 0
}

pub open spec fn spec_is_tiled(c: Client, mask: u32) -> bool {
    !c.is_floating && spec_is_visible(c.tags, mask)
}

/// How many clients of `s` are visible under `mask`.
pub open spec fn count_visible(s: Seq<Client>, mask: u32) -> nat
    decreases s.len(),
{
    if s.len() == 0 {
        0
    } else {
        count_visible(s.drop_last(), mask) + if spec_is_visible(s.last().tags, mask) {
            1nat
        } else {
            0nat
        }
    }
}

/// How many clients of `s` are tiled under `mask`.
pub open spec fn count_tiled(s: Seq<Client>, mask: u32) -> nat
    decreases s.len(),
{
    if s.len() == 0 {
        0
    } else {
        (if spec_is_tiled(s[0], mask) {
            1nat
        } else {
            0nat
        }) + count_tiled(s.drop_first(), mask)
    }
}

/// The position after `i` when moving by `d` (1 or -1) round a cycle of `n`.
pub open spec fn cyc_step(i: int, d: int, n: int) -> int {
    (i + d) % n
}

/// From position `j`, the first position, `j` included, that holds a client
/// visible under `mask`, looking at most `fuel` steps further in direction `d`;
/// where none is found, the position reached.
pub open spec fn settle(s: Seq<Client>, mask: u32, j: int, d: int, fuel: nat) -> int
    decreases fuel,
{
    if fuel == 0 || (0 <= j < s.len() && spec_is_visible(s[j].tags, mask)) {
        j
    } else {
        settle(s, mask, cyc_step(j, d, s.len() as int), d, (fuel - 1) as nat)
    }
}

/// The nearest position after `i` in direction `d`, round the cycle, that
/// holds a visible client.
pub open spec fn next_visible(s: Seq<Client>, mask: u32, i: int, d: int) -> int {
    settle(s, mask, cyc_step(i, d, s.len() as int), d, s.len())
}

/// Where `k` visible steps in direction `d` from `i` lead.
pub open spec fn walk_visible(s: Seq<Client>, mask: u32, i: int, d: int, k: nat) -> int
    decreases k,
{
    if k == 0 {
        i
    } else {
        walk_visible(s, mask, next_visible(s, mask, i, d), d, (k - 1) as nat)
    }
}

/// The first position of `s` that holds `hwnd`, if any; the null handle is
/// never found.
pub open spec fn spec_find(s: Seq<Client>, hwnd: isize) -> Option<int> {
    if hwnd != NO_WINDOW && exists|i: int| 0 <= i < s.len() && s[i].hwnd == hwnd {
        Some(choose|i: int| 0 <= i < s.len() && s[i].hwnd == hwnd && forall|j: int| 0 <= j < i ==> s[j].hwnd != hwnd)
    } else {
        None
    }
}

/// The clients that outlive a list of stale handles.
pub open spec fn kept(stale: Seq<isize>) -> spec_fn(Client) -> bool {
    |c: Client| !stale.contains(c.hwnd)
}

impl Monitor {
    pub open spec fn wf(&self) -> bool {
        &&& self.rect.wf()
        &&& self.client_area.wf()
        &&& self.selected_tag_index < 2
    }

    /// The tag mask currently viewed.
    pub open spec fn active_tags(&self) -> u32 {
        self.tagset[self.selected_tag_index as int]
    }

    /// Creates the monitor for a display with the given geometry and work
    /// area; a bar of `bar_height` is taken from the top of the work area.
    pub fn new(index: usize, rect: Rect, work_area: Rect, bar_height: i32) -> (r: Monitor)
        requires
            rect.wf(),
            work_area.wf(),
            0 <= bar_height <= work_area.height,
        ensures
            r.wf(),
            r.index == index,
            r.rect == rect,
            r.client_area == (Rect {
                x: work_area.x,
                y: (work_area.y + bar_height) as i32,
                width: work_area.width,
                height: (work_area.height - bar_height) as i32,
            }),
            r.master_count == 1,
            r.master_factor == FACTOR_SCALE / 2,
            r.selected_hwnd == NO_WINDOW,
            r.clients@.len() == 0,
            r.tagset@ == seq![1u32, 1u32],
            r.selected_tag_index == 0,
            r.layout == Layout::Tile,
    {
        Monitor {
            index,
            rect,
            client_area: Rect {
                x: work_area.x,
                y: work_area.y + bar_height,
                width: work_area.width,
                height: work_area.height - bar_height,
            },
            master_count: 1,
            master_factor: FACTOR_SCALE / 2,
            selected_hwnd: NO_WINDOW,
            clients: Vec::new(),
            tagset: [1, 1],
            selected_tag_index: 0,
            layout: Layout::Tile,
        }
    }

    pub fn visible_tags(&self) -> (r: u32)
        requires
            self.selected_tag_index < 2,
        ensures
            r == self.active_tags(),
    {
        self.tagset[self.selected_tag_index]
    }

    /// Whether `client` carries a tag of `visible_tags`.
    pub fn is_visible(client: &Client, visible_tags: u32) -> (r: bool)
        ensures
            r == spec_is_visible(client.tags, visible_tags),
    {
        (visible_tags & client.tags) != 0
    }

    /// Whether `client` takes part in tiling under `visible_tags`.
    pub fn is_tiled(client: &Client, visible_tags: u32) -> (r: bool)
        ensures
            r == spec_is_tiled(*client, visible_tags),
    {
        !client.is_floating && Self::is_visible(client, visible_tags)
    }

    /// The position of the client with handle `hwnd`; never found for the
    /// null handle.
    pub fn find_client_index(&self, hwnd: isize) -> (r: Option<usize>)
        ensures
            r matches Some(i) ==> {
                &&& hwnd != NO_WINDOW
                &&& i < self.clients@.len()
                &&& self.clients@[i as int].hwnd == hwnd
                &&& forall|j: int| 0 <= j < i ==> self.clients@[j].hwnd != hwnd
            },
            r is None ==> hwnd == NO_WINDOW || forall|j: int|
                0 <= j < self.clients@.len() ==> self.clients@[j].hwnd != hwnd,
            r matches Some(i) ==> spec_find(self.clients@, hwnd) == Some(i as int),
            r is None ==> spec_find(self.clients@, hwnd) is None,
    {
        if hwnd == NO_WINDOW {
            return None;
        }
        let mut i: usize = 0;
        while i < self.clients.len()
            invariant
                0 <= i <= self.clients@.len(),
                hwnd != NO_WINDOW,
                forall|j: int| 0 <= j < i ==> self.clients@[j].hwnd != hwnd,
            decreases self.clients@.len() - i,
        {
            if self.clients[i].hwnd == hwnd {
                proof {
                    let s = self.clients@;
                    let c = choose|k: int| 0 <= k < s.len() && s[k].hwnd == hwnd && forall|j: int| 0 <= j < k ==> s[j].hwnd != hwnd;
                    assert(0 <= i < s.len() && s[i as int].hwnd == hwnd && forall|j: int| 0 <= j < i ==> s[j].hwnd != hwnd);
                    if c < i {
                    } else if c > i {
                        assert(s[i as int].hwnd != hwnd);
                    }
                    assert(spec_find(s, hwnd) == Some(i as int));
                }
                return Some(i);
            }
            i = i + 1;
        }
        assert(!exists|k: int| 0 <= k < self.clients@.len() && self.clients@[k].hwnd == hwnd);
        None
    }

    /// The position of the selected client, if it is in the directory.
    pub fn get_selected_client_index(&self) -> (r: Option<usize>)
        ensures
            r matches Some(i) ==> i < self.clients@.len() && spec_find(self.clients@, self.selected_hwnd) == Some(i as int),
            r is None ==> spec_find(self.clients@, self.selected_hwnd) is None,
    {
        self.find_client_index(self.selected_hwnd)
    }

    /// How many clients are visible under the viewed tags.
    pub fn visible_clinets_count(&self) -> (r: i32)
        requires
            self.selected_tag_index < 2,
            self.clients@.len() <= i32::MAX,
        ensures
            r == count_visible(self.clients@, self.active_tags()),
    {
        let mask = self.visible_tags();
        let mut count: i32 = 0;
        let mut i: usize = 0;
        while i < self.clients.len()
            invariant
                0 <= i <= self.clients@.len(),
                self.clients@.len() <= i32::MAX,
                mask == self.active_tags(),
                count == count_visible(self.clients@.take(i as int), mask),
                count <= i,
            decreases self.clients@.len() - i,
        {
            proof {
                assert(self.clients@.take(i as int + 1).drop_last() =~= self.clients@.take(i as int));
            }
            if Self::is_visible(&self.clients[i], mask) {
                count = count + 1;
            }
            i = i + 1;
        }
        assert(self.clients@.take(i as int) =~= self.clients@);
        count
    }

    /// Whether any client is visible under the viewed tags.
    pub fn any_visible(&self) -> (r: bool)
        requires
            self.wf(),
        ensures
            r == (count_visible(self.clients@, self.active_tags()) > 0),
    {
        let mask = self.visible_tags();
        let mut i: usize = 0;
        while i < self.clients.len()
            invariant
                0 <= i <= self.clients@.len(),
                mask == self.active_tags(),
                count_visible(self.clients@.take(i as int), mask) == 0,
            decreases self.clients@.len() - i,
        {
            proof {
                assert(self.clients@.take(i as int + 1).drop_last() =~= self.clients@.take(i as int));
            }
            if Self::is_visible(&self.clients[i], mask) {
                proof {
                    lemma_count_visible_prefix(self.clients@, mask, i as int + 1);
                }
                return true;
            }
            i = i + 1;
        }
        assert(self.clients@.take(i as int) =~= self.clients@);
        false
    }

    /// Drops the clients whose handles are in `stale`, keeping the order of
    /// the others.
    pub fn sanitize_clients(&mut self, stale: &Vec<isize>)
        ensures
            final(self).clients@ == old(self).clients@.filter(kept(stale@)),
            final(self).index == old(self).index,
            final(self).rect == old(self).rect,
            final(self).client_area == old(self).client_area,
            final(self).master_count == old(self).master_count,
            final(self).master_factor == old(self).master_factor,
            final(self).selected_hwnd == old(self).selected_hwnd,
            final(self).tagset == old(self).tagset,
            final(self).selected_tag_index == old(self).selected_tag_index,
            final(self).layout == old(self).layout,
    {
        let ghost orig = self.clients@;
        let ghost keep = kept(stale@);
        let mut rest: Vec<Client> = Vec::new();
        std::mem::swap(&mut rest, &mut self.clients);
        proof {
            assert(orig.take(0) =~= Seq::<Client>::empty());
            reveal(Seq::filter);
            assert(orig.take(0).filter(keep) =~= Seq::<Client>::empty());
            assert(orig.skip(0) =~= orig);
        }
        let mut survivors: Vec<Client> = Vec::new();
        let ghost k: int = 0;
        while rest.len() > 0
            invariant
                0 <= k <= orig.len(),
                rest@ == orig.skip(k),
                survivors@ == orig.take(k).filter(keep),
                keep == kept(stale@),
            decreases rest@.len(),
        {
            let c = rest.remove(0);
            let mut found = false;
            let mut j: usize = 0;
            while j < stale.len()
                invariant
                    0 <= j <= stale@.len(),
                    found == exists|t: int| 0 <= t < j && stale@[t] == c.hwnd,
                decreases stale@.len() - j,
            {
                if stale[j] == c.hwnd {
                    found = true;
                }
                j = j + 1;
            }
            proof {
                assert(c == orig[k]);
                assert(orig.take(k + 1).drop_last() =~= orig.take(k));
                assert(orig.take(k + 1).last() == orig[k]);
                reveal(Seq::filter);
                assert(found == stale@.contains(c.hwnd));
                assert(rest@ =~= orig.skip(k + 1));
            }
            if !found {
                survivors.push(c);
            }
            proof {
                k = k + 1;
            }
        }
        assert(orig.take(k) =~= orig);
        self.clients = survivors;
    }

    /// The position after `i` in direction `forward` round the directory.
    pub fn step_index(&self, i: usize, forward: bool) -> (r: usize)
        requires
            i < self.clients@.len(),
        ensures
            r == cyc_step(i as int, if forward { 1 } else { -1 }, self.clients@.len() as int),
            r < self.clients@.len(),
    {
        let n = self.clients.len();
        proof {
            lemma_cyc_step(i as int, if forward { 1 } else { -1 }, n as int);
        }
        if forward {
            if i + 1 == n {
                0
            } else {
                i + 1
            }
        } else {
            if i == 0 {
                n - 1
            } else {
                i - 1
            }
        }
    }

    /// The nearest client after position `i`, in direction `forward` and
    /// round the directory, that is visible under the viewed tags.
    pub fn next_visible_index(&self, i: usize, forward: bool) -> (r: usize)
        requires
            self.wf(),
            i < self.clients@.len(),
        ensures
            r == next_visible(self.clients@, self.active_tags(), i as int, if forward { 1 } else { -1 }),
            r < self.clients@.len(),
    {
        let ghost d: int = if forward { 1 } else { -1 };
        let ghost s = self.clients@;
        let mask = self.visible_tags();
        let mut j = self.step_index(i, forward);
        let mut fuel: usize = self.clients.len();
        while fuel > 0 && !Self::is_visible(&self.clients[j], mask)
            invariant
                j < s.len(),
                s == self.clients@,
                mask == self.active_tags(),
                d == (if forward { 1int } else { -1int }),
                settle(s, mask, j as int, d, fuel as nat) == next_visible(s, mask, i as int, d),
            decreases fuel,
        {
            j = self.step_index(j, forward);
            fuel = fuel - 1;
        }
        j
    }

    /// Shows the clients that the viewed tags cover and hides the others.
    /// `window_visible[i]` tells whether the window of the `i`-th client is
    /// shown now; the result lists the windows to show or hide, in directory
    /// order, and each of them has its hidden flag set to match.
    pub fn show_hide(&mut self, window_visible: &Vec<bool>) -> (r: Vec<Visibility>)
        requires
            old(self).wf(),
            window_visible@.len() == old(self).clients@.len(),
        ensures
            final(self).wf(),
            final(self).clients@.len() == old(self).clients@.len(),
            forall|i: int|
                0 <= i < old(self).clients@.len() ==> #[trigger] final(self).clients@[i] == hide_updated(
                    old(self).clients@[i],
                    window_visible@[i],
                    old(self).active_tags(),
                ),
            r@ == visibility_changes(old(self).clients@, window_visible@, old(self).active_tags(), old(self).clients@.len()),
            final(self).same_settings(*old(self)),
    {
        let mask = self.visible_tags();
        let ghost orig = self.clients@;
        let mut out: Vec<Visibility> = Vec::new();
        let mut i: usize = 0;
        while i < self.clients.len()
            invariant
                0 <= i <= self.clients@.len(),
                self.clients@.len() == orig.len(),
                window_visible@.len() == orig.len(),
                self.wf(),
                self.same_settings(*old(self)),
                mask == old(self).active_tags(),
                orig == old(self).clients@,
                forall|j: int| 0 <= j < i ==> #[trigger] self.clients@[j] == hide_updated(orig[j], window_visible@[j], mask),
                forall|j: int| i <= j < orig.len() ==> #[trigger] self.clients@[j] == orig[j],
                out@ == visibility_changes(orig, window_visible@, mask, i as nat),
            decreases orig.len() - i,
        {
            let visible = Self::is_visible(&self.clients[i], mask);
            let shown = window_visible[i];
            let hwnd = self.clients[i].hwnd;
            if visible && !shown {
                self.clients[i].is_hide = false;
                out.push(Visibility { hwnd, show: true });
            } else if !visible && shown {
                self.clients[i].is_hide = true;
                out.push(Visibility { hwnd, show: false });
            }
            i = i + 1;
        }
        out
    }

    /// The rank of the tiled client at position `p`: how many tiled clients
    /// come after it in the directory, so the newest tiled client has rank 0.
    pub open spec fn tiled_rank(&self, p: int) -> nat {
        count_tiled(self.clients@.skip(p + 1), self.active_tags())
    }

    /// The rectangles of the current layout for the tiled clients, newest
    /// first.
    pub open spec fn layout_rects(&self) -> Seq<Rect> {
        self.layout.spec_rects(
            self.client_area,
            count_tiled(self.clients@, self.active_tags()),
            self.master_count as nat,
            self.master_factor as int,
        )
    }

    /// Everything but the directory is the same as in `o`.
    pub open spec fn same_settings(&self, o: Monitor) -> bool {
        &&& self.index == o.index
        &&& self.rect == o.rect
        &&& self.client_area == o.client_area
        &&& self.master_count == o.master_count
        &&& self.master_factor == o.master_factor
        &&& self.selected_hwnd == o.selected_hwnd
        &&& self.tagset == o.tagset
        &&& self.selected_tag_index == o.selected_tag_index
        &&& self.layout == o.layout
    }

    /// Lays out the tiled clients: walking the directory from its newest
    /// client, the `k`-th tiled client gets the `k`-th rectangle of the
    /// layout. Each one's rectangle is recorded and a placement returned for
    /// it, in that order; the other clients are left as they are.
    #[verifier::rlimit(50)]
    pub fn arrange_layout(&mut self) -> (r: Vec<Placement>)
        requires
            old(self).wf(),
            old(self).clients@.len() <= u32::MAX,
        ensures
            final(self).wf(),
            final(self).same_settings(*old(self)),
            final(self).clients@.len() == old(self).clients@.len(),
            r@.len() == count_tiled(old(self).clients@, old(self).active_tags()),
            forall|p: int|
                0 <= p < old(self).clients@.len() && spec_is_tiled(
                    #[trigger] old(self).clients@[p],
                    old(self).active_tags(),
                ) ==> {
                    let k = old(self).tiled_rank(p) as int;
                    &&& final(self).clients@[p] == (Client { rect: old(self).layout_rects()[k], ..old(self).clients@[p] })
                    &&& r@[k] == (Placement { hwnd: old(self).clients@[p].hwnd, rect: old(self).layout_rects()[k] })
                },
            forall|p: int|
                0 <= p < old(self).clients@.len() && !spec_is_tiled(
                    #[trigger] old(self).clients@[p],
                    old(self).active_tags(),
                ) ==> final(self).clients@[p] == old(self).clients@[p],
    {
        let mask = self.visible_tags();
        let ghost orig = self.clients@;
        let n = self.clients.len();
        let mut tiled: u32 = 0;
        let mut i: usize = 0;
        while i < n
            invariant
                0 <= i <= n,
                n == orig.len(),
                orig == self.clients@,
                n <= u32::MAX,
                tiled == count_tiled(orig.skip(n - i), mask),
                tiled <= i,
            decreases n - i,
        {
            proof {
                assert(orig.skip(n - i - 1).drop_first() =~= orig.skip(n - i));
            }
            if Self::is_tiled(&self.clients[n - 1 - i], mask) {
                tiled = tiled + 1;
            }
            i = i + 1;
        }
        assert(orig.skip(0) =~= orig);
        let rects = self.layout.arrange(&self.client_area, tiled, self.master_count, self.master_factor);
        assert(rects@ == old(self).layout_rects());
        proof {
            lemma_layout_len(self.layout, self.client_area, tiled as nat, self.master_count as nat, self.master_factor as int);
        }
        let mut out: Vec<Placement> = Vec::new();
        let mut k: usize = 0;
        let mut i: usize = n;
        while i > 0
            invariant
                0 <= i <= n,
                n == orig.len(),
                self.clients@.len() == n,
                orig == old(self).clients@,
                mask == old(self).active_tags(),
                self.wf(),
                self.same_settings(*old(self)),
                rects@ == old(self).layout_rects(),
                rects@.len() == count_tiled(orig, mask),
                k == count_tiled(orig.skip(i as int), mask),
                out@.len() == k,
                forall|p: int|
                    i <= p < n && spec_is_tiled(#[trigger] orig[p], mask) ==> old(self).tiled_rank(p) < k,
                forall|p: int| 0 <= p < i ==> #[trigger] self.clients@[p] == orig[p],
                forall|p: int|
                    i <= p < n && spec_is_tiled(#[trigger] orig[p], mask) ==> {
                        let rk = old(self).tiled_rank(p) as int;
                        &&& 0 <= rk < rects@.len()
                        &&& self.clients@[p] == (Client { rect: rects@[rk], ..orig[p] })
                        &&& out@[rk] == (Placement { hwnd: orig[p].hwnd, rect: rects@[rk] })
                    },
                forall|p: int|
                    i <= p < n && !spec_is_tiled(#[trigger] orig[p], mask) ==> self.clients@[p] == orig[p],
            decreases i,
        {
            let p = i - 1;
            proof {
                assert(orig.skip(p as int).drop_first() =~= orig.skip(i as int));
                lemma_count_tiled_split(orig, mask, p as int);
                lemma_count_tiled_le(orig.skip(p as int), mask);
            }
            let ghost before = self.clients@;
            let ghost out_before = out@;
            let ghost k_before = k;
            if Self::is_tiled(&self.clients[p], mask) {
                let rect = rects[k];
                let hwnd = self.clients[p].hwnd;
                self.clients[p].rect = rect;
                out.push(Placement { hwnd, rect });
                k = k + 1;
            }
            proof {
                assert forall|q: int|
                    p <= q < n && spec_is_tiled(#[trigger] orig[q], mask) implies {
                        let rk = old(self).tiled_rank(q) as int;
                        &&& 0 <= rk < rects@.len()
                        &&& self.clients@[q] == (Client { rect: rects@[rk], ..orig[q] })
                        &&& out@[rk] == (Placement { hwnd: orig[q].hwnd, rect: rects@[rk] })
                    } by {
                    if q == p {
                        assert(orig.skip(q + 1) =~= orig.skip(i as int));
                    } else {
                        assert(old(self).tiled_rank(q) < k_before);
                        assert(out@[old(self).tiled_rank(q) as int] == out_before[old(self).tiled_rank(q) as int]);
                    }
                }
            }
            i = p;
        }
        assert(orig.skip(0) =~= orig);
        out
    }
}

/// The client with its hidden flag brought in line with the viewed tags.
pub open spec fn hide_updated(c: Client, shown: bool, mask: u32) -> Client {
    let visible = spec_is_visible(c.tags, mask);
    if visible && !shown {
        Client { is_hide: false, ..c }
    } else if !visible && shown {
        Client { is_hide: true, ..c }
    } else {
        c
    }
}

/// The windows among the first `n` clients whose shown state must change.
pub open spec fn visibility_changes(s: Seq<Client>, shown: Seq<bool>, mask: u32, n: nat) -> Seq<Visibility>
    decreases n,
{
    if n == 0 {
        Seq::empty()
    } else {
        let prev = visibility_changes(s, shown, mask, (n - 1) as nat);
        let c = s[n - 1];
        let visible = spec_is_visible(c.tags, mask);
        if visible && !shown[n - 1] {
            prev.push(Visibility { hwnd: c.hwnd, show: true })
        } else if !visible && shown[n - 1] {
            prev.push(Visibility { hwnd: c.hwnd, show: false })
        } else {
            prev
        }
    }
}

/// One step round a cycle, in each direction.
pub proof fn lemma_cyc_step(i: int, d: int, n: int)
    requires
        0 <= i < n,
        d == 1 || d == -1,
    ensures
        cyc_step(i, d, n) == if d == 1 {
            if i + 1 == n {
                0
            } else {
                i + 1
            }
        } else {
            if i == 0 {
                n - 1
            } else {
                i - 1
            }
        },
{
    if d == 1 {
        if i + 1 == n {
            vstd::arithmetic::div_mod::lemma_fundamental_div_mod_converse_mod(i + d, n, 1, 0);
        } else {
            vstd::arithmetic::div_mod::lemma_small_mod((i + 1) as nat, n as nat);
        }
    } else {
        if i == 0 {
            vstd::arithmetic::div_mod::lemma_fundamental_div_mod_converse_mod(i + d, n, -1, n - 1);
        } else {
            vstd::arithmetic::div_mod::lemma_small_mod((i - 1) as nat, n as nat);
        }
    }
}

/// What `spec_find` gives: the first position holding the handle.
pub proof fn lemma_find(s: Seq<Client>, hwnd: isize)
    ensures
        spec_find(s, hwnd) matches Some(i) ==> {
            &&& hwnd != NO_WINDOW
            &&& 0 <= i < s.len()
            &&& s[i].hwnd == hwnd
            &&& forall|j: int| 0 <= j < i ==> s[j].hwnd != hwnd
        },
        spec_find(s, hwnd) is None ==> hwnd == NO_WINDOW || forall|j: int| 0 <= j < s.len() ==> s[j].hwnd != hwnd,
{
    if hwnd != NO_WINDOW && exists|i: int| 0 <= i < s.len() && s[i].hwnd == hwnd {
        let w = choose|i: int| 0 <= i < s.len() && s[i].hwnd == hwnd;
        lemma_first_exists(s, hwnd, w);
    }
}

proof fn lemma_first_exists(s: Seq<Client>, hwnd: isize, w: int)
    requires
        0 <= w < s.len(),
        s[w].hwnd == hwnd,
    ensures
        exists|i: int| 0 <= i < s.len() && s[i].hwnd == hwnd && forall|j: int| 0 <= j < i ==> s[j].hwnd != hwnd,
    decreases w,
{
    if exists|j: int| 0 <= j < w && s[j].hwnd == hwnd {
        let j = choose|j: int| 0 <= j < w && s[j].hwnd == hwnd;
        lemma_first_exists(s, hwnd, j);
    }
}

/// A visible client in a prefix makes the whole count positive.
pub proof fn lemma_count_visible_prefix(s: Seq<Client>, mask: u32, i: int)
    requires
        0 < i <= s.len(),
        spec_is_visible(s[i - 1].tags, mask),
    ensures
        count_visible(s, mask) > 0,
    decreases s.len(),
{
    if i < s.len() {
        assert(s.drop_last()[i - 1] == s[i - 1]);
        lemma_count_visible_prefix(s.drop_last(), mask, i);
    }
}

/// What holds of every client of a directory holds of every client that a
/// filter keeps.
pub proof fn lemma_filter_all(s: Seq<Client>, keep: spec_fn(Client) -> bool, prop: spec_fn(Client) -> bool)
    requires
        forall|i: int| 0 <= i < s.len() ==> prop(#[trigger] s[i]),
    ensures
        forall|i: int| 0 <= i < s.filter(keep).len() ==> prop(#[trigger] s.filter(keep)[i]),
    decreases s.len(),
{
    reveal(Seq::filter);
    if s.len() > 0 {
        let p = s.drop_last();
        assert forall|i: int| 0 <= i < p.len() implies prop(#[trigger] p[i]) by {
            assert(p[i] == s[i]);
        }
        lemma_filter_all(p, keep, prop);
        let f = s.filter(keep);
        assert forall|i: int| 0 <= i < f.len() implies prop(#[trigger] f[i]) by {
            if i < p.filter(keep).len() {
                assert(f[i] == p.filter(keep)[i]);
            } else {
                assert(f[i] == s.last());
            }
        }
    }
}

pub proof fn lemma_count_tiled_le(s: Seq<Client>, mask: u32)
    ensures
        count_tiled(s, mask) <= s.len(),
    decreases s.len(),
{
    if s.len() > 0 {
        lemma_count_tiled_le(s.drop_first(), mask);
    }
}

/// Counting the tiled clients of a directory from a position on adds up the
/// count from the next position and the client there.
pub proof fn lemma_count_tiled_split(s: Seq<Client>, mask: u32, i: int)
    requires
        0 <= i <= s.len(),
    ensures
        count_tiled(s, mask) == count_tiled(s.take(i), mask) + count_tiled(s.skip(i), mask),
    decreases i,
{
    if i == 0 {
        assert(s.take(0) =~= Seq::<Client>::empty());
        assert(s.skip(0) =~= s);
    } else {
        assert(s.drop_first().take(i - 1) =~= s.take(i).drop_first());
        assert(s.drop_first().skip(i - 1) =~= s.skip(i));
        lemma_count_tiled_split(s.drop_first(), mask, i - 1);
    }
}

pub proof fn lemma_layout_len(l: Layout, area: Rect, n: nat, mc: nat, f: int)
    ensures
        l.spec_rects(area, n, mc, f).len() == n,
{
}

} // verus!
