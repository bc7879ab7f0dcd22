use vstd::prelude::*;
use crate::app::{last_containing, lemma_last_containing, lemma_locate_from, spec_locate, Action, DwmrApp};
use crate::commands::{int_arg, same_state, Arg};
use crate::geometry::Rect;
use crate::monitor::{lemma_find, next_visible, spec_find, Client, Monitor, NO_WINDOW};

verus! {

/// The monitors agree on everything but their directories and selections.
pub open spec fn same_but_selection(a: Monitor, b: Monitor) -> bool {
    &&& a.index == b.index
    &&& a.rect == b.rect
    &&& a.client_area == b.client_area
    &&& a.master_count == b.master_count
    &&& a.master_factor == b.master_factor
    &&& a.tagset == b.tagset
    &&& a.selected_tag_index == b.selected_tag_index
    &&& a.layout == b.layout
}

/// The selection a monitor keeps when its `i`-th client leaves: the next
/// visible client round the directory, or none when that is the leaving one.
pub open spec fn successor_hwnd(m: Monitor, i: int) -> isize {
    let nv = next_visible(m.clients@, m.active_tags(), i, 1);
    if nv == i {
        NO_WINDOW
    } else {
        m.clients@[nv].hwnd
    }
}

/// The directory of monitor `j` once the `i`-th client of monitor `k` has
/// left.
pub open spec fn after_removal(ms: Seq<Monitor>, k: int, i: int, j: int) -> Seq<Client> {
    if j == k {
        ms[k].clients@.remove(i)
    } else {
        ms[j].clients@
    }
}

/// Where a client dropped on monitor `t` goes in the directory `cs` it
/// joins: behind the master slots when dropped outside the master area and
/// the directory fills them, else at the newest end.
pub open spec fn drop_position(cs: Seq<Client>, master_count: u32, in_master: bool) -> int {
    if !in_master && master_count <= cs.len() {
        cs.len() - master_count
    } else {
        cs.len() as int
    }
}

/// The client at `(k, i)` has moved to monitor `t` at position `pos` of the
/// directory left after its removal; monitor `k` selects the successor.
pub open spec fn moved(pre: DwmrApp, post: DwmrApp, k: int, i: int, t: int, pos: int) -> bool {
    let ms = pre.monitors@;
    let c = ms[k].clients@[i];
    &&& post.monitors@.len() == ms.len()
    &&& forall|j: int| 0 <= j < ms.len() && j != k && j != t ==> #[trigger] post.monitors@[j] == ms[j]
    &&& post.monitors@[t].clients@ == after_removal(ms, k, i, t).insert(pos, Client { monitor: t as usize, ..c })
    &&& same_but_selection(post.monitors@[t], ms[t])
    &&& same_but_selection(post.monitors@[k], ms[k])
    &&& k != t ==> post.monitors@[k].clients@ == ms[k].clients@.remove(i)
    &&& k != t ==> post.monitors@[k].selected_hwnd == successor_hwnd(ms[k], i)
    &&& post.hwnd == pre.hwnd
    &&& post.wallpaper_hwnd == pre.wallpaper_hwnd
}

/// The state after `reallocate_window`: see there.
pub open spec fn reallocate_post(
    pre: DwmrApp,
    post: DwmrApp,
    hwnd: isize,
    rect: Rect,
    cx: int,
    cy: int,
    r: Seq<Action>,
) -> bool {
    match spec_locate(pre.monitors@, hwnd) {
        None => same_state(post, pre) && r == Seq::<Action>::empty(),
        Some((k, i)) => {
            let m = pre.monitors@[k];
            if m.clients@[i].rect == rect {
                same_state(post, pre) && r == Seq::<Action>::empty()
            } else {
                match last_containing(pre.monitors@, cx, cy) {
                    None => same_state(post, pre) && r == Seq::<Action>::empty(),
                    Some(t) => {
                        let was_master = i >= m.clients@.len() - m.master_count;
                        let tm = pre.monitors@[t];
                        let in_master = tm.layout.spec_in_master_area(tm.rect, tm.client_area, tm.master_factor as int, cx, cy);
                        if t == k && was_master == in_master {
                            &&& post.selected_monitor_index == Some(k as usize)
                            &&& post.monitors@.len() == pre.monitors@.len()
                            &&& forall|j: int| 0 <= j < pre.monitors@.len() && j != k ==> #[trigger] post.monitors@[j] == pre.monitors@[j]
                            &&& post.monitors@[k] == (Monitor { selected_hwnd: hwnd, ..m })
                            &&& post.hwnd == pre.hwnd
                            &&& post.wallpaper_hwnd == pre.wallpaper_hwnd
                            &&& r == seq![Action::ArrangeMonitor(k as usize)]
                        } else {
                            let cs = after_removal(pre.monitors@, k, i, t);
                            let pos = drop_position(cs, pre.monitors@[t].master_count, in_master);
                            &&& moved(pre, post, k, i, t, pos)
                            &&& post.selected_monitor_index == Some(t as usize)
                            &&& post.monitors@[t].selected_hwnd == hwnd
                            &&& r == seq![Action::ArrangeAll, Action::RedrawBars]
                        }
                    },
                }
            }
        },
    }
}

/// The state after `tag_monitor`: see there.
pub open spec fn tag_monitor_post(pre: DwmrApp, post: DwmrApp, arg: Option<Arg>, r: Seq<Action>) -> bool {
    match (pre.selected_monitor_index, int_arg(arg)) {
        (Some(k), Some(offset)) => {
            let m = pre.monitors@[k as int];
            let t = (k + offset) % (pre.monitors@.len() as int);
            match spec_find(m.clients@, m.selected_hwnd) {
                Some(i) if t != k => {
                    &&& moved(pre, post, k as int, i, t, pre.monitors@[t].clients@.len() as int)
                    &&& post.monitors@[t].selected_hwnd == pre.monitors@[t].selected_hwnd
                    &&& post.selected_monitor_index == pre.selected_monitor_index
                    &&& r == seq![Action::ArrangeAll] + post.spec_refresh_focus()
                },
                _ => same_state(post, pre) && r == Seq::<Action>::empty(),
            }
        },
        _ => same_state(post, pre) && r == Seq::<Action>::empty(),
    }
}

impl DwmrApp {
    /// Takes the `i`-th client out of monitor `k`, whose selection passes to
    /// the next visible client round the directory, or to none when there is
    /// no other.
    fn take_out(&mut self, k: usize, i: usize) -> (r: Client)
        requires
            old(self).wf(),
            k < old(self).monitors@.len(),
            i < old(self).monitors@[k as int].clients@.len(),
        ensures
            r == old(self).monitors@[k as int].clients@[i as int],
            final(self).monitors@.len() == old(self).monitors@.len(),
            forall|j: int| 0 <= j < old(self).monitors@.len() && j != k ==> #[trigger] final(self).monitors@[j] == old(self).monitors@[j],
            final(self).monitors@[k as int].clients@ == old(self).monitors@[k as int].clients@.remove(i as int),
            final(self).monitors@[k as int].selected_hwnd == successor_hwnd(old(self).monitors@[k as int], i as int),
            same_but_selection(final(self).monitors@[k as int], old(self).monitors@[k as int]),
            final(self).selected_monitor_index == old(self).selected_monitor_index,
            final(self).hwnd == old(self).hwnd,
            final(self).wallpaper_hwnd == old(self).wallpaper_hwnd,
            forall|j: int| 0 <= j < final(self).monitors@.len() ==> {
                &&& (#[trigger] final(self).monitors@[j]).wf()
                &&& final(self).monitors@[j].index == j
                &&& forall|q: int|
                    0 <= q < final(self).monitors@[j].clients@.len() ==> (#[trigger] final(self).monitors@[j].clients@[q]).monitor == j
            },
    {
        let nv = self.monitors[k].next_visible_index(i, true);
        let h = if nv == i {
            NO_WINDOW
        } else {
            self.monitors[k].clients[nv].hwnd
        };
        self.monitors[k].selected_hwnd = h;
        let c = self.monitors[k].clients.remove(i);
        proof {
            let o = old(self).monitors@[k as int].clients@;
            let n = self.monitors@[k as int].clients@;
            assert forall|q: int| 0 <= q < n.len() implies (#[trigger] n[q]).monitor == k by {
                if q < i {
                    assert(n[q] == o[q]);
                } else {
                    assert(n[q] == o[q + 1]);
                }
            }
        }
        c
    }

    /// Puts `c` into the directory of monitor `t` at position `pos`, as a
    /// client of that monitor.
    fn put_in(&mut self, c: Client, t: usize, pos: usize)
        requires
            t < old(self).monitors@.len(),
            pos <= old(self).monitors@[t as int].clients@.len(),
            forall|j: int| 0 <= j < old(self).monitors@.len() ==> {
                &&& (#[trigger] old(self).monitors@[j]).wf()
                &&& old(self).monitors@[j].index == j
                &&& forall|q: int|
                    0 <= q < old(self).monitors@[j].clients@.len() ==> (#[trigger] old(self).monitors@[j].clients@[q]).monitor == j
            },
            old(self).selected_monitor_index matches Some(s) ==> s < old(self).monitors@.len(),
        ensures
            final(self).wf(),
            final(self).monitors@.len() == old(self).monitors@.len(),
            forall|j: int| 0 <= j < old(self).monitors@.len() && j != t ==> #[trigger] final(self).monitors@[j] == old(self).monitors@[j],
            final(self).monitors@[t as int].clients@ == old(self).monitors@[t as int].clients@.insert(
                pos as int,
                Client { monitor: t, ..c },
            ),
            final(self).monitors@[t as int].same_settings(old(self).monitors@[t as int]),
            final(self).selected_monitor_index == old(self).selected_monitor_index,
            final(self).hwnd == old(self).hwnd,
            final(self).wallpaper_hwnd == old(self).wallpaper_hwnd,
    {
        let mut c = c;
        c.monitor = t;
        self.monitors[t].clients.insert(pos, c);
        proof {
            let o = old(self).monitors@[t as int].clients@;
            let n = self.monitors@[t as int].clients@;
            assert forall|q: int| 0 <= q < n.len() implies (#[trigger] n[q]).monitor == t by {
                if q < pos {
                    assert(n[q] == o[q]);
                } else if q > pos {
                    assert(n[q] == o[q - 1]);
                }
            }
        }
    }

    /// Handles the end of a move or resize of `hwnd`, whose window now has
    /// `window_rect`, with the cursor at `(cursor_x, cursor_y)`. Nothing
    /// happens for an unmanaged window, a window that has not changed since
    /// it was last placed, or a cursor outside every display. A drop on the
    /// same monitor and in the same area, master or stack, of its layout only
    /// lays the monitor out again. Otherwise the client leaves its directory, whose
    /// selection passes on, and joins the directory of the monitor under the
    /// cursor, behind its master slots when dropped outside the master area,
    /// else at the newest end. The moved client, on its monitor, becomes the
    /// selection.
    #[verifier::rlimit(60)]
    pub fn reallocate_window(&mut self, hwnd: isize, window_rect: &Rect, cursor_x: i32, cursor_y: i32) -> (r: Vec<Action>)
        requires
            old(self).wf(),
        ensures
            final(self).wf(),
            reallocate_post(*old(self), *final(self), hwnd, *window_rect, cursor_x as int, cursor_y as int, r@),
    {
        let (k, i) = match self.locate(hwnd) {
            Some(p) => p,
            None => {
                return Vec::new();
            },
        };
        proof {
            lemma_locate_from(self.monitors@, hwnd, 0);
        }
        if self.monitors[k].clients[i].rect == *window_rect {
            return Vec::new();
        }
        let t = match self.monitor_at(cursor_x, cursor_y) {
            Some(t) => t,
            None => {
                return Vec::new();
            },
        };
        proof {
            lemma_last_containing(self.monitors@, cursor_x as int, cursor_y as int);
        }
        let len_k = self.monitors[k].clients.len();
        let was_master = (i as i128) >= (len_k as i128) - (self.monitors[k].master_count as i128);
        let tm = &self.monitors[t];
        let in_master = tm.layout.is_in_master_area(&tm.rect, &tm.client_area, tm.master_factor, cursor_x, cursor_y);
        if t == k && was_master == in_master {
            self.selected_monitor_index = Some(k);
            self.monitors[k].selected_hwnd = hwnd;
            let mut out: Vec<Action> = Vec::new();
            out.push(Action::ArrangeMonitor(k));
            return out;
        }
        let c = self.take_out(k, i);
        let len_t = self.monitors[t].clients.len();
        let mc = self.monitors[t].master_count;
        let pos: usize = if !in_master && (mc as usize) <= len_t {
            len_t - mc as usize
        } else {
            len_t
        };
        proof {
            assert(self.monitors@[t as int].clients@ == after_removal(old(self).monitors@, k as int, i as int, t as int));
        }
        self.put_in(c, t, pos);
        self.selected_monitor_index = Some(t);
        self.monitors[t].selected_hwnd = hwnd;
        let mut out: Vec<Action> = Vec::new();
        out.push(Action::ArrangeAll);
        out.push(Action::RedrawBars);
        assert(out@ =~= seq![Action::ArrangeAll, Action::RedrawBars]);
        out
    }

    /// Sends the `i`-th client of monitor `k` to the newest end of monitor
    /// `t`; monitor `k` selects the next visible client. Nothing happens
    /// when `t` is `k`.
    fn sendmon(&mut self, k: usize, i: usize, t: usize) -> (r: Vec<Action>)
        requires
            old(self).wf(),
            k < old(self).monitors@.len(),
            t < old(self).monitors@.len(),
            i < old(self).monitors@[k as int].clients@.len(),
        ensures
            final(self).wf(),
            k == t ==> same_state(*final(self), *old(self)) && r@ == Seq::<Action>::empty(),
            k != t ==> {
                &&& moved(*old(self), *final(self), k as int, i as int, t as int, old(self).monitors@[t as int].clients@.len() as int)
                &&& final(self).monitors@[t as int].selected_hwnd == old(self).monitors@[t as int].selected_hwnd
                &&& final(self).selected_monitor_index == old(self).selected_monitor_index
                &&& r@ == seq![Action::ArrangeAll] + final(self).spec_refresh_focus()
            },
    {
        if k == t {
            return Vec::new();
        }
        let c = self.take_out(k, i);
        let pos = self.monitors[t].clients.len();
        self.put_in(c, t, pos);
        let mut out: Vec<Action> = Vec::new();
        out.push(Action::ArrangeAll);
        let mut focus = self.refresh_focus();
        out.append(&mut focus);
        out
    }

    /// Sends the selected client to the monitor `offset` places on in the
    /// registry, round its ends.
    pub fn tag_monitor(&mut self, arg: &Option<Arg>) -> (r: Vec<Action>)
        requires
            old(self).wf(),
        ensures
            final(self).wf(),
            tag_monitor_post(*old(self), *final(self), *arg, r@),
    {
        let offset = match arg {
            Some(Arg::Int(o)) => *o,
            _ => {
                return Vec::new();
            },
        };
        let k = match self.selected_monitor_index {
            Some(k) => k,
            None => {
                return Vec::new();
            },
        };
        let n = self.monitors.len();
        let t = wrap_index(k, offset, n);
        let i = match self.monitors[k].get_selected_client_index() {
            Some(i) => i,
            None => {
                return Vec::new();
            },
        };
        self.sendmon(k, i, t)
    }
}

/// The index `offset` places on from `k` round `n` places.
pub fn wrap_index(k: usize, offset: i32, n: usize) -> (r: usize)
    requires
        k < n,
    ensures
        r == (k + offset) % (n as int),
        r < n,
{
    let a: u64 = if offset < 0 {
        (-(offset as i64)) as u64
    } else {
        offset as u64
    };
    let a: usize = (a % (n as u64)) as usize;
    proof {
        vstd::arithmetic::div_mod::lemma_mod_bound(k + offset, n as int);
        vstd::arithmetic::div_mod::lemma_mod_bound(abs_int(offset as int), n as int);
    }
    if offset >= 0 {
        proof {
            vstd::arithmetic::div_mod::lemma_add_mod_noop_right(k as int, offset as int, n as int);
        }
        if a >= n - k {
            proof {
                vstd::arithmetic::div_mod::lemma_fundamental_div_mod_converse_mod(k + a, n as int, 1, k + a - n);
            }
            a - (n - k)
        } else {
            proof {
                vstd::arithmetic::div_mod::lemma_small_mod((k + a) as nat, n as nat);
            }
            k + a
        }
    } else {
        proof {
            vstd::arithmetic::div_mod::lemma_sub_mod_noop_right(k + n, -offset, n as int);
            vstd::arithmetic::div_mod::lemma_mod_multiples_vanish(1, k + offset, n as int);
            assert(k + n - (-offset) == n * 1 + (k + offset));
        }
        if k >= a {
            proof {
                vstd::arithmetic::div_mod::lemma_fundamental_div_mod_converse_mod(k + n - a, n as int, 1, k - a);
            }
            k - a
        } else {
            proof {
                vstd::arithmetic::div_mod::lemma_small_mod((k + n - a) as nat, n as nat);
            }
            k + (n - a)
        }
    }
}

pub open spec fn abs_int(v: int) -> int {
    if v < 0 {
        -v
    } else {
        v
    }
}

} // verus!
