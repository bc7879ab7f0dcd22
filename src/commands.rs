use vstd::prelude::*;
use crate::app::{Action, DwmrApp};
use crate::layout::Layout;
use crate::cycle::lemma_next_visible_back;
use crate::monitor::{
    count_visible, lemma_find, next_visible, spec_find, spec_is_visible, walk_visible, Client, Monitor,
    NO_WINDOW, TAGMASK,
};

verus! {

/// The argument bound to a hotkey, one variant per shape of argument.
#[derive(Clone, Copy, Debug, PartialEq, Eq, Structural)]
pub enum Arg {
    /// A signed step: through the clients or monitors.
    Int(i32),
    /// A tag mask.
    UInt(u32),
    /// A change of the master factor, see `FACTOR_SCALE`.
    Factor(i32),
    Layout(Layout),
}

pub open spec fn int_arg(a: Option<Arg>) -> Option<i32> {
    match a {
        Some(Arg::Int(i)) => Some(i),
        _ => None,
    }
}

pub open spec fn uint_arg(a: Option<Arg>) -> Option<u32> {
    match a {
        Some(Arg::UInt(u)) => Some(u),
        _ => None,
    }
}

/// The two monitors hold the same settings and the same clients.
pub open spec fn same_monitor(a: Monitor, b: Monitor) -> bool {
    a.same_settings(b) && a.clients@ == b.clients@
}

/// The two states are the same.
pub open spec fn same_state(a: DwmrApp, b: DwmrApp) -> bool {
    &&& a.monitors@.len() == b.monitors@.len()
    &&& forall|j: int| 0 <= j < a.monitors@.len() ==> same_monitor(#[trigger] a.monitors@[j], b.monitors@[j])
    &&& a.selected_monitor_index == b.selected_monitor_index
    &&& a.hwnd == b.hwnd
    &&& a.wallpaper_hwnd == b.wallpaper_hwnd
}

/// The two states differ at most in the `k`-th monitor.
pub open spec fn only_monitor_changed(a: DwmrApp, b: DwmrApp, k: int) -> bool {
    &&& a.monitors@.len() == b.monitors@.len()
    &&& forall|j: int| 0 <= j < a.monitors@.len() && j != k ==> #[trigger] a.monitors@[j] == b.monitors@[j]
    &&& a.selected_monitor_index == b.selected_monitor_index
    &&& a.hwnd == b.hwnd
    &&& a.wallpaper_hwnd == b.wallpaper_hwnd
}

/// The monitors agree on everything but their tag sets and active slot.
pub open spec fn same_but_tags(a: Monitor, b: Monitor) -> bool {
    &&& a.index == b.index
    &&& a.rect == b.rect
    &&& a.client_area == b.client_area
    &&& a.master_count == b.master_count
    &&& a.master_factor == b.master_factor
    &&& a.selected_hwnd == b.selected_hwnd
    &&& a.clients == b.clients
    &&& a.layout == b.layout
}

/// The state after `view`: see there.
pub open spec fn view_post(pre: DwmrApp, post: DwmrApp, arg: Option<Arg>, r: Seq<Action>) -> bool {
    match (pre.selected_monitor_index, uint_arg(arg)) {
        (Some(k), Some(mask)) => {
            let m = pre.monitors@[k as int];
            let t = mask & TAGMASK;
            if t == m.active_tags() {
                same_state(post, pre) && r == Seq::<Action>::empty()
            } else {
                let n = post.monitors@[k as int];
                &&& only_monitor_changed(post, pre, k as int)
                &&& same_but_tags(n, m)
                &&& n.selected_tag_index == 1 - m.selected_tag_index
                &&& n.tagset@ == if t != 0 {
                    m.tagset@.update(n.selected_tag_index as int, t)
                } else {
                    m.tagset@
                }
                &&& r == seq![Action::RedrawBars] + post.spec_refresh_focus() + seq![
                    Action::ArrangeAll,
                ]
            }
        },
        _ => same_state(post, pre) && r == Seq::<Action>::empty(),
    }
}

/// The state after `toggle_tag`: see there.
pub open spec fn toggle_tag_post(pre: DwmrApp, post: DwmrApp, arg: Option<Arg>, r: Seq<Action>) -> bool {
    match (pre.selected_monitor_index, uint_arg(arg)) {
        (Some(k), Some(mask)) => {
            let m = pre.monitors@[k as int];
            match spec_find(m.clients@, m.selected_hwnd) {
                Some(i) => {
                    let c = m.clients@[i];
                    let tags = c.tags ^ (mask & TAGMASK);
                    if tags == 0 {
                        same_state(post, pre) && r == Seq::<Action>::empty()
                    } else {
                        let n = post.monitors@[k as int];
                        &&& only_monitor_changed(post, pre, k as int)
                        &&& n.same_settings(m)
                        &&& n.clients@ == m.clients@.update(i, Client { tags, ..c })
                        &&& r == post.spec_refresh_focus() + seq![Action::ArrangeAll]
                    }
                },
                None => same_state(post, pre) && r == Seq::<Action>::empty(),
            }
        },
        _ => same_state(post, pre) && r == Seq::<Action>::empty(),
    }
}

/// Where `offset_to_new_index` leads.
pub open spec fn spec_offset_to_new_index(length: int, current: int, offset: int) -> int {
    let v = current - offset;
    if v < 0 {
        length - 1
    } else if v >= length {
        0
    } else {
        v
    }
}

pub open spec fn abs(v: int) -> nat {
    if v < 0 {
        (-v) as nat
    } else {
        v as nat
    }
}

/// The walk of `focus_stack` from position `i`: a positive offset moves
/// towards the older clients, a negative one towards the newer.
pub open spec fn stack_target(m: Monitor, i: int, offset: int) -> int {
    walk_visible(m.clients@, m.active_tags(), i, if offset < 0 { 1 } else { -1 }, abs(offset))
}

/// The state after `toggle_view`: see there.
pub open spec fn toggle_view_post(pre: DwmrApp, post: DwmrApp, arg: Option<Arg>, r: Seq<Action>) -> bool {
    match (pre.selected_monitor_index, uint_arg(arg)) {
        (Some(k), Some(mask)) => {
            let m = pre.monitors@[k as int];
            let t = (mask & TAGMASK) ^ m.active_tags();
            if t == 0 {
                same_state(post, pre) && r == Seq::<Action>::empty()
            } else {
                let n = post.monitors@[k as int];
                &&& only_monitor_changed(post, pre, k as int)
                &&& same_but_tags(n, m)
                &&& n.selected_tag_index == m.selected_tag_index
                &&& n.tagset@ == m.tagset@.update(m.selected_tag_index as int, t)
                &&& r == seq![Action::RedrawBars] + post.spec_refresh_focus() + seq![
                    Action::ArrangeAll,
                ]
            }
        },
        _ => same_state(post, pre) && r == Seq::<Action>::empty(),
    }
}

/// The state after `tag`: see there.
pub open spec fn tag_post(pre: DwmrApp, post: DwmrApp, arg: Option<Arg>, r: Seq<Action>) -> bool {
    match (pre.selected_monitor_index, uint_arg(arg)) {
        (Some(k), Some(mask)) => {
            let m = pre.monitors@[k as int];
            let t = mask & TAGMASK;
            match spec_find(m.clients@, m.selected_hwnd) {
                Some(i) if t != 0 => {
                    let n = post.monitors@[k as int];
                    &&& only_monitor_changed(post, pre, k as int)
                    &&& n.same_settings(m)
                    &&& n.clients@ == m.clients@.update(i, Client { tags: t, ..m.clients@[i] })
                    &&& r == post.spec_refresh_focus() + seq![Action::ArrangeAll]
                },
                _ => same_state(post, pre) && r == Seq::<Action>::empty(),
            }
        },
        _ => same_state(post, pre) && r == Seq::<Action>::empty(),
    }
}

/// The state after `quit`: see there.
pub open spec fn quit_post(pre: DwmrApp, post: DwmrApp, arg: Option<Arg>, r: Seq<Action>) -> bool {
    &&& same_state(post, pre)
    &&& r == if pre.hwnd == NO_WINDOW {
        Seq::<Action>::empty()
    } else {
        seq![Action::Close]
    }
}

impl DwmrApp {
    /// Shows the tags of `mask` on the selected monitor. The view moves to
    /// the other slot of the tag-set history, which takes the mask unless it
    /// holds no tag, so an empty mask goes back to the previous view. Nothing
    /// happens when the mask is already viewed.
    pub fn view(&mut self, arg: &Option<Arg>) -> (r: Vec<Action>)
        requires
            old(self).wf(),
        ensures
            final(self).wf(),
            view_post(*old(self), *final(self), *arg, r@),
    {
        let mask = match arg {
            Some(Arg::UInt(mask)) => *mask,
            _ => {
                return Vec::new();
            },
        };
        let k = match self.selected_monitor_index {
            Some(k) => k,
            None => {
                return Vec::new();
            },
        };
        let t = mask & TAGMASK;
        if t == self.monitors[k].visible_tags() {
            return Vec::new();
        }
        let s: usize = 1 - self.monitors[k].selected_tag_index;
        self.monitors[k].selected_tag_index = s;
        if t != 0 {
            self.monitors[k].tagset[s] = t;
        }
        let mut out: Vec<Action> = Vec::new();
        out.push(Action::RedrawBars);
        let mut focus = self.refresh_focus();
        out.append(&mut focus);
        out.push(Action::ArrangeAll);
        assert(out@ =~= seq![Action::RedrawBars] + self.spec_refresh_focus() + seq![Action::ArrangeAll]);
        out
    }

    /// Flips the tags of `mask` in the viewed tag set of the selected
    /// monitor, unless no tag would be left viewed.
    pub fn toggle_view(&mut self, arg: &Option<Arg>) -> (r: Vec<Action>)
        requires
            old(self).wf(),
        ensures
            final(self).wf(),
            toggle_view_post(*old(self), *final(self), *arg, r@),
    {
        let mask = match arg {
            Some(Arg::UInt(mask)) => *mask,
            _ => {
                return Vec::new();
            },
        };
        let k = match self.selected_monitor_index {
            Some(k) => k,
            None => {
                return Vec::new();
            },
        };
        let s = self.monitors[k].selected_tag_index;
        let t = (mask & TAGMASK) ^ self.monitors[k].visible_tags();
        if t == 0 {
            return Vec::new();
        }
        self.monitors[k].tagset[s] = t;
        let mut out: Vec<Action> = Vec::new();
        out.push(Action::RedrawBars);
        let mut focus = self.refresh_focus();
        out.append(&mut focus);
        out.push(Action::ArrangeAll);
        assert(out@ =~= seq![Action::RedrawBars] + self.spec_refresh_focus() + seq![Action::ArrangeAll]);
        out
    }

    /// Gives the selected client exactly the tags of `mask`, unless the mask
    /// holds no tag.
    pub fn tag(&mut self, arg: &Option<Arg>) -> (r: Vec<Action>)
        requires
            old(self).wf(),
        ensures
            final(self).wf(),
            tag_post(*old(self), *final(self), *arg, r@),
    {
        let mask = match arg {
            Some(Arg::UInt(mask)) => *mask,
            _ => {
                return Vec::new();
            },
        };
        let t = mask & TAGMASK;
        if t == 0 {
            return Vec::new();
        }
        let k = match self.selected_monitor_index {
            Some(k) => k,
            None => {
                return Vec::new();
            },
        };
        let i = match self.monitors[k].get_selected_client_index() {
            Some(i) => i,
            None => {
                return Vec::new();
            },
        };
        proof {
            crate::monitor::lemma_find(self.monitors@[k as int].clients@, self.monitors@[k as int].selected_hwnd);
        }
        self.monitors[k].clients[i].tags = t;
        assert(self.monitors@[k as int].clients@ =~= old(self).monitors@[k as int].clients@.update(
            i as int,
            Client { tags: t, ..old(self).monitors@[k as int].clients@[i as int] },
        ));
        let mut out = self.refresh_focus();
        out.push(Action::ArrangeAll);
        assert(out@ =~= self.spec_refresh_focus() + seq![Action::ArrangeAll]);
        out
    }

    /// Flips the tags of `mask` on the selected client, unless it would be
    /// left without a tag.
    pub fn toggle_tag(&mut self, arg: &Option<Arg>) -> (r: Vec<Action>)
        requires
            old(self).wf(),
        ensures
            final(self).wf(),
            toggle_tag_post(*old(self), *final(self), *arg, r@),
    {
        let mask = match arg {
            Some(Arg::UInt(mask)) => *mask,
            _ => {
                return Vec::new();
            },
        };
        let k = match self.selected_monitor_index {
            Some(k) => k,
            None => {
                return Vec::new();
            },
        };
        let i = match self.monitors[k].get_selected_client_index() {
            Some(i) => i,
            None => {
                return Vec::new();
            },
        };
        proof {
            crate::monitor::lemma_find(self.monitors@[k as int].clients@, self.monitors@[k as int].selected_hwnd);
        }
        let tags = self.monitors[k].clients[i].tags ^ (mask & TAGMASK);
        if tags == 0 {
            return Vec::new();
        }
        self.monitors[k].clients[i].tags = tags;
        assert(self.monitors@[k as int].clients@ =~= old(self).monitors@[k as int].clients@.update(
            i as int,
            Client { tags, ..old(self).monitors@[k as int].clients@[i as int] },
        ));
        let mut out = self.refresh_focus();
        out.push(Action::ArrangeAll);
        assert(out@ =~= self.spec_refresh_focus() + seq![Action::ArrangeAll]);
        out
    }

    /// Asks to close the window manager, where its window exists.
    pub fn quit(&mut self, arg: &Option<Arg>) -> (r: Vec<Action>)
        ensures
            quit_post(*old(self), *final(self), *arg, r@),
    {
        let mut out: Vec<Action> = Vec::new();
        if self.hwnd != NO_WINDOW {
            out.push(Action::Close);
        }
        out
    }

    /// The monitor index `offset` steps back from `current`, clamped to the
    /// far end when it leaves the range.
    pub fn offset_to_new_index(length: usize, current: usize, offset_index: i32) -> (r: usize)
        requires
            length > 0,
            current < length,
        ensures
            r == spec_offset_to_new_index(length as int, current as int, offset_index as int),
            r < length,
    {
        let v: i128 = current as i128 - offset_index as i128;
        if v < 0 {
            length - 1
        } else if v >= length as i128 {
            0
        } else {
            v as usize
        }
    }
}


/// Viewing the same mask twice, where the mask holds a tag: the second call
/// changes nothing and asks for nothing.
pub proof fn view_is_idempotent(
    a: DwmrApp,
    b: DwmrApp,
    c: DwmrApp,
    arg: Option<Arg>,
    r1: Seq<Action>,
    r2: Seq<Action>,
)
    requires
        a.wf(),
        uint_arg(arg) matches Some(mask) && mask & TAGMASK != 0,
        view_post(a, b, arg, r1),
        view_post(b, c, arg, r2),
    ensures
        same_state(c, b),
        r2 == Seq::<Action>::empty(),
{
    match a.selected_monitor_index {
        Some(k) => {
            let mask = uint_arg(arg)->0;
            let t = mask & TAGMASK;
            let m = a.monitors@[k as int];
            if t != m.active_tags() {
                let n = b.monitors@[k as int];
                assert(n.tagset@[n.selected_tag_index as int] == t);
                assert(n.active_tags() == t);
            } else {
                assert(b.monitors@[k as int].active_tags() == t);
            }
        },
        None => {},
    }
}

/// Flipping the same tags of the selected client twice gives back the
/// state from before, where the client carries a tag: either both steps
/// happen, or the one that would leave the client without a tag is refused
/// each time.
pub proof fn toggle_tag_twice_restores(
    a: DwmrApp,
    b: DwmrApp,
    c: DwmrApp,
    arg: Option<Arg>,
    r1: Seq<Action>,
    r2: Seq<Action>,
)
    requires
        a.wf(),
        a.selected_monitor_index matches Some(k) && ({
            let m = a.monitors@[k as int];
            spec_find(m.clients@, m.selected_hwnd) matches Some(i) ==> m.clients@[i].tags != 0
        }),
        toggle_tag_post(a, b, arg, r1),
        toggle_tag_post(b, c, arg, r2),
    ensures
        same_state(c, a),
{
    let k = a.selected_monitor_index->0;
    let m = a.monitors@[k as int];
    if let Some(mask) = uint_arg(arg) {
        if let Some(i) = spec_find(m.clients@, m.selected_hwnd) {
            let x = m.clients@[i].tags;
            let t = mask & TAGMASK;
            if x ^ t != 0 {
                let n = b.monitors@[k as int];
                lemma_find(m.clients@, m.selected_hwnd);
                lemma_find(n.clients@, n.selected_hwnd);
                assert(forall|j: int| 0 <= j < n.clients@.len() ==> n.clients@[j].hwnd == m.clients@[j].hwnd);
                let j = spec_find(n.clients@, n.selected_hwnd)->0;
                if j < i {
                    assert(m.clients@[j].hwnd == m.selected_hwnd);
                }
                if i < j {
                    assert(n.clients@[i].hwnd == m.selected_hwnd);
                }
                assert(spec_find(n.clients@, n.selected_hwnd) == Some(i));
                assert((x ^ t) ^ t == x) by (bit_vector);
                let o = c.monitors@[k as int];
                assert(o.clients@ =~= m.clients@);
            }
        }
    }
}


/// The state after `focus_stack`: see there.
pub open spec fn focus_stack_post(pre: DwmrApp, post: DwmrApp, arg: Option<Arg>, r: Seq<Action>) -> bool {
    match (pre.selected_monitor_index, int_arg(arg)) {
        (Some(k), Some(offset)) => {
            let m = pre.monitors@[k as int];
            match spec_find(m.clients@, m.selected_hwnd) {
                Some(i) if offset != 0 && count_visible(m.clients@, m.active_tags()) > 0 => {
                    let j = stack_target(m, i, offset as int);
                    if j == i {
                        same_state(post, pre) && r == Seq::<Action>::empty()
                    } else {
                        let h = m.clients@[j].hwnd;
                        &&& only_monitor_changed(post, pre, k as int)
                        &&& post.monitors@[k as int] == (Monitor { selected_hwnd: h, ..m })
                        &&& r == seq![Action::Focus(h)]
                    }
                },
                _ => same_state(post, pre) && r == Seq::<Action>::empty(),
            }
        },
        _ => same_state(post, pre) && r == Seq::<Action>::empty(),
    }
}

/// The handles of a directory name windows, each one once.
pub open spec fn live_handles(s: Seq<Client>) -> bool {
    &&& forall|a: int| 0 <= a < s.len() ==> (#[trigger] s[a]).hwnd != NO_WINDOW
    &&& forall|a: int, b: int| 0 <= a < b < s.len() ==> (#[trigger] s[a]).hwnd != (#[trigger] s[b]).hwnd
}

/// The state after `zoom`: see there.
pub open spec fn zoom_post(pre: DwmrApp, post: DwmrApp, arg: Option<Arg>, r: Seq<Action>) -> bool {
    match pre.selected_monitor_index {
        Some(k) => {
            let m = pre.monitors@[k as int];
            match spec_find(m.clients@, m.selected_hwnd) {
                Some(i) => {
                    let n = post.monitors@[k as int];
                    &&& only_monitor_changed(post, pre, k as int)
                    &&& n.same_settings(m)
                    &&& n.clients@ == m.clients@.remove(i).push(m.clients@[i])
                    &&& r == seq![Action::ArrangeMonitor(k)]
                },
                None => same_state(post, pre) && r == Seq::<Action>::empty(),
            }
        },
        None => same_state(post, pre) && r == Seq::<Action>::empty(),
    }
}

/// The state after `set_layout`: see there.
pub open spec fn set_layout_post(pre: DwmrApp, post: DwmrApp, arg: Option<Arg>, r: Seq<Action>) -> bool {
    match (pre.selected_monitor_index, arg) {
        (Some(k), Some(Arg::Layout(l))) => {
            &&& only_monitor_changed(post, pre, k as int)
            &&& post.monitors@[k as int] == (Monitor { layout: l, ..pre.monitors@[k as int] })
            &&& r == seq![Action::ArrangeMonitor(k)] + post.spec_refresh_focus()
        },
        _ => same_state(post, pre) && r == Seq::<Action>::empty(),
    }
}

/// The state after `toggle_float`: see there.
pub open spec fn toggle_float_post(pre: DwmrApp, post: DwmrApp, arg: Option<Arg>, r: Seq<Action>) -> bool {
    match pre.selected_monitor_index {
        Some(k) => {
            let m = pre.monitors@[k as int];
            match spec_find(m.clients@, m.selected_hwnd) {
                Some(i) => {
                    let n = post.monitors@[k as int];
                    let c = m.clients@[i];
                    &&& only_monitor_changed(post, pre, k as int)
                    &&& n.same_settings(m)
                    &&& n.clients@ == m.clients@.update(i, Client { is_floating: !c.is_floating, ..c })
                    &&& r == seq![Action::ArrangeAll] + post.spec_refresh_focus()
                },
                None => same_state(post, pre) && r == Seq::<Action>::empty(),
            }
        },
        None => same_state(post, pre) && r == Seq::<Action>::empty(),
    }
}

/// The state after `set_monitor_factor`: see there.
pub open spec fn set_monitor_factor_post(pre: DwmrApp, post: DwmrApp, arg: Option<Arg>, r: Seq<Action>) -> bool {
    match (pre.selected_monitor_index, arg) {
        (Some(k), Some(Arg::Factor(delta))) => {
            let m = pre.monitors@[k as int];
            let v = m.master_factor + delta;
            let f = if v > i32::MAX {
                i32::MAX as int
            } else if v < i32::MIN {
                i32::MIN as int
            } else {
                v
            };
            &&& only_monitor_changed(post, pre, k as int)
            &&& post.monitors@[k as int] == (Monitor { master_factor: f as i32, ..m })
            &&& r == seq![Action::ArrangeMonitor(k)]
        },
        _ => same_state(post, pre) && r == Seq::<Action>::empty(),
    }
}

/// The state after `focus_monitor`: see there.
pub open spec fn focus_monitor_post(pre: DwmrApp, post: DwmrApp, arg: Option<Arg>, r: Seq<Action>) -> bool {
    match int_arg(arg) {
        Some(offset) if offset != 0 && pre.monitors@.len() > 0 => {
            let len = pre.monitors@.len() as int;
            let target = match pre.selected_monitor_index {
                None => 0,
                Some(c) => spec_offset_to_new_index(len, c as int, offset as int),
            };
            if pre.selected_monitor_index == Some(target as usize) {
                same_state(post, pre) && r == Seq::<Action>::empty()
            } else {
                let m = pre.monitors@[target];
                let h = if m.selected_hwnd != NO_WINDOW {
                    m.selected_hwnd
                } else if m.clients@.len() > 0 {
                    m.clients@.last().hwnd
                } else {
                    NO_WINDOW
                };
                &&& post.selected_monitor_index == Some(target as usize)
                &&& post.monitors@.len() == pre.monitors@.len()
                &&& forall|j: int| 0 <= j < len && j != target ==> #[trigger] post.monitors@[j] == pre.monitors@[j]
                &&& post.monitors@[target] == (Monitor { selected_hwnd: h, ..m })
                &&& post.hwnd == pre.hwnd
                &&& post.wallpaper_hwnd == pre.wallpaper_hwnd
                &&& r == post.spec_refresh_focus() + seq![Action::RedrawBars]
            }
        },
        _ => same_state(post, pre) && r == Seq::<Action>::empty(),
    }
}

impl DwmrApp {
    /// Moves the selection `offset` visible clients through the directory of
    /// the selected monitor, round its ends, skipping the clients that the
    /// viewed tags do not cover; a positive offset moves towards the older
    /// clients. Nothing happens without a selected client or a visible one,
    /// or when the walk ends where it started.
    pub fn focus_stack(&mut self, arg: &Option<Arg>) -> (r: Vec<Action>)
        requires
            old(self).wf(),
        ensures
            final(self).wf(),
            focus_stack_post(*old(self), *final(self), *arg, r@),
    {
        let offset = match arg {
            Some(Arg::Int(o)) => *o,
            _ => {
                return Vec::new();
            },
        };
        if offset == 0 {
            return Vec::new();
        }
        let k = match self.selected_monitor_index {
            Some(k) => k,
            None => {
                return Vec::new();
            },
        };
        let i = match self.monitors[k].get_selected_client_index() {
            Some(i) => i,
            None => {
                return Vec::new();
            },
        };
        if !self.monitors[k].any_visible() {
            return Vec::new();
        }
        let forward = offset < 0;
        let steps: u64 = if offset < 0 {
            (-(offset as i64)) as u64
        } else {
            offset as u64
        };
        let ghost d: int = if forward { 1 } else { -1 };
        let ghost s = self.monitors@[k as int].clients@;
        let ghost mask = self.monitors@[k as int].active_tags();
        let mut j: usize = i;
        let mut t: u64 = 0;
        while t < steps
            invariant
                t <= steps,
                self.wf(),
                k < self.monitors@.len(),
                s == self.monitors@[k as int].clients@,
                mask == self.monitors@[k as int].active_tags(),
                j < s.len(),
                d == (if forward { 1int } else { -1int }),
                walk_visible(s, mask, j as int, d, (steps - t) as nat) == walk_visible(s, mask, i as int, d, steps as nat),
            decreases steps - t,
        {
            j = self.monitors[k].next_visible_index(j, forward);
            t = t + 1;
        }
        assert(steps as nat == abs(offset as int));
        if j == i {
            return Vec::new();
        }
        let h = self.monitors[k].clients[j].hwnd;
        self.monitors[k].selected_hwnd = h;
        let mut out: Vec<Action> = Vec::new();
        out.push(Action::Focus(h));
        out
    }

    /// Moves the selected client to the newest end of its directory, which
    /// makes it the first master, and asks to lay its monitor out again.
    pub fn zoom(&mut self, arg: &Option<Arg>) -> (r: Vec<Action>)
        requires
            old(self).wf(),
        ensures
            final(self).wf(),
            zoom_post(*old(self), *final(self), *arg, r@),
    {
        let k = match self.selected_monitor_index {
            Some(k) => k,
            None => {
                return Vec::new();
            },
        };
        let i = match self.monitors[k].get_selected_client_index() {
            Some(i) => i,
            None => {
                return Vec::new();
            },
        };
        let c = self.monitors[k].clients.remove(i);
        self.monitors[k].clients.push(c);
        proof {
            let o = old(self).monitors@[k as int].clients@;
            let n = self.monitors@[k as int].clients@;
            assert(n =~= o.remove(i as int).push(o[i as int]));
            assert forall|q: int| 0 <= q < n.len() implies (#[trigger] n[q]).monitor == k by {
                if q < i {
                    assert(n[q] == o[q]);
                } else if q < n.len() - 1 {
                    assert(n[q] == o[q + 1]);
                }
            }
        }
        let mut out: Vec<Action> = Vec::new();
        out.push(Action::ArrangeMonitor(k));
        out
    }

    /// Gives the selected monitor the layout of the argument.
    pub fn set_layout(&mut self, arg: &Option<Arg>) -> (r: Vec<Action>)
        requires
            old(self).wf(),
        ensures
            final(self).wf(),
            set_layout_post(*old(self), *final(self), *arg, r@),
    {
        let l = match arg {
            Some(Arg::Layout(l)) => *l,
            _ => {
                return Vec::new();
            },
        };
        let k = match self.selected_monitor_index {
            Some(k) => k,
            None => {
                return Vec::new();
            },
        };
        self.monitors[k].layout = l;
        let mut out: Vec<Action> = Vec::new();
        out.push(Action::ArrangeMonitor(k));
        let mut focus = self.refresh_focus();
        out.append(&mut focus);
        out
    }

    /// Flips the floating flag of the selected client.
    pub fn toggle_float(&mut self, arg: &Option<Arg>) -> (r: Vec<Action>)
        requires
            old(self).wf(),
        ensures
            final(self).wf(),
            toggle_float_post(*old(self), *final(self), *arg, r@),
    {
        let k = match self.selected_monitor_index {
            Some(k) => k,
            None => {
                return Vec::new();
            },
        };
        let i = match self.monitors[k].get_selected_client_index() {
            Some(i) => i,
            None => {
                return Vec::new();
            },
        };
        let f = !self.monitors[k].clients[i].is_floating;
        self.monitors[k].clients[i].is_floating = f;
        assert(self.monitors@[k as int].clients@ =~= old(self).monitors@[k as int].clients@.update(
            i as int,
            Client { is_floating: f, ..old(self).monitors@[k as int].clients@[i as int] },
        ));
        let mut out: Vec<Action> = Vec::new();
        out.push(Action::ArrangeAll);
        let mut focus = self.refresh_focus();
        out.append(&mut focus);
        out
    }

    /// Adds the argument to the master factor of the selected monitor,
    /// saturating at the ends of `i32`.
    pub fn set_monitor_factor(&mut self, arg: &Option<Arg>) -> (r: Vec<Action>)
        requires
            old(self).wf(),
        ensures
            final(self).wf(),
            set_monitor_factor_post(*old(self), *final(self), *arg, r@),
    {
        let delta = match arg {
            Some(Arg::Factor(d)) => *d,
            _ => {
                return Vec::new();
            },
        };
        let k = match self.selected_monitor_index {
            Some(k) => k,
            None => {
                return Vec::new();
            },
        };
        let v: i64 = self.monitors[k].master_factor as i64 + delta as i64;
        let f: i32 = if v > i32::MAX as i64 {
            i32::MAX
        } else if v < i32::MIN as i64 {
            i32::MIN
        } else {
            v as i32
        };
        self.monitors[k].master_factor = f;
        let mut out: Vec<Action> = Vec::new();
        out.push(Action::ArrangeMonitor(k));
        out
    }

    /// Moves the selection to another monitor. Without a selected monitor
    /// the first one is selected; else the offset is applied as in
    /// `offset_to_new_index`, and nothing happens when it stays. A monitor
    /// that gets selected without a selected client selects its newest one.
    pub fn focus_monitor(&mut self, arg: &Option<Arg>) -> (r: Vec<Action>)
        requires
            old(self).wf(),
        ensures
            final(self).wf(),
            focus_monitor_post(*old(self), *final(self), *arg, r@),
    {
        if self.monitors.len() == 0 {
            return Vec::new();
        }
        let offset = match arg {
            Some(Arg::Int(o)) => *o,
            _ => {
                return Vec::new();
            },
        };
        if offset == 0 {
            return Vec::new();
        }
        let target = match self.selected_monitor_index {
            None => 0,
            Some(c) => {
                let t = Self::offset_to_new_index(self.monitors.len(), c, offset);
                if t == c {
                    return Vec::new();
                }
                t
            },
        };
        self.selected_monitor_index = Some(target);
        if self.monitors[target].selected_hwnd == NO_WINDOW {
            let n = self.monitors[target].clients.len();
            let h = if n > 0 {
                self.monitors[target].clients[n - 1].hwnd
            } else {
                NO_WINDOW
            };
            self.monitors[target].selected_hwnd = h;
        }
        let mut out = self.refresh_focus();
        out.push(Action::RedrawBars);
        assert(out@ =~= self.spec_refresh_focus() + seq![Action::RedrawBars]);
        out
    }
}

/// Moving the selection one visible client on and then one back returns to
/// the client selected at first, where that client is visible, at least two
/// clients are visible, and the directory holds each window once.
pub proof fn focus_stack_round_trip(
    a: DwmrApp,
    b: DwmrApp,
    c: DwmrApp,
    r1: Seq<Action>,
    r2: Seq<Action>,
)
    requires
        a.wf(),
        a.selected_monitor_index matches Some(k) && ({
            let m = a.monitors@[k as int];
            &&& live_handles(m.clients@)
            &&& count_visible(m.clients@, m.active_tags()) >= 2
            &&& spec_find(m.clients@, m.selected_hwnd) matches Some(i)
            &&& spec_is_visible(m.clients@[i].tags, m.active_tags())
        }),
        focus_stack_post(a, b, Some(Arg::Int(1i32)), r1),
        focus_stack_post(b, c, Some(Arg::Int(-1i32)), r2),
    ensures
        c.selected_monitor_index == a.selected_monitor_index,
        c.monitors@[a.selected_monitor_index->0 as int].selected_hwnd == a.monitors@[a.selected_monitor_index->0 as int].selected_hwnd,
{
    let k = a.selected_monitor_index->0;
    let m = a.monitors@[k as int];
    let s = m.clients@;
    let mask = m.active_tags();
    let i = spec_find(s, m.selected_hwnd)->0;
    lemma_find(s, m.selected_hwnd);
    lemma_next_visible_back(s, mask, i, -1);
    let j = next_visible(s, mask, i, -1);
    assert(stack_target(m, i, 1) == j) by {
        reveal_with_fuel(walk_visible, 2);
    }
    let n = b.monitors@[k as int];
    assert(n.clients@ == s);
    assert(n.active_tags() == mask);
    lemma_find(s, n.selected_hwnd);
    let j2 = spec_find(s, n.selected_hwnd)->0;
    if j == i {
        assert(same_monitor(b.monitors@[k as int], a.monitors@[k as int]));
        assert(j2 == i);
    } else {
        assert(s[j].hwnd != NO_WINDOW);
        assert(j2 == j) by {
            if j2 < j {
                assert(s[j2].hwnd != s[j].hwnd);
            } else if j2 > j {
                assert(s[j].hwnd != s[j2].hwnd);
            }
        }
    }
    assert(stack_target(n, j2, -1) == i) by {
        reveal_with_fuel(walk_visible, 2);
    }
}

} // verus!
