use vstd::prelude::*;
use crate::geometry::Rect;
use crate::monitor::{kept, spec_find, Client, Monitor, NO_WINDOW};
use crate::commands::{only_monitor_changed, same_state};
use crate::rules::{first_match, match_rule, Rule};

verus! {

/// Work for the window system that a change of state asks for.
#[derive(Clone, Copy, Debug, PartialEq, Eq, Structural)]
pub enum Action {
    /// Show, hide and place again the clients of one monitor.
    ArrangeMonitor(usize),
    /// The same for every monitor.
    ArrangeAll,
    /// Give input focus to a window.
    Focus(isize),
    /// Give input focus to the desktop.
    FocusDesktop,
    /// Draw the bars again.
    RedrawBars,
    /// Close the window manager.
    Close,
}

/// What the window system reports of a window about to be managed.
#[derive(Debug)]
pub struct WindowInfo {
    pub hwnd: isize,
    pub title: String,
    pub class: String,
    pub process_filename: String,
    pub parent: isize,
    pub root: isize,
    pub rect: Rect,
    pub is_minimized: bool,
    pub is_cloaked: bool,
}

/// The whole state: the monitors, each owning its clients, and the selected
/// monitor.
#[derive(Debug)]
pub struct DwmrApp {
    /// The window that receives hotkeys.
    pub hwnd: isize,
    pub wallpaper_hwnd: isize,
    pub monitors: Vec<Monitor>,
    pub selected_monitor_index: Option<usize>,
}

/// The last monitor, in registry order, whose display contains the point.
pub open spec fn last_containing(ms: Seq<Monitor>, px: int, py: int) -> Option<int>
    decreases ms.len(),
{
    if ms.len() == 0 {
        None
    } else if ms.last().rect.spec_contains(px, py) {
        Some(ms.len() - 1)
    } else {
        last_containing(ms.drop_last(), px, py)
    }
}

/// The first monitor from `k` on whose directory holds `hwnd`, with the
/// position there.
pub open spec fn locate_from(ms: Seq<Monitor>, hwnd: isize, k: int) -> Option<(int, int)>
    decreases ms.len() - k,
    when 0 <= k
{
    if k >= ms.len() {
        None
    } else {
        match spec_find(ms[k].clients@, hwnd) {
            Some(i) => Some((k, i)),
            None => locate_from(ms, hwnd, k + 1),
        }
    }
}

pub open spec fn spec_locate(ms: Seq<Monitor>, hwnd: isize) -> Option<(int, int)> {
    locate_from(ms, hwnd, 0)
}

/// The record a newly managed window gets on monitor `k`, before rules.
pub open spec fn fresh_client(info: WindowInfo, k: int) -> Client {
    Client {
        hwnd: info.hwnd,
        title: info.title,
        class: info.class,
        process_filename: info.process_filename,
        parent: info.parent,
        root: info.root,
        rect: info.rect,
        tags: 1,
        is_minimized: info.is_minimized,
        is_floating: false,
        is_cloaked: info.is_cloaked,
        is_hide: false,
        monitor: k as usize,
    }
}

/// The record after the first matching rule, if any, set its floating flag
/// and tags.
pub open spec fn ruled_client(c: Client, rules: Seq<Rule>) -> Client {
    match first_match(rules, c) {
        Some(j) => Client { is_floating: rules[j].is_floating, tags: rules[j].tags, ..c },
        None => c,
    }
}

/// All monitors but the `k`-th are as they were.
pub open spec fn others_unchanged(a: Seq<Monitor>, b: Seq<Monitor>, k: int) -> bool {
    &&& a.len() == b.len()
    &&& forall|j: int| 0 <= j < a.len() && j != k ==> #[trigger] a[j] == b[j]
}

pub proof fn lemma_last_containing(ms: Seq<Monitor>, px: int, py: int)
    ensures
        last_containing(ms, px, py) matches Some(k) ==> 0 <= k < ms.len(),
    decreases ms.len(),
{
    if ms.len() > 0 {
        lemma_last_containing(ms.drop_last(), px, py);
    }
}

pub proof fn lemma_locate_from(ms: Seq<Monitor>, hwnd: isize, k: int)
    requires
        0 <= k,
    ensures
        locate_from(ms, hwnd, k) matches Some((m, i)) ==> {
            &&& k <= m < ms.len()
            &&& spec_find(ms[m].clients@, hwnd) == Some(i)
        },
    decreases ms.len() - k,
{
    if k < ms.len() {
        lemma_locate_from(ms, hwnd, k + 1);
    }
}

impl DwmrApp {
    pub open spec fn wf(&self) -> bool {
        &&& forall|k: int|
            0 <= k < self.monitors@.len() ==> {
                &&& (#[trigger] self.monitors@[k]).wf()
                &&& self.monitors@[k].index == k
                &&& forall|i: int|
                    0 <= i < self.monitors@[k].clients@.len() ==> (#[trigger] self.monitors@[k].clients@[i]).monitor == k
            }
        &&& (self.selected_monitor_index matches Some(k) ==> k < self.monitors@.len())
    }

    /// The focus the selected monitor asks for: its selected client, else its
    /// newest client, else the desktop; nothing without a selected monitor.
    pub open spec fn spec_refresh_focus(&self) -> Seq<Action> {
        match self.selected_monitor_index {
            None => Seq::empty(),
            Some(k) => {
                let m = self.monitors@[k as int];
                if m.clients@.len() == 0 {
                    seq![Action::FocusDesktop]
                } else {
                    match spec_find(m.clients@, m.selected_hwnd) {
                        Some(i) => seq![Action::Focus(m.clients@[i].hwnd)],
                        None => seq![Action::Focus(m.clients@.last().hwnd)],
                    }
                }
            },
        }
    }

    /// An empty state over the given monitors, none selected.
    pub fn new(monitors: Vec<Monitor>) -> (r: DwmrApp)
        requires
            forall|k: int|
                0 <= k < monitors@.len() ==> {
                    &&& (#[trigger] monitors@[k]).wf()
                    &&& monitors@[k].index == k
                    &&& monitors@[k].clients@.len() == 0
                },
        ensures
            r.wf(),
            r.monitors@ == monitors@,
            r.selected_monitor_index is None,
            r.hwnd == NO_WINDOW,
            r.wallpaper_hwnd == NO_WINDOW,
    {
        DwmrApp { hwnd: NO_WINDOW, wallpaper_hwnd: NO_WINDOW, monitors, selected_monitor_index: None }
    }

    pub fn refresh_focus(&self) -> (r: Vec<Action>)
        requires
            self.wf(),
        ensures
            r@ == self.spec_refresh_focus(),
    {
        let mut out: Vec<Action> = Vec::new();
        match self.selected_monitor_index {
            None => {},
            Some(k) => {
                let m = &self.monitors[k];
                proof {
                    crate::monitor::lemma_find(m.clients@, m.selected_hwnd);
                }
                if m.clients.len() == 0 {
                    out.push(Action::FocusDesktop);
                } else {
                    match m.get_selected_client_index() {
                        Some(i) => out.push(Action::Focus(m.clients[i].hwnd)),
                        None => out.push(Action::Focus(m.clients[m.clients.len() - 1].hwnd)),
                    }
                }
            },
        }
        assert(out@ =~= self.spec_refresh_focus());
        out
    }

    /// The last monitor, in registry order, whose display contains the point.
    pub fn monitor_at(&self, px: i32, py: i32) -> (r: Option<usize>)
        ensures
            r matches Some(k) ==> last_containing(self.monitors@, px as int, py as int) == Some(k as int),
            r is None ==> last_containing(self.monitors@, px as int, py as int) is None,
    {
        let mut found: Option<usize> = None;
        let mut k: usize = 0;
        while k < self.monitors.len()
            invariant
                0 <= k <= self.monitors@.len(),
                found matches Some(j) ==> last_containing(self.monitors@.take(k as int), px as int, py as int) == Some(j as int),
                found is None ==> last_containing(self.monitors@.take(k as int), px as int, py as int) is None,
            decreases self.monitors@.len() - k,
        {
            proof {
                assert(self.monitors@.take(k + 1).drop_last() =~= self.monitors@.take(k as int));
            }
            if self.monitors[k].rect.contains(px, py) {
                found = Some(k);
            }
            k = k + 1;
        }
        assert(self.monitors@.take(k as int) =~= self.monitors@);
        found
    }

    /// The monitor and position of the client with handle `hwnd`.
    pub fn locate(&self, hwnd: isize) -> (r: Option<(usize, usize)>)
        ensures
            r matches Some((k, i)) ==> spec_locate(self.monitors@, hwnd) == Some((k as int, i as int)),
            r is None ==> spec_locate(self.monitors@, hwnd) is None,
            r matches Some((k, i)) ==> k < self.monitors@.len() && i < self.monitors@[k as int].clients@.len()
                && self.monitors@[k as int].clients@[i as int].hwnd == hwnd,
    {
        let mut k: usize = 0;
        while k < self.monitors.len()
            invariant
                0 <= k <= self.monitors@.len(),
                spec_locate(self.monitors@, hwnd) == locate_from(self.monitors@, hwnd, k as int),
            decreases self.monitors@.len() - k,
        {
            match self.monitors[k].find_client_index(hwnd) {
                Some(i) => {
                    return Some((k, i));
                },
                None => {},
            }
            k = k + 1;
        }
        None
    }

    /// Starts managing a window, or finds it if it is managed already. A new
    /// client goes to the last monitor whose display contains the centre of
    /// the window, else to the first monitor, with the floating flag and tags
    /// of the first matching rule, else on the first tag and tiled, and is
    /// appended to that monitor's directory. Returns the monitor and the
    /// position of the client.
    pub fn manage(&mut self, info: WindowInfo, rules: &Vec<Rule>) -> (r: (usize, usize))
        requires
            old(self).wf(),
            old(self).monitors@.len() > 0,
            info.rect.wf(),
        ensures
            final(self).wf(),
            manage_post(*old(self), *final(self), info, rules@, r),
    {
        match self.locate(info.hwnd) {
            Some(found) => {
                return found;
            },
            None => {},
        }
        let (cx, cy) = info.rect.center();
        let k = match self.monitor_at(cx, cy) {
            Some(k) => k,
            None => 0,
        };
        proof {
            lemma_last_containing(self.monitors@, cx as int, cy as int);
        }
        let mut client = Client {
            hwnd: info.hwnd,
            title: info.title,
            class: info.class,
            process_filename: info.process_filename,
            parent: info.parent,
            root: info.root,
            rect: info.rect,
            tags: 1,
            is_minimized: info.is_minimized,
            is_floating: false,
            is_cloaked: info.is_cloaked,
            is_hide: false,
            monitor: k,
        };
        assert(client == fresh_client(info, k as int));
        match match_rule(rules, &client) {
            Some(j) => {
                client.is_floating = rules[j].is_floating;
                client.tags = rules[j].tags;
            },
            None => {},
        }
        let pos = self.monitors[k].clients.len();
        self.monitors[k].clients.push(client);
        proof {
            assert forall|j: int| 0 <= j < self.monitors@.len() implies {
                &&& (#[trigger] self.monitors@[j]).wf()
                &&& self.monitors@[j].index == j
                &&& forall|i: int|
                    0 <= i < self.monitors@[j].clients@.len() ==> (#[trigger] self.monitors@[j].clients@[i]).monitor == j
            } by {
                if j == k {
                    assert forall|i: int| 0 <= i < self.monitors@[j].clients@.len() implies (
                    #[trigger] self.monitors@[j].clients@[i]).monitor == j by {
                        if i < pos {
                            assert(self.monitors@[j].clients@[i] == old(self).monitors@[j].clients@[i]);
                        }
                    }
                }
            }
        }
        (k, pos)
    }
}


/// The state after `set_focus`: see there.
pub open spec fn set_focus_post(pre: DwmrApp, post: DwmrApp, hwnd: isize) -> bool {
    let already = match pre.selected_monitor_index {
        Some(s) => hwnd == pre.monitors@[s as int].selected_hwnd,
        None => false,
    };
    if already {
        same_state(post, pre)
    } else {
        match spec_locate(pre.monitors@, hwnd) {
            Some((k, _)) => {
                &&& post.selected_monitor_index == Some(k as usize)
                &&& only_selection_changed(post, pre, k)
                &&& post.monitors@[k] == (Monitor { selected_hwnd: hwnd, ..pre.monitors@[k] })
            },
            None => same_state(post, pre),
        }
    }
}

/// The states differ at most in the selected monitor and the `k`-th
/// monitor.
pub open spec fn only_selection_changed(post: DwmrApp, pre: DwmrApp, k: int) -> bool {
    &&& post.monitors@.len() == pre.monitors@.len()
    &&& forall|j: int| 0 <= j < pre.monitors@.len() && j != k ==> #[trigger] post.monitors@[j] == pre.monitors@[j]
    &&& post.hwnd == pre.hwnd
    &&& post.wallpaper_hwnd == pre.wallpaper_hwnd
}

/// The state after `unmanage`: see there.
pub open spec fn unmanage_post(pre: DwmrApp, post: DwmrApp, hwnd: isize, r: Seq<Action>) -> bool {
    match spec_locate(pre.monitors@, hwnd) {
        Some((k, i)) => {
            &&& only_monitor_changed(post, pre, k)
            &&& post.monitors@[k].same_settings(pre.monitors@[k])
            &&& post.monitors@[k].clients@ == pre.monitors@[k].clients@.remove(i)
            &&& r == seq![Action::ArrangeMonitor(k as usize)]
        },
        None => same_state(post, pre) && r == Seq::<Action>::empty(),
    }
}

/// The state after `sanitize_monitors`: see there.
pub open spec fn sanitize_post(pre: DwmrApp, post: DwmrApp, stale: Seq<isize>) -> bool {
    &&& post.monitors@.len() == pre.monitors@.len()
    &&& forall|k: int|
        0 <= k < pre.monitors@.len() ==> {
            &&& (#[trigger] post.monitors@[k]).same_settings(pre.monitors@[k])
            &&& post.monitors@[k].clients@ == pre.monitors@[k].clients@.filter(kept(stale))
        }
    &&& post.selected_monitor_index == pre.selected_monitor_index
    &&& post.hwnd == pre.hwnd
    &&& post.wallpaper_hwnd == pre.wallpaper_hwnd
}

/// The state after `manage` of a window that no monitor holds: see there.
pub open spec fn manage_post(pre: DwmrApp, post: DwmrApp, info: WindowInfo, rules: Seq<Rule>, r: (usize, usize)) -> bool {
    &&& post.selected_monitor_index == pre.selected_monitor_index
    &&& post.hwnd == pre.hwnd
    &&& post.wallpaper_hwnd == pre.wallpaper_hwnd
    &&& match spec_locate(pre.monitors@, info.hwnd) {
        Some((k, i)) => {
            &&& post.monitors@ == pre.monitors@
            &&& r == (k as usize, i as usize)
        },
        None => {
            let cx = info.rect.x + info.rect.width / 2;
            let cy = info.rect.y + info.rect.height / 2;
            let k = match last_containing(pre.monitors@, cx, cy) {
                Some(k) => k,
                None => 0,
            };
            let m = pre.monitors@[k];
            &&& r == (k as usize, m.clients@.len() as usize)
            &&& others_unchanged(post.monitors@, pre.monitors@, k)
            &&& post.monitors@[k].same_settings(m)
            &&& post.monitors@[k].clients@ == m.clients@.push(ruled_client(fresh_client(info, k), rules))
        },
    }
}

impl DwmrApp {
    /// Makes `hwnd` the selection: its monitor becomes the selected one and
    /// selects it. Nothing changes when it is the selection of the selected
    /// monitor already, or when no monitor holds it.
    #[verifier::rlimit(50)]
    pub fn set_focus(&mut self, hwnd: isize)
        requires
            old(self).wf(),
        ensures
            final(self).wf(),
            set_focus_post(*old(self), *final(self), hwnd),
    {
        match self.selected_monitor_index {
            Some(s) => {
                if hwnd == self.monitors[s].selected_hwnd {
                    return;
                }
            },
            None => {},
        }
        match self.locate(hwnd) {
            Some((k, _)) => {
                proof {
                    lemma_locate_from(self.monitors@, hwnd, 0);
                }
                self.selected_monitor_index = Some(k);
                self.monitors[k].selected_hwnd = hwnd;
            },
            None => {},
        }
    }

    /// Stops managing `hwnd`: its client leaves the directory that holds
    /// it, and that monitor is laid out again. Nothing happens for a window
    /// that no monitor holds.
    #[verifier::rlimit(50)]
    pub fn unmanage(&mut self, hwnd: isize) -> (r: Vec<Action>)
        requires
            old(self).wf(),
        ensures
            final(self).wf(),
            unmanage_post(*old(self), *final(self), hwnd, r@),
    {
        match self.locate(hwnd) {
            Some((k, i)) => {
                proof {
                    lemma_locate_from(self.monitors@, hwnd, 0);
                }
                self.monitors[k].clients.remove(i);
                proof {
                    let o = old(self).monitors@[k as int].clients@;
                    let n = self.monitors@[k as int].clients@;
                    assert forall|q: int| 0 <= q < n.len() implies (#[trigger] n[q]).monitor == k by {
                        if q < i {
                            assert(n[q] == o[q]);
                        } else {
                            assert(n[q] == o[q + 1]);
                        }
                    }
                }
                let mut out: Vec<Action> = Vec::new();
                out.push(Action::ArrangeMonitor(k));
                out
            },
            None => Vec::new(),
        }
    }

    /// Drops from every directory the clients whose handles are in `stale`,
    /// the windows that have gone without notice.
    pub fn sanitize_monitors(&mut self, stale: &Vec<isize>)
        requires
            old(self).wf(),
        ensures
            final(self).wf(),
            sanitize_post(*old(self), *final(self), stale@),
    {
        let mut k: usize = 0;
        while k < self.monitors.len()
            invariant
                0 <= k <= self.monitors@.len(),
                self.wf(),
                self.monitors@.len() == old(self).monitors@.len(),
                self.selected_monitor_index == old(self).selected_monitor_index,
                self.hwnd == old(self).hwnd,
                self.wallpaper_hwnd == old(self).wallpaper_hwnd,
                forall|j: int|
                    0 <= j < k ==> {
                        &&& (#[trigger] self.monitors@[j]).same_settings(old(self).monitors@[j])
                        &&& self.monitors@[j].clients@ == old(self).monitors@[j].clients@.filter(kept(stale@))
                    },
                forall|j: int| k <= j < self.monitors@.len() ==> #[trigger] self.monitors@[j] == old(self).monitors@[j],
            decreases self.monitors@.len() - k,
        {
            self.monitors[k].sanitize_clients(stale);
            proof {
                let o = old(self).monitors@[k as int].clients@;
                let pred = kept(stale@);
                let n = self.monitors@[k as int].clients@;
                let on_k = |c: Client| c.monitor == k;
                assert forall|q: int| 0 <= q < o.len() implies on_k(#[trigger] o[q]) by {}
                crate::monitor::lemma_filter_all(o, pred, on_k);
                assert forall|q: int| 0 <= q < n.len() implies (#[trigger] n[q]).monitor == k by {
                    assert(on_k(n[q]));
                }
            }
            k = k + 1;
        }
    }

    /// Takes the foreground window as the selection at start: its monitor
    /// becomes the selected one and selects it; where no monitor holds it,
    /// the first monitor is selected.
    #[verifier::rlimit(50)]
    pub fn refresh_current_focus(&mut self, foreground: isize) -> (r: Vec<Action>)
        requires
            old(self).wf(),
        ensures
            final(self).wf(),
            old(self).monitors@.len() == 0 ==> same_state(*final(self), *old(self)) && r@ == Seq::<Action>::empty(),
            old(self).monitors@.len() > 0 ==> {
                &&& r@ == seq![Action::RedrawBars]
                &&& match spec_locate(old(self).monitors@, foreground) {
                    Some((k, _)) => {
                        &&& final(self).selected_monitor_index == Some(k as usize)
                        &&& only_selection_changed(*final(self), *old(self), k)
                        &&& final(self).monitors@[k] == (Monitor { selected_hwnd: foreground, ..old(self).monitors@[k] })
                    },
                    None => {
                        &&& final(self).selected_monitor_index == Some(0usize)
                        &&& only_selection_changed(*final(self), *old(self), 0)
                        &&& final(self).monitors@[0] == old(self).monitors@[0]
                    },
                }
            },
    {
        if self.monitors.len() == 0 {
            return Vec::new();
        }
        self.selected_monitor_index = Some(0);
        match self.locate(foreground) {
            Some((k, _)) => {
                proof {
                    lemma_locate_from(self.monitors@, foreground, 0);
                }
                self.selected_monitor_index = Some(k);
                self.monitors[k].selected_hwnd = foreground;
            },
            None => {},
        }
        let mut out: Vec<Action> = Vec::new();
        out.push(Action::RedrawBars);
        out
    }

    /// What each monitor's bar shows: the viewed tags, and whether the
    /// monitor is the selected one.
    pub fn refresh_bar(&self) -> (r: Vec<(u32, bool)>)
        requires
            self.wf(),
        ensures
            r@.len() == self.monitors@.len(),
            forall|k: int|
                0 <= k < self.monitors@.len() ==> #[trigger] r@[k] == (
                    self.monitors@[k].active_tags(),
                    self.selected_monitor_index == Some(k as usize),
                ),
    {
        let mut out: Vec<(u32, bool)> = Vec::new();
        let mut k: usize = 0;
        while k < self.monitors.len()
            invariant
                0 <= k <= self.monitors@.len(),
                self.wf(),
                out@.len() == k,
                forall|j: int|
                    0 <= j < k ==> #[trigger] out@[j] == (
                        self.monitors@[j].active_tags(),
                        self.selected_monitor_index == Some(j as usize),
                    ),
            decreases self.monitors@.len() - k,
        {
            let selected = match self.selected_monitor_index {
                Some(s) => s == k,
                None => false,
            };
            out.push((self.monitors[k].visible_tags(), selected));
            k = k + 1;
        }
        out
    }
}

} // verus!
