use vstd::prelude::*;
use crate::app::{
    manage_post, sanitize_post, set_focus_post, spec_locate, unmanage_post, Action, DwmrApp, WindowInfo,
};
use crate::commands::same_state;
use crate::reallocate::reallocate_post;
use crate::rules::{is_listed, listed, Config, Rule};

verus! {

/// The window-system notifications the state follows.
#[derive(Clone, Copy, Debug, PartialEq, Eq, Structural)]
pub enum WinEvent {
    /// A window came to the foreground.
    Foreground,
    Show,
    Uncloaked,
    Hide,
    Cloaked,
    Destroy,
    /// The user finished moving or resizing a window.
    MoveSizeEnd,
}

/// A notification with what the window system reports of its window.
#[derive(Debug)]
pub struct Notification {
    pub event: WinEvent,
    /// The window as it is now; its rectangle is where it stands.
    pub window: WindowInfo,
    /// The class name could be read.
    pub class_read: bool,
    /// The classifier's verdict on the window.
    pub manageable: bool,
    pub cursor_x: i32,
    pub cursor_y: i32,
}

/// The window can be taken under management in state `s`.
pub open spec fn can_manage(s: DwmrApp, n: Notification) -> bool {
    n.manageable && s.monitors@.len() > 0 && n.window.rect.wf()
}

/// Some client of `s` holds `hwnd` and is kept hidden by the layout.
pub open spec fn hidden_by_layout(s: DwmrApp, hwnd: isize) -> bool {
    exists|k: int, i: int|
        0 <= k < s.monitors@.len() && 0 <= i < s.monitors@[k].clients@.len()
            && (#[trigger] s.monitors@[k].clients@[i]).hwnd == hwnd && s.monitors@[k].clients@[i].is_hide
}

/// What a notification does to a state that has been cleared of stale
/// clients.
pub open spec fn event_post(s: DwmrApp, post: DwmrApp, n: Notification, rules: Seq<Rule>, r: Seq<Action>) -> bool {
    let h = n.window.hwnd;
    let known = spec_locate(s.monitors@, h) is Some;
    match n.event {
        WinEvent::Foreground | WinEvent::Show | WinEvent::Uncloaked => {
            if known {
                set_focus_post(s, post, h) && r == seq![Action::RedrawBars]
            } else if !can_manage(s, n) {
                same_state(post, s) && r == Seq::<Action>::empty()
            } else {
                exists|mid: DwmrApp, at: (usize, usize)|
                    #[trigger] manage_post(s, mid, n.window, rules, at) && set_focus_post(mid, post, h) && r == seq![
                        Action::ArrangeMonitor(at.0),
                        Action::RedrawBars,
                    ]
            }
        },
        WinEvent::Cloaked | WinEvent::Destroy => unmanage_post(s, post, h, r),
        WinEvent::Hide => {
            if hidden_by_layout(s, h) {
                same_state(post, s) && r == Seq::<Action>::empty()
            } else {
                unmanage_post(s, post, h, r)
            }
        },
        WinEvent::MoveSizeEnd => {
            let cx = n.cursor_x as int;
            let cy = n.cursor_y as int;
            if known {
                reallocate_post(s, post, h, n.window.rect, cx, cy, r)
            } else if !can_manage(s, n) {
                same_state(post, s) && r == Seq::<Action>::empty()
            } else {
                exists|mid: DwmrApp, at: (usize, usize), rest: Seq<Action>|
                    #[trigger] manage_post(s, mid, n.window, rules, at) && #[trigger] reallocate_post(
                        mid,
                        post,
                        h,
                        n.window.rect,
                        cx,
                        cy,
                        rest,
                    ) && r == seq![Action::ArrangeMonitor(at.0)] + rest
            }
        },
    }
}

impl DwmrApp {
    /// Whether some client holding `hwnd` is kept hidden by the layout.
    pub fn is_hidden_by_layout(&self, hwnd: isize) -> (r: bool)
        ensures
            r == hidden_by_layout(*self, hwnd),
    {
        let mut k: usize = 0;
        while k < self.monitors.len()
            invariant
                0 <= k <= self.monitors@.len(),
                forall|a: int, i: int|
                    0 <= a < k && 0 <= i < self.monitors@[a].clients@.len() ==> !((#[trigger] self.monitors@[a].clients@[i]).hwnd == hwnd
                        && self.monitors@[a].clients@[i].is_hide),
            decreases self.monitors@.len() - k,
        {
            let mut i: usize = 0;
            while i < self.monitors[k].clients.len()
                invariant
                    0 <= k < self.monitors@.len(),
                    0 <= i <= self.monitors@[k as int].clients@.len(),
                    forall|a: int, q: int|
                        0 <= a < k && 0 <= q < self.monitors@[a].clients@.len() ==> !((#[trigger] self.monitors@[a].clients@[q]).hwnd == hwnd
                            && self.monitors@[a].clients@[q].is_hide),
                    forall|q: int| 0 <= q < i ==> !((#[trigger] self.monitors@[k as int].clients@[q]).hwnd == hwnd
                        && self.monitors@[k as int].clients@[q].is_hide),
                decreases self.monitors@[k as int].clients@.len() - i,
            {
                if self.monitors[k].clients[i].hwnd == hwnd && self.monitors[k].clients[i].is_hide {
                    return true;
                }
                i = i + 1;
            }
            k = k + 1;
        }
        false
    }

    /// Follows a window-system notification. Notifications for windows whose
    /// class cannot be read, or whose title or class the configuration
    /// disallows, are ignored. Otherwise the clients whose windows are gone
    /// (`stale`) are dropped first; then a window that comes to the
    /// foreground, is shown or uncloaked is managed if it is new and may be,
    /// and becomes the selection; a window that is cloaked or destroyed is
    /// unmanaged, and so is one that is hidden unless the layout hid it; a
    /// window that was moved or resized is managed if it is new and may be,
    /// and then reallocated.
    pub fn window_event_hook(&mut self, n: Notification, stale: &Vec<isize>, config: &Config) -> (r: Vec<Action>)
        requires
            old(self).wf(),
        ensures
            final(self).wf(),
            if !n.class_read || listed(config.disallowed_titles@, n.window.title@) || listed(
                config.disallowed_classes@,
                n.window.class@,
            ) {
                same_state(*final(self), *old(self)) && r@ == Seq::<Action>::empty()
            } else {
                exists|s: DwmrApp|
                    #[trigger] sanitize_post(*old(self), s, stale@) && s.wf() && event_post(
                        s,
                        *final(self),
                        n,
                        config.rules@,
                        r@,
                    )
            },
    {
        if !n.class_read || is_listed(&config.disallowed_titles, &n.window.title) || is_listed(
            &config.disallowed_classes,
            &n.window.class,
        ) {
            return Vec::new();
        }
        self.sanitize_monitors(stale);
        let ghost s = *self;
        let hwnd = n.window.hwnd;
        let known = self.locate(hwnd).is_some();
        let can = n.manageable && self.monitors.len() > 0 && n.window.rect.is_wf();
        let event = n.event;
        let cursor_x = n.cursor_x;
        let cursor_y = n.cursor_y;
        let rect = n.window.rect;
        let ghost gn = n;
        let r = match event {
            WinEvent::Foreground | WinEvent::Show | WinEvent::Uncloaked => {
                let mut out: Vec<Action> = Vec::new();
                if known {
                    self.set_focus(hwnd);
                    out.push(Action::RedrawBars);
                } else if can {
                    let at = self.manage(n.window, &config.rules);
                    let ghost mid = *self;
                    self.set_focus(hwnd);
                    out.push(Action::ArrangeMonitor(at.0));
                    out.push(Action::RedrawBars);
                    assert(out@ =~= seq![Action::ArrangeMonitor(at.0), Action::RedrawBars]);
                    assert(manage_post(s, mid, gn.window, config.rules@, at));
                }
                assert(event_post(s, *self, gn, config.rules@, out@));
                out
            },
            WinEvent::Cloaked | WinEvent::Destroy => {
                let out = self.unmanage(hwnd);
                assert(event_post(s, *self, gn, config.rules@, out@));
                out
            },
            WinEvent::Hide => {
                let out = if self.is_hidden_by_layout(hwnd) {
                    Vec::new()
                } else {
                    self.unmanage(hwnd)
                };
                assert(event_post(s, *self, gn, config.rules@, out@));
                out
            },
            WinEvent::MoveSizeEnd => {
                let mut out: Vec<Action> = Vec::new();
                if known {
                    out = self.reallocate_window(hwnd, &rect, cursor_x, cursor_y);
                } else if can {
                    let at = self.manage(n.window, &config.rules);
                    let ghost mid = *self;
                    let mut rest = self.reallocate_window(hwnd, &rect, cursor_x, cursor_y);
                    let ghost rest_seq = rest@;
                    out.push(Action::ArrangeMonitor(at.0));
                    out.append(&mut rest);
                    assert(out@ =~= seq![Action::ArrangeMonitor(at.0)] + rest_seq);
                    assert(manage_post(s, mid, gn.window, config.rules@, at));
                    assert(reallocate_post(
                        mid,
                        *self,
                        hwnd,
                        gn.window.rect,
                        gn.cursor_x as int,
                        gn.cursor_y as int,
                        rest_seq,
                    ));
                }
                assert(event_post(s, *self, gn, config.rules@, out@));
                out
            },
        };
        assert(sanitize_post(*old(self), s, stale@));
        r
    }
}

} // verus!
