use vstd::prelude::*;
use crate::app::{
    lemma_last_containing, locate_from, manage_post, spec_locate, DwmrApp, WindowInfo,
};
use crate::monitor::{Client, Monitor, NO_WINDOW};
use crate::reallocate::{after_removal, moved};
use crate::rules::Rule;

verus! {

/// Every managed window has a handle, and no window is held twice, in one
/// directory or in two.
pub open spec fn handles_unique(ms: Seq<Monitor>) -> bool {
    &&& forall|k: int, i: int|
        0 <= k < ms.len() && 0 <= i < ms[k].clients@.len() ==> (#[trigger] ms[k].clients@[i]).hwnd != NO_WINDOW
    &&& forall|k1: int, i1: int, k2: int, i2: int|
        0 <= k1 < ms.len() && 0 <= i1 < ms[k1].clients@.len() && 0 <= k2 < ms.len() && 0 <= i2
            < ms[k2].clients@.len() && (k1 != k2 || i1 != i2) ==> (#[trigger] ms[k1].clients@[i1]).hwnd
            != (#[trigger] ms[k2].clients@[i2]).hwnd
}

/// A handle that no directory from `k` on holds is found nowhere there.
pub proof fn lemma_locate_none(ms: Seq<Monitor>, hwnd: isize, k: int)
    requires
        0 <= k,
        hwnd != NO_WINDOW,
        locate_from(ms, hwnd, k) is None,
    ensures
        forall|j: int, i: int|
            k <= j < ms.len() && 0 <= i < ms[j].clients@.len() ==> (#[trigger] ms[j].clients@[i]).hwnd != hwnd,
    decreases ms.len() - k,
{
    if k < ms.len() {
        crate::monitor::lemma_find(ms[k].clients@, hwnd);
        lemma_locate_none(ms, hwnd, k + 1);
    }
}

/// Managing a window with a handle keeps every window in one place: the
/// window is either found where it is or added once.
pub proof fn manage_keeps_handles_unique(
    pre: DwmrApp,
    post: DwmrApp,
    info: WindowInfo,
    rules: Seq<Rule>,
    r: (usize, usize),
)
    requires
        pre.wf(),
        pre.monitors@.len() > 0,
        info.hwnd != NO_WINDOW,
        handles_unique(pre.monitors@),
        manage_post(pre, post, info, rules, r),
    ensures
        handles_unique(post.monitors@),
{
    let ms = pre.monitors@;
    if spec_locate(ms, info.hwnd) is None {
        lemma_locate_none(ms, info.hwnd, 0);
        let cx = info.rect.x + info.rect.width / 2;
        let cy = info.rect.y + info.rect.height / 2;
        lemma_last_containing(ms, cx, cy);
        let k = r.0 as int;
        let ns = post.monitors@;
        let n = ms[k].clients@.len();
        assert forall|j: int, i: int|
            0 <= j < ns.len() && 0 <= i < ns[j].clients@.len() implies (#[trigger] ns[j].clients@[i]).hwnd
            != NO_WINDOW by {
            if j == k && i < n {
                assert(ns[j].clients@[i] == ms[j].clients@[i]);
            } else if j != k {
                assert(ns[j] == ms[j]);
            }
        }
        assert forall|k1: int, i1: int, k2: int, i2: int|
            0 <= k1 < ns.len() && 0 <= i1 < ns[k1].clients@.len() && 0 <= k2 < ns.len() && 0 <= i2
                < ns[k2].clients@.len() && (k1 != k2 || i1 != i2) implies (#[trigger] ns[k1].clients@[i1]).hwnd
            != (#[trigger] ns[k2].clients@[i2]).hwnd by {
            let new1 = k1 == k && i1 == n;
            let new2 = k2 == k && i2 == n;
            if k1 != k {
                assert(ns[k1] == ms[k1]);
            } else if !new1 {
                assert(ns[k1].clients@[i1] == ms[k1].clients@[i1]);
            }
            if k2 != k {
                assert(ns[k2] == ms[k2]);
            } else if !new2 {
                assert(ns[k2].clients@[i2] == ms[k2].clients@[i2]);
            }
            if new1 {
                assert(ns[k1].clients@[i1].hwnd == info.hwnd);
            }
            if new2 {
                assert(ns[k2].clients@[i2].hwnd == info.hwnd);
            }
        }
    }
}

/// Where, before a move, the client at position `q` of monitor `j` after it
/// stood.
pub open spec fn origin(k: int, i: int, t: int, pos: int, j: int, q: int) -> (int, int) {
    let unremove = |p: int| if p < i { p } else { p + 1 };
    if j == t {
        if q == pos {
            (k, i)
        } else {
            let p = if q < pos { q } else { q - 1 };
            if t == k {
                (k, unremove(p))
            } else {
                (t, p)
            }
        }
    } else if j == k {
        (k, unremove(q))
    } else {
        (j, q)
    }
}

/// Moving a client between or within directories keeps every window in one
/// place: the move takes the client out before it puts it in, and copies
/// nothing.
pub proof fn move_keeps_handles_unique(pre: DwmrApp, post: DwmrApp, k: int, i: int, t: int, pos: int)
    requires
        0 <= k < pre.monitors@.len(),
        0 <= t < pre.monitors@.len(),
        0 <= i < pre.monitors@[k].clients@.len(),
        0 <= pos <= after_removal(pre.monitors@, k, i, t).len(),
        handles_unique(pre.monitors@),
        moved(pre, post, k, i, t, pos),
    ensures
        handles_unique(post.monitors@),
{
    let ms = pre.monitors@;
    let ns = post.monitors@;
    assert forall|j: int, q: int| 0 <= j < ns.len() && 0 <= q < ns[j].clients@.len() implies {
        let o = origin(k, i, t, pos, j, q);
        &&& 0 <= o.0 < ms.len()
        &&& 0 <= o.1 < ms[o.0].clients@.len()
        &&& (#[trigger] ns[j].clients@[q]).hwnd == ms[o.0].clients@[o.1].hwnd
    } by {
        if j != k && j != t {
            assert(ns[j] == ms[j]);
        } else if j == t {
            let cs = after_removal(ms, k, i, t);
            assert(ns[t].clients@ == cs.insert(pos, Client { monitor: t as usize, ..ms[k].clients@[i] }));
            if q != pos {
                let p = if q < pos { q } else { q - 1 };
                assert(ns[j].clients@[q] == cs[p]);
            }
        } else {
            assert(ns[k].clients@ == ms[k].clients@.remove(i));
        }
    }
    assert forall|j: int, q: int|
        0 <= j < ns.len() && 0 <= q < ns[j].clients@.len() implies (#[trigger] ns[j].clients@[q]).hwnd
        != NO_WINDOW by {
        let o = origin(k, i, t, pos, j, q);
        assert(ms[o.0].clients@[o.1].hwnd != NO_WINDOW);
    }
    assert forall|k1: int, i1: int, k2: int, i2: int|
        0 <= k1 < ns.len() && 0 <= i1 < ns[k1].clients@.len() && 0 <= k2 < ns.len() && 0 <= i2
            < ns[k2].clients@.len() && (k1 != k2 || i1 != i2) implies (#[trigger] ns[k1].clients@[i1]).hwnd
        != (#[trigger] ns[k2].clients@[i2]).hwnd by {
        let o1 = origin(k, i, t, pos, k1, i1);
        let o2 = origin(k, i, t, pos, k2, i2);
        assert(o1 != o2);
        assert(ms[o1.0].clients@[o1.1].hwnd != ms[o2.0].clients@[o2.1].hwnd);
    }
}

} // verus!
