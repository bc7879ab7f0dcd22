use vstd::prelude::*;
use crate::rules::{is_listed, listed, Config};

verus! {

/// Window style bit: the window takes no input.
pub const WS_DISABLED: u32 = 0x0800_0000;
/// Extended style bit: the window never becomes the foreground window.
pub const WS_EX_NOACTIVATE: u32 = 0x0800_0000;
/// Extended style bit: a floating tool window.
pub const WS_EX_TOOLWINDOW: u32 = 0x0000_0080;
/// Extended style bit: an owned window that still belongs on the taskbar.
pub const WS_EX_APPWINDOW: u32 = 0x0004_0000;

/// What the window system reports of one window.
#[derive(Debug)]
pub struct WindowAttrs {
    /// The handle still names a window.
    pub exists: bool,
    pub style: u32,
    pub exstyle: u32,
    /// The window has a non-empty title.
    pub has_title: bool,
    pub title: String,
    /// The window is present but kept invisible by the compositor.
    pub cloaked: bool,
    /// The class name, where it could be read.
    pub class: Option<String>,
    /// The owning process is being debugged.
    pub debugged: bool,
    pub visible: bool,
}

pub open spec fn has_flag(flags: u32, flag: u32) -> bool {
    flags & flag == flag
}

/// Whether the window at position `i` of `chain` may be managed; the window
/// at `i + 1`, if any, is its parent.
pub open spec fn manageable(chain: Seq<WindowAttrs>, i: int, cfg: Config) -> bool
    decreases chain.len() - i,
    when 0 <= i
{
    if i >= chain.len() {
        false
    } else {
        let w = chain[i];
        let is_tool = has_flag(w.exstyle, WS_EX_TOOLWINDOW);
        if !w.exists || has_flag(w.style, WS_DISABLED) || has_flag(w.exstyle, WS_EX_NOACTIVATE)
            || !w.has_title || w.cloaked || listed(cfg.disallowed_titles@, w.title@) {
            false
        } else if w.class is None || listed(cfg.disallowed_classes@, w.class->0@) {
            false
        } else if cfg.exclude_debugged && w.debugged {
            false
        } else if i + 1 >= chain.len() {
            !is_tool && w.visible
        } else {
            manageable(chain, i + 1, cfg) && (is_tool || has_flag(w.exstyle, WS_EX_APPWINDOW))
        }
    }
}

pub fn flag_set(flags: u32, flag: u32) -> (r: bool)
    ensures
        r == has_flag(flags, flag),
{
    flags & flag == flag
}

/// Decides whether the window at position `i` of `chain` may be managed:
/// it must exist, be enabled and activatable, have a title, not be cloaked,
/// not carry a disallowed title or class, and, where the configuration asks,
/// not belong to a debugged process. A window without a parent must then be
/// visible and not a tool window; one with a parent needs a manageable parent
/// and must be a tool window or an app window.
pub fn is_manageable_at(chain: &Vec<WindowAttrs>, i: usize, config: &Config) -> (r: bool)
    ensures
        r == manageable(chain@, i as int, *config),
    decreases chain@.len() - i,
{
    if i >= chain.len() {
        return false;
    }
    let w = &chain[i];
    let is_tool = flag_set(w.exstyle, WS_EX_TOOLWINDOW);
    if !w.exists || flag_set(w.style, WS_DISABLED) || flag_set(w.exstyle, WS_EX_NOACTIVATE) {
        return false;
    }
    if !w.has_title || w.cloaked || is_listed(&config.disallowed_titles, &w.title) {
        return false;
    }
    match &w.class {
        None => {
            return false;
        },
        Some(class) => {
            if is_listed(&config.disallowed_classes, class) {
                return false;
            }
        },
    }
    if config.exclude_debugged && w.debugged {
        return false;
    }
    if i + 1 >= chain.len() {
        return !is_tool && w.visible;
    }
    if !is_manageable_at(chain, i + 1, config) {
        return false;
    }
    is_tool || flag_set(w.exstyle, WS_EX_APPWINDOW)
}

/// Whether the first window of `chain`, whose parents follow it in order,
/// may be managed.
pub fn is_manageable(chain: &Vec<WindowAttrs>, config: &Config) -> (r: bool)
    ensures
        r == manageable(chain@, 0, *config),
{
    is_manageable_at(chain, 0, config)
}

} // verus!
