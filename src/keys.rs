use vstd::prelude::*;
use crate::app::{Action, DwmrApp};
use crate::commands::{
    focus_monitor_post, focus_stack_post, quit_post, set_layout_post, set_monitor_factor_post, tag_post,
    toggle_float_post, toggle_tag_post, toggle_view_post, view_post, zoom_post, Arg,
};
use crate::layout::{Layout, FACTOR_SCALE};
use crate::reallocate::tag_monitor_post;

verus! {

/// Hotkey modifier: the Alt key.
pub const MOD_ALT: u32 = 0x1;
/// Hotkey modifier: the Control key.
pub const MOD_CONTROL: u32 = 0x2;
/// Hotkey modifier: the Shift key.
pub const MOD_SHIFT: u32 = 0x4;
/// The modifier that every binding holds.
pub const MOD_KEY: u32 = MOD_ALT;
/// How much one key press changes the master factor.
pub const FACTOR_STEP: i32 = 50;

/// The commands a hotkey can run.
#[derive(Clone, Copy, Debug, PartialEq, Eq, Structural)]
pub enum Command {
    Quit,
    Zoom,
    ToggleFloat,
    FocusStack,
    SetLayout,
    FocusMonitor,
    SetMonitorFactor,
    TagMonitor,
    View,
    ToggleView,
    Tag,
    ToggleTag,
}

/// A hotkey: modifiers and key, and the command it runs with its argument.
#[derive(Clone, Copy, Debug, PartialEq, Eq, Structural)]
pub struct Key {
    pub mod_key: u32,
    pub key: char,
    pub command: Command,
    pub arg: Option<Arg>,
}

fn bind(mod_key: u32, key: char, command: Command, arg: Option<Arg>) -> (r: Key)
    ensures
        r == (Key { mod_key, key, command, arg }),
{
    Key { mod_key, key, command, arg }
}

/// The four bindings of tag `tag` on `key`: view it, toggle it in the view,
/// move the selected client to it, toggle it on the selected client.
fn push_tag_keys(keys: &mut Vec<Key>, key: char, tag: u32)
    requires
        tag < 9,
    ensures
        final(keys)@ == old(keys)@ + seq![
            Key { mod_key: MOD_KEY, key, command: Command::View, arg: Some(Arg::UInt(1u32 << tag)) },
            Key { mod_key: MOD_KEY | MOD_CONTROL, key, command: Command::ToggleView, arg: Some(Arg::UInt(1u32 << tag)) },
            Key { mod_key: MOD_KEY | MOD_SHIFT, key, command: Command::Tag, arg: Some(Arg::UInt(1u32 << tag)) },
            Key {
                mod_key: MOD_KEY | MOD_CONTROL | MOD_SHIFT,
                key,
                command: Command::ToggleTag,
                arg: Some(Arg::UInt(1u32 << tag)),
            },
        ],
{
    let mask = Some(Arg::UInt(1u32 << tag));
    keys.push(bind(MOD_KEY, key, Command::View, mask));
    keys.push(bind(MOD_KEY | MOD_CONTROL, key, Command::ToggleView, mask));
    keys.push(bind(MOD_KEY | MOD_SHIFT, key, Command::Tag, mask));
    keys.push(bind(MOD_KEY | MOD_CONTROL | MOD_SHIFT, key, Command::ToggleTag, mask));
    assert(keys@ =~= old(keys)@ + seq![
        Key { mod_key: MOD_KEY, key, command: Command::View, arg: mask },
        Key { mod_key: MOD_KEY | MOD_CONTROL, key, command: Command::ToggleView, arg: mask },
        Key { mod_key: MOD_KEY | MOD_SHIFT, key, command: Command::Tag, arg: mask },
        Key { mod_key: MOD_KEY | MOD_CONTROL | MOD_SHIFT, key, command: Command::ToggleTag, arg: mask },
    ]);
}

/// The key of tag `t`: its number, counted from one.
pub open spec fn tag_digit(t: int) -> char {
    seq!['1', '2', '3', '4', '5', '6', '7', '8', '9'][t]
}

/// The hotkey table; a hotkey is registered under its position here.
pub fn default_keys() -> (r: Vec<Key>)
    ensures
        r@.len() == 49,
        r@[0] == (Key { mod_key: MOD_KEY, key: 'Q', command: Command::Quit, arg: None }),
        r@[3] == (Key { mod_key: MOD_KEY, key: 'J', command: Command::FocusStack, arg: Some(Arg::Int(1i32)) }),
        r@[4] == (Key { mod_key: MOD_KEY, key: 'K', command: Command::FocusStack, arg: Some(Arg::Int(-1i32)) }),
        forall|t: int|
            0 <= t < 9 ==> #[trigger] r@[13 + 4 * t] == (Key {
                mod_key: MOD_KEY,
                key: tag_digit(t),
                command: Command::View,
                arg: Some(Arg::UInt(1u32 << (t as u32))),
            }),
{
    let mut keys: Vec<Key> = Vec::new();
    keys.push(bind(MOD_KEY, 'Q', Command::Quit, None));
    keys.push(bind(MOD_KEY, 'Z', Command::Zoom, None));
    keys.push(bind(MOD_KEY, 'F', Command::ToggleFloat, None));
    keys.push(bind(MOD_KEY, 'J', Command::FocusStack, Some(Arg::Int(1))));
    keys.push(bind(MOD_KEY, 'K', Command::FocusStack, Some(Arg::Int(-1))));
    keys.push(bind(MOD_KEY, 'T', Command::SetLayout, Some(Arg::Layout(Layout::Tile))));
    keys.push(bind(MOD_KEY, 'S', Command::SetLayout, Some(Arg::Layout(Layout::Stack))));
    keys.push(bind(MOD_KEY, 'H', Command::FocusMonitor, Some(Arg::Int(1))));
    keys.push(bind(MOD_KEY, 'L', Command::FocusMonitor, Some(Arg::Int(-1))));
    keys.push(bind(MOD_KEY, 'I', Command::SetMonitorFactor, Some(Arg::Factor(FACTOR_STEP))));
    keys.push(bind(MOD_KEY, 'D', Command::SetMonitorFactor, Some(Arg::Factor(-FACTOR_STEP))));
    keys.push(bind(MOD_KEY | MOD_SHIFT, 'H', Command::TagMonitor, Some(Arg::Int(1))));
    keys.push(bind(MOD_KEY | MOD_SHIFT, 'L', Command::TagMonitor, Some(Arg::Int(-1))));
    push_tag_keys(&mut keys, '1', 0);
    push_tag_keys(&mut keys, '2', 1);
    push_tag_keys(&mut keys, '3', 2);
    push_tag_keys(&mut keys, '4', 3);
    push_tag_keys(&mut keys, '5', 4);
    push_tag_keys(&mut keys, '6', 5);
    push_tag_keys(&mut keys, '7', 6);
    push_tag_keys(&mut keys, '8', 7);
    push_tag_keys(&mut keys, '9', 8);
    keys
}

/// The binding registered under hotkey id `id`, if any.
pub fn key_for_hotkey(keys: &Vec<Key>, id: usize) -> (r: Option<Key>)
    ensures
        r == if id < keys@.len() {
            Some(keys@[id as int])
        } else {
            None
        },
{
    if id < keys.len() {
        Some(keys[id])
    } else {
        None
    }
}

impl DwmrApp {
    /// Runs the command of a binding with the binding's argument.
    pub fn execute(&mut self, key: &Key) -> (r: Vec<Action>)
        requires
            old(self).wf(),
        ensures
            final(self).wf(),
            match key.command {
                Command::Quit => quit_post(*old(self), *final(self), key.arg, r@),
                Command::Zoom => zoom_post(*old(self), *final(self), key.arg, r@),
                Command::ToggleFloat => toggle_float_post(*old(self), *final(self), key.arg, r@),
                Command::FocusStack => focus_stack_post(*old(self), *final(self), key.arg, r@),
                Command::SetLayout => set_layout_post(*old(self), *final(self), key.arg, r@),
                Command::FocusMonitor => focus_monitor_post(*old(self), *final(self), key.arg, r@),
                Command::SetMonitorFactor => set_monitor_factor_post(*old(self), *final(self), key.arg, r@),
                Command::TagMonitor => tag_monitor_post(*old(self), *final(self), key.arg, r@),
                Command::View => view_post(*old(self), *final(self), key.arg, r@),
                Command::ToggleView => toggle_view_post(*old(self), *final(self), key.arg, r@),
                Command::Tag => tag_post(*old(self), *final(self), key.arg, r@),
                Command::ToggleTag => toggle_tag_post(*old(self), *final(self), key.arg, r@),
            },
    {
        let arg = &key.arg;
        match key.command {
            Command::Quit => self.quit(arg),
            Command::Zoom => self.zoom(arg),
            Command::ToggleFloat => self.toggle_float(arg),
            Command::FocusStack => self.focus_stack(arg),
            Command::SetLayout => self.set_layout(arg),
            Command::FocusMonitor => self.focus_monitor(arg),
            Command::SetMonitorFactor => self.set_monitor_factor(arg),
            Command::TagMonitor => self.tag_monitor(arg),
            Command::View => self.view(arg),
            Command::ToggleView => self.toggle_view(arg),
            Command::Tag => self.tag(arg),
            Command::ToggleTag => self.toggle_tag(arg),
        }
    }
}

} // verus!
