use dwmr::app::{Action, DwmrApp, WindowInfo};
use dwmr::events::{Notification, WinEvent};
use dwmr::geometry::Rect;
use dwmr::keys::{default_keys, key_for_hotkey, Command, MOD_ALT, MOD_CONTROL, MOD_SHIFT};
use dwmr::commands::Arg;
use dwmr::monitor::Monitor;
use dwmr::rules::Config;

fn win(hwnd: isize, title: &str, rect: Rect) -> WindowInfo {
    WindowInfo {
        hwnd,
        title: title.to_string(),
        class: "AppClass".to_string(),
        process_filename: "C:\\apps\\app.exe".to_string(),
        parent: 0,
        root: hwnd,
        rect,
        is_minimized: false,
        is_cloaked: false,
    }
}

fn note(event: WinEvent, window: WindowInfo, manageable: bool) -> Notification {
    Notification { event, window, class_read: true, manageable, cursor_x: 0, cursor_y: 0 }
}

fn two_monitors() -> DwmrApp {
    let a = Rect { x: 0, y: 0, width: 1000, height: 1000 };
    let b = Rect { x: 1000, y: 0, width: 1000, height: 1000 };
    DwmrApp::new(vec![Monitor::new(0, a, a, 20), Monitor::new(1, b, b, 20)])
}

fn at(x: i32) -> Rect {
    Rect { x, y: 100, width: 200, height: 200 }
}

fn hwnds(app: &DwmrApp, k: usize) -> Vec<isize> {
    app.monitors[k].clients.iter().map(|c| c.hwnd).collect()
}

#[test]
fn shown_window_is_managed_and_selected() {
    let mut app = two_monitors();
    let config = Config::standard();
    let r = app.window_event_hook(note(WinEvent::Show, win(11, "Notepad", at(1200)), true), &vec![], &config);
    assert_eq!(r, vec![Action::ArrangeMonitor(1), Action::RedrawBars]);
    assert_eq!(hwnds(&app, 1), vec![11]);
    assert_eq!(app.selected_monitor_index, Some(1));
    assert_eq!(app.monitors[1].selected_hwnd, 11);
}

#[test]
fn unmanageable_or_disallowed_windows_are_left_alone() {
    let mut app = two_monitors();
    let config = Config::standard();
    assert!(app.window_event_hook(note(WinEvent::Show, win(11, "Notepad", at(100)), false), &vec![], &config).is_empty());
    assert!(app.window_event_hook(note(WinEvent::Foreground, win(12, "Start", at(100)), true), &vec![], &config).is_empty());
    let mut unread = note(WinEvent::Show, win(13, "Notepad", at(100)), true);
    unread.class_read = false;
    assert!(app.window_event_hook(unread, &vec![], &config).is_empty());
    assert!(hwnds(&app, 0).is_empty());
}

#[test]
fn foreground_of_known_window_moves_selection() {
    let mut app = two_monitors();
    let config = Config::standard();
    app.window_event_hook(note(WinEvent::Show, win(11, "A", at(100)), true), &vec![], &config);
    app.window_event_hook(note(WinEvent::Show, win(12, "B", at(1200)), true), &vec![], &config);
    assert_eq!(app.selected_monitor_index, Some(1));
    let r = app.window_event_hook(note(WinEvent::Foreground, win(11, "A", at(100)), true), &vec![], &config);
    assert_eq!(r, vec![Action::RedrawBars]);
    assert_eq!(app.selected_monitor_index, Some(0));
    assert_eq!(app.monitors[0].selected_hwnd, 11);
}

#[test]
fn destroyed_window_is_unmanaged_and_hidden_by_layout_is_kept() {
    let mut app = two_monitors();
    let config = Config::standard();
    app.window_event_hook(note(WinEvent::Show, win(11, "A", at(100)), true), &vec![], &config);
    app.window_event_hook(note(WinEvent::Show, win(12, "B", at(100)), true), &vec![], &config);
    app.monitors[0].clients[0].is_hide = true;
    assert!(app.window_event_hook(note(WinEvent::Hide, win(11, "A", at(100)), true), &vec![], &config).is_empty());
    assert_eq!(hwnds(&app, 0), vec![11, 12]);
    let r = app.window_event_hook(note(WinEvent::Hide, win(12, "B", at(100)), true), &vec![], &config);
    assert_eq!(r, vec![Action::ArrangeMonitor(0)]);
    assert_eq!(hwnds(&app, 0), vec![11]);
    let r = app.window_event_hook(note(WinEvent::Destroy, win(11, "A", at(100)), true), &vec![], &config);
    assert_eq!(r, vec![Action::ArrangeMonitor(0)]);
    assert!(hwnds(&app, 0).is_empty());
}

#[test]
fn stale_clients_are_pruned_before_each_event() {
    let mut app = two_monitors();
    let config = Config::standard();
    app.window_event_hook(note(WinEvent::Show, win(11, "A", at(100)), true), &vec![], &config);
    app.window_event_hook(note(WinEvent::Show, win(12, "B", at(100)), true), &vec![], &config);
    app.window_event_hook(note(WinEvent::Show, win(13, "C", at(1200)), true), &vec![11, 13], &config);
    assert_eq!(hwnds(&app, 0), vec![12]);
    assert_eq!(hwnds(&app, 1), vec![13]);
    app.sanitize_monitors(&vec![13]);
    assert!(hwnds(&app, 1).is_empty());
}

#[test]
fn drag_from_stack_to_master_of_other_monitor() {
    let mut app = two_monitors();
    let config = Config::standard();
    for (h, x) in [(1, 100), (2, 100), (3, 100), (9, 1200)] {
        app.window_event_hook(note(WinEvent::Show, win(h, "W", at(x)), true), &vec![], &config);
    }
    assert_eq!(hwnds(&app, 0), vec![1, 2, 3]);
    assert_eq!(hwnds(&app, 1), vec![9]);
    let mut drop = note(WinEvent::MoveSizeEnd, win(1, "W", Rect { x: 1100, y: 400, width: 200, height: 200 }), true);
    drop.cursor_x = 1200;
    drop.cursor_y = 500;
    let r = app.window_event_hook(drop, &vec![], &config);
    assert_eq!(r, vec![Action::ArrangeAll, Action::RedrawBars]);
    assert_eq!(hwnds(&app, 0), vec![2, 3]);
    assert_eq!(hwnds(&app, 1), vec![9, 1]);
    assert_eq!(app.monitors[1].clients[1].monitor, 1);
    assert_eq!(app.monitors[0].selected_hwnd, 2);
    assert_eq!(app.selected_monitor_index, Some(1));
    assert_eq!(app.monitors[1].selected_hwnd, 1);
}

#[test]
fn drag_into_stack_area_goes_behind_master_slots() {
    let mut app = two_monitors();
    let config = Config::standard();
    for (h, x) in [(1, 100), (8, 1200), (9, 1200)] {
        app.window_event_hook(note(WinEvent::Show, win(h, "W", at(x)), true), &vec![], &config);
    }
    let moved = app.reallocate_window(1, &Rect { x: 1700, y: 0, width: 50, height: 50 }, 1800, 500);
    assert_eq!(moved, vec![Action::ArrangeAll, Action::RedrawBars]);
    assert_eq!(hwnds(&app, 1), vec![8, 1, 9]);
    assert!(hwnds(&app, 0).is_empty());
    assert_eq!(app.monitors[0].selected_hwnd, 0);
}

#[test]
fn unchanged_or_same_place_drag_does_not_move() {
    let mut app = two_monitors();
    let config = Config::standard();
    app.window_event_hook(note(WinEvent::Show, win(1, "W", at(100)), true), &vec![], &config);
    assert!(app.reallocate_window(1, &at(100), 150, 150).is_empty());
    assert!(app.reallocate_window(1, &at(90), 5000, 5000).is_empty());
    assert_eq!(app.reallocate_window(1, &at(90), 150, 150), vec![Action::ArrangeMonitor(0)]);
    assert_eq!(hwnds(&app, 0), vec![1]);
    assert!(app.reallocate_window(77, &at(90), 150, 150).is_empty());
}

#[test]
fn hotkey_table_and_dispatch() {
    let keys = default_keys();
    assert_eq!(keys.len(), 49);
    assert_eq!(keys[0].command, Command::Quit);
    assert_eq!(keys[3].arg, Some(Arg::Int(1)));
    let view3 = key_for_hotkey(&keys, 13 + 4 * 2).unwrap();
    assert_eq!((view3.key, view3.command, view3.arg), ('3', Command::View, Some(Arg::UInt(4))));
    let toggle9 = key_for_hotkey(&keys, 13 + 4 * 8 + 3).unwrap();
    assert_eq!(toggle9.mod_key, MOD_ALT | MOD_CONTROL | MOD_SHIFT);
    assert_eq!(toggle9.arg, Some(Arg::UInt(256)));
    assert!(key_for_hotkey(&keys, 49).is_none());
    let mut app = two_monitors();
    app.selected_monitor_index = Some(0);
    let r = app.execute(&view3);
    assert_eq!(r, vec![Action::RedrawBars, Action::FocusDesktop, Action::ArrangeAll]);
    assert_eq!(app.monitors[0].tagset, [1, 4]);
}
