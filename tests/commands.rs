use dwmr::app::{Action, DwmrApp, WindowInfo};
use dwmr::commands::Arg;
use dwmr::geometry::Rect;
use dwmr::layout::Layout;
use dwmr::monitor::{Monitor, Placement};
use dwmr::reallocate::wrap_index;

fn window(hwnd: isize, x: i32) -> WindowInfo {
    WindowInfo {
        hwnd,
        title: format!("window {}", hwnd),
        class: "AppClass".to_string(),
        process_filename: "app.exe".to_string(),
        parent: 0,
        root: hwnd,
        rect: Rect { x, y: 100, width: 200, height: 200 },
        is_minimized: false,
        is_cloaked: false,
    }
}

/// One monitor of 1000 by 820 with a bar of 20, holding `hwnds` in order.
fn single(hwnds: &[isize]) -> DwmrApp {
    let display = Rect { x: 0, y: 0, width: 1000, height: 820 };
    let mut app = DwmrApp::new(vec![Monitor::new(0, display, display, 20)]);
    for h in hwnds {
        app.manage(window(*h, 300), &Vec::new());
    }
    app.selected_monitor_index = Some(0);
    app
}

fn hwnds(app: &DwmrApp, k: usize) -> Vec<isize> {
    app.monitors[k].clients.iter().map(|c| c.hwnd).collect()
}

#[test]
fn three_clients_tile_with_newest_as_master() {
    let mut app = single(&[1, 2, 3]);
    let placements = app.monitors[0].arrange_layout();
    assert_eq!(
        placements,
        vec![
            Placement { hwnd: 3, rect: Rect { x: 0, y: 20, width: 500, height: 800 } },
            Placement { hwnd: 2, rect: Rect { x: 500, y: 20, width: 500, height: 400 } },
            Placement { hwnd: 1, rect: Rect { x: 500, y: 420, width: 500, height: 400 } },
        ]
    );
    assert_eq!(app.monitors[0].clients[2].rect, Rect { x: 0, y: 20, width: 500, height: 800 });
    assert_eq!(app.monitors[0].clients[0].rect, Rect { x: 500, y: 420, width: 500, height: 400 });
}

#[test]
fn arrange_skips_floating_and_hidden_tag_clients() {
    let mut app = single(&[1, 2, 3]);
    app.monitors[0].clients[1].is_floating = true;
    app.monitors[0].clients[0].tags = 2;
    let placements = app.monitors[0].arrange_layout();
    assert_eq!(placements, vec![Placement { hwnd: 3, rect: Rect { x: 0, y: 20, width: 1000, height: 800 } }]);
    assert_eq!(app.monitors[0].clients[1].rect, Rect { x: 300, y: 100, width: 200, height: 200 });
}

#[test]
fn show_hide_follows_viewed_tags() {
    let mut app = single(&[1, 2]);
    app.monitors[0].clients[0].tags = 2;
    let changes = app.monitors[0].show_hide(&vec![true, false]);
    assert_eq!(changes.len(), 2);
    assert_eq!((changes[0].hwnd, changes[0].show), (1, false));
    assert_eq!((changes[1].hwnd, changes[1].show), (2, true));
    assert!(app.monitors[0].clients[0].is_hide);
    assert!(!app.monitors[0].clients[1].is_hide);
}

#[test]
fn view_twice_changes_state_once() {
    let mut app = single(&[]);
    let first = app.view(&Some(Arg::UInt(2)));
    assert_eq!(first, vec![Action::RedrawBars, Action::FocusDesktop, Action::ArrangeAll]);
    assert_eq!(app.monitors[0].tagset, [1, 2]);
    assert_eq!(app.monitors[0].selected_tag_index, 1);
    let second = app.view(&Some(Arg::UInt(2)));
    assert!(second.is_empty());
    assert_eq!(app.monitors[0].tagset, [1, 2]);
    assert_eq!(app.monitors[0].selected_tag_index, 1);
}

#[test]
fn view_of_empty_mask_returns_to_previous_view() {
    let mut app = single(&[]);
    app.view(&Some(Arg::UInt(4)));
    app.view(&Some(Arg::UInt(0)));
    assert_eq!(app.monitors[0].selected_tag_index, 0);
    assert_eq!(app.monitors[0].tagset, [1, 4]);
}

#[test]
fn view_without_selection_or_argument_does_nothing() {
    let mut app = single(&[]);
    app.selected_monitor_index = None;
    assert!(app.view(&Some(Arg::UInt(2))).is_empty());
    app.selected_monitor_index = Some(0);
    assert!(app.view(&None).is_empty());
    assert!(app.view(&Some(Arg::Int(2))).is_empty());
    assert_eq!(app.monitors[0].selected_tag_index, 0);
}

#[test]
fn toggle_view_flips_tags_but_never_to_nothing() {
    let mut app = single(&[]);
    let r = app.toggle_view(&Some(Arg::UInt(2)));
    assert_eq!(r, vec![Action::RedrawBars, Action::FocusDesktop, Action::ArrangeAll]);
    assert_eq!(app.monitors[0].tagset[0], 3);
    app.toggle_view(&Some(Arg::UInt(3)));
    assert_eq!(app.monitors[0].tagset[0], 3);
}

#[test]
fn toggle_tag_twice_restores_tags() {
    let mut app = single(&[7]);
    app.monitors[0].selected_hwnd = 7;
    let r = app.toggle_tag(&Some(Arg::UInt(2)));
    assert_eq!(r, vec![Action::Focus(7), Action::ArrangeAll]);
    assert_eq!(app.monitors[0].clients[0].tags, 3);
    app.toggle_tag(&Some(Arg::UInt(2)));
    assert_eq!(app.monitors[0].clients[0].tags, 1);
}

#[test]
fn toggle_tag_refuses_to_leave_no_tag() {
    let mut app = single(&[7]);
    app.monitors[0].selected_hwnd = 7;
    assert!(app.toggle_tag(&Some(Arg::UInt(1))).is_empty());
    assert_eq!(app.monitors[0].clients[0].tags, 1);
    assert!(app.toggle_tag(&Some(Arg::UInt(1))).is_empty());
    assert_eq!(app.monitors[0].clients[0].tags, 1);
}

#[test]
fn tag_sets_masked_tags_and_ignores_empty_mask() {
    let mut app = single(&[7]);
    app.monitors[0].selected_hwnd = 7;
    assert_eq!(app.tag(&Some(Arg::UInt(0x204))), vec![Action::Focus(7), Action::ArrangeAll]);
    assert_eq!(app.monitors[0].clients[0].tags, 4);
    assert!(app.tag(&Some(Arg::UInt(0x200))).is_empty());
    assert_eq!(app.monitors[0].clients[0].tags, 4);
}

#[test]
fn focus_stack_forward_then_back_returns() {
    let mut app = single(&[1, 2, 3]);
    app.monitors[0].selected_hwnd = 2;
    assert_eq!(app.focus_stack(&Some(Arg::Int(1))), vec![Action::Focus(1)]);
    assert_eq!(app.monitors[0].selected_hwnd, 1);
    assert_eq!(app.focus_stack(&Some(Arg::Int(-1))), vec![Action::Focus(2)]);
    assert_eq!(app.monitors[0].selected_hwnd, 2);
}

#[test]
fn focus_stack_wraps_and_skips_invisible_clients() {
    let mut app = single(&[1, 2, 3]);
    app.monitors[0].clients[0].tags = 2;
    app.monitors[0].selected_hwnd = 2;
    assert_eq!(app.focus_stack(&Some(Arg::Int(1))), vec![Action::Focus(3)]);
    assert!(app.focus_stack(&Some(Arg::Int(2))).is_empty());
    assert_eq!(app.monitors[0].selected_hwnd, 3);
}

#[test]
fn focus_stack_without_selection_does_nothing() {
    let mut app = single(&[1, 2]);
    assert!(app.focus_stack(&Some(Arg::Int(1))).is_empty());
    app.monitors[0].selected_hwnd = 2;
    assert!(app.focus_stack(&Some(Arg::Int(0))).is_empty());
}

#[test]
fn zoom_moves_selected_client_to_master() {
    let mut app = single(&[1, 2, 3]);
    app.monitors[0].selected_hwnd = 1;
    assert_eq!(app.zoom(&None), vec![Action::ArrangeMonitor(0)]);
    assert_eq!(hwnds(&app, 0), vec![2, 3, 1]);
}

#[test]
fn toggle_float_set_layout_and_factor() {
    let mut app = single(&[1]);
    app.monitors[0].selected_hwnd = 1;
    assert_eq!(app.toggle_float(&None), vec![Action::ArrangeAll, Action::Focus(1)]);
    assert!(app.monitors[0].clients[0].is_floating);
    assert_eq!(app.set_layout(&Some(Arg::Layout(Layout::Stack))), vec![Action::ArrangeMonitor(0), Action::Focus(1)]);
    assert_eq!(app.monitors[0].layout, Layout::Stack);
    assert_eq!(app.set_monitor_factor(&Some(Arg::Factor(50))), vec![Action::ArrangeMonitor(0)]);
    assert_eq!(app.monitors[0].master_factor, 550);
    app.monitors[0].master_factor = i32::MAX - 1;
    app.set_monitor_factor(&Some(Arg::Factor(50)));
    assert_eq!(app.monitors[0].master_factor, i32::MAX);
}

#[test]
fn quit_asks_to_close_only_with_a_window() {
    let mut app = single(&[]);
    assert!(app.quit(&None).is_empty());
    app.hwnd = 99;
    assert_eq!(app.quit(&None), vec![Action::Close]);
}

#[test]
fn offset_to_new_index_clamps_at_ends() {
    assert_eq!(DwmrApp::offset_to_new_index(3, 1, 1), 0);
    assert_eq!(DwmrApp::offset_to_new_index(3, 0, 1), 2);
    assert_eq!(DwmrApp::offset_to_new_index(3, 2, -1), 0);
    assert_eq!(DwmrApp::offset_to_new_index(3, 1, -1), 2);
}

#[test]
fn wrap_index_goes_round_both_ways() {
    assert_eq!(wrap_index(0, -1, 3), 2);
    assert_eq!(wrap_index(2, 1, 3), 0);
    assert_eq!(wrap_index(1, 7, 3), 2);
    assert_eq!(wrap_index(1, -7, 3), 0);
}

#[test]
fn focus_monitor_selects_and_defaults_to_newest_client() {
    let display = Rect { x: 0, y: 0, width: 1000, height: 820 };
    let second = Rect { x: 1000, y: 0, width: 1000, height: 820 };
    let mut app = DwmrApp::new(vec![Monitor::new(0, display, display, 20), Monitor::new(1, second, second, 20)]);
    app.manage(window(5, 1200), &Vec::new());
    app.manage(window(6, 1300), &Vec::new());
    assert_eq!(app.focus_monitor(&Some(Arg::Int(1))), vec![Action::FocusDesktop, Action::RedrawBars]);
    assert_eq!(app.selected_monitor_index, Some(0));
    assert_eq!(app.focus_monitor(&Some(Arg::Int(-1))), vec![Action::Focus(6), Action::RedrawBars]);
    assert_eq!(app.selected_monitor_index, Some(1));
    assert_eq!(app.monitors[1].selected_hwnd, 6);
    assert!(app.focus_monitor(&Some(Arg::Int(2))).is_empty());
}

#[test]
fn tag_monitor_sends_selected_client_round_the_registry() {
    let display = Rect { x: 0, y: 0, width: 1000, height: 820 };
    let second = Rect { x: 1000, y: 0, width: 1000, height: 820 };
    let mut app = DwmrApp::new(vec![Monitor::new(0, display, display, 20), Monitor::new(1, second, second, 20)]);
    app.manage(window(1, 100), &Vec::new());
    app.manage(window(2, 100), &Vec::new());
    app.selected_monitor_index = Some(0);
    app.monitors[0].selected_hwnd = 2;
    let r = app.tag_monitor(&Some(Arg::Int(-1)));
    assert_eq!(r, vec![Action::ArrangeAll, Action::Focus(1)]);
    assert_eq!(hwnds(&app, 0), vec![1]);
    assert_eq!(hwnds(&app, 1), vec![2]);
    assert_eq!(app.monitors[1].clients[0].monitor, 1);
    assert_eq!(app.monitors[0].selected_hwnd, 1);
}
