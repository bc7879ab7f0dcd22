use dwmr::geometry::Rect;
use dwmr::layout::{master_extent, scale, stack_layout, tile_layout, Layout};

fn rect(x: i32, y: i32, width: i32, height: i32) -> Rect {
    Rect { x, y, width, height }
}

#[test]
fn tile_puts_newest_client_alone_in_master_column() {
    let area = rect(0, 20, 1000, 800);
    let rects = tile_layout(&area, 3, 1, 500);
    assert_eq!(rects, vec![rect(0, 20, 500, 800), rect(500, 20, 500, 400), rect(500, 420, 500, 400)]);
}

#[test]
fn tile_column_heights_absorb_remainder_in_last_slot() {
    let area = rect(5, 7, 90, 10);
    let rects = tile_layout(&area, 3, 0, 500);
    assert_eq!(rects, vec![rect(5, 7, 90, 3), rect(5, 10, 90, 3), rect(5, 13, 90, 4)]);
    let total: i32 = rects.iter().map(|r| r.height).sum();
    assert_eq!(total, 10);
}

#[test]
fn tile_columns_sum_to_client_height_for_every_master_count() {
    let area = rect(0, 0, 640, 479);
    for n in 1..8u32 {
        for mc in 0..=n {
            let rects = tile_layout(&area, n, mc, 550);
            assert_eq!(rects.len(), n as usize);
            let m = mc.min(n) as usize;
            let master: i32 = rects[..m].iter().map(|r| r.height).sum();
            let stack: i32 = rects[m..].iter().map(|r| r.height).sum();
            if m > 0 {
                assert_eq!(master, 479);
            }
            if (n as usize) > m {
                assert_eq!(stack, 479);
            }
            for w in rects[..m].windows(2) {
                assert_eq!(w[1].y, w[0].y + w[0].height);
            }
            for w in rects[m..].windows(2) {
                assert_eq!(w[1].y, w[0].y + w[0].height);
            }
        }
    }
}

#[test]
fn tile_with_no_tiled_clients_places_nothing() {
    assert!(tile_layout(&rect(0, 0, 100, 100), 0, 1, 500).is_empty());
}

#[test]
fn tile_with_all_clients_in_master_uses_full_width() {
    let rects = tile_layout(&rect(0, 0, 300, 100), 2, 2, 500);
    assert_eq!(rects, vec![rect(0, 0, 300, 50), rect(0, 50, 300, 50)]);
}

#[test]
fn master_width_is_zero_without_master_slots() {
    assert_eq!(master_extent(1000, 3, 0, 500), 0);
    assert_eq!(master_extent(1000, 1, 0, 500), 0);
}

#[test]
fn master_width_is_full_when_all_fit_in_master() {
    assert_eq!(master_extent(1000, 2, 2, 500), 1000);
    assert_eq!(master_extent(1000, 1, 3, 100), 1000);
}

#[test]
fn master_width_follows_factor_and_clamps_it() {
    assert_eq!(master_extent(1000, 3, 1, 500), 500);
    assert_eq!(master_extent(999, 3, 1, 333), 332);
    assert_eq!(master_extent(1000, 3, 1, 1500), 1000);
    assert_eq!(master_extent(1000, 3, 1, -100), 0);
    assert_eq!(scale(800, 250), 200);
}

#[test]
fn stack_splits_one_column_into_master_band_and_rest() {
    let rects = stack_layout(&rect(0, 0, 100, 90), 3, 1, 500);
    assert_eq!(rects, vec![rect(0, 0, 100, 45), rect(0, 45, 100, 22), rect(0, 67, 100, 23)]);
    let total: i32 = rects.iter().map(|r| r.height).sum();
    assert_eq!(total, 90);
}

#[test]
fn stack_without_master_slots_shares_whole_height() {
    let rects = stack_layout(&rect(0, 10, 50, 100), 2, 0, 500);
    assert_eq!(rects, vec![rect(0, 10, 50, 50), rect(0, 60, 50, 50)]);
}

#[test]
fn layout_arrange_dispatches_on_variant() {
    let area = rect(0, 0, 100, 90);
    assert_eq!(Layout::Tile.arrange(&area, 3, 1, 500), tile_layout(&area, 3, 1, 500));
    assert_eq!(Layout::Stack.arrange(&area, 3, 1, 500), stack_layout(&area, 3, 1, 500));
}

#[test]
fn master_area_tests_by_axis() {
    let display = rect(0, 0, 1000, 820);
    let area = rect(0, 20, 1000, 800);
    assert!(Layout::Tile.is_in_master_area(&display, &area, 500, 499, 700));
    assert!(!Layout::Tile.is_in_master_area(&display, &area, 500, 500, 0));
    assert!(Layout::Stack.is_in_master_area(&display, &area, 500, 900, 419));
    assert!(!Layout::Stack.is_in_master_area(&display, &area, 500, 0, 420));
}

#[test]
fn rect_helpers() {
    let r = Rect::from_edges(10, 20, 110, 70);
    assert_eq!(r, rect(10, 20, 100, 50));
    assert_eq!(r.center(), (60, 45));
    assert!(r.contains(10, 20));
    assert!(r.contains(110, 70));
    assert!(!r.contains(111, 70));
    assert!(r.is_wf());
    assert!(!rect(0, 0, -1, 5).is_wf());
}
