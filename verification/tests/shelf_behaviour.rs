use snapshelf::commands::{drag_out_request, reorder_request};
use snapshelf::geometry::{
    in_y_band, over_shelf, screen_right, shelf_h, shelf_x, shelf_y, sliver_x, Layout, Monitor,
    ShelfMetrics, PARK_X,
};
use snapshelf::settings::OpenMode;
use snapshelf::shelf::{rest_position, ClosePolicy, CursorSample, Effect, PollAction, ShelfState};

fn layout() -> Layout {
    Layout {
        monitor: Monitor { x: 0, y: 0, width: 1920, height: 1080 },
        shelf: ShelfMetrics { width: 340, max_height: 700, gap: 10, peek: 6 },
    }
}

fn at(x: i32, y: i32, button_down: bool) -> CursorSample {
    CursorSample { x, y, button_down }
}

#[test]
fn placement_on_a_full_hd_monitor() {
    let l = layout();
    assert_eq!(screen_right(&l), 1920);
    assert_eq!(shelf_h(&l), 700);
    assert_eq!(shelf_x(&l), 1570);
    assert_eq!(shelf_y(&l), 190);
    assert_eq!(sliver_x(&l), 1914);
    assert!(in_y_band(&l, 190));
    assert!(!in_y_band(&l, 890));
    assert!(over_shelf(&l, 1570, 500));
    assert!(over_shelf(&l, 1919, 500));
    assert!(!over_shelf(&l, 1569, 500));
    assert!(!over_shelf(&l, 1920, 500));
}

#[test]
fn placement_on_a_short_offset_monitor() {
    let l = Layout {
        monitor: Monitor { x: -1280, y: 100, width: 1280, height: 600 },
        shelf: ShelfMetrics { width: 510, max_height: 1050, gap: 15, peek: 9 },
    };
    assert_eq!(screen_right(&l), 0);
    assert_eq!(shelf_h(&l), 600);
    assert_eq!(shelf_x(&l), -525);
    assert_eq!(shelf_y(&l), 100);
    assert_eq!(sliver_x(&l), -9);
    let odd = Layout {
        monitor: Monitor { x: 0, y: 0, width: 800, height: 701 },
        shelf: ShelfMetrics { width: 340, max_height: 700, gap: 10, peek: 6 },
    };
    assert_eq!(shelf_y(&odd), 0);
}

#[test]
fn placement_fits_in_i32() {
    assert!(layout().fits());
    let mut far = layout();
    far.monitor.x = i32::MAX - 100;
    assert!(!far.fits());
    let mut low = layout();
    low.monitor.x = i32::MIN;
    low.monitor.width = 10;
    assert!(!low.fits());
    let mut tall = layout();
    tall.shelf.max_height = i32::MIN;
    assert!(!tall.fits());
}

#[test]
fn rest_positions() {
    let l = layout();
    assert_eq!(rest_position(OpenMode::Tab, &l), (1914, 190));
    assert_eq!(rest_position(OpenMode::Hover, &l), (PARK_X, 0));
    assert_eq!(rest_position(OpenMode::Tray, &l), (-32000, 0));
}

#[test]
fn show_then_hide() {
    let l = layout();
    let mut s = ShelfState::new(OpenMode::Hover);
    assert_eq!(
        s.do_show_shelf(&l, ClosePolicy::CursorPark),
        Effect::Show { x: 1570, y: 190, focus: false }
    );
    assert!(s.visible());
    assert_eq!(s.do_show_shelf(&l, ClosePolicy::Blur), Effect::Stay);
    assert_eq!(s.close_policy(), ClosePolicy::CursorPark);
    assert_eq!(s.do_hide_shelf(&l), Effect::Park { x: PARK_X, y: 0 });
    assert!(!s.visible());
    assert_eq!(s.do_hide_shelf(&l), Effect::Stay);
}

#[test]
fn sliver_opening_collapses_back_to_the_sliver() {
    let l = layout();
    let mut s = ShelfState::new(OpenMode::Tab);
    s.do_show_shelf(&l, ClosePolicy::CursorSliver);
    assert_eq!(s.do_hide_shelf(&l), Effect::Park { x: 1914, y: 190 });
    assert_eq!(s.close_policy(), ClosePolicy::CursorPark);
}

#[test]
fn blur_policy_takes_focus_and_closes_on_focus_loss() {
    let l = layout();
    let mut s = ShelfState::new(OpenMode::Tray);
    assert_eq!(s.toggle_from_tray(&l), Effect::Show { x: 1570, y: 190, focus: true });
    assert_eq!(s.close_policy(), ClosePolicy::Blur);
    assert_eq!(s.on_focus_lost(&l), Effect::Park { x: PARK_X, y: 0 });
    assert!(!s.visible());
    assert_eq!(s.on_focus_lost(&l), Effect::Stay);
}

#[test]
fn tray_toggle_in_other_modes_is_manual() {
    let l = layout();
    for mode in [OpenMode::Hover, OpenMode::Tab] {
        let mut s = ShelfState::new(mode);
        assert_eq!(s.toggle_from_tray(&l), Effect::Show { x: 1570, y: 190, focus: false });
        assert_eq!(s.close_policy(), ClosePolicy::Manual);
        assert_eq!(s.on_focus_lost(&l), Effect::Stay);
        assert!(s.visible());
        assert_eq!(s.toggle_from_tray(&l), Effect::Park { x: PARK_X, y: 0 });
        assert!(!s.visible());
        assert_eq!(s.close_policy(), ClosePolicy::CursorPark);
    }
}

#[test]
fn show_shelf_is_manual() {
    let l = layout();
    let mut s = ShelfState::new(OpenMode::Hover);
    assert_eq!(s.show_shelf(&l), Effect::Show { x: 1570, y: 190, focus: false });
    assert_eq!(s.close_policy(), ClosePolicy::Manual);
}

#[test]
fn mode_changes_move_a_closed_window() {
    let l = layout();
    let mut s = ShelfState::new(OpenMode::Hover);
    assert_eq!(s.set_open_mode(OpenMode::Tab, &l), Effect::MoveTo { x: 1914, y: 190 });
    assert_eq!(s.open_mode(), OpenMode::Tab);
    assert_eq!(s.set_open_mode(OpenMode::Tab, &l), Effect::MoveTo { x: 1914, y: 190 });
    assert_eq!(s.set_open_mode(OpenMode::Tray, &l), Effect::MoveTo { x: PARK_X, y: 0 });
    assert_eq!(s.set_open_mode(OpenMode::Hover, &l), Effect::Stay);
    s.do_show_shelf(&l, ClosePolicy::Manual);
    assert_eq!(s.set_open_mode(OpenMode::Tab, &l), Effect::Stay);
    assert_eq!(s.open_mode(), OpenMode::Tab);
}

#[test]
fn hover_needs_three_samples_on_the_edge() {
    let l = layout();
    let s = ShelfState::new(OpenMode::Hover);
    let c = at(1918, 500, false);
    assert_eq!(s.edge_poll_step(&l, 0, c, false), (PollAction::Nothing, 1));
    assert_eq!(s.edge_poll_step(&l, 1, c, false), (PollAction::Nothing, 2));
    assert_eq!(
        s.edge_poll_step(&l, 2, c, false),
        (PollAction::Open(ClosePolicy::CursorPark), 0)
    );
    // Leaving the edge resets the count.
    assert_eq!(s.edge_poll_step(&l, 2, at(1917, 500, false), false), (PollAction::Nothing, 0));
    // Above the shelf does not count.
    assert_eq!(s.edge_poll_step(&l, 2, at(1919, 100, false), false), (PollAction::Nothing, 0));
    assert_eq!(s.edge_poll_step(&l, 255, c, false), (PollAction::Open(ClosePolicy::CursorPark), 0));
}

#[test]
fn dragging_to_the_edge_opens_in_every_mode() {
    let l = layout();
    for mode in [OpenMode::Hover, OpenMode::Tab, OpenMode::Tray] {
        let s = ShelfState::new(mode);
        assert_eq!(
            s.edge_poll_step(&l, 2, at(1890, 190, true), false),
            (PollAction::Open(ClosePolicy::CursorPark), 0)
        );
        let (a, _) = s.edge_poll_step(&l, 2, at(1889, 190, true), false);
        assert_eq!(a, PollAction::Nothing);
    }
}

#[test]
fn tab_mode_opens_from_the_sliver() {
    let l = layout();
    let s = ShelfState::new(OpenMode::Tab);
    assert_eq!(
        s.edge_poll_step(&l, 1, at(1914, 300, false), false),
        (PollAction::Open(ClosePolicy::CursorSliver), 1)
    );
    assert_eq!(s.edge_poll_step(&l, 1, at(1913, 300, false), false), (PollAction::Nothing, 1));
}

#[test]
fn tray_mode_ignores_the_edge() {
    let l = layout();
    let s = ShelfState::new(OpenMode::Tray);
    assert_eq!(s.edge_poll_step(&l, 2, at(1919, 300, false), false), (PollAction::Nothing, 0));
}

#[test]
fn open_shelf_closes_when_the_cursor_leaves() {
    let l = layout();
    let mut s = ShelfState::new(OpenMode::Hover);
    s.do_show_shelf(&l, ClosePolicy::CursorPark);
    assert_eq!(s.edge_poll_step(&l, 1, at(1600, 500, false), false), (PollAction::Nothing, 1));
    assert_eq!(s.edge_poll_step(&l, 1, at(1000, 500, false), false), (PollAction::Close, 1));
    assert_eq!(s.edge_poll_step(&l, 1, at(1600, 900, true), false), (PollAction::Close, 1));
    // Not during a drag-out.
    assert_eq!(s.edge_poll_step(&l, 1, at(1000, 500, false), true), (PollAction::Nothing, 1));
    let mut m = ShelfState::new(OpenMode::Hover);
    m.do_show_shelf(&l, ClosePolicy::Manual);
    assert_eq!(m.edge_poll_step(&l, 0, at(0, 0, false), false), (PollAction::Nothing, 0));
    let mut b = ShelfState::new(OpenMode::Tray);
    b.do_show_shelf(&l, ClosePolicy::Blur);
    assert_eq!(b.edge_poll_step(&l, 0, at(0, 0, false), false), (PollAction::Nothing, 0));
}

#[test]
fn hover_count_saturates_and_resets() {
    let l = layout();
    let s = ShelfState::new(OpenMode::Hover);
    // Open shelves leave the count as it is.
    let mut open = ShelfState::new(OpenMode::Hover);
    open.show_shelf(&l);
    assert_eq!(open.edge_poll_step(&l, 2, at(1919, 500, false), false), (PollAction::Nothing, 2));
    // A held button away from the drag strip resets the count in hover mode.
    assert_eq!(s.edge_poll_step(&l, 2, at(1800, 500, true), false), (PollAction::Nothing, 0));
}

#[test]
fn item_requests() {
    assert_eq!(reorder_request(1, 3), Some((1, 3)));
    assert_eq!(reorder_request(0, 0), Some((0, 0)));
    assert_eq!(reorder_request(-1, 3), None);
    assert_eq!(reorder_request(2, -5), None);
    assert_eq!(drag_out_request(0, "C:\\a.txt"), None);
    assert_eq!(drag_out_request(0x1234, "C:\\a.txt"), Some(vec!["C:\\a.txt".to_string()]));
}
