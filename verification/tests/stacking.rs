use toasts::anchor::Anchor;
use toasts::anchor::Margin;
use toasts::anchor::Rectangle;
use toasts::layout::TOAST_SPACING;
use toasts::registry::Toasts;
use toasts::toast::Toast;
use toasts::toast::ToastState;
use toasts::toast::APPEAR_MS;
use toasts::toast::DISAPPEAR_MS;
use toasts::toast::SLIDE_DISTANCE;

fn screen() -> Rectangle {
    Rectangle { min_x: 0, min_y: 0, max_x: 800, max_y: 600 }
}

fn three_measured(toasts: &mut Toasts) {
    for msg in ["a", "b", "c"] {
        let i = toasts.add(Toast::info(String::from(msg)));
        toasts.set_measured_height(i, 30);
    }
}

#[test]
fn add_same_id_updates_in_place() {
    let mut toasts = Toasts::new();
    let first = Toast::info(String::from("old text")).with_id(String::from("x"));
    toasts.add(first);
    toasts.tick(APPEAR_MS + 50);
    assert_eq!(toasts.toasts[0].state, ToastState::Visible);

    let second = Toast::error(String::from("new text")).with_id(String::from("x"));
    let idx = toasts.add(second);
    assert_eq!(idx, 0);
    assert_eq!(toasts.len(), 1);
    assert_eq!(toasts.toasts[0].state, ToastState::Appearing);
    assert_eq!(toasts.toasts[0].age_ms, 0);
    assert_eq!(toasts.toasts[0].message, "new text");
}

#[test]
fn add_distinct_or_missing_ids_appends() {
    let mut toasts = Toasts::new();
    toasts.add(Toast::info(String::from("one")).with_id(String::from("x")));
    toasts.add(Toast::info(String::from("two")).with_id(String::from("y")));
    toasts.add(Toast::info(String::from("three")));
    toasts.add(Toast::info(String::from("four")));
    assert_eq!(toasts.len(), 4);
}

#[test]
fn dismiss_oldest_walks_insertion_order() {
    for reverse in [false, true] {
        let mut toasts = Toasts::new();
        toasts.set_reverse(reverse);
        three_measured(&mut toasts);
        for first_gone in 0..3 {
            toasts.dismiss_oldest();
            for i in 0..3 {
                let expect = if i <= first_gone {
                    ToastState::Disappearing
                } else {
                    ToastState::Appearing
                };
                assert_eq!(toasts.toasts[i].state, expect);
            }
        }
        toasts.dismiss_oldest();
        assert_eq!(toasts.len(), 3);
    }
}

#[test]
fn dismiss_latest_targets_newest_only() {
    for reverse in [false, true] {
        let mut toasts = Toasts::new();
        toasts.set_reverse(reverse);
        three_measured(&mut toasts);
        toasts.dismiss_latest();
        assert_eq!(toasts.toasts[0].state, ToastState::Appearing);
        assert_eq!(toasts.toasts[1].state, ToastState::Appearing);
        assert_eq!(toasts.toasts[2].state, ToastState::Disappearing);
    }
}

#[test]
fn dismiss_all_touches_only_active_toasts() {
    let mut toasts = Toasts::new();
    three_measured(&mut toasts);
    toasts.dismiss_latest();
    let since = toasts.toasts[2].state_since_ms;
    toasts.dismiss_all();
    for i in 0..3 {
        assert_eq!(toasts.toasts[i].state, ToastState::Disappearing);
    }
    assert_eq!(toasts.toasts[2].state_since_ms, since);
}

#[test]
fn dismissals_on_empty_registry_are_noops() {
    let mut toasts = Toasts::new();
    toasts.dismiss_all();
    toasts.dismiss_oldest();
    toasts.dismiss_latest();
    toasts.close_at(0);
    toasts.set_measured_height(5, 10);
    assert_eq!(toasts.len(), 0);
}

#[test]
fn close_respects_the_closable_flag() {
    let mut toasts = Toasts::new();
    toasts.add(Toast::info(String::from("can close")));
    toasts.add(Toast::info(String::from("cannot")).with_closable(false));
    toasts.close_at(1);
    assert_eq!(toasts.toasts[1].state, ToastState::Appearing);
    toasts.close_at(0);
    assert_eq!(toasts.toasts[0].state, ToastState::Disappearing);
    toasts.close_at(7);
    assert_eq!(toasts.len(), 2);
}

#[test]
fn tick_reaps_removed_toasts() {
    let mut toasts = Toasts::new();
    three_measured(&mut toasts);
    toasts.dismiss_latest();
    toasts.tick(DISAPPEAR_MS);
    assert_eq!(toasts.len(), 2);
    assert_eq!(toasts.toasts[0].message, "a");
    assert_eq!(toasts.toasts[1].message, "b");
}

#[test]
fn layout_skips_unmeasured_and_removed() {
    let mut toasts = Toasts::new();
    toasts.add(Toast::info(String::from("unmeasured")));
    let laid = toasts.layout(&screen());
    assert!(laid.is_empty());
    let i = toasts.add(Toast::info(String::from("measured")));
    toasts.set_measured_height(i, 25);
    let laid = toasts.layout(&screen());
    assert_eq!(laid.len(), 1);
    assert_eq!(laid[0].index, i);
}

#[test]
fn layout_stacks_down_from_top_right() {
    let mut toasts = Toasts::new();
    toasts.set_anchor(Anchor::TopRight);
    toasts.set_margin(Margin { x: 8, y: 8 });
    let a = toasts.add(Toast::info(String::from("a")));
    let b = toasts.add(Toast::info(String::from("b")));
    toasts.set_measured_height(a, 30);
    toasts.set_measured_height(b, 50);
    toasts.tick(APPEAR_MS);
    let laid = toasts.layout(&screen());
    assert_eq!(laid.len(), 2);
    assert_eq!(laid[0].index, 0);
    assert_eq!(laid[1].index, 1);
    // Both toasts are fully visible: no slide offset remains.
    assert_eq!(laid[0].x, 792);
    assert_eq!(laid[1].x, 792);
    assert_eq!(laid[0].y, 8);
    assert_eq!(laid[1].y, 8 + 30 + TOAST_SPACING as i128);
}

#[test]
fn layout_stacks_up_from_bottom_left() {
    let mut toasts = Toasts::new();
    toasts.set_anchor(Anchor::BottomLeft);
    toasts.set_margin(Margin { x: 10, y: 12 });
    let a = toasts.add(Toast::info(String::from("a")));
    let b = toasts.add(Toast::info(String::from("b")));
    toasts.set_measured_height(a, 40);
    toasts.set_measured_height(b, 20);
    toasts.tick(APPEAR_MS);
    let laid = toasts.layout(&screen());
    assert_eq!(laid.len(), 2);
    assert_eq!(laid[0].x, 10);
    assert_eq!(laid[0].y, 588);
    assert_eq!(laid[1].y, 588 - (40 + TOAST_SPACING as i128));
}

#[test]
fn slide_offset_fades_while_appearing() {
    let mut toasts = Toasts::new();
    toasts.set_anchor(Anchor::TopRight);
    toasts.set_margin(Margin { x: 8, y: 8 });
    let i = toasts.add(Toast::info(String::from("in")));
    toasts.set_measured_height(i, 30);
    let laid = toasts.layout(&screen());
    assert_eq!(laid[0].x, 792 + SLIDE_DISTANCE as i128);
    toasts.tick(APPEAR_MS / 2);
    let laid = toasts.layout(&screen());
    assert_eq!(laid[0].x, 792 + (SLIDE_DISTANCE / 2) as i128);
    toasts.tick(APPEAR_MS / 2);
    let laid = toasts.layout(&screen());
    assert_eq!(laid[0].x, 792);
}

#[test]
fn reverse_flag_flips_display_order_only() {
    let mut toasts = Toasts::new();
    three_measured(&mut toasts);
    toasts.tick(APPEAR_MS);
    let forward = toasts.layout(&screen());
    toasts.set_reverse(true);
    let reversed = toasts.layout(&screen());
    let fwd_indices: Vec<usize> = forward.iter().map(|l| l.index).collect();
    let mut rev_indices: Vec<usize> = reversed.iter().map(|l| l.index).collect();
    rev_indices.reverse();
    assert_eq!(fwd_indices, rev_indices);
    // The vertical slots are the same either way; only who sits where moved.
    let fwd_ys: Vec<i128> = forward.iter().map(|l| l.y).collect();
    let rev_ys: Vec<i128> = reversed.iter().map(|l| l.y).collect();
    assert_eq!(fwd_ys, rev_ys);
    // Dismissal still follows true insertion order.
    toasts.dismiss_latest();
    assert_eq!(toasts.toasts[2].state, ToastState::Disappearing);
    assert_eq!(toasts.toasts[0].state, ToastState::Visible);
}

#[test]
fn show_ticks_reaps_and_lays_out_end_to_end() {
    let mut toasts = Toasts::new();
    let i = toasts.add(
        Toast::success(String::from("done")).with_duration(Some(2000)).with_closable(false),
    );
    toasts.set_measured_height(i, 40);

    // Within the configured duration the toast is still on screen.
    let laid = toasts.show(800, 600, 100);
    assert_eq!(laid.len(), 1);
    let laid = toasts.show(800, 600, 100);
    assert_eq!(laid.len(), 1);
    assert_eq!(toasts.toasts[0].state, ToastState::Visible);
    let laid = toasts.show(800, 600, 1699);
    assert_eq!(laid.len(), 1);
    assert_eq!(toasts.toasts[0].state, ToastState::Visible);

    // The tick that passes the deadline starts the exit animation.
    let laid = toasts.show(800, 600, 301);
    assert_eq!(laid.len(), 1);
    assert_eq!(toasts.toasts[0].state, ToastState::Disappearing);

    // Once the exit animation has run, the toast is gone from both the
    // registry and the layout.
    let laid = toasts.show(800, 600, DISAPPEAR_MS);
    assert!(laid.is_empty());
    assert_eq!(toasts.len(), 0);
}

#[test]
fn find_by_id_reports_the_declared_slot() {
    let mut toasts = Toasts::new();
    toasts.add(Toast::info(String::from("one")).with_id(String::from("x")));
    toasts.add(Toast::info(String::from("two")));
    assert_eq!(toasts.find_by_id(&String::from("x")), Some(0));
    assert_eq!(toasts.find_by_id(&String::from("y")), None);
}

#[test]
fn reap_drains_only_removed_toasts() {
    let mut toasts = Toasts::new();
    three_measured(&mut toasts);
    toasts.toasts[1].state = ToastState::Removed;
    toasts.reap();
    assert_eq!(toasts.len(), 2);
    assert_eq!(toasts.toasts[0].message, "a");
    assert_eq!(toasts.toasts[1].message, "c");
}
