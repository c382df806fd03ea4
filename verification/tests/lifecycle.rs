use toasts::toast::Toast;
use toasts::toast::ToastKind;
use toasts::toast::ToastState;
use toasts::toast::APPEAR_MS;
use toasts::toast::DISAPPEAR_MS;
use toasts::toast::PROGRESS_FULL;

#[test]
fn fresh_toast_enters_appearing() {
    let t = Toast::success(String::from("saved"));
    assert_eq!(t.state, ToastState::Appearing);
    assert_eq!(t.age_ms, 0);
    assert_eq!(t.message, "saved");
    assert!(matches!(t.kind, ToastKind::Success));
    assert!(t.duration_ms.is_none());
    assert!(t.height.is_none());
    assert!(t.id.is_none());
}

#[test]
fn builder_configuration_sticks() {
    let t = Toast::warning(String::from("low disk"))
        .with_id(String::from("disk"))
        .with_duration(Some(1500))
        .with_closable(false)
        .with_show_progress(true)
        .with_font_size(20)
        .with_text_color(Some(0xFF0000FF));
    assert_eq!(t.id.as_deref(), Some("disk"));
    assert_eq!(t.duration_ms, Some(1500));
    assert!(!t.closable);
    assert!(t.show_progress);
    assert_eq!(t.font_size, 20);
    assert_eq!(t.text_color, Some(0xFF0000FF));
    assert!(matches!(t.kind, ToastKind::Warning));
}

#[test]
fn custom_kind_carries_label_and_color() {
    let t = Toast::custom(String::from("ping"), String::from("net"), 0x11223344);
    match &t.kind {
        ToastKind::Custom(label, color) => {
            assert_eq!(label, "net");
            assert_eq!(*color, 0x11223344);
        }
        _ => panic!("expected a custom kind"),
    }
}

#[test]
fn appearing_becomes_visible_when_animation_ends() {
    let mut t = Toast::info(String::from("hi"));
    t.tick(APPEAR_MS - 1);
    assert_eq!(t.state, ToastState::Appearing);
    t.tick(1);
    assert_eq!(t.state, ToastState::Visible);
}

#[test]
fn no_duration_stays_visible_across_many_ticks() {
    let mut t = Toast::info(String::from("pinned"));
    t.tick(APPEAR_MS);
    assert_eq!(t.state, ToastState::Visible);
    for _ in 0..10_000 {
        t.tick(3_600_000);
        assert_eq!(t.state, ToastState::Visible);
    }
}

#[test]
fn duration_expires_within_one_tick_and_not_before() {
    // The countdown runs while the toast is visible: it became visible at
    // age 200, so the deadline is age 2200.
    let mut t = Toast::info(String::from("soon")).with_duration(Some(2000));
    t.tick(APPEAR_MS);
    assert_eq!(t.state, ToastState::Visible);
    t.tick(1999);
    assert_eq!(t.state, ToastState::Visible);
    t.tick(1);
    assert_eq!(t.state, ToastState::Disappearing);
}

#[test]
fn zero_duration_expires_on_the_next_tick() {
    let mut t = Toast::info(String::from("blink")).with_duration(Some(0));
    t.tick(APPEAR_MS);
    assert_eq!(t.state, ToastState::Visible);
    t.tick(0);
    assert_eq!(t.state, ToastState::Disappearing);
}

#[test]
fn dismiss_forces_exit_and_then_removal() {
    let mut t = Toast::error(String::from("bad"));
    t.tick(50);
    t.dismiss();
    assert_eq!(t.state, ToastState::Disappearing);
    t.tick(DISAPPEAR_MS - 1);
    assert_eq!(t.state, ToastState::Disappearing);
    t.tick(1);
    assert_eq!(t.state, ToastState::Removed);
    t.dismiss();
    assert_eq!(t.state, ToastState::Removed);
    let age = t.age_ms;
    t.tick(500);
    assert_eq!(t.age_ms, age);
}

#[test]
fn progress_tracks_elapsed_time_in_state() {
    let mut t = Toast::basic(String::from("p"));
    assert_eq!(t.progress_permille(), 0);
    t.tick(APPEAR_MS / 2);
    assert_eq!(t.progress_permille(), PROGRESS_FULL / 2);
    t.tick(APPEAR_MS / 2);
    assert_eq!(t.state, ToastState::Visible);
    assert_eq!(t.progress_permille(), PROGRESS_FULL);
    t.dismiss();
    assert_eq!(t.progress_permille(), PROGRESS_FULL);
    t.tick(DISAPPEAR_MS / 4);
    assert_eq!(t.progress_permille(), PROGRESS_FULL - PROGRESS_FULL / 4);
    t.tick(DISAPPEAR_MS);
    assert_eq!(t.state, ToastState::Removed);
    assert_eq!(t.progress_permille(), 0);
}
