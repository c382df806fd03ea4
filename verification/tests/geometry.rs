use toasts::anchor::Anchor;
use toasts::anchor::Margin;
use toasts::anchor::Rectangle;

fn rect() -> Rectangle {
    Rectangle { min_x: 0, min_y: 0, max_x: 100, max_y: 200 }
}

#[test]
fn corner_zero_margin_is_exact_corner() {
    let m = Margin { x: 0, y: 0 };
    let p = Anchor::TopRight.corner_of(&rect(), &m);
    assert_eq!((p.x, p.y), (100, 0));
    let p = Anchor::TopLeft.corner_of(&rect(), &m);
    assert_eq!((p.x, p.y), (0, 0));
    let p = Anchor::BottomRight.corner_of(&rect(), &m);
    assert_eq!((p.x, p.y), (100, 200));
    let p = Anchor::BottomLeft.corner_of(&rect(), &m);
    assert_eq!((p.x, p.y), (0, 200));
}

#[test]
fn corner_positive_margin_moves_inward() {
    let m = Margin { x: 8, y: 10 };
    let p = Anchor::TopRight.corner_of(&rect(), &m);
    assert_eq!((p.x, p.y), (92, 10));
    let p = Anchor::TopLeft.corner_of(&rect(), &m);
    assert_eq!((p.x, p.y), (8, 10));
    let p = Anchor::BottomRight.corner_of(&rect(), &m);
    assert_eq!((p.x, p.y), (92, 190));
    let p = Anchor::BottomLeft.corner_of(&rect(), &m);
    assert_eq!((p.x, p.y), (8, 190));
}

#[test]
fn corner_of_offset_rectangle() {
    let r = Rectangle { min_x: 50, min_y: 60, max_x: 300, max_y: 400 };
    let m = Margin { x: 5, y: 7 };
    let p = Anchor::TopLeft.corner_of(&r, &m);
    assert_eq!((p.x, p.y), (55, 67));
    let p = Anchor::BottomRight.corner_of(&r, &m);
    assert_eq!((p.x, p.y), (295, 393));
}

#[test]
fn screen_corner_is_origin_rectangle_corner() {
    let m = Margin { x: 8, y: 10 };
    for a in [Anchor::TopRight, Anchor::TopLeft, Anchor::BottomRight, Anchor::BottomLeft] {
        let via_screen = a.screen_corner(100, 200, &m);
        let via_rect = a.corner_of(&rect(), &m);
        assert_eq!(via_screen, via_rect);
    }
}

#[test]
fn slide_sign_by_side() {
    assert_eq!(Anchor::TopRight.slide_sign(), 1);
    assert_eq!(Anchor::BottomRight.slide_sign(), 1);
    assert_eq!(Anchor::TopLeft.slide_sign(), -1);
    assert_eq!(Anchor::BottomLeft.slide_sign(), -1);
}

#[test]
fn apply_margin_sign_convention() {
    let m = Margin { x: 3, y: 4 };
    let mut p = toasts::anchor::Position { x: 10, y: 20 };
    Anchor::TopRight.apply_margin(&mut p, &m);
    assert_eq!((p.x, p.y), (7, 24));
    let mut p = toasts::anchor::Position { x: 10, y: 20 };
    Anchor::BottomLeft.apply_margin(&mut p, &m);
    assert_eq!((p.x, p.y), (13, 16));
}
