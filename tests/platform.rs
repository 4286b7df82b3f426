use bartog::command::{self, Rect};
use bartog::input::{BUTTON_A, BUTTON_B, BUTTON_LEFT};
use bartog::unscaled;
use bartog::{Button, Input, Speaker, SFX};

#[test]
fn from_unscaled_then_unscaled_is_identity_on_this_example() {
    let expected = Rect {
        x_min: command::X::clipped_inner(2),
        y_min: command::Y::clipped_inner(3),
        x_max: command::X::clipped_inner(5),
        y_max: command::Y::clipped_inner(7),
    };

    let actual = Rect::from_unscaled(expected.unscaled());

    assert_eq!(expected, actual);
}

#[test]
fn unscaled_then_from_unscaled_is_identity_on_this_example() {
    let expected = unscaled::Rect {
        x: unscaled::X(7),
        y: unscaled::Y(5),
        w: unscaled::W(3),
        h: unscaled::H(2),
    };

    let actual = Rect::from_unscaled(expected).unscaled();

    assert_eq!(expected, actual);
}

#[test]
fn clipping_holds_values_to_the_screen() {
    assert_eq!(command::X::clipped_inner(10).get(), unscaled::X(10));
    assert_eq!(command::X::clipped_inner(479).get(), unscaled::X(479));
    assert_eq!(command::X::clipped_inner(5000).get(), unscaled::X(479));
    assert_eq!(command::H::clipped_inner(600).get(), unscaled::H(479));
    assert_eq!(command::Y::clipped_inner(400).get(), unscaled::Y(319));
    assert_eq!(command::Y::clipped_inner(300).get(), unscaled::Y(300));
    assert_eq!(command::w_const_add(command::W::clipped_inner(400), command::W::clipped_inner(100)).get(), unscaled::W(479));
    assert_eq!(command::h_const_div(command::H::clipped_inner(100), 3).get(), unscaled::H(33));
    assert_eq!(command::w_to_usize(command::W::clipped_inner(12)), 12);
}

#[test]
fn rect_from_unscaled_clips_its_far_corner() {
    let r = Rect::from_unscaled(unscaled::Rect {
        x: unscaled::X(470),
        y: unscaled::Y(0),
        w: unscaled::W(20),
        h: unscaled::H(1),
    });
    assert_eq!(r.x_min.get(), unscaled::X(470));
    assert_eq!(r.x_max.get(), unscaled::X(479));
    assert_eq!(r.y_max.get(), unscaled::Y(0));
}

#[test]
fn unscaled_arithmetic_on_examples() {
    assert_eq!(unscaled::inner_from_u8(200), 200);
    assert_eq!(unscaled::w_const_add(unscaled::W(3), unscaled::W(4)), unscaled::W(7));
    assert_eq!(unscaled::w_const_sub(unscaled::W(9), unscaled::W(4)), unscaled::W(5));
    assert_eq!(unscaled::h_const_mul(unscaled::H(6), 7), unscaled::H(42));
    assert_eq!(unscaled::h_const_div(unscaled::H(7), 2), unscaled::H(3));
    assert_eq!(unscaled::x_const_add_w(unscaled::X(1), unscaled::W(2)), unscaled::X(3));
    assert_eq!(unscaled::X(5).saturating_sub(unscaled::W(9)), unscaled::X(0));
    assert_eq!(unscaled::X(65530).saturating_add(unscaled::W(9)), unscaled::X(65535));
    assert_eq!(unscaled::X(5).saturating_point_sub(unscaled::X(2)), unscaled::W(3));
    assert_eq!(unscaled::Y(2).saturating_point_sub(unscaled::Y(5)), unscaled::H(0));
    let r = unscaled::Rect::xy_wh(
        unscaled::XY { x: unscaled::X(1), y: unscaled::Y(2) },
        unscaled::WH { w: unscaled::W(3), h: unscaled::H(4) },
    );
    assert_eq!(r.xy(), unscaled::XY { x: unscaled::X(1), y: unscaled::Y(2) });
    assert_eq!(r.wh(), unscaled::WH { w: unscaled::W(3), h: unscaled::H(4) });
}

#[test]
fn buttons_insert_remove_and_contain() {
    let mut held = Button(0);
    held.insert(Button(BUTTON_A));
    held.insert(Button(BUTTON_LEFT));
    assert!(held.contains(Button(BUTTON_A)));
    assert!(held.contains(Button(BUTTON_A | BUTTON_LEFT)));
    assert!(!held.contains(Button(BUTTON_B)));
    held.remove(Button(BUTTON_A));
    assert!(!held.contains(Button(BUTTON_A)));
    assert_eq!(held, Button(BUTTON_LEFT));
}

#[test]
fn input_edges_between_frames() {
    let input = Input { gamepad: Button(BUTTON_A), previous_gamepad: Button(BUTTON_B) };
    assert!(input.pressed_this_frame(Button(BUTTON_A)));
    assert!(!input.released_this_frame(Button(BUTTON_A)));
    assert!(input.released_this_frame(Button(BUTTON_B)));
    assert!(!input.pressed_this_frame(Button(BUTTON_B)));
    let held = Input { gamepad: Button(BUTTON_A), previous_gamepad: Button(BUTTON_A) };
    assert!(!held.pressed_this_frame(Button(BUTTON_A)));
    assert!(!held.released_this_frame(Button(BUTTON_A)));
}

#[test]
fn speaker_keeps_requests_in_order_until_cleared() {
    let mut speaker = Speaker::default();
    assert!(speaker.slice().is_empty());
    speaker.request_sfx(SFX::CardSlide);
    speaker.request_sfx(SFX::ButtonPress);
    assert!(matches!(speaker.slice(), [SFX::CardSlide, SFX::ButtonPress]));
    speaker.clear();
    assert!(speaker.slice().is_empty());
}
