use screenshot_session::events::{clip_cancel, clip_end, clip_start, mouse_move, UiEvent};
use screenshot_session::keys::{format_index, surface_key_for};
use screenshot_session::model::Point;

#[test]
fn surface_keys_are_prefixed_indices() {
    assert_eq!(surface_key_for(0), "screenshot_overlay_0");
    assert_eq!(surface_key_for(1), "screenshot_overlay_1");
    assert_eq!(surface_key_for(12), "screenshot_overlay_12");
    assert_eq!(surface_key_for(907), "screenshot_overlay_907");
}

#[test]
fn indices_format_in_decimal() {
    assert_eq!(format_index(0), "0");
    assert_eq!(format_index(9), "9");
    assert_eq!(format_index(10), "10");
    assert_eq!(format_index(90125), "90125");
}

#[test]
fn event_names_are_fixed() {
    assert_eq!(clip_start().event_name(), "clip-start");
    assert_eq!(clip_end(3).event_name(), "clip-end");
    assert_eq!(clip_cancel().event_name(), "clip-cancel");
    let p = Point { x: 10, y: -4 };
    assert_eq!(mouse_move(p).event_name(), "mouse-move");
}

#[test]
fn events_carry_their_payloads() {
    match clip_end(7) {
        UiEvent::ClipEnd { display_id } => assert_eq!(display_id, 7),
        _ => panic!("expected ClipEnd"),
    }
    match mouse_move(Point { x: -3, y: 12 }) {
        UiEvent::MouseMove { point } => {
            assert_eq!((point.x, point.y), (-3, 12));
        }
        _ => panic!("expected MouseMove"),
    }
}
