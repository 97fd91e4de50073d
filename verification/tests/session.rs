use screenshot_session::error::SessionError;
use screenshot_session::model::{Display, Screenshot};
use screenshot_session::state::AppState;

fn sample_screenshot(id: u32) -> Screenshot {
    Screenshot {
        id,
        name: format!("monitor-{}", id),
        x: 0,
        y: 0,
        width: 640,
        height: 480,
        image_data: String::from("aGVsbG8="),
        format: String::from("jpeg"),
        scale: 100,
    }
}

#[test]
fn debounce_guard_accepts_only_first() {
    let mut st = AppState::new();
    assert!(st.try_begin_capture());
    assert!(!st.try_begin_capture());
    assert!(!st.try_begin_capture());
    assert!(st.is_capturing());
    st.end_capture();
    assert!(!st.is_capturing());
    assert!(st.try_begin_capture());
}

#[test]
fn set_format_rejects_bmp_and_keeps_setting() {
    let mut st = AppState::new();
    assert_eq!(st.get_screenshot_format(), "jpeg");
    let r = st.set_screenshot_format(String::from("bmp"));
    assert!(matches!(r, Err(SessionError::InvalidFormat)));
    assert_eq!(st.get_screenshot_format(), "jpeg");
    let r = st.set_screenshot_format(String::from("png"));
    assert_eq!(r.unwrap(), "png");
    assert_eq!(st.get_screenshot_format(), "png");
    let r = st.set_screenshot_format(String::from("jpeg"));
    assert_eq!(r.unwrap(), "jpeg");
    assert_eq!(st.get_screenshot_format(), "jpeg");
}

#[test]
fn evict_is_idempotent() {
    let mut st = AppState::new();
    let key0 = String::from("screenshot_overlay_0");
    let key1 = String::from("screenshot_overlay_1");
    st.publish(key0.clone(), sample_screenshot(1));
    st.publish(key1.clone(), sample_screenshot(2));
    assert_eq!(st.get_all().len(), 2);

    st.evict(&key0);
    assert!(st.get(&key0).is_none());
    assert_eq!(st.get(&key1).unwrap().id, 2);

    st.evict(&key0);
    assert!(st.get(&key0).is_none());
    assert_eq!(st.get(&key1).unwrap().id, 2);

    st.evict(&String::from("never_published"));
    assert_eq!(st.get_all().len(), 1);
    assert_eq!(st.get(&key1).unwrap().id, 2);
}

#[test]
fn publish_overwrites_existing_key() {
    let mut st = AppState::new();
    let key = String::from("screenshot_overlay_0");
    st.publish(key.clone(), sample_screenshot(1));
    st.publish(key.clone(), sample_screenshot(9));
    let all = st.get_all();
    assert_eq!(all.len(), 1);
    assert_eq!(all[0].0, "screenshot_overlay_0");
    assert_eq!(all[0].1.id, 9);
}

#[test]
fn get_screenshot_data_reports_not_found() {
    let st = AppState::new();
    let label = String::from("screenshot_overlay_3");
    match st.get_screenshot_data(&label) {
        Err(e @ SessionError::NotFound { .. }) => {
            if let SessionError::NotFound { ref window } = e {
                assert_eq!(window, "screenshot_overlay_3");
            }
            assert_eq!(
                e.message(),
                "No screenshot found for window: screenshot_overlay_3"
            );
        }
        _ => panic!("expected NotFound"),
    }
}

#[test]
fn displays_are_cached_and_copied_out() {
    let mut st = AppState::new();
    assert!(st.get_displays_data().is_empty());
    st.set_displays(vec![Display {
        id: 7,
        name: String::from("DP-1"),
        x: -1920,
        y: 0,
        width: 1920,
        height: 1080,
        scale: 150,
    }]);
    let ds = st.get_displays_data();
    assert_eq!(ds.len(), 1);
    assert_eq!(ds[0].id, 7);
    assert_eq!(ds[0].name, "DP-1");
    assert_eq!(ds[0].x, -1920);
    assert_eq!(ds[0].scale, 150);
}
