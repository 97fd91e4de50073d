use screenshot_session::capture::capture_all_screens;
use screenshot_session::error::SessionError;
use screenshot_session::model::{Display, Frame, MonitorCapture};
use screenshot_session::state::AppState;

fn display(id: u32, width: u32, height: u32) -> Display {
    Display {
        id,
        name: format!("monitor-{}", id),
        x: 0,
        y: 0,
        width,
        height,
        scale: 100,
    }
}

fn frame(width: u32, height: u32) -> Frame {
    Frame {
        width,
        height,
        rgba: vec![127u8; (width as usize) * (height as usize) * 4],
    }
}

fn captured(id: u32, width: u32, height: u32) -> MonitorCapture {
    MonitorCapture {
        display: display(id, width, height),
        frame: Some(frame(width, height)),
    }
}

#[test]
fn capture_publishes_every_monitor_then_evicts_one() {
    let mut st = AppState::new();
    assert!(st.try_begin_capture());
    let shots = vec![captured(1, 1920, 1080), captured(2, 1280, 1024)];
    let labels = st.finish_capture(&shots).expect("capture should succeed");
    assert_eq!(labels, vec!["screenshot_overlay_0", "screenshot_overlay_1"]);
    assert!(!st.is_capturing());

    let all = st.get_screenshots_data();
    assert_eq!(all.len(), 2);
    let mut keys: Vec<String> = all.iter().map(|e| e.0.clone()).collect();
    keys.sort();
    assert_eq!(keys, vec!["screenshot_overlay_0", "screenshot_overlay_1"]);
    for (_, shot) in &all {
        assert_eq!(shot.format, "jpeg");
        assert!(!shot.image_data.is_empty());
    }

    let key0 = String::from("screenshot_overlay_0");
    let key1 = String::from("screenshot_overlay_1");
    let s0 = st.get_screenshot_data(&key0).unwrap();
    assert_eq!(s0.id, 1);
    assert_eq!((s0.width, s0.height), (1920, 1080));

    // The surface of monitor 0 is destroyed: its entry goes, the other stays.
    st.evict(&key0);
    assert!(matches!(
        st.get_screenshot_data(&key0),
        Err(SessionError::NotFound { .. })
    ));
    let s1 = st.get_screenshot_data(&key1).unwrap();
    assert_eq!(s1.id, 2);
    assert_eq!((s1.width, s1.height), (1280, 1024));
}

#[test]
fn failed_capture_publishes_nothing() {
    let mut st = AppState::new();
    assert!(st.try_begin_capture());
    let shots = vec![
        captured(1, 64, 64),
        MonitorCapture {
            display: display(2, 64, 64),
            frame: None,
        },
        captured(3, 64, 64),
    ];
    let r = st.finish_capture(&shots);
    assert!(matches!(r, Err(SessionError::CaptureFailed)));
    assert!(st.get_screenshots_data().is_empty());
    assert!(!st.is_capturing());
    // The guard was released: the next attempt is accepted.
    assert!(st.try_begin_capture());
}

#[test]
fn two_triggers_one_adapter_pass() {
    let mut st = AppState::new();
    let mut adapter_calls = 0;

    // Two hotkey presses land while the first capture is still running.
    let first = st.try_begin_capture();
    let second = st.try_begin_capture();
    assert!(first);
    assert!(!second);

    for accepted in [first, second] {
        if accepted {
            adapter_calls += 1;
            let shots = vec![captured(1, 32, 32)];
            st.finish_capture(&shots).unwrap();
        }
    }
    assert_eq!(adapter_calls, 1);
}

#[test]
fn freeze_screens_has_no_side_effects() {
    let mut st = AppState::new();
    st.set_screenshot_format(String::from("png")).unwrap();
    let shots = vec![captured(1, 16, 16), captured(2, 8, 8)];
    let images = st.freeze_screens(&shots).expect("freeze should succeed");
    assert_eq!(images.len(), 2);
    assert_eq!(images[0].format, "png");
    assert_eq!(images[1].format, "png");
    assert_eq!((images[0].width, images[0].height), (16, 16));
    // Neither the published map nor the guard was touched.
    assert!(st.get_screenshots_data().is_empty());
    assert!(!st.is_capturing());
    assert!(st.try_begin_capture());
}

#[test]
fn capture_with_unsupported_format_is_rejected() {
    let shots = vec![captured(1, 4, 4)];
    let r = capture_all_screens(&shots, &String::from("bmp"));
    assert!(matches!(r, Err(SessionError::UnsupportedFormat)));
}

#[test]
fn capture_of_no_monitors_succeeds_empty() {
    let shots: Vec<MonitorCapture> = Vec::new();
    let r = capture_all_screens(&shots, &String::from("jpeg"));
    assert!(r.unwrap().is_empty());
}

#[test]
fn capture_copies_monitor_identity() {
    let mut shot = captured(42, 4, 2);
    shot.display.x = -100;
    shot.display.y = 55;
    shot.display.scale = 200;
    let r = capture_all_screens(&vec![shot], &String::from("png")).unwrap();
    assert_eq!(r.len(), 1);
    assert_eq!(r[0].id, 42);
    assert_eq!(r[0].name, "monitor-42");
    assert_eq!((r[0].x, r[0].y), (-100, 55));
    assert_eq!((r[0].width, r[0].height), (4, 2));
    assert_eq!(r[0].scale, 200);
    assert_eq!(r[0].format, "png");
}

#[test]
fn first_failing_monitor_decides_the_error() {
    // Monitor 0's buffer is too short for its dimensions, so its encode
    // is refused before monitor 1's missing frame is ever reached.
    let short = MonitorCapture {
        display: display(1, 8, 8),
        frame: Some(Frame {
            width: 8,
            height: 8,
            rgba: vec![0u8; 16],
        }),
    };
    let missing = MonitorCapture {
        display: display(2, 8, 8),
        frame: None,
    };
    let r = capture_all_screens(&vec![short, missing], &String::from("jpeg"));
    assert!(matches!(r, Err(SessionError::EncodeFailed)));

    // In the opposite order the missing frame comes first.
    let short = MonitorCapture {
        display: display(1, 8, 8),
        frame: Some(Frame {
            width: 8,
            height: 8,
            rgba: vec![0u8; 16],
        }),
    };
    let missing = MonitorCapture {
        display: display(2, 8, 8),
        frame: None,
    };
    let r = capture_all_screens(&vec![missing, short], &String::from("jpeg"));
    assert!(matches!(r, Err(SessionError::CaptureFailed)));
}

#[test]
fn oversized_jpeg_dimension_is_refused() {
    // JPEG carries dimensions as 16-bit values; 65536 is out of range
    // even though the buffer itself is consistent.
    let shot = MonitorCapture {
        display: display(1, 65536, 1),
        frame: Some(Frame {
            width: 65536,
            height: 1,
            rgba: vec![0u8; 65536 * 4],
        }),
    };
    let r = capture_all_screens(&vec![shot], &String::from("jpeg"));
    assert!(matches!(r, Err(SessionError::EncodeFailed)));
}
