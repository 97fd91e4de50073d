use base64::Engine;
use screenshot_session::codec::encode_frame;
use screenshot_session::error::SessionError;
use screenshot_session::model::Frame;

fn gradient_frame(width: u32, height: u32) -> Frame {
    let mut rgba = Vec::with_capacity((width * height * 4) as usize);
    for y in 0..height {
        for x in 0..width {
            rgba.push((x * 40 % 256) as u8);
            rgba.push((y * 80 % 256) as u8);
            rgba.push(((x + y) * 30 % 256) as u8);
            rgba.push(255);
        }
    }
    Frame { width, height, rgba }
}

#[test]
fn jpeg_encoding_matches_the_codecs() {
    let frame = gradient_frame(6, 4);
    let got = encode_frame(&frame, &String::from("jpeg")).expect("jpeg encode");

    let img = image::RgbaImage::from_raw(6, 4, frame.rgba.clone()).unwrap();
    let rgb = image::DynamicImage::ImageRgba8(img).to_rgb8();
    let mut buf = std::io::Cursor::new(Vec::new());
    let mut encoder = image::codecs::jpeg::JpegEncoder::new_with_quality(&mut buf, 85);
    encoder.encode_image(&rgb).unwrap();
    let expected = base64::engine::general_purpose::STANDARD.encode(buf.into_inner());

    assert_eq!(got, expected);
}

#[test]
fn png_encoding_matches_the_codecs() {
    let frame = gradient_frame(5, 3);
    let got = encode_frame(&frame, &String::from("png")).expect("png encode");

    let img = image::RgbaImage::from_raw(5, 3, frame.rgba.clone()).unwrap();
    let mut buf = std::io::Cursor::new(Vec::new());
    img.write_to(&mut buf, image::ImageFormat::Png).unwrap();
    let expected = base64::engine::general_purpose::STANDARD.encode(buf.into_inner());

    assert_eq!(got, expected);
    // PNG is lossless: decoding the transported bytes gives the pixels back.
    let decoded = base64::engine::general_purpose::STANDARD
        .decode(got)
        .unwrap();
    let back = image::load_from_memory(&decoded).unwrap().to_rgba8();
    assert_eq!(back.into_raw(), frame.rgba);
}

#[test]
fn encode_rejects_unsupported_format() {
    let frame = gradient_frame(2, 2);
    let r = encode_frame(&frame, &String::from("gif"));
    assert!(matches!(r, Err(SessionError::UnsupportedFormat)));
}

#[test]
fn encode_reports_codec_refusal() {
    // A buffer that does not hold width * height RGBA pixels.
    let frame = Frame {
        width: 10,
        height: 10,
        rgba: vec![0u8; 7],
    };
    let r = encode_frame(&frame, &String::from("png"));
    assert!(matches!(r, Err(SessionError::EncodeFailed)));
}

#[test]
fn error_messages_name_the_failure() {
    assert_eq!(
        SessionError::CaptureFailed.message(),
        "Failed to capture screen"
    );
    assert_eq!(
        SessionError::UnsupportedFormat.message(),
        "Unsupported screenshot format"
    );
    assert_eq!(
        SessionError::InvalidFormat.message(),
        "Unsupported screenshot format"
    );
    assert_eq!(
        SessionError::EncodeFailed.message(),
        "Failed to encode screenshot"
    );
}
