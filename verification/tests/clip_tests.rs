use clipboard_bridge::clip::{
    png_to_rgba, rgba_to_png, Clip, DecodedLayout, Echo, PngError, Rgba, MIME_PNG, MIME_TEXT,
};

#[test]
fn png_roundtrip() {
    let img = Rgba { width: 2, height: 2, bytes: vec![255, 0, 0, 255, 0, 255, 0, 128, 0, 0, 255, 0, 9, 9, 9, 9] };
    let png = rgba_to_png(&img).unwrap();
    let back = png_to_rgba(&png).unwrap();
    assert_eq!((back.width, back.height), (2, 2));
    assert_eq!(back.bytes, img.bytes);
}

#[test]
fn echo_suppresses_repeat() {
    let mut e = Echo::default();
    let c = Clip::text(b"hi".to_vec());
    assert!(e.note(&c));
    assert!(!e.note(&c));
    assert!(e.note(&Clip::text(b"other".to_vec())));
}

#[test]
fn echo_same_data_other_type_is_new() {
    let mut e = Echo::default();
    assert!(e.note(&Clip::text(b"abc".to_vec())));
    assert!(e.note(&Clip::png(b"abc".to_vec())));
    assert!(e.note(&Clip::text(b"abc".to_vec())));
    assert!(!e.note(&Clip::text(b"abc".to_vec())));
}

#[test]
fn constructors_set_mime() {
    let t = Clip::text(vec![1, 2]);
    assert_eq!(t.mime, MIME_TEXT);
    assert_eq!(t.data, vec![1, 2]);
    let p = Clip::png(vec![3]);
    assert_eq!(p.mime, MIME_PNG);
    assert_eq!(p.data, vec![3]);
}

#[test]
fn fingerprint_hashes_mime_zero_and_data() {
    let fp = Clip::text(b"hi".to_vec()).fingerprint();
    assert_eq!(hex::encode(fp), "43fc6a37d37c97d488d05dae28689cb8b458d53fcc9b9c59faecee235e62dafb");
}

#[test]
fn describe_short_text() {
    assert_eq!(Clip::text(b"hello".to_vec()).describe(), "text \"hello\"");
}

#[test]
fn describe_newlines_become_return_symbol() {
    assert_eq!(Clip::text(b"a\nb".to_vec()).describe(), "text \"a\u{23ce}b\"");
}

#[test]
fn describe_long_text_is_cut_at_forty() {
    let data = "x".repeat(41).into_bytes();
    let d = Clip::text(data).describe();
    assert_eq!(d, format!("text \"{}\u{2026}\"", "x".repeat(40)));
    let exact = Clip::text("y".repeat(40).into_bytes()).describe();
    assert_eq!(exact, format!("text \"{}\"", "y".repeat(40)));
}

#[test]
fn describe_counts_characters_not_bytes() {
    let data = "é".repeat(40).into_bytes();
    assert_eq!(Clip::text(data).describe(), format!("text \"{}\"", "é".repeat(40)));
}

#[test]
fn describe_invalid_utf8_is_lossy() {
    assert_eq!(Clip::text(vec![0x61, 0xff]).describe(), "text \"a\u{fffd}\"");
}

#[test]
fn describe_image_gives_type_and_size() {
    assert_eq!(Clip::png(vec![0; 1234]).describe(), "image/png (1234 bytes)");
    let c = Clip { mime: "application/x".to_string(), data: vec![] };
    assert_eq!(c.describe(), "application/x (0 bytes)");
}

#[test]
fn png_gray_alpha_is_spread_to_rgba() {
    let mut out = Vec::new();
    {
        let mut enc = png::Encoder::new(&mut out, 2, 1);
        enc.set_color(png::ColorType::GrayscaleAlpha);
        enc.set_depth(png::BitDepth::Eight);
        let mut w = enc.write_header().unwrap();
        w.write_image_data(&[10, 20, 30, 40]).unwrap();
        w.finish().unwrap();
    }
    let img = png_to_rgba(&out).unwrap();
    assert_eq!((img.width, img.height), (2, 1));
    assert_eq!(img.bytes, vec![10, 10, 10, 20, 30, 30, 30, 40]);
}

#[test]
fn png_rgb_is_taken_as_rgba() {
    let mut out = Vec::new();
    {
        let mut enc = png::Encoder::new(&mut out, 1, 1);
        enc.set_color(png::ColorType::Rgb);
        enc.set_depth(png::BitDepth::Eight);
        let mut w = enc.write_header().unwrap();
        w.write_image_data(&[1, 2, 3]).unwrap();
        w.finish().unwrap();
    }
    let img = png_to_rgba(&out).unwrap();
    assert_eq!(img.bytes, vec![1, 2, 3, 255]);
}

#[test]
fn png_garbage_is_a_decoding_error() {
    assert!(matches!(png_to_rgba(b"not a png"), Err(PngError::Decoding(_))));
}

#[test]
fn png_wrong_pixel_count_is_a_size_error() {
    let img = Rgba { width: 2, height: 2, bytes: vec![0; 3] };
    assert!(matches!(rgba_to_png(&img), Err(PngError::BufferSize { expected: 16, actual: 3 })));
    let huge = Rgba { width: u32::MAX, height: u32::MAX, bytes: vec![] };
    let big = 4 * (u32::MAX as u128) * (u32::MAX as u128);
    assert!(matches!(rgba_to_png(&huge), Err(PngError::BufferSize { expected, actual: 0 }) if expected == big));
}

#[test]
fn png_zero_width_is_an_encoding_error() {
    let img = Rgba { width: 0, height: 3, bytes: vec![] };
    assert!(matches!(rgba_to_png(&img), Err(PngError::Encoding(_))));
}

#[test]
fn decoded_layouts_differ() {
    assert_ne!(DecodedLayout::Rgba, DecodedLayout::Other);
}
