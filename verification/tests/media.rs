use ech_board::error::RelayError;
use ech_board::media::{media_meta, thumbnail};

fn png(w: u32, h: u32) -> Vec<u8> {
    let img = image::DynamicImage::ImageRgb8(image::RgbImage::new(w, h));
    let mut buf = Vec::new();
    img.write_to(&mut std::io::Cursor::new(&mut buf), image::ImageFormat::Png).unwrap();
    buf
}

fn size_of(bytes: &[u8]) -> (u32, u32) {
    image::GenericImageView::dimensions(&image::load_from_memory(bytes).unwrap())
}

fn message(e: RelayError) -> String {
    match e {
        RelayError::SponsorBuild(m) => m,
        other => panic!("{other:?}"),
    }
}

#[test]
fn picture_records() {
    let data = png(300, 100);
    let meta = media_meta(&data, &[], Some(5)).unwrap();
    assert_eq!(meta.mime, "image/png");
    assert_eq!((meta.width, meta.height), (300, 100));
    assert_eq!(meta.duration_ms, None);
    assert_eq!(meta.size, data.len() as u64);
    assert_eq!(message(media_meta(b"plain text", &[], None).unwrap_err()), "unsupported media format");
}

#[test]
fn video_records_use_the_frame() {
    let mut mp4 = vec![0, 0, 0, 24];
    mp4.extend_from_slice(b"ftypisom");
    mp4.extend_from_slice(&[0; 12]);
    let frame = png(64, 48);
    let meta = media_meta(&mp4, &frame, Some(1500)).unwrap();
    assert_eq!(meta.mime, "video/mp4");
    assert_eq!((meta.width, meta.height), (64, 48));
    assert_eq!(meta.duration_ms, Some(1500));
    assert_eq!(meta.size, mp4.len() as u64);
    assert!(message(media_meta(&mp4, b"not a png", None).unwrap_err()).starts_with("frame decode: "));
}

#[test]
fn thumbnails_fit_the_square() {
    let big = thumbnail(&png(440, 110), &[]).unwrap();
    assert_eq!(&big[..3], &[0xff, 0xd8, 0xff]);
    assert_eq!(size_of(&big), (220, 55));
    let small = thumbnail(&png(20, 10), &[]).unwrap();
    assert_eq!(size_of(&small), (20, 10));
    let mut broken = png(20, 10);
    broken.truncate(20);
    assert!(message(thumbnail(&broken, &[]).unwrap_err()).starts_with("image decode: "));
}
