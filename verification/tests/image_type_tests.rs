use image_mirror::config::{parse_bool, parse_u32, Settings};
use image_mirror::image_type::{decode_remote_image, FileFormat, ImageType};

fn settings() -> Settings {
    Settings::new(
        "https://site.com/images/".to_string(),
        "./images/".to_string(),
        250,
        750,
        3,
        "https://site.com/|/var/www/site.com/".to_string(),
    )
    .unwrap()
}

fn thumb(w: u32, h: u32, q: u32, l: bool) -> ImageType {
    ImageType::Thumbnail { nwidth: w, nheight: h, quality: q, lossless: l }
}

#[test]
fn normal_label() {
    assert_eq!(ImageType::Normal.to_string(), "normal");
}

#[test]
fn thumbnail_labels() {
    assert_eq!(thumb(250, 750, 80, false).to_string(), "thumbnail_250_750_q80");
    assert_eq!(thumb(250, 750, 80, true).to_string(), "thumbnail_250_750_lossless_q80");
    assert_eq!(thumb(0, 4294967295, 100, false).to_string(), "thumbnail_0_4294967295_q100");
}

#[test]
fn names_and_file_names() {
    let n = "aGVsbG8=".to_string();
    assert_eq!(ImageType::Normal.name(&n), "aGVsbG8=_normal");
    assert_eq!(ImageType::Normal.file_name(&n), "aGVsbG8=_normal.webp");
    assert_eq!(thumb(1, 2, 3, true).file_name(&n), "aGVsbG8=_thumbnail_1_2_lossless_q3.webp");
}

#[test]
fn extern_and_local_paths() {
    let s = settings();
    let n = "abc".to_string();
    assert_eq!(ImageType::Normal.extern_path(&n, &s), "https://site.com/images/abc_normal.webp");
    assert_eq!(ImageType::Normal.local_path(&n, &s), "./images/abc_normal.webp");
    let small = ImageType::small(&s);
    assert_eq!(small.local_path(&n, &s), "./images/abc_thumbnail_250_750_q100.webp");
    let medium = ImageType::medium(&s);
    assert_eq!(medium.extern_path(&n, &s), "https://site.com/images/abc_thumbnail_750_2250_q100.webp");
}

#[test]
fn quality_and_lossless() {
    assert_eq!(ImageType::Normal.quality(), 100);
    assert!(!ImageType::Normal.lossless());
    assert_eq!(thumb(1, 1, 42, true).quality(), 42);
    assert!(thumb(1, 1, 42, true).lossless());
}

#[test]
fn small_and_medium_types() {
    let s = settings();
    assert_eq!(ImageType::small(&s), thumb(250, 750, 100, false));
    assert_eq!(ImageType::medium(&s), thumb(750, 2250, 100, false));
}

#[test]
fn settings_refuse_overflowing_heights() {
    let s = Settings::new(String::new(), String::new(), 2_000_000_000, 1, 3, String::new());
    assert!(s.is_none());
    let s = Settings::new(String::new(), String::new(), 1, 2_000_000_000, 3, String::new());
    assert!(s.is_none());
    assert!(Settings::new(String::new(), String::new(), 250, 750, 3, String::new()).is_some());
}

#[test]
fn parse_u32_reads_digits() {
    assert_eq!(parse_u32("250"), 250);
    assert_eq!(parse_u32("750"), 750);
    assert_eq!(parse_u32("3"), 3);
    assert_eq!(parse_u32(""), 0);
    assert_eq!(parse_u32("4294967295"), 4294967295);
    assert_eq!(parse_u32("007"), 7);
}

#[test]
fn parse_u32_reads_back_labels() {
    for n in [0u32, 9, 10, 12345, 4294967295] {
        let label = ImageType::Thumbnail { nwidth: n, nheight: 0, quality: 0, lossless: false }.to_string();
        let digits = &label["thumbnail_".len()..label.find("_0_q0").unwrap()];
        assert_eq!(parse_u32(digits), n);
    }
}

#[test]
fn parse_bool_flags() {
    assert!(parse_bool(Some("1")));
    assert!(parse_bool(Some("true")));
    assert!(parse_bool(Some("yes")));
    assert!(!parse_bool(Some("0")));
    assert!(!parse_bool(Some("TRUE")));
    assert!(!parse_bool(Some("yes ")));
    assert!(!parse_bool(Some("")));
    assert!(!parse_bool(None));
}

#[test]
fn process_image_keeps_or_scales() {
    let img = image::DynamicImage::new_rgb8(100, 50);
    let kept = ImageType::Normal.process_image(img.clone());
    assert_eq!((kept.width(), kept.height()), (100, 50));
    let scaled = thumb(10, 30, 100, false).process_image(img);
    assert_eq!((scaled.width(), scaled.height()), (10, 5));
}

#[test]
fn file_format_is_webp() {
    assert_eq!(ImageType::Normal.file_format(), FileFormat::WebP);
    assert_eq!(thumb(1, 1, 1, false).file_format(), FileFormat::WebP);
}

#[test]
fn distinct_types_have_distinct_labels() {
    let types = [
        ImageType::Normal,
        thumb(1, 23, 4, false),
        thumb(12, 3, 4, false),
        thumb(1, 23, 4, true),
        thumb(1, 2, 34, false),
        thumb(12, 34, 0, false),
    ];
    for (i, a) in types.iter().enumerate() {
        for (j, b) in types.iter().enumerate() {
            assert_eq!(i == j, a.to_string() == b.to_string());
        }
    }
}

#[test]
fn distinct_type_name_pairs_have_distinct_local_paths() {
    let s = settings();
    let pairs = [
        (ImageType::Normal, "a"),
        (ImageType::Normal, "a_normal"),
        (thumb(1, 2, 3, false), "a"),
        (thumb(1, 2, 3, false), "a_thumbnail_1_2_q3"),
        (thumb(1, 2, 3, true), "a"),
        (ImageType::Normal, "a_thumbnail_1_2_q3"),
    ];
    for (i, (t1, n1)) in pairs.iter().enumerate() {
        for (j, (t2, n2)) in pairs.iter().enumerate() {
            let p1 = t1.local_path(&n1.to_string(), &s);
            let p2 = t2.local_path(&n2.to_string(), &s);
            assert_eq!(i == j, p1 == p2);
        }
    }
}

#[test]
fn parse_u32_appending_and_leading_zeros() {
    assert_eq!(parse_u32("25"), 25);
    assert_eq!(parse_u32("250"), 10 * parse_u32("25"));
    assert_eq!(parse_u32("2507"), 10 * parse_u32("250") + 7);
    assert_eq!(parse_u32("0250"), parse_u32("250"));
    assert_eq!(parse_u32("000"), 0);
}

#[test]
fn remote_png_bytes_decode() {
    let img = image::DynamicImage::new_rgb8(7, 3);
    let mut bytes: Vec<u8> = Vec::new();
    img.write_to(&mut std::io::Cursor::new(&mut bytes), image::ImageFormat::Png).unwrap();
    let decoded = decode_remote_image(&bytes).unwrap();
    assert_eq!((decoded.width(), decoded.height()), (7, 3));
}

#[test]
fn remote_garbage_bytes_do_not_decode() {
    assert!(decode_remote_image(b"not an image at all").is_err());
    assert!(decode_remote_image(&[]).is_err());
}
