use image_mirror::cached_images::{
    parse_mirror_url, CachedImagesError, CachedImagesLookup, CachedImagesRequest, MAX_CACHED_URLS,
};
use image_mirror::config::Settings;
use image_mirror::image_type::ImageType;

fn settings() -> Settings {
    Settings::new(
        "https://site.com/images/".to_string(),
        "./images/".to_string(),
        250,
        750,
        3,
        String::new(),
    )
    .unwrap()
}

#[test]
fn mirror_url_with_small_selector() {
    let s = settings();
    let r = parse_mirror_url("https://img.site.com/small/aGVsbG8=", &s).unwrap();
    assert_eq!(r.0, ImageType::small(&s));
    assert_eq!(r.1, "aGVsbG8=");
}

#[test]
fn mirror_url_with_medium_selector_query_and_slashes() {
    let s = settings();
    let r = parse_mirror_url("https://img.site.com/medium//a-b_c=//?size=1/2", &s).unwrap();
    assert_eq!(r.0, ImageType::medium(&s));
    assert_eq!(r.1, "a-b_c=");
}

#[test]
fn mirror_url_without_selector_is_normal() {
    let s = settings();
    assert_eq!(parse_mirror_url("https://img.site.com/abc", &s), Some((ImageType::Normal, "abc".to_string())));
    assert_eq!(parse_mirror_url("/other/abc", &s), Some((ImageType::Normal, "abc".to_string())));
    assert_eq!(parse_mirror_url("abc", &s), Some((ImageType::Normal, "abc".to_string())));
    assert_eq!(parse_mirror_url("/Small/abc", &s), Some((ImageType::Normal, "abc".to_string())));
}

#[test]
fn mirror_url_rejects_bad_tokens() {
    let s = settings();
    assert_eq!(parse_mirror_url("https://img.site.com/small/ab+c", &s), None);
    assert_eq!(parse_mirror_url("https://img.site.com/small/ab%2F", &s), None);
    assert_eq!(parse_mirror_url("https://img.site.com/small/é", &s), None);
    assert_eq!(parse_mirror_url("", &s), None);
    assert_eq!(parse_mirror_url("////", &s), None);
    assert_eq!(parse_mirror_url("?a/b", &s), None);
}

#[test]
fn lookup_refuses_too_many_urls() {
    let req = CachedImagesRequest { urls: vec!["a".to_string(); MAX_CACHED_URLS + 1] };
    assert_eq!(CachedImagesLookup::start(&req).err(), Some(CachedImagesError::PayloadTooLarge));
    let req = CachedImagesRequest { urls: vec!["a".to_string(); MAX_CACHED_URLS] };
    assert!(CachedImagesLookup::start(&req).is_ok());
}

#[test]
fn lookup_records_each_url_once() {
    let s = settings();
    let req = CachedImagesRequest { urls: vec![] };
    let mut l = CachedImagesLookup::start(&req).unwrap();
    let url = "https://img.site.com/small/abc".to_string();
    let (local, ext) = l.candidate(&url, &s).unwrap();
    assert_eq!(local, "./images/abc_thumbnail_250_750_q100.webp");
    assert_eq!(ext, "https://img.site.com/small/abc".replace("https://img.site.com/small/abc", "https://site.com/images/abc_thumbnail_250_750_q100.webp"));
    assert!(!l.contains(&url));
    l.record(url.clone(), ext.clone());
    assert!(l.contains(&url));
    assert_eq!(l.candidate(&url, &s), None);
    l.record(url.clone(), "other".to_string());
    assert_eq!(l.candidate(&"bad/+".to_string(), &s), None);
    let entries = l.into_entries();
    assert_eq!(entries, vec![(url, ext)]);
}

#[test]
fn mirror_file_names_stay_in_storage() {
    let s = settings();
    for url in ["https://x/small/a-b_c==", "https://x/medium/Zz9", "/q/q/q?../../x", "x/__"] {
        let (t, token) = parse_mirror_url(url, &s).unwrap();
        let f = t.file_name(&token);
        assert!(!f.contains('/'));
        assert_eq!(f.find('.'), Some(f.len() - 5));
    }
}
