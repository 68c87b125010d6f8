use base64::Engine;
use image_mirror::config::Settings;
use image_mirror::source::{
    parse_path_pairs, resolve_source, source_for_url, source_from_decoded, temporary_path, ImageSource,
    SourceError,
};

fn settings(paths: &str) -> Settings {
    Settings::new(String::new(), String::new(), 250, 750, 3, paths.to_string()).unwrap()
}

fn name_of(url: &str) -> String {
    base64::engine::general_purpose::URL_SAFE.encode(url.as_bytes())
}

fn local(r: Result<ImageSource, SourceError>) -> Option<String> {
    match r {
        Ok(ImageSource::Local(p)) => Some(p),
        _ => None,
    }
}

fn remote(r: Result<ImageSource, SourceError>) -> Option<String> {
    match r {
        Ok(ImageSource::Remote(u)) => Some(u),
        _ => None,
    }
}

#[test]
fn path_pairs_are_read() {
    let p = parse_path_pairs("https://a/|/x/,bad,https://b/|/y/|z,https://c/|/w/");
    let p: Vec<(String, String)> =
        p.into_iter().map(|(a, b)| (a.into_iter().collect(), b.into_iter().collect())).collect();
    assert_eq!(p, vec![("https://a/".to_string(), "/x/".to_string()), ("https://c/".to_string(), "/w/".to_string())]);
    assert!(parse_path_pairs("").is_empty());
}

#[test]
fn mapped_url_is_local() {
    let s = settings("https://site.com/|/var/www/site.com/,https://site.ru/|/var/www/site.ru/");
    let r = resolve_source(&name_of("https://site.ru/img/a.png"), &s);
    assert_eq!(local(r), Some("/var/www/site.ru/img/a.png".to_string()));
}

#[test]
fn every_occurrence_is_replaced() {
    let r = source_for_url(&"https://a/x/https://a/y".to_string(), "https://a/|/l/");
    assert_eq!(local(r), Some("/l/x//l/y".to_string()));
}

#[test]
fn later_pair_for_same_prefix_wins() {
    let r = source_for_url(&"https://a/x".to_string(), "https://a/|/first/,https://a/|/second/");
    assert_eq!(local(r), Some("/second/x".to_string()));
}

#[test]
fn empty_prefix_matches_everything() {
    let r = source_for_url(&"ab".to_string(), "|-");
    assert_eq!(local(r), Some("-a-b-".to_string()));
}

#[test]
fn traversal_is_refused() {
    let s = settings("https://site.com/|/var/www/site.com/");
    let r = resolve_source(&name_of("https://site.com/../etc/passwd"), &s);
    assert_eq!(r.err(), Some(SourceError::PathTraversal));
}

#[test]
fn unmapped_url_is_remote() {
    let s = settings("https://site.com/|/var/www/site.com/");
    let r = resolve_source(&name_of("https://other.org/../a.png"), &s);
    assert_eq!(remote(r), Some("https://other.org/../a.png".to_string()));
}

#[test]
fn bad_names_are_refused() {
    let s = settings("");
    assert_eq!(resolve_source("not base64!", &s).err(), Some(SourceError::InvalidBase64));
    assert_eq!(resolve_source("aGVsbG8", &s).err(), Some(SourceError::InvalidBase64));
    let bad = base64::engine::general_purpose::URL_SAFE.encode([0xffu8, 0xfe]);
    assert_eq!(resolve_source(&bad, &s).err(), Some(SourceError::InvalidUtf8));
    assert_eq!(source_from_decoded(None, "").err(), Some(SourceError::InvalidBase64));
    assert_eq!(source_from_decoded(Some(vec![0xc3]), "").err(), Some(SourceError::InvalidUtf8));
    assert_eq!(remote(source_from_decoded(Some(b"https://x".to_vec()), "")), Some("https://x".to_string()));
}

#[test]
fn url_safe_names_decode() {
    // `_` is the URL-safe digit for 63: "Pz8_" is "???".
    assert_eq!(remote(resolve_source("Pz8_", &settings(""))), Some("???".to_string()));
    // The standard alphabet's `/` is refused.
    assert_eq!(resolve_source("Pz8/", &settings("")).err(), Some(SourceError::InvalidBase64));
}

#[test]
fn temporary_paths() {
    assert_eq!(temporary_path(&"./images/a.webp".to_string()), "./images/a.webp.tmp");
}
