use image_mirror::address::{
    addresses_are_public, is_public_ip, public_url_target, redirect_decision, IpAddress, RedirectDecision,
};
use image_mirror::fetch::{
    check_body_length, check_response, fetch_target, target_of_parts, ContentTypeHeader, FetchError, UrlParts,
    MAX_DOWNLOAD_BYTES,
};

fn v4(a: u8, b: u8, c: u8, d: u8) -> IpAddress {
    IpAddress::V4([a, b, c, d])
}

fn v6(s: [u16; 8]) -> IpAddress {
    IpAddress::V6(s)
}

#[test]
fn public_ipv4() {
    assert!(is_public_ip(&v4(8, 8, 8, 8)));
    assert!(is_public_ip(&v4(172, 32, 0, 1)));
    assert!(is_public_ip(&v4(100, 128, 0, 1)));
    assert!(is_public_ip(&v4(192, 0, 1, 1)));
    assert!(is_public_ip(&v4(239, 255, 255, 255)));
}

#[test]
fn non_public_ipv4() {
    for ip in [
        v4(10, 1, 2, 3),
        v4(172, 16, 0, 1),
        v4(172, 31, 255, 255),
        v4(192, 168, 1, 1),
        v4(127, 0, 0, 1),
        v4(169, 254, 1, 1),
        v4(255, 255, 255, 255),
        v4(192, 0, 2, 5),
        v4(198, 51, 100, 5),
        v4(203, 0, 113, 5),
        v4(0, 0, 0, 0),
        v4(0, 1, 2, 3),
        v4(100, 64, 0, 1),
        v4(100, 127, 255, 255),
        v4(192, 0, 0, 9),
        v4(240, 0, 0, 1),
    ] {
        assert!(!is_public_ip(&ip), "{:?}", ip);
    }
}

#[test]
fn ipv6_addresses() {
    assert!(!is_public_ip(&v6([0, 0, 0, 0, 0, 0, 0, 1])));
    assert!(!is_public_ip(&v6([0; 8])));
    assert!(!is_public_ip(&v6([0, 0, 0, 0, 0, 0xffff, 0x0a00, 0x0001])));
    assert!(is_public_ip(&v6([0, 0, 0, 0, 0, 0xffff, 0x0808, 0x0808])));
    assert!(!is_public_ip(&v6([0xfe80, 0, 0, 0, 0, 0, 0, 1])));
    assert!(!is_public_ip(&v6([0xfebf, 0, 0, 0, 0, 0, 0, 1])));
    assert!(is_public_ip(&v6([0xfec0, 0, 0, 0, 0, 0, 0, 1])));
    assert!(!is_public_ip(&v6([0xfc00, 0, 0, 0, 0, 0, 0, 1])));
    assert!(!is_public_ip(&v6([0xfdff, 0, 0, 0, 0, 0, 0, 1])));
    assert!(is_public_ip(&v6([0x2001, 0x4860, 0x4860, 0, 0, 0, 0, 0x8888])));
}

#[test]
fn address_lists() {
    assert!(!addresses_are_public(&vec![]));
    assert!(addresses_are_public(&vec![v4(8, 8, 8, 8), v4(1, 1, 1, 1)]));
    assert!(!addresses_are_public(&vec![v4(8, 8, 8, 8), v4(10, 0, 0, 1)]));
}

#[test]
fn url_targets() {
    assert_eq!(public_url_target("https", Some("site.com"), None), Some(("site.com".to_string(), 443)));
    assert_eq!(public_url_target("https", Some("site.com"), Some(8443)), Some(("site.com".to_string(), 8443)));
    assert_eq!(public_url_target("http", Some("site.com"), Some(80)), None);
    assert_eq!(public_url_target("https", None, Some(443)), None);
    assert_eq!(public_url_target("HTTPS", Some("a"), None), None);
}

#[test]
fn redirects() {
    assert_eq!(redirect_decision(0, true), RedirectDecision::Follow);
    assert_eq!(redirect_decision(4, true), RedirectDecision::Follow);
    assert_eq!(redirect_decision(5, true), RedirectDecision::TooManyRedirects);
    assert_eq!(redirect_decision(2, false), RedirectDecision::NotPublic);
}

#[test]
fn fetch_targets_from_urls() {
    assert_eq!(fetch_target("https://example.com/a.png"), Ok(("example.com".to_string(), 443)));
    assert_eq!(fetch_target("https://example.com:8443/a.png"), Ok(("example.com".to_string(), 8443)));
    assert_eq!(fetch_target("http://example.com/a.png"), Err(FetchError::NotPublic));
    assert_eq!(fetch_target("not a url"), Err(FetchError::InvalidUrl));
    assert_eq!(target_of_parts(None), Err(FetchError::InvalidUrl));
    let parts = UrlParts { scheme: "https".to_string(), host: Some("h".to_string()), port: None };
    assert_eq!(target_of_parts(Some(parts)), Ok(("h".to_string(), 443)));
}

#[test]
fn response_checks() {
    let img = ContentTypeHeader::Text(" \timage/png".to_string());
    assert_eq!(check_response(true, &img, Some(10)), Ok(()));
    assert_eq!(check_response(false, &img, Some(10)), Err(FetchError::BadStatus));
    assert_eq!(check_response(true, &ContentTypeHeader::Absent, None), Ok(()));
    assert_eq!(check_response(true, &ContentTypeHeader::NotText, None), Err(FetchError::NotAnImage));
    let html = ContentTypeHeader::Text("text/html".to_string());
    assert_eq!(check_response(true, &html, None), Err(FetchError::NotAnImage));
    let upper = ContentTypeHeader::Text("Image/png".to_string());
    assert_eq!(check_response(true, &upper, None), Err(FetchError::NotAnImage));
    assert_eq!(check_response(true, &img, Some(MAX_DOWNLOAD_BYTES)), Ok(()));
    assert_eq!(check_response(true, &img, Some(MAX_DOWNLOAD_BYTES + 1)), Err(FetchError::TooLarge));
    assert_eq!(check_response(false, &html, Some(u64::MAX)), Err(FetchError::BadStatus));
}

#[test]
fn body_lengths() {
    assert_eq!(check_body_length(0), Ok(()));
    assert_eq!(check_body_length(16 * 1024 * 1024), Ok(()));
    assert_eq!(check_body_length(16 * 1024 * 1024 + 1), Err(FetchError::TooLarge));
}
