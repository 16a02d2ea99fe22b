use sha3::{Digest, Sha3_256};
use backend::fs::previews::{
    cache_path, cached_file_name, cached_resolution_of, is_deprecated_cache, check_preview_request, get_highest_cached,
    is_allowed_format, preview_file_name, preview_resolution, use_nearest_filter, ImagePreviewResponse,
    DEFAULT_PREVIEW_RES,
};

fn chars(s: &str) -> Vec<char> {
    s.chars().collect()
}

const HASH: &str = "0123456789abcdef0123456789abcdef0123456789abcdef0123456789abcdef";

#[test]
fn allowed_formats() {
    assert!(is_allowed_format(&chars("png")));
    assert!(is_allowed_format(&chars("jpg")));
    assert!(is_allowed_format(&chars("jpeg")));
    assert!(!is_allowed_format(&chars("PNG")));
    assert!(!is_allowed_format(&chars("gif")));
}

#[test]
fn preview_request_checks() {
    assert!(matches!(check_preview_request(false, "/d/a.png", None), Err(ImagePreviewResponse::NotFound)));
    assert!(matches!(
        check_preview_request(true, "/d/a.txt", None),
        Err(ImagePreviewResponse::NoImage("File needs to be an image (.png)"))
    ));
    assert!(matches!(check_preview_request(true, "/d/noext", None), Err(ImagePreviewResponse::NoImage(_))));
    assert!(matches!(
        check_preview_request(true, "/d/a.png", Some(99)),
        Err(ImagePreviewResponse::WrongSize("Allowed res >= 100 & <= 2048"))
    ));
    assert!(check_preview_request(true, "/d/a.png", Some(2048)).is_ok());
    assert!(matches!(check_preview_request(true, "/d/a.png", Some(2049)), Err(ImagePreviewResponse::WrongSize(_))));
    assert!(check_preview_request(true, "/d/a.png", Some(100)).is_ok());
    assert!(check_preview_request(true, "/d/a.jpg", Some(2047)).is_ok());
    assert!(check_preview_request(true, "/d/a.jpeg", None).is_ok());
}

#[test]
fn resolution_of_cached_names() {
    assert_eq!(cached_resolution_of(&chars("256_abc.jpg")), Some(256));
    assert_eq!(cached_resolution_of(&chars("1024")), Some(1024));
    assert_eq!(cached_resolution_of(&chars("x_abc.jpg")), None);
    assert_eq!(cached_resolution_of(&chars("_abc.jpg")), None);
}

#[test]
fn highest_cached_resolution() {
    let names = vec![
        format!("256_{}.jpg", &HASH[..30]),
        format!("1024_{}.jpg", &HASH[..30]),
        "2000_other.jpg".to_string(),
        format!("bad_{}.jpg", &HASH[..30]),
    ];
    assert_eq!(get_highest_cached(&names, &HASH[..30]), Some(1024));
    assert_eq!(get_highest_cached(&names, "nothing"), None);
    assert_eq!(get_highest_cached(&vec![], "x"), None);
}

#[test]
fn resolution_choice() {
    assert_eq!(preview_resolution(Some(300), Some(1024)), 300);
    assert_eq!(preview_resolution(None, Some(1024)), 1024);
    assert_eq!(preview_resolution(None, None), DEFAULT_PREVIEW_RES);
}

#[test]
fn cached_file_names() {
    assert_eq!(cached_file_name(256, HASH), format!("256_{}.jpg", &HASH[..30]));
    assert!(use_nearest_filter(500));
    assert!(!use_nearest_filter(499));
}

#[test]
fn stale_caches() {
    assert!(is_deprecated_cache(Some(10), Some(5)));
    assert!(!is_deprecated_cache(Some(5), Some(5)));
    assert!(!is_deprecated_cache(Some(4), Some(5)));
    assert!(is_deprecated_cache(None, Some(5)));
    assert!(is_deprecated_cache(Some(5), None));
}

#[test]
fn preview_cache_folder() {
    assert_eq!(cache_path("/tmp"), "/tmp/what-cloud/previews");
    assert_eq!(cache_path("/tmp/"), "/tmp/what-cloud/previews");
}

#[test]
fn preview_file_names() {
    let path = "/data/user0001/pics/cat.png";
    let hex: String = Sha3_256::digest(path.as_bytes()).iter().map(|b| format!("{:02x}", b)).collect();
    let (res, name) = preview_file_name(path, Some(300), None);
    assert_eq!(res, 300);
    assert_eq!(name, format!("300_{}.jpg", &hex[..30]));
    // cached names carry only 30 digits of the hash, which is looked for whole: they
    // are not found again
    let cached = vec![format!("512_{}.jpg", &hex[..30]), format!("1024_{}.jpg", &hex[..30])];
    assert_eq!(preview_file_name(path, None, Some(cached)).0, DEFAULT_PREVIEW_RES);
    let listing = vec![format!("512_{}", hex), format!("1024_{}", hex), "2000_x.jpg".to_string()];
    let (res, name) = preview_file_name(path, None, Some(listing.clone()));
    assert_eq!(res, 1024);
    assert_eq!(name, format!("1024_{}.jpg", &hex[..30]));
    // with a resolution asked for, the listing is not looked at
    assert_eq!(preview_file_name(path, Some(128), Some(listing)).0, 128);
    assert_eq!(preview_file_name(path, None, None).0, DEFAULT_PREVIEW_RES);
}
