use ascii_shadow::cli::{Args, InputSource};
use ascii_shadow::gif::is_gif;

#[test]
fn test_parse_background_none() {
    let args = Args {
        background: None,
        ..Default::default()
    };
    assert!(args.parse_background().unwrap().is_none());
}

#[test]
fn test_parse_background_hex() {
    let args = Args {
        background: Some("ff0000".to_string()),
        ..Default::default()
    };
    assert_eq!(args.parse_background().unwrap(), Some((255, 0, 0)));
}

#[test]
fn test_parse_background_with_hash() {
    let args = Args {
        background: Some("#1a2b3c".to_string()),
        ..Default::default()
    };
    assert_eq!(args.parse_background().unwrap(), Some((26, 43, 60)));
}

#[test]
fn test_is_gif_file() {
    assert!(is_gif(&InputSource::File("test.gif".to_string())));
    assert!(is_gif(&InputSource::File("test.GIF".to_string())));
    assert!(!is_gif(&InputSource::File("test.png".to_string())));
    assert!(!is_gif(&InputSource::File("test.jpg".to_string())));
}

#[test]
fn test_is_gif_url() {
    assert!(is_gif(&InputSource::Url(
        "https://example.com/image.gif".to_string()
    )));
    assert!(is_gif(&InputSource::Url(
        "https://example.com/image.GIF".to_string()
    )));
    assert!(!is_gif(&InputSource::Url(
        "https://example.com/image.png".to_string()
    )));
    assert!(!is_gif(&InputSource::Url(
        "https://example.com/image.jpg".to_string()
    )));
}
