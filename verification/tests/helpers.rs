//! Exercises of the validation, hashing and rendering helpers.

use pasties::markdown::render_markdown;
use pasties::model::check_url;
use pasties::model::NewPasteData;
use pasties::model::PasteCredentials;
use pasties::model::UpdateForm;
use pasties::utility::hash_string;
use pasties::utility::is_url_safe;
use pasties::utility::pseudoid;
use pasties::utility::random_string;
use pasties::utility::unix_timestamp;

#[test]
fn hash_string_matches_known_digest() {
    assert_eq!(
        hash_string("a".to_string()),
        "ca978112ca1bbdcafac231b39a23dc4da786eff8147c4e72b9807785afee48bb"
    );
    assert_eq!(
        hash_string(String::new()),
        "e3b0c44298fc1c149afbf4c8996fb92427ae41e4649b934ca495991b7852b855"
    );
}

#[test]
fn hash_string_is_sixty_four_hex_digits() {
    let digest = hash_string("pasties".to_string());
    assert_eq!(digest.len(), 64);
    assert!(digest.bytes().all(|b| b.is_ascii_hexdigit() && !b.is_ascii_uppercase()));
    assert_ne!(digest, "pasties");
}

#[test]
fn random_string_is_url_safe_token() {
    let token = random_string();
    assert_eq!(token.len(), 64);
    assert!(token.bytes().all(|b| b.is_ascii_hexdigit() && !b.is_ascii_uppercase()));
    assert!(is_url_safe(&token));
}

#[test]
fn is_url_safe_accepts_the_url_character_class() {
    assert!(is_url_safe(""));
    assert!(is_url_safe("AZaz09-_"));
    assert!(!is_url_safe("a b"));
    assert!(!is_url_safe("a/b"));
    assert!(!is_url_safe("café"));
    assert!(!is_url_safe("a.b"));
}

#[test]
fn check_url_reports_invalid_urls() {
    assert!(check_url(&"fine-URL_9".to_string()).is_ok());
    assert!(check_url(&String::new()).is_ok());
    assert!(check_url(&"no spaces".to_string()).is_err());
    assert!(check_url(&"a".repeat(251)).is_err());
}

#[test]
fn unix_timestamp_is_nonnegative() {
    assert!(unix_timestamp() >= 0);
}

#[test]
fn pseudoid_draws_a_value() {
    let _ = pseudoid();
}

#[test]
fn render_markdown_produces_html() {
    let html = render_markdown("# Title".to_string());
    assert!(html.contains("<h1>Title</h1>"));
    let paragraph = render_markdown("plain".to_string());
    assert_eq!(paragraph, "<p>plain</p>\n");
}

#[test]
fn update_form_splits_into_credentials_and_data() {
    let form = UpdateForm {
        url: "abc".to_string(),
        password: "pw".to_string(),
        content: "body".to_string(),
        new_url: "xyz".to_string(),
        new_password: "fresh".to_string(),
    };
    let (credentials, update): (PasteCredentials, NewPasteData) = form.into_parts();
    assert_eq!(credentials.url, "abc");
    assert_eq!(credentials.password, "pw");
    assert_eq!(update.url, "xyz");
    assert_eq!(update.content, "body");
    assert_eq!(update.password, "fresh");
}
