//! End-to-end exercises of the paste lifecycle manager.

use pasties::model::Manager;
use pasties::model::NewPasteData;
use pasties::model::PasteCredentials;
use pasties::model::PasteError;

fn new_paste(url: &str, content: &str, password: &str) -> NewPasteData {
    NewPasteData {
        url: url.to_string(),
        content: content.to_string(),
        password: password.to_string(),
    }
}

fn credentials(url: &str, password: &str) -> PasteCredentials {
    PasteCredentials { url: url.to_string(), password: password.to_string() }
}

#[test]
fn create_then_retrieve_matches() {
    let mut manager = Manager::init();
    let creds = manager
        .create_paste(new_paste("abc", "hello world", "pw"))
        .expect("create should succeed");
    assert_eq!(creds.url, "abc");
    assert_eq!(creds.password, "pw");
    let view = manager.retrieve_paste("abc".to_string()).expect("retrieve should succeed");
    assert_eq!(view.url, "abc");
    assert_eq!(view.content, "hello world");
    assert_eq!(view.date_published, view.date_edited);
}

#[test]
fn create_existing_url_fails() {
    let mut manager = Manager::init();
    manager.create_paste(new_paste("abc", "first", "pw")).expect("create should succeed");
    let second = manager.create_paste(new_paste("abc", "second", "other"));
    assert!(matches!(second, Err(PasteError::AlreadyExists)));
    let view = manager.retrieve_paste("abc".to_string()).expect("retrieve should succeed");
    assert_eq!(view.content, "first");
}

#[test]
fn content_length_boundaries() {
    let mut manager = Manager::init();
    let empty = manager.create_paste(new_paste("a", "", "pw"));
    assert!(matches!(empty, Err(PasteError::InvalidContent)));
    let too_long = manager.create_paste(new_paste("b", &"x".repeat(200_001), "pw"));
    assert!(matches!(too_long, Err(PasteError::InvalidContent)));
    manager.create_paste(new_paste("c", "x", "pw")).expect("one byte should be accepted");
    manager
        .create_paste(new_paste("d", &"x".repeat(200_000), "pw"))
        .expect("200000 bytes should be accepted");
}

#[test]
fn url_with_forbidden_byte_fails() {
    let mut manager = Manager::init();
    for url in ["abc def", "a/b", "é", "a\tb", "x!"] {
        let result = manager.create_paste(new_paste(url, "content", "pw"));
        assert!(matches!(result, Err(PasteError::InvalidUrl)));
    }
}

#[test]
fn url_over_250_bytes_fails() {
    let mut manager = Manager::init();
    let result = manager.create_paste(new_paste(&"a".repeat(251), "content", "pw"));
    assert!(matches!(result, Err(PasteError::InvalidUrl)));
    manager
        .create_paste(new_paste(&"a".repeat(250), "content", "pw"))
        .expect("250 bytes should be accepted");
}

#[test]
fn password_over_250_bytes_fails() {
    let mut manager = Manager::init();
    let result = manager.create_paste(new_paste("abc", "content", &"p".repeat(251)));
    assert!(matches!(result, Err(PasteError::InvalidPassword)));
    manager
        .create_paste(new_paste("abc", "content", &"p".repeat(250)))
        .expect("250 bytes should be accepted");
}

#[test]
fn update_with_wrong_password_fails() {
    let mut manager = Manager::init();
    manager.create_paste(new_paste("abc", "original", "right")).expect("create should succeed");
    let result = manager.update_paste(credentials("abc", "wrong"), new_paste("", "changed", ""));
    assert!(matches!(result, Err(PasteError::IncorrectPassword)));
    let view = manager.retrieve_paste("abc".to_string()).expect("retrieve should succeed");
    assert_eq!(view.content, "original");
}

#[test]
fn delete_with_wrong_password_fails() {
    let mut manager = Manager::init();
    manager.create_paste(new_paste("abc", "original", "right")).expect("create should succeed");
    let result = manager.delete_paste(credentials("abc", "wrong"));
    assert!(matches!(result, Err(PasteError::IncorrectPassword)));
    let view = manager.retrieve_paste("abc".to_string());
    assert!(view.is_ok());
}

#[test]
fn update_nonexistent_fails() {
    let mut manager = Manager::init();
    let result = manager.update_paste(credentials("ghost", "pw"), new_paste("", "content", ""));
    assert!(matches!(result, Err(PasteError::NotFound)));
}

#[test]
fn delete_nonexistent_fails() {
    let mut manager = Manager::init();
    let result = manager.delete_paste(credentials("ghost", "pw"));
    assert!(matches!(result, Err(PasteError::NotFound)));
}

#[test]
fn retrieve_twice_is_identical() {
    let mut manager = Manager::init();
    manager.create_paste(new_paste("abc", "steady", "pw")).expect("create should succeed");
    let first = manager.retrieve_paste("abc".to_string()).expect("retrieve should succeed");
    let second = manager.retrieve_paste("abc".to_string()).expect("retrieve should succeed");
    assert_eq!(first.url, second.url);
    assert_eq!(first.content, second.content);
    assert_eq!(first.date_published, second.date_published);
    assert_eq!(first.date_edited, second.date_edited);
}

#[test]
fn create_update_retrieve_round_trip() {
    let mut manager = Manager::init();
    manager.create_paste(new_paste("abc", "before", "pw")).expect("create should succeed");
    let before = manager.retrieve_paste("abc".to_string()).expect("retrieve should succeed");
    manager
        .update_paste(credentials("abc", "pw"), new_paste("", "after", ""))
        .expect("update should succeed");
    let view = manager.retrieve_paste("abc".to_string()).expect("retrieve should succeed");
    assert_eq!(view.content, "after");
    assert_eq!(view.date_published, before.date_published);
    assert!(view.date_published <= view.date_edited);
}

#[test]
fn create_with_generated_url_and_password() {
    let mut manager = Manager::init();
    let creds = manager
        .create_paste(new_paste("", "hello", ""))
        .expect("create with defaults should succeed");
    assert!(!creds.url.is_empty());
    assert!(creds.url.bytes().all(|b| b.is_ascii_alphanumeric()));
    assert!(!creds.password.is_empty());
    let view = manager.retrieve_paste(creds.url.clone()).expect("retrieve should succeed");
    assert_eq!(view.content, "hello");
}

#[test]
fn create_with_space_in_url_fails() {
    let mut manager = Manager::init();
    let result = manager.create_paste(new_paste("abc def", "x", "p"));
    assert!(matches!(result, Err(PasteError::InvalidUrl)));
}

#[test]
fn delete_then_retrieve_fails() {
    let mut manager = Manager::init();
    manager.create_paste(new_paste("abc", "short lived", "pw")).expect("create should succeed");
    manager.delete_paste(credentials("abc", "pw")).expect("delete should succeed");
    let view = manager.retrieve_paste("abc".to_string());
    assert!(matches!(view, Err(PasteError::NotFound)));
}

#[test]
fn second_delete_reports_not_found() {
    let mut manager = Manager::init();
    manager.create_paste(new_paste("abc", "short lived", "pw")).expect("create should succeed");
    manager.delete_paste(credentials("abc", "pw")).expect("delete should succeed");
    let again = manager.delete_paste(credentials("abc", "pw"));
    assert!(matches!(again, Err(PasteError::NotFound)));
}

#[test]
fn two_generated_urls_coexist() {
    let mut manager = Manager::init();
    let first = manager.create_paste(new_paste("", "one", "")).expect("create should succeed");
    let second = manager.create_paste(new_paste("", "two", "")).expect("create should succeed");
    let one = manager.retrieve_paste(first.url.clone()).expect("first paste should be found");
    assert_eq!(one.content, "one");
    let two = manager.retrieve_paste(second.url.clone()).expect("second paste should be found");
    assert_eq!(two.content, "two");
}

#[test]
fn update_renames_paste() {
    let mut manager = Manager::init();
    manager.create_paste(new_paste("old", "body", "pw")).expect("create should succeed");
    manager
        .update_paste(credentials("old", "pw"), new_paste("new", "body", ""))
        .expect("update should succeed");
    assert!(matches!(
        manager.retrieve_paste("old".to_string()),
        Err(PasteError::NotFound)
    ));
    let view = manager.retrieve_paste("new".to_string()).expect("renamed paste should be found");
    assert_eq!(view.content, "body");
}

#[test]
fn update_keeps_password_when_omitted() {
    let mut manager = Manager::init();
    manager.create_paste(new_paste("abc", "v1", "pw")).expect("create should succeed");
    manager
        .update_paste(credentials("abc", "pw"), new_paste("", "v2", ""))
        .expect("update should succeed");
    manager
        .update_paste(credentials("abc", "pw"), new_paste("", "v3", ""))
        .expect("the old password should still authorize");
    let view = manager.retrieve_paste("abc".to_string()).expect("retrieve should succeed");
    assert_eq!(view.content, "v3");
}

#[test]
fn update_changes_password() {
    let mut manager = Manager::init();
    manager.create_paste(new_paste("abc", "v1", "pw")).expect("create should succeed");
    manager
        .update_paste(credentials("abc", "pw"), new_paste("", "v2", "fresh"))
        .expect("update should succeed");
    let stale = manager.update_paste(credentials("abc", "pw"), new_paste("", "v3", ""));
    assert!(matches!(stale, Err(PasteError::IncorrectPassword)));
    manager
        .update_paste(credentials("abc", "fresh"), new_paste("", "v3", ""))
        .expect("the new password should authorize");
}

#[test]
fn update_with_long_password_fails() {
    let mut manager = Manager::init();
    manager.create_paste(new_paste("abc", "v1", "pw")).expect("create should succeed");
    let result =
        manager.update_paste(credentials("abc", "pw"), new_paste("", "v2", &"p".repeat(251)));
    assert!(matches!(result, Err(PasteError::InvalidPassword)));
}

#[test]
fn update_with_empty_content_fails() {
    let mut manager = Manager::init();
    manager.create_paste(new_paste("abc", "v1", "pw")).expect("create should succeed");
    let result = manager.update_paste(credentials("abc", "pw"), new_paste("", "", ""));
    assert!(matches!(result, Err(PasteError::InvalidContent)));
    let view = manager.retrieve_paste("abc".to_string()).expect("retrieve should succeed");
    assert_eq!(view.content, "v1");
}
