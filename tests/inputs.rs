use ruthub::api::get_list;
use ruthub::itemquery::contains_str;
use ruthub::error::ServiceError;
use ruthub::model::StarFlag;
use ruthub::query::{decode_url, is_word, items_selector, page_window, ItemsPerID};
use ruthub::validate::{re_test_name, re_test_psw, re_test_url, test_len_limit};

#[test]
fn len_limit_trims() {
    assert!(test_len_limit("  ab  ", 2, 2));
    assert!(!test_len_limit("  ab  ", 3, 10));
    assert!(!test_len_limit("abcdef", 1, 5));
    assert!(test_len_limit("   ", 0, 0));
}

#[test]
fn name_password_url_patterns() {
    assert!(re_test_name("alice-01"));
    assert!(!re_test_name("al"));
    assert!(!re_test_name("a b c"));
    assert!(re_test_psw("s3cret#word"));
    assert!(!re_test_psw("short"));
    assert!(re_test_url("https://example.org/a?b"));
    assert!(re_test_url("http://host:8080"));
    assert!(!re_test_url("ftp://host"));
}

#[test]
fn url_selector_decodes_base64() {
    assert_eq!(decode_url("aHR0cHM6Ly9hLm9yZy9i"), "https://a.org/b");
    assert_eq!(decode_url("//79"), "not_url");
    assert_eq!(decode_url("%%%"), "");
}

#[test]
fn selectors_from_paths() {
    let sel = items_selector(" url ", "aHR0cHM6Ly9hLm9yZy9i".to_string(), 3, 1, String::new(), String::new());
    assert_eq!(sel, ItemsPerID::ItemUrl("https://a.org/b".to_string()));
    let sel = items_selector("user", "bob".to_string(), 2, 4, String::new(), String::new());
    assert_eq!(sel, ItemsPerID::UserID("bob".to_string(), 2, 4));
    let sel = items_selector("key", "bob".to_string(), 3, 1, "rust".to_string(), "user".to_string());
    assert_eq!(sel, ItemsPerID::KeyID("rust".to_string(), "user".to_string(), "bob".to_string(), 1));
    let sel = items_selector("whatever", "i9".to_string(), 3, 1, String::new(), String::new());
    assert_eq!(sel, ItemsPerID::ItemID("i9".to_string()));
    let store = ruthub::store::Store::new();
    assert_eq!(get_list(&store, "title", String::new(), 3, 1, String::new(), String::new()), Err(ServiceError::BadInput));
    assert_eq!(get_list(&store, "rut", String::new(), 3, 1, String::new(), String::new()), Ok((vec![], 0)));
    assert_eq!(ruthub::query::collects_selector(" item ", "i".to_string(), 2), ruthub::model::CollectIDs::ItemID("i".to_string(), 2));
    assert_eq!(ruthub::query::collects_selector("x", "r".to_string(), 2), ruthub::model::CollectIDs::RutID("r".to_string()));
}

#[test]
fn paging_windows() {
    assert_eq!(page_window(0), (10, 0));
    assert_eq!(page_window(-3), (10, 0));
    assert_eq!(page_window(1), (20, 0));
    assert_eq!(page_window(3), (20, 40));
}

#[test]
fn words_and_flags() {
    assert!(is_word("tag", "tag"));
    assert!(!is_word("tags", "tag"));
    assert_eq!(StarFlag::from_code(3), Some(StarFlag::Done));
    assert_eq!(StarFlag::from_code(1), Some(StarFlag::Todo));
    assert_eq!(StarFlag::from_code(9), None);
}

#[test]
fn substring_search() {
    assert!(contains_str("rust book", "st b"));
    assert!(contains_str("abc", ""));
    assert!(!contains_str("abc", "abcd"));
    assert!(!contains_str("abc", "ac"));
}
