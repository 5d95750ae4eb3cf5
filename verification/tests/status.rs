use wayback_submit::level::Level;
use wayback_submit::queue::level_for;
use wayback_submit::status::{Category, Status};

#[test]
fn status_needs_three_digits() {
    assert!(Status::new(0).is_none());
    assert!(Status::new(99).is_none());
    assert!(Status::new(100).is_some());
    assert!(Status::new(999).is_some());
    assert!(Status::new(1000).is_none());
    assert!(Status::new(u16::MAX).is_none());
}

#[test]
fn status_keeps_its_code() {
    assert_eq!(Status::new(200).unwrap().code(), 200);
    assert_eq!(Status::new(429).unwrap().code(), 429);
}

#[test]
fn only_200_is_a_success() {
    assert_eq!(Status::new(200).unwrap().category(), Category::Success);
    assert_eq!(Status::new(201).unwrap().category(), Category::Failure);
    assert_eq!(Status::new(204).unwrap().category(), Category::Failure);
    assert_eq!(Status::new(199).unwrap().category(), Category::Failure);
}

#[test]
fn only_429_is_rate_limited() {
    assert_eq!(Status::new(429).unwrap().category(), Category::RateLimited);
    assert_eq!(Status::new(428).unwrap().category(), Category::Failure);
    assert_eq!(Status::new(430).unwrap().category(), Category::Failure);
    assert_eq!(Status::new(503).unwrap().category(), Category::Failure);
}

#[test]
fn status_text_has_code_and_reason() {
    assert_eq!(Status::new(200).unwrap().text(), "200 OK");
    assert_eq!(Status::new(429).unwrap().text(), "429 Too Many Requests");
    assert_eq!(Status::new(404).unwrap().text(), "404 Not Found");
    assert_eq!(Status::new(500).unwrap().text(), "500 Internal Server Error");
}

#[test]
fn status_text_agrees_with_reqwest() {
    for code in 100..=999u16 {
        let expected = reqwest::StatusCode::from_u16(code).unwrap().to_string();
        assert_eq!(Status::new(code).unwrap().text(), expected);
    }
}

#[test]
fn status_without_a_reason_says_so() {
    assert_eq!(Status::new(999).unwrap().text(), "999 <unknown status code>");
}

#[test]
fn level_follows_the_category() {
    assert_eq!(level_for(Category::Success), Level::Info);
    assert_eq!(level_for(Category::RateLimited), Level::Warn);
    assert_eq!(level_for(Category::Failure), Level::Error);
}
