use topic_broker::smoke::{check_smoke_reply, ReplyItem, SmokeFailure};
use topic_broker::stats::percentile;

#[test]
fn percentile_scenario() {
    let data: Vec<u128> = vec![10, 20, 30, 40, 50];
    assert_eq!(percentile(&data, 50), 30);
    assert_eq!(percentile(&data, 90), 50);
    assert_eq!(percentile(&data, 99), 50);
}

#[test]
fn percentile_edges() {
    let empty: Vec<u128> = Vec::new();
    assert_eq!(percentile(&empty, 50), 0);
    let one: Vec<u128> = vec![7];
    assert_eq!(percentile(&one, 0), 7);
    assert_eq!(percentile(&one, 100), 7);
    let data: Vec<u128> = vec![1, 2, 3, 4];
    assert_eq!(percentile(&data, 0), 1);
    assert_eq!(percentile(&data, 100), 4);
    // 0.5 * 3 = 1.5 rounds up to index 2
    assert_eq!(percentile(&data, 50), 3);
    // 0.25 * 3 = 0.75 rounds to index 1
    assert_eq!(percentile(&data, 25), 2);
}

fn item(topic: &str, text: Option<&str>) -> ReplyItem {
    ReplyItem { topic: topic.to_string(), text: text.map(|t| t.to_string()) }
}

#[test]
fn smoke_reply_ok() {
    let reply = vec![item("/foo/bar", Some("hello"))];
    assert_eq!(check_smoke_reply(&reply, "/foo/bar", "hello"), Ok(()));
}

#[test]
fn smoke_reply_wrong_count() {
    assert_eq!(check_smoke_reply(&vec![], "/foo/bar", "hello"), Err(SmokeFailure::WrongCount));
    let two = vec![item("/foo/bar", Some("hello")), item("/foo/bar", Some("hello"))];
    assert_eq!(check_smoke_reply(&two, "/foo/bar", "hello"), Err(SmokeFailure::WrongCount));
}

#[test]
fn smoke_reply_mismatch() {
    let cases = vec![
        item("/bar", Some("hello")),
        item("/foo/bar", Some("noop")),
        item("/foo/bar", None),
    ];
    for c in cases {
        assert_eq!(
            check_smoke_reply(&vec![c], "/foo/bar", "hello"),
            Err(SmokeFailure::ContentMismatch)
        );
    }
}
