use serde_json::Value;
use topic_broker::broker::Broker;
use topic_broker::message::Message;

fn text(s: &str) -> Value {
    Value::String(s.to_string())
}

fn pairs(msgs: &[Message]) -> Vec<(String, Value)> {
    msgs.iter().map(|m| (m.topic.clone(), m.data.clone())).collect()
}

#[test]
fn end_to_end_scenario() {
    let mut b = Broker::new();
    b.attach_queue("test".to_string(), "/foo".to_string());
    b.publish("/foo/bar", text("hello"));
    b.publish("/bar", text("noop"));
    let got = b.get_messages("test");
    assert_eq!(pairs(&got), vec![("/foo/bar".to_string(), text("hello"))]);
    assert!(b.get_messages("test").is_empty());
}

#[test]
fn drain_returns_publish_order() {
    let mut b = Broker::new();
    b.attach_queue("q".to_string(), "/a".to_string());
    b.publish("/a/1", text("one"));
    b.publish("/b", text("skip"));
    b.publish("/a", text("two"));
    b.publish("/a/x/y", Value::Bool(true));
    let got = b.get_messages("q");
    assert_eq!(
        pairs(&got),
        vec![
            ("/a/1".to_string(), text("one")),
            ("/a".to_string(), text("two")),
            ("/a/x/y".to_string(), Value::Bool(true)),
        ]
    );
}

#[test]
fn second_drain_is_empty() {
    let mut b = Broker::new();
    b.attach_queue("q".to_string(), "".to_string());
    b.publish("/z", Value::Null);
    assert_eq!(b.get_messages("q").len(), 1);
    assert!(b.get_messages("q").is_empty());
    b.publish("/z", Value::Null);
    assert_eq!(b.get_messages("q").len(), 1);
}

#[test]
fn reattach_discards_buffer() {
    let mut b = Broker::new();
    b.attach_queue("q".to_string(), "/a".to_string());
    b.publish("/a", text("old"));
    b.attach_queue("q".to_string(), "/a".to_string());
    assert!(b.get_messages("q").is_empty());
}

#[test]
fn reattach_changes_filter() {
    let mut b = Broker::new();
    b.attach_queue("q".to_string(), "/a".to_string());
    b.attach_queue("q".to_string(), "/b".to_string());
    b.publish("/a", text("to a"));
    b.publish("/b/c", text("to b"));
    assert_eq!(pairs(&b.get_messages("q")), vec![("/b/c".to_string(), text("to b"))]);
}

#[test]
fn unknown_id_drains_empty() {
    let mut b = Broker::new();
    assert!(b.get_messages("nobody").is_empty());
    b.attach_queue("q".to_string(), "/a".to_string());
    b.publish("/a", text("x"));
    assert!(b.get_messages("other").is_empty());
    assert_eq!(b.get_messages("q").len(), 1);
}

#[test]
fn publish_fans_out_to_matching_queues_only() {
    let mut b = Broker::new();
    b.attach_queue("all".to_string(), "/".to_string());
    b.attach_queue("a".to_string(), "/a".to_string());
    b.attach_queue("ab".to_string(), "/a/b".to_string());
    b.attach_queue("c".to_string(), "/c".to_string());
    let payload = Value::Array(vec![Value::from(1), text("two")]);
    b.publish("/a/b", payload.clone());
    let want = vec![("/a/b".to_string(), payload.clone())];
    assert_eq!(pairs(&b.get_messages("all")), want);
    assert_eq!(pairs(&b.get_messages("a")), want);
    assert_eq!(pairs(&b.get_messages("ab")), want);
    assert!(b.get_messages("c").is_empty());
}

#[test]
fn draining_one_queue_keeps_the_others_copy() {
    let mut b = Broker::new();
    b.attach_queue("x".to_string(), "/t".to_string());
    b.attach_queue("y".to_string(), "/t".to_string());
    b.publish("/t", text("shared"));
    assert_eq!(pairs(&b.get_messages("x")), vec![("/t".to_string(), text("shared"))]);
    assert_eq!(pairs(&b.get_messages("y")), vec![("/t".to_string(), text("shared"))]);
}

#[test]
fn topic_kept_as_published() {
    let mut b = Broker::new();
    b.attach_queue("q".to_string(), "a".to_string());
    b.publish("//a//b/", text("p"));
    assert_eq!(pairs(&b.get_messages("q")), vec![("//a//b/".to_string(), text("p"))]);
}

#[test]
fn message_duplicate_is_equal() {
    let m = Message::new("/t".to_string(), text("v"));
    let d = m.duplicate();
    assert_eq!(d.topic, "/t");
    assert_eq!(d.data, text("v"));
}
