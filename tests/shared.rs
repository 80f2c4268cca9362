use serde_json::Value;
use topic_broker::message::Message;
use topic_broker::shared::SharedBroker;

fn text(s: &str) -> Value {
    Value::String(s.to_string())
}

fn pairs(msgs: &[Message]) -> Vec<(String, Value)> {
    msgs.iter().map(|m| (m.topic.clone(), m.data.clone())).collect()
}

#[test]
fn shared_end_to_end_scenario() {
    let b = SharedBroker::new();
    b.attach_queue("test".to_string(), "/foo".to_string());
    b.publish("/foo/bar", text("hello"));
    b.publish("/bar", text("noop"));
    assert_eq!(pairs(&b.get_messages("test")), vec![("/foo/bar".to_string(), text("hello"))]);
    assert!(b.get_messages("test").is_empty());
}

#[test]
fn shared_order_fan_out_and_replace() {
    let b = SharedBroker::new();
    b.attach_queue("a".to_string(), "/a".to_string());
    b.attach_queue("ab".to_string(), "a/b".to_string());
    b.publish("/a/b", text("1"));
    b.publish("/a", text("2"));
    b.publish("/c", text("3"));
    assert_eq!(
        pairs(&b.get_messages("a")),
        vec![("/a/b".to_string(), text("1")), ("/a".to_string(), text("2"))]
    );
    assert_eq!(pairs(&b.get_messages("ab")), vec![("/a/b".to_string(), text("1"))]);
    b.publish("/a/b", text("4"));
    b.attach_queue("ab".to_string(), "/c".to_string());
    assert!(b.get_messages("ab").is_empty());
    assert!(b.get_messages("missing").is_empty());
    assert_eq!(b.get_messages("a").len(), 1);
}
