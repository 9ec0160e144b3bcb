use auto_switch::reply::{judge_switch, plan_status_node, read_switch_reply};
use auto_switch::text::append_decimal;
use serde_json::Value;

fn json(text: &str) -> Value {
    serde_json::from_str(text).unwrap()
}

#[test]
fn only_a_true_success_counts() {
    assert_eq!(judge_switch(Some(true), Some("x")), Ok(()));
    assert_eq!(judge_switch(Some(false), Some("x")), Err("x".to_string()));
    assert_eq!(judge_switch(None, Some("x")), Err("x".to_string()));
    assert_eq!(judge_switch(None, None), Err("未知错误".to_string()));
}

#[test]
fn reply_is_read_by_its_members() {
    assert_eq!(read_switch_reply(&json("{\"success\": true}")), Ok(()));
    assert_eq!(
        read_switch_reply(&json("{\"success\": 1, \"error\": \"bad\"}")),
        Err("bad".to_string())
    );
    assert_eq!(read_switch_reply(&json("\"success\"")), Err("未知错误".to_string()));
}

#[test]
fn plan_status_is_the_member_or_the_whole() {
    let nested = json("{\"plan_status\": {\"a\": 1}, \"b\": 2}");
    assert_eq!(plan_status_node(&nested), &json("{\"a\": 1}"));
    let flat = json("{\"a\": 1}");
    assert_eq!(plan_status_node(&flat), &flat);
    let null = json("{\"plan_status\": null}");
    assert_eq!(plan_status_node(&null), &Value::Null);
    assert_eq!(plan_status_node(&Value::Null), &Value::Null);
}

#[test]
fn numbers_are_written_in_decimal() {
    for n in [0i64, 7, 10, 105, -1, -90, i64::MAX, i64::MIN] {
        let mut text = "n=".to_string();
        append_decimal(&mut text, n);
        assert_eq!(text, format!("n={}", n));
    }
}
