use market_fanout::{classify_inbound, intent_of_action, Directive};

#[test]
fn subscribe_action_is_acknowledged() {
    assert_eq!(classify_inbound("{\"action\":\"subscribe\"}"), Directive::Acknowledge);
    assert_eq!(
        classify_inbound("{ \"action\" : \"subscribe\", \"symbols\": [\"BTCUSDT\"] }"),
        Directive::Acknowledge
    );
}

#[test]
fn other_actions_are_ignored() {
    assert_eq!(classify_inbound("{\"action\":\"unsubscribe\"}"), Directive::Continue);
    assert_eq!(classify_inbound("{\"action\":\"Subscribe\"}"), Directive::Continue);
    assert_eq!(classify_inbound("{\"action\":5}"), Directive::Continue);
    assert_eq!(classify_inbound("{}"), Directive::Continue);
    assert_eq!(classify_inbound("[\"subscribe\"]"), Directive::Continue);
    assert_eq!(classify_inbound("\"subscribe\""), Directive::Continue);
}

#[test]
fn malformed_text_is_reported() {
    assert_eq!(classify_inbound("not json"), Directive::Malformed);
    assert_eq!(classify_inbound(""), Directive::Malformed);
    assert_eq!(classify_inbound("{\"action\":"), Directive::Malformed);
}

#[test]
fn intent_of_action_values() {
    assert_eq!(intent_of_action(Some("subscribe")), Directive::Acknowledge);
    assert_eq!(intent_of_action(Some("subscribed")), Directive::Continue);
    assert_eq!(intent_of_action(Some("")), Directive::Continue);
    assert_eq!(intent_of_action(None), Directive::Continue);
}
