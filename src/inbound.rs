use vstd::prelude::*;

verus! {

#[verifier::external_type_specification]
#[verifier::external_body]
pub struct ExJsonValue(serde_json::Value);

#[verifier::external_type_specification]
#[verifier::external_body]
pub struct ExJsonError(serde_json::Error);

/// Whether the text is one well-formed JSON document.
pub uninterp spec fn json_parses(s: Seq<char>) -> bool;

/// Relies on serde_json::from_str into a `Value`: it succeeds exactly on
/// well-formed JSON text, whatever the document holds.
#[verifier::external_body]
fn parse_json(text: &str) -> (r: Result<serde_json::Value, serde_json::Error>)
    ensures
        r.is_ok() == json_parses(text@),
{
    serde_json::from_str::<serde_json::Value>(text)
}

/// Relies on serde_json::Value::get with a string key: the member of an
/// object under that key, if there is one.
#[verifier::external_body]
fn json_member<'a>(v: &'a serde_json::Value, key: &str) -> (r: Option<&'a serde_json::Value>) {
    v.get(key)
}

/// What serde_json::Value::as_str returns: the text of a JSON string.
pub assume_specification[ serde_json::Value::as_str ](v: &serde_json::Value) -> Option<&str>;

/// What a client message asks of the session.
#[derive(Clone, Copy, Debug, PartialEq, Eq, Structural)]
pub enum Directive {
    /// Nothing to do: both loops go on.
    Continue,
    /// The client asked to subscribe: acknowledge it, and go on.
    Acknowledge,
    /// The message was not JSON: note it, and go on.
    Malformed,
    /// The session is over: stop both loops and close the connection.
    Shutdown,
}

/// The intent `"subscribe"`.
pub open spec fn is_subscribe(action: Option<&str>) -> bool {
    action.is_some() && action.unwrap()@ == "subscribe"@
}

/// The directive for a message whose `action` member is `action` as a
/// string (`None` where it is missing or not a string): `"subscribe"` is
/// acknowledged, anything else is ignored.
pub fn intent_of_action(action: Option<&str>) -> (r: Directive)
    ensures
        r == (if is_subscribe(action) {
            Directive::Acknowledge
        } else {
            Directive::Continue
        }),
{
    match action {
        Some(a) => {
            let given = a.to_owned();
            let want = "subscribe".to_owned();
            proof {
                reveal_strlit("subscribe");
            }
            if given == want {
                Directive::Acknowledge
            } else {
                Directive::Continue
            }
        },
        None => Directive::Continue,
    }
}

/// The directive for one text message from the client. Text that is not
/// JSON is `Malformed`; a JSON object whose `action` is `"subscribe"` is
/// acknowledged; anything else is ignored.
pub fn classify_inbound(text: &str) -> (r: Directive)
    ensures
        (r == Directive::Malformed) == !json_parses(text@),
        r == Directive::Malformed || r == Directive::Acknowledge || r == Directive::Continue,
{
    match parse_json(text) {
        Ok(v) => {
            let action = match json_member(&v, "action") {
                Some(a) => a.as_str(),
                None => None,
            };
            intent_of_action(action)
        },
        Err(_) => Directive::Malformed,
    }
}

} // verus!
