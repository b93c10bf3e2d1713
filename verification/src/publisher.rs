//! The MQTT publisher's decision step: a serial-origin message must carry a
//! string-typed `command` field; its raw value — unquoted and unwrapped —
//! is published to the `command` topic.  A malformed message is dropped
//! without retrying, since it can never become valid by retrying.

use vstd::prelude::*;
use crate::jsonio::{json_get_string_field, json_string_field};

verus! {

/// The command a serial-origin message carries: the string value of its
/// `command` field, or `None` where the message does not parse or lacks a
/// string-typed `command` field.
pub open spec fn spec_command_payload(m: Seq<char>) -> Option<Seq<char>> {
    json_string_field(m, "command"@)
}

/// Unwrap the command of a serial-origin message: exactly the string value
/// of its `command` field, with no quoting and no wrapping.
pub fn command_payload(m: &str) -> (r: Option<String>)
    ensures
        r is Some <==> spec_command_payload(m@) is Some,
        r is Some ==> r->0@ == spec_command_payload(m@)->0,
{
    json_get_string_field(m, "command")
}

/// The MQTT topic commands are published to.
pub fn command_topic() -> (r: &'static str)
    ensures
        r@ == "command"@,
{
    "command"
}

/// What the publisher does with the message at the head of its queue.
pub enum PublishAction {
    /// The MQTT health signal is false: wait and retry the same message.
    Wait,
    /// The message carries no string-typed `command` field: drop it and move
    /// on — retrying cannot make it valid.
    Drop,
    /// Publish this payload to the `command` topic.
    Publish(String),
}

/// Decide one round of the publisher: wait while the transport is down,
/// drop a malformed message, and otherwise publish exactly the raw value of
/// its `command` field.
pub fn publisher_step(healthy: bool, m: &str) -> (r: PublishAction)
    ensures
        r is Wait <==> !healthy,
        healthy ==> ((r is Publish) <==> spec_command_payload(m@) is Some),
        r is Publish ==> r->Publish_0@ == spec_command_payload(m@)->0,
{
    if !healthy {
        PublishAction::Wait
    } else {
        match command_payload(m) {
            Some(payload) => PublishAction::Publish(payload),
            None => PublishAction::Drop,
        }
    }
}

} // verus!
