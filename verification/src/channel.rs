//! Logical channels: mapping MQTT topic names to the closed set of channels
//! the bridge consumes, and the short tag written into relabeled payloads.

use vstd::prelude::*;

verus! {

/// The logical channel an MQTT message belongs to, derived from the topic it
/// arrived on.  Topics outside the four recognized ones map to `Unknown` and
/// are dropped by the dispatcher.
#[derive(Clone, Copy, Debug, PartialEq, Eq, Structural)]
pub enum TopicType {
    Anemometer,
    SPS30,
    Imu,
    Status,
    Unknown,
}

/// The topic name, as a sequence of characters, of each recognized channel.
pub open spec fn spec_topic_name(t: TopicType) -> Seq<char> {
    match t {
        TopicType::Anemometer => "anemometer"@,
        TopicType::SPS30 => "sps30"@,
        TopicType::Imu => "imu"@,
        TopicType::Status => "status"@,
        TopicType::Unknown => Seq::empty(),
    }
}

/// The channel a topic string maps to: one of the four recognized names, or
/// `Unknown` for anything else.
pub open spec fn spec_match_topic(topic: Seq<char>) -> TopicType {
    if topic == spec_topic_name(TopicType::Anemometer) {
        TopicType::Anemometer
    } else if topic == spec_topic_name(TopicType::SPS30) {
        TopicType::SPS30
    } else if topic == spec_topic_name(TopicType::Imu) {
        TopicType::Imu
    } else if topic == spec_topic_name(TopicType::Status) {
        TopicType::Status
    } else {
        TopicType::Unknown
    }
}

/// Map an MQTT topic string to its logical channel.
pub fn match_topic(topic: &str) -> (t: TopicType)
    ensures
        t == spec_match_topic(topic@),
{
    let owned = topic.to_owned();
    if owned == String::from_str("anemometer") {
        TopicType::Anemometer
    } else if owned == String::from_str("sps30") {
        TopicType::SPS30
    } else if owned == String::from_str("imu") {
        TopicType::Imu
    } else if owned == String::from_str("status") {
        TopicType::Status
    } else {
        TopicType::Unknown
    }
}

/// The short tag written into the `topic` field of a relabeled payload:
/// a pure function of the channel, `None` only for `Unknown`.
pub open spec fn spec_topic_tag(t: TopicType) -> Option<Seq<char>> {
    match t {
        TopicType::Anemometer => Some("anm"@),
        TopicType::SPS30 => Some("sps"@),
        TopicType::Imu => Some("imu"@),
        TopicType::Status => Some("status"@),
        TopicType::Unknown => None,
    }
}

/// The short tag for a recognized channel.
pub fn topic_tag(t: TopicType) -> (r: Option<&'static str>)
    ensures
        r is Some <==> spec_topic_tag(t) is Some,
        r is Some ==> r->0@ == spec_topic_tag(t)->0,
{
    match t {
        TopicType::Anemometer => Some("anm"),
        TopicType::SPS30 => Some("sps"),
        TopicType::Imu => Some("imu"),
        TopicType::Status => Some("status"),
        TopicType::Unknown => None,
    }
}

} // verus!
