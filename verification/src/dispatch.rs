//! The fused MQTT transport manager and event dispatcher: subscription
//! lifecycle, topic filtering, rate limiting and payload relabeling.  The
//! surrounding task performs the subscribe, poll, sleep and queue operations
//! this state machine asks for and reports their outcomes back.

use vstd::prelude::*;
use crate::channel::{match_topic, spec_match_topic, spec_topic_tag, topic_tag, TopicType};
use crate::jsonio::{json_set_string_field, json_with_field, utf8_decoded, utf8_text};
use crate::timing::RateFilter;

verus! {

/// The dispatcher's state: whether the four topic subscriptions stand,
/// the health it reports for the MQTT transport, the anemometer rate filter,
/// and the fixed reconnection delay.
pub struct Dispatcher {
    /// Whether the subscriptions are currently in place.
    pub subscribed: bool,
    /// The health value the task publishes for the MQTT transport.
    pub healthy: bool,
    /// Rate filter for the anemometer channel.
    pub filter: RateFilter,
    /// Fixed delay before a reconnection attempt, in milliseconds.
    pub reconnect_delay: u64,
}

/// What an incoming publish leaves behind: the dispatcher state afterwards
/// and the relabeled message bound for the serial side, if any.
pub open spec fn spec_on_publish(
    s: Dispatcher,
    topic: Seq<char>,
    payload: Seq<u8>,
    now: u64,
) -> (Dispatcher, Option<Seq<char>>) {
    let tt = spec_match_topic(topic);
    if tt is Unknown {
        (s, None)
    } else {
        let accepted = !(tt is Anemometer) || s.filter.spec_accepts(now);
        let s2 = if tt is Anemometer {
            Dispatcher {
                subscribed: s.subscribed,
                healthy: s.healthy,
                filter: s.filter.spec_after(now),
                reconnect_delay: s.reconnect_delay,
            }
        } else {
            s
        };
        if !accepted {
            (s2, None)
        } else {
            match utf8_decoded(payload) {
                None => (s2, None),
                Some(text) => (s2, json_with_field(text, "topic"@, spec_topic_tag(tt)->0)),
            }
        }
    }
}

impl Dispatcher {
    /// A fresh dispatcher: not subscribed, transport not yet healthy, the
    /// rate-filter window starting at `now`.
    pub fn new(filter_interval: u64, reconnect_delay: u64, now: u64) -> (r: Dispatcher)
        ensures
            !r.subscribed,
            !r.healthy,
            r.filter.interval == filter_interval,
            r.filter.last_accepted == now,
            r.reconnect_delay == reconnect_delay,
    {
        Dispatcher {
            subscribed: false,
            healthy: false,
            filter: RateFilter::new(filter_interval, now),
            reconnect_delay,
        }
    }

    /// Whether the task must attempt a fresh subscription before polling.
    pub fn wants_subscribe(&self) -> (r: bool)
        ensures
            r == !self.subscribed,
    {
        !self.subscribed
    }

    /// A subscription attempt succeeded: the transport is up.
    pub fn on_subscribe_ok(&mut self)
        ensures
            final(self).subscribed,
            final(self).healthy,
            final(self).filter == old(self).filter,
            final(self).reconnect_delay == old(self).reconnect_delay,
    {
        self.subscribed = true;
        self.healthy = true;
    }

    /// A subscription attempt failed: the transport is down; the task sleeps
    /// the returned fixed delay and retries.
    pub fn on_subscribe_err(&mut self) -> (delay: u64)
        ensures
            !final(self).subscribed,
            !final(self).healthy,
            final(self).filter == old(self).filter,
            final(self).reconnect_delay == old(self).reconnect_delay,
            delay == old(self).reconnect_delay,
    {
        self.subscribed = false;
        self.healthy = false;
        self.reconnect_delay
    }

    /// Polling returned a connection error: the transport is down and the
    /// subscription state resets, so that after the returned fixed delay a
    /// fresh subscribe attempt is made.
    pub fn on_poll_error(&mut self) -> (delay: u64)
        ensures
            !final(self).subscribed,
            !final(self).healthy,
            final(self).filter == old(self).filter,
            final(self).reconnect_delay == old(self).reconnect_delay,
            delay == old(self).reconnect_delay,
    {
        self.subscribed = false;
        self.healthy = false;
        self.reconnect_delay
    }

    /// Handle an incoming publish: drop it on an unknown topic, rate-limit
    /// the anemometer channel, require a UTF-8 JSON object payload, and
    /// relabel it with the channel's short tag for the serial-bound queue.
    pub fn on_publish(&mut self, topic: &str, payload: &[u8], now: u64) -> (r: Option<String>)
        ensures
            *final(self) == spec_on_publish(*old(self), topic@, payload@, now).0,
            r is Some <==> spec_on_publish(*old(self), topic@, payload@, now).1 is Some,
            r is Some ==> r->0@ == spec_on_publish(*old(self), topic@, payload@, now).1->0,
    {
        let tt = match_topic(topic);
        if tt == TopicType::Unknown {
            return None;
        }
        if tt == TopicType::Anemometer {
            if !self.filter.accept(now) {
                return None;
            }
        }
        let text = match utf8_text(payload) {
            Some(text) => text,
            None => {
                return None;
            },
        };
        match topic_tag(tt) {
            Some(tag) => json_set_string_field(text.as_str(), "topic", tag),
            None => {
                proof {
                    assert(false);
                }
                None
            },
        }
    }
}

/// The four fixed topics the dispatcher subscribes to.
pub fn subscription_topics() -> (r: Vec<String>)
    ensures
        r@.len() == 4,
        r@[0]@ == crate::channel::spec_topic_name(TopicType::Anemometer),
        r@[1]@ == crate::channel::spec_topic_name(TopicType::SPS30),
        r@[2]@ == crate::channel::spec_topic_name(TopicType::Imu),
        r@[3]@ == crate::channel::spec_topic_name(TopicType::Status),
{
    let mut topics: Vec<String> = Vec::new();
    topics.push(String::from_str("anemometer"));
    topics.push(String::from_str("sps30"));
    topics.push(String::from_str("imu"));
    topics.push(String::from_str("status"));
    topics
}

/// For two anemometer publishes at `t1` then `t2` whose first arrival the
/// rate filter accepted: the second is dropped — whatever its payload —
/// when it comes sooner than the filter interval after `t1`, and is
/// forwarded when at least the interval has passed and its payload is a
/// UTF-8 JSON object.
pub proof fn lemma_anemometer_rate_limit(
    s: Dispatcher,
    topic: Seq<char>,
    p1: Seq<u8>,
    p2: Seq<u8>,
    t1: u64,
    t2: u64,
)
    requires
        spec_match_topic(topic) is Anemometer,
        s.filter.spec_accepts(t1),
        t1 <= t2,
    ensures
        t2 - t1 < s.filter.interval ==> spec_on_publish(
            spec_on_publish(s, topic, p1, t1).0,
            topic,
            p2,
            t2,
        ).1 is None,
        (t2 - t1 >= s.filter.interval && utf8_decoded(p2) is Some && json_with_field(
            utf8_decoded(p2)->0,
            "topic"@,
            spec_topic_tag(TopicType::Anemometer)->0,
        ) is Some) ==> spec_on_publish(spec_on_publish(s, topic, p1, t1).0, topic, p2, t2).1
            is Some,
{
}

/// Relabeling is a pure function of payload and topic: whenever two
/// publishes of the same payload on the same topic are both forwarded —
/// whatever dispatcher states and clock readings they met — the forwarded
/// messages, and in particular their rewritten `topic` tags, are identical.
pub proof fn lemma_relabel_pure(
    s1: Dispatcher,
    s2: Dispatcher,
    topic: Seq<char>,
    payload: Seq<u8>,
    t1: u64,
    t2: u64,
)
    ensures
        spec_on_publish(s1, topic, payload, t1).1 is Some && spec_on_publish(
            s2,
            topic,
            payload,
            t2,
        ).1 is Some ==> spec_on_publish(s1, topic, payload, t1).1 == spec_on_publish(
            s2,
            topic,
            payload,
            t2,
        ).1,
{
}

} // verus!
