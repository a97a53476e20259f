//! The decisions of the MQTT listener, and reading the identity from a
//! publish topic.
use crate::db::{first_index_of, lemma_first_index_of};
use vstd::prelude::*;

verus! {

/// The parts of `s` between the separators `c`, in order.
pub open spec fn split_on(s: Seq<char>, c: char) -> Seq<Seq<char>>
    decreases s.len(),
{
    let k = first_index_of(s, c);
    if 0 <= k < s.len() {
        seq![s.take(k)] + split_on(s.skip(k + 1), c)
    } else {
        seq![s]
    }
}

proof fn lemma_split_len(s: Seq<char>, c: char)
    ensures
        split_on(s, c).len() >= 1,
        first_index_of(s, c) < s.len() ==> split_on(s, c).len() >= 2,
    decreases s.len(),
{
    lemma_first_index_of(s, c);
    let k = first_index_of(s, c);
    if k < s.len() {
        lemma_split_len(s.skip(k + 1), c);
    }
}

/// The user and the device named by a topic of three parts
/// `{base}/{user}/{device}`; `None` for any other number of parts.
pub fn get_user_device_from_topic(topic: &str) -> (r: Option<(String, String)>)
    ensures
        match r {
            Some((user, device)) => split_on(topic@, '/').len() == 3 && user@ == split_on(
                topic@,
                '/',
            )[1] && device@ == split_on(topic@, '/')[2],
            None => split_on(topic@, '/').len() != 3,
        },
{
    let s = topic;
    let n = s.unicode_len();
    let k1 = crate::db::find_char(s, '/');
    proof {
        lemma_first_index_of(s@, '/');
    }
    if k1 >= n {
        return None;
    }
    let rest = s.substring_char(k1 + 1, n);
    let m = rest.unicode_len();
    let k2 = crate::db::find_char(rest, '/');
    proof {
        lemma_first_index_of(rest@, '/');
        assert(rest@ =~= s@.skip(k1 + 1));
        lemma_split_len(rest@, '/');
    }
    if k2 >= m {
        proof {
            assert(split_on(rest@, '/') =~= seq![rest@]);
        }
        return None;
    }
    let user = rest.substring_char(0, k2);
    let last = rest.substring_char(k2 + 1, m);
    let k3 = crate::db::find_char(last, '/');
    proof {
        lemma_first_index_of(last@, '/');
        assert(last@ =~= rest@.skip(k2 + 1));
        lemma_split_len(last@, '/');
        assert(split_on(rest@, '/') =~= seq![rest@.take(k2 as int)] + split_on(last@, '/'));
    }
    if k3 < last.unicode_len() {
        return None;
    }
    proof {
        assert(split_on(last@, '/') =~= seq![last@]);
    }
    Some((String::from_str(user), String::from_str(last)))
}


/// What the listener saw: a published message on a topic (and whether it
/// holds a location), another event, or a connection error.
#[derive(Debug)]
pub enum ListenerEvent {
    Publish { topic: String, is_location: bool },
    Other,
    Error,
}

/// What the listener does next.
#[derive(Debug)]
pub enum ListenerAction {
    /// Store the location for this user and device.
    Store { user: String, device: String },
    /// Drop a location whose topic does not name a user and a device.
    RejectTopic,
    /// Nothing to do.
    Ignore,
    /// Wait this many milliseconds before polling again, so that a lasting
    /// error does not flood the log.
    Pause { millis: u64 },
}

/// Pause after a connection error, in milliseconds.
pub const ERROR_PAUSE_MILLIS: u64 = 500;

/// The listener's next action on an event.
pub fn on_event(event: &ListenerEvent) -> (r: ListenerAction)
    ensures
        match event {
            ListenerEvent::Publish { topic, is_location } => if !*is_location {
                r is Ignore
            } else if split_on(topic@, '/').len() == 3 {
                match r {
                    ListenerAction::Store { user, device } => user@ == split_on(topic@, '/')[1]
                        && device@ == split_on(topic@, '/')[2],
                    _ => false,
                }
            } else {
                r is RejectTopic
            },
            ListenerEvent::Other => r is Ignore,
            ListenerEvent::Error => r == (ListenerAction::Pause { millis: ERROR_PAUSE_MILLIS }),
        },
{
    match event {
        ListenerEvent::Publish { topic, is_location } => {
            if !*is_location {
                ListenerAction::Ignore
            } else {
                match get_user_device_from_topic(topic.as_str()) {
                    Some((user, device)) => ListenerAction::Store { user, device },
                    None => ListenerAction::RejectTopic,
                }
            }
        },
        ListenerEvent::Other => ListenerAction::Ignore,
        ListenerEvent::Error => ListenerAction::Pause { millis: ERROR_PAUSE_MILLIS },
    }
}
} // verus!
