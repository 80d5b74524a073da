//! What a web client may do over its socket: the topics it may follow and
//! send to, and the subscriptions of its session.
use vstd::prelude::*;
use crate::tasks::MqttMessage;
use crate::text::{contains_str, copy_string, string_of, strings_view};
use crate::topics::{spec_topic_matches, topic_matches_any};

verus! {

broadcast use vstd::string::group_string_axioms;

/// The topics a client may follow.
pub open spec fn subscribe_patterns() -> Seq<Seq<char>> {
    seq!["state/#"@, "stat/#"@, "tele/#"@, "schedule/#"@, "robotica/#"@, "zigbee2mqtt/#"@, "zwave/#"@, "workgroup/#"@]
}

/// The topics a client may send to.
pub open spec fn send_patterns() -> Seq<Seq<char>> {
    seq!["command/#"@, "cmnd/#"@, "zwave/#"@]
}

/// Does the topic match one of the patterns?
pub open spec fn matches_any(topic: Seq<char>, patterns: Seq<Seq<char>>) -> bool {
    exists|i: int| 0 <= i < patterns.len() && spec_topic_matches(topic, #[trigger] patterns[i])
}

fn subscribe_pattern_list() -> (v: Vec<String>)
    ensures
        strings_view(v@) == subscribe_patterns(),
{
    let v = vec![
        string_of("state/#"), string_of("stat/#"), string_of("tele/#"), string_of("schedule/#"),
        string_of("robotica/#"), string_of("zigbee2mqtt/#"), string_of("zwave/#"), string_of("workgroup/#"),
    ];
    assert(strings_view(v@) =~= subscribe_patterns());
    v
}

fn send_pattern_list() -> (v: Vec<String>)
    ensures
        strings_view(v@) == send_patterns(),
{
    let v = vec![string_of("command/#"), string_of("cmnd/#"), string_of("zwave/#")];
    assert(strings_view(v@) =~= send_patterns());
    v
}

/// May a client follow this topic?
pub fn check_topic_subscribe_allowed(topic: &str) -> (b: bool)
    ensures
        b == matches_any(topic@, subscribe_patterns()),
{
    let patterns = subscribe_pattern_list();
    topic_matches_any(topic, &patterns)
}

/// May a client send to this topic?
pub fn check_topic_send_allowed(topic: &str) -> (b: bool)
    ensures
        b == matches_any(topic@, send_patterns()),
{
    let patterns = send_pattern_list();
    topic_matches_any(topic, &patterns)
}

/// A command from a web client.
#[derive(Debug)]
pub enum WsCommand {
    /// Follow a topic.
    Subscribe(String),
    /// Stop following a topic.
    Unsubscribe(String),
    /// Send a message.
    Send(MqttMessage),
    /// Keep the connection open.
    KeepAlive,
}

/// What to do about a command.
#[derive(Debug)]
pub enum WsAction {
    /// Subscribe to the topic for the client.
    Subscribe(String),
    /// Drop the client's subscription to the topic.
    Unsubscribe(String),
    /// Send the message.
    Send(MqttMessage),
    /// Nothing.
    Ignore,
}

/// The topics a client follows, each once.
#[derive(Debug)]
pub struct WsSession {
    topics: Vec<String>,
}

/// No topic occurs twice.
pub open spec fn distinct(s: Seq<Seq<char>>) -> bool {
    forall|i: int, j: int| 0 <= i < j < s.len() ==> s[i] != s[j]
}

impl View for WsSession {
    type V = Set<Seq<char>>;

    closed spec fn view(&self) -> Set<Seq<char>> {
        strings_view(self.topics@).to_set()
    }
}

impl WsSession {
    /// Is the session well formed?
    pub closed spec fn wf(&self) -> bool {
        distinct(strings_view(self.topics@))
    }

    /// A session that follows nothing.
    pub fn new() -> (s: WsSession)
        ensures
            s.wf(),
            s@ == Set::<Seq<char>>::empty(),
    {
        let s = WsSession { topics: Vec::new() };
        assert(strings_view(s.topics@).to_set() =~= Set::<Seq<char>>::empty());
        s
    }

    /// Does the session follow the topic?
    pub fn follows(&self, topic: &String) -> (b: bool)
        ensures
            b == self@.contains(topic@),
    {
        contains_str(&self.topics, topic)
    }

    /// What to do about a command: follow an allowed topic not yet followed,
    /// drop a followed topic, send to an allowed topic; ignore anything else.
    pub fn handle(&self, command: WsCommand) -> (a: WsAction)
        ensures
            match command {
                WsCommand::Subscribe(t) => if matches_any(t@, subscribe_patterns()) && !self@.contains(t@) {
                    a matches WsAction::Subscribe(u) && u@ == t@
                } else {
                    a is Ignore
                },
                WsCommand::Unsubscribe(t) => if self@.contains(t@) {
                    a matches WsAction::Unsubscribe(u) && u@ == t@
                } else {
                    a is Ignore
                },
                WsCommand::Send(m) => if matches_any(m.topic@, send_patterns()) {
                    a matches WsAction::Send(n) && n@ == m@
                } else {
                    a is Ignore
                },
                WsCommand::KeepAlive => a is Ignore,
            },
    {
        match command {
            WsCommand::Subscribe(t) => {
                if check_topic_subscribe_allowed(t.as_str()) && !self.follows(&t) {
                    WsAction::Subscribe(t)
                } else {
                    WsAction::Ignore
                }
            },
            WsCommand::Unsubscribe(t) => {
                if self.follows(&t) {
                    WsAction::Unsubscribe(t)
                } else {
                    WsAction::Ignore
                }
            },
            WsCommand::Send(m) => {
                if check_topic_send_allowed(m.topic.as_str()) {
                    WsAction::Send(m)
                } else {
                    WsAction::Ignore
                }
            },
            WsCommand::KeepAlive => WsAction::Ignore,
        }
    }

    /// Record that the topic is now followed.
    pub fn subscribed(&mut self, topic: &String)
        requires
            old(self).wf(),
        ensures
            final(self).wf(),
            final(self)@ == old(self)@.insert(topic@),
    {
        if !contains_str(&self.topics, topic) {
            let ghost before = strings_view(self.topics@);
            self.topics.push(copy_string(topic));
            assert(strings_view(self.topics@) =~= before.push(topic@));
            proof { before.lemma_push_to_set_commute(topic@); }
        } else {
            assert(strings_view(self.topics@).to_set().insert(topic@) =~= strings_view(self.topics@).to_set());
        }
    }

    /// Record that the topic is no longer followed.
    pub fn unsubscribed(&mut self, topic: &String)
        requires
            old(self).wf(),
        ensures
            final(self).wf(),
            final(self)@ == old(self)@.remove(topic@),
    {
        let ghost s0 = strings_view(self.topics@);
        let mut i: usize = 0;
        while i < self.topics.len()
            invariant
                i <= self.topics@.len(),
                s0 == strings_view(self.topics@),
                self.topics@ == old(self).topics@,
                distinct(s0),
                forall|k: int| 0 <= k < i ==> s0[k] != topic@,
            decreases self.topics@.len() - i,
        {
            if self.topics[i] == *topic {
                let ghost idx = i as int;
                self.topics.remove(i);
                proof {
                    let s1 = strings_view(self.topics@);
                    assert(s0[idx] == topic@);
                    assert(s1 =~= s0.remove(idx));
                    assert(s1.to_set() =~= s0.to_set().remove(topic@)) by {
                        assert forall|x: Seq<char>| s1.to_set().contains(x) == s0.to_set().remove(topic@).contains(x) by {
                            if s1.contains(x) {
                                let k = choose|k: int| 0 <= k < s1.len() && s1[k] == x;
                                if k < idx {
                                    assert(s0[k] == x);
                                    assert(s0[k] != s0[idx]);
                                } else {
                                    assert(s0[k + 1] == x);
                                    assert(s0[idx] != s0[k + 1]);
                                }
                            }
                            if s0.contains(x) && x != topic@ {
                                let k = choose|k: int| 0 <= k < s0.len() && s0[k] == x;
                                if k < idx {
                                    assert(s1[k] == x);
                                } else {
                                    assert(k != idx);
                                    assert(s1[k - 1] == x);
                                }
                            }
                        }
                    }
                }
                return;
            }
            assert(s0[i as int] != topic@);
            i = i + 1;
        }
        assert(s0.to_set().remove(topic@) =~= s0.to_set());
    }
}

} // verus!
