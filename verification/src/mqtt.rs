//! The MQTT client's decisions: how the connection is set up from the
//! configuration, and which topics are subscribed, so that a message is
//! handed to its subscription and the broker is asked for each topic.
//!
//! The connection itself, the channels and the tasks that watch them live
//! outside the library; they tell these functions what happened and do what
//! they answer.
use vstd::prelude::*;
use crate::text::{copy_string, push_str, string_of};

verus! {

broadcast use vstd::string::group_string_axioms;

/// The standard library's error for a number that does not parse.
#[verifier::external_type_specification]
#[verifier::external_body]
pub struct ExParseIntError(std::num::ParseIntError);

/// How the client logs in to the broker.
#[derive(Debug)]
pub enum Credentials {
    /// With a user name and password.
    UsernamePassword {
        /// The user name.
        username: String,
        /// The password.
        password: String,
    },
    /// Without credentials.
    Anonymous,
}

/// An error in the client's configuration.
#[derive(Debug)]
pub enum MqttClientError {
    /// An environment variable is set but does not hold a number: its name,
    /// its value and why it did not parse.
    VarInvalid(String, String, std::num::ParseIntError),
}

/// Where the broker is and how to log in.
#[derive(Debug)]
pub struct Config {
    /// The broker's host.
    pub host: String,
    /// The broker's port.
    pub port: u16,
    /// How to log in.
    pub credentials: Credentials,
}

/// The port on which the broker is reached over TLS.
pub const TLS_PORT: u16 = 8883;

/// Seconds between keep-alive packets.
pub const KEEP_ALIVE_SECS: u64 = 30;

/// The largest packet accepted, in bytes.
pub const MAX_PACKET_SIZE: usize = 1024000;

/// How the client connects.
#[derive(Debug)]
pub struct ClientSettings {
    /// The client id: `robotica-rust-` and the host name.
    pub client_id: String,
    /// The broker's host.
    pub host: String,
    /// The broker's port.
    pub port: u16,
    /// Seconds between keep-alive packets.
    pub keep_alive_secs: u64,
    /// Whether to connect over TLS.
    pub tls: bool,
    /// The user name and password, if any.
    pub credentials: Option<(String, String)>,
    /// The largest packet accepted, in bytes.
    pub max_packet_size: usize,
}

/// The settings for a configuration, on a machine named `hostname`: TLS on
/// port 8883 only, and the credentials as configured.
pub fn client_settings(config: Config, hostname: &str) -> (s: ClientSettings)
    ensures
        s.client_id@ == "robotica-rust-"@ + hostname@,
        s.host@ == config.host@,
        s.port == config.port,
        s.keep_alive_secs == 30,
        s.tls == (config.port == 8883),
        s.max_packet_size == 1024000,
        match config.credentials {
            Credentials::UsernamePassword { username, password } =>
                s.credentials matches Some((u, p)) && u@ == username@ && p@ == password@,
            Credentials::Anonymous => s.credentials is None,
        },
{
    let mut client_id = string_of("robotica-rust-");
    push_str(&mut client_id, hostname);
    let credentials = match config.credentials {
        Credentials::UsernamePassword { username, password } => Some((username, password)),
        Credentials::Anonymous => None,
    };
    ClientSettings {
        client_id,
        host: config.host,
        port: config.port,
        keep_alive_secs: KEEP_ALIVE_SECS,
        tls: config.port == TLS_PORT,
        credentials,
        max_packet_size: MAX_PACKET_SIZE,
    }
}

/// The topics subscribed to, each once.
#[derive(Debug)]
pub struct Subscriptions {
    topics: Vec<String>,
}

/// The topics of a list of strings.
pub open spec fn topics_view(v: Seq<String>) -> Seq<Seq<char>> {
    v.map_values(|s: String| s@)
}

/// No topic occurs twice.
pub open spec fn no_duplicates(s: Seq<Seq<char>>) -> bool {
    forall|i: int, j: int| 0 <= i < j < s.len() ==> s[i] != s[j]
}

/// What to do with a request to subscribe.
#[derive(Clone, Copy, Debug, PartialEq, Eq, Structural)]
pub enum SubscribePlan {
    /// The subscription is there and its receiver is alive: hand it out.
    Reuse,
    /// Make a new subscription and ask the broker for the topic.
    SubscribeBroker,
}

impl View for Subscriptions {
    type V = Set<Seq<char>>;

    closed spec fn view(&self) -> Set<Seq<char>> {
        topics_view(self.topics@).to_set()
    }
}

impl Subscriptions {
    /// The topics are distinct.
    pub closed spec fn wf(&self) -> bool {
        no_duplicates(topics_view(self.topics@))
    }

    /// The position of `topic`, if it is subscribed.
    fn position(&self, topic: &str) -> (r: Option<usize>)
        requires
            self.wf(),
        ensures
            match r {
                Some(i) => i < self.topics@.len() && self.topics@[i as int]@ == topic@,
                None => !self@.contains(topic@),
            },
    {
        let t = string_of(topic);
        let mut i: usize = 0;
        while i < self.topics.len()
            invariant
                i <= self.topics@.len(),
                t@ == topic@,
                forall|j: int| 0 <= j < i ==> #[trigger] self.topics@[j]@ != topic@,
            decreases self.topics@.len() - i,
        {
            if self.topics[i] == t {
                return Some(i);
            }
            i = i + 1;
        }
        proof {
            if topics_view(self.topics@).contains(topic@) {
                let k = choose|k: int| 0 <= k < topics_view(self.topics@).len() && topics_view(self.topics@)[k] == topic@;
                assert(self.topics@[k]@ == topic@);
            }
        }
        None
    }

    /// No subscriptions.
    pub fn new() -> (s: Subscriptions)
        ensures
            s.wf(),
            s@ == Set::<Seq<char>>::empty(),
    {
        let s = Subscriptions { topics: Vec::new() };
        assert(topics_view(s.topics@) =~= Seq::<Seq<char>>::empty());
        s
    }

    /// Is `topic` subscribed? A message on it, coming in or going out, is
    /// handed to its subscription.
    pub fn contains(&self, topic: &str) -> (b: bool)
        requires
            self.wf(),
        ensures
            b == self@.contains(topic@),
    {
        match self.position(topic) {
            Some(i) => {
                assert(topics_view(self.topics@)[i as int] == topic@);
                true
            },
            None => false,
        }
    }

    /// Add `topic` if it is not there yet.
    fn insert(&mut self, topic: &str)
        requires
            old(self).wf(),
        ensures
            final(self).wf(),
            final(self)@ == old(self)@.insert(topic@),
    {
        match self.position(topic) {
            Some(i) => {
                assert(topics_view(self.topics@)[i as int] == topic@);
                assert(self@ =~= self@.insert(topic@));
            },
            None => {
                let ghost before = topics_view(self.topics@);
                self.topics.push(string_of(topic));
                assert(topics_view(self.topics@) =~= before.push(topic@));
                proof { before.lemma_push_to_set_commute(topic@); }
            },
        }
    }

    /// Register `topic` for a subscriber; `alive` tells whether the receiver
    /// of an existing subscription is still held. Returns whether a new
    /// subscription was made: unless one is there and alive.
    pub fn subscribe(&mut self, topic: &str, alive: bool) -> (created: bool)
        requires
            old(self).wf(),
        ensures
            final(self).wf(),
            final(self)@ == old(self)@.insert(topic@),
            created == !(old(self)@.contains(topic@) && alive),
    {
        let found = self.contains(topic);
        self.insert(topic);
        !(found && alive)
    }

    /// What to do with a request to subscribe to `topic` while connected.
    pub fn plan_subscribe(&self, topic: &str, alive: bool) -> (p: SubscribePlan)
        requires
            self.wf(),
        ensures
            p == (if self@.contains(topic@) && alive { SubscribePlan::Reuse } else { SubscribePlan::SubscribeBroker }),
    {
        if self.contains(topic) && alive {
            SubscribePlan::Reuse
        } else {
            SubscribePlan::SubscribeBroker
        }
    }

    /// The broker answered a request to subscribe to `topic`: the topic is
    /// kept when it accepted, and dropped when it refused.
    pub fn subscribe_result(&mut self, topic: &str, accepted: bool)
        requires
            old(self).wf(),
        ensures
            final(self).wf(),
            accepted ==> final(self)@ == old(self)@.insert(topic@),
            !accepted ==> final(self)@ == old(self)@.remove(topic@),
    {
        if accepted {
            self.insert(topic);
        } else {
            self.unsubscribe(topic);
        }
    }

    /// Drop `topic`: its subscriber went away. Returns whether it was there,
    /// in which case the broker is told to unsubscribe.
    pub fn unsubscribe(&mut self, topic: &str) -> (removed: bool)
        requires
            old(self).wf(),
        ensures
            final(self).wf(),
            final(self)@ == old(self)@.remove(topic@),
            removed == old(self)@.contains(topic@),
    {
        match self.position(topic) {
            Some(i) => {
                let ghost before = topics_view(self.topics@);
                assert(before[i as int] == topic@);
                self.topics.remove(i);
                let ghost after = topics_view(self.topics@);
                assert(after =~= before.remove(i as int));
                assert forall|t: Seq<char>| after.to_set().contains(t) <==> before.to_set().remove(topic@).contains(t) by {
                    if after.contains(t) {
                        let k = choose|k: int| 0 <= k < after.len() && after[k] == t;
                        if k < i {
                            assert(before[k] == t);
                        } else {
                            assert(before[k + 1] == t);
                        }
                    }
                    if before.contains(t) && t != topic@ {
                        let k = choose|k: int| 0 <= k < before.len() && before[k] == t;
                        if k < i {
                            assert(after[k] == t);
                        } else {
                            assert(k != i);
                            assert(after[k - 1] == t);
                        }
                    }
                }
                assert(self@ =~= old(self)@.remove(topic@));
                true
            },
            None => {
                assert(self@ =~= self@.remove(topic@));
                false
            },
        }
    }

    /// The topics to ask the broker for again after it (re)connected, each
    /// once; when there are none, the broker is not asked.
    pub fn topics(&self) -> (v: Vec<String>)
        requires
            self.wf(),
        ensures
            topics_view(v@).to_set() == self@,
            no_duplicates(topics_view(v@)),
    {
        let mut v: Vec<String> = Vec::new();
        let mut i: usize = 0;
        while i < self.topics.len()
            invariant
                i <= self.topics@.len(),
                topics_view(v@) == topics_view(self.topics@).take(i as int),
            decreases self.topics@.len() - i,
        {
            let c = copy_string(&self.topics[i]);
            assert(topics_view(self.topics@)[i as int] == c@);
            let ghost prev = topics_view(v@);
            v.push(c);
            assert(topics_view(v@) =~= prev.push(c@));
            i = i + 1;
            assert(topics_view(v@) =~= topics_view(self.topics@).take(i as int));
        }
        assert(topics_view(self.topics@).take(self.topics@.len() as int) =~= topics_view(self.topics@));
        v
    }
}

} // verus!
