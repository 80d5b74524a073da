//! Routing messages for people: a route takes a message when its audience
//! matches and, if it names rooms, when someone is in one of them; each route
//! that takes it gets the message as a command.
use vstd::prelude::*;
use crate::tasks::{QoS, Retain};
use crate::text::{contains_str, copy_string, strings_view};

verus! {

broadcast use vstd::string::group_string_axioms;

/// How urgent a message is.
#[derive(Clone, Copy, Debug, PartialEq, Eq, Structural)]
pub enum MessagePriority {
    /// Say it now.
    Urgent,
    /// Say it during the day.
    Daytime,
    /// Say it when convenient.
    Low,
}

/// A message for people.
#[derive(Debug)]
pub struct Message {
    /// The title.
    pub title: String,
    /// The text.
    pub body: String,
    /// How urgent it is.
    pub priority: MessagePriority,
    /// Who it is for.
    pub audience: String,
    /// Should lights flash when it is given?
    pub flash_lights: bool,
}

/// Model of a message.
pub struct MessageV {
    pub title: Seq<char>,
    pub body: Seq<char>,
    pub priority: MessagePriority,
    pub audience: Seq<char>,
    pub flash_lights: bool,
}

impl View for Message {
    type V = MessageV;

    open spec fn view(&self) -> MessageV {
        MessageV {
            title: self.title@,
            body: self.body@,
            priority: self.priority,
            audience: self.audience@,
            flash_lights: self.flash_lights,
        }
    }
}

impl Message {
    /// A copy of the message.
    pub fn duplicate(&self) -> (m: Message)
        ensures
            m@ == self@,
    {
        Message {
            title: copy_string(&self.title),
            body: copy_string(&self.body),
            priority: self.priority,
            audience: copy_string(&self.audience),
            flash_lights: self.flash_lights,
        }
    }
}

/// A command to a device.
#[derive(Debug)]
pub enum Command {
    /// Give a message.
    Message(Message),
}

/// Model of a command.
pub enum CommandV {
    Message(MessageV),
}

impl View for Command {
    type V = CommandV;

    open spec fn view(&self) -> CommandV {
        match self {
            Command::Message(m) => CommandV::Message(m@),
        }
    }
}

/// A command to send over MQTT, as JSON.
#[derive(Debug)]
pub struct CommandSend {
    /// The topic.
    pub topic: String,
    /// The command.
    pub command: Command,
    /// The retain flag.
    pub retain: Retain,
    /// The quality of service.
    pub qos: QoS,
}

/// A room someone must be in for a route to apply.
#[derive(Debug)]
pub struct PresenceRequirement {
    /// The presence tracker to ask.
    pub presence_id: String,
    /// The room.
    pub room: String,
}

/// Where messages for an audience go.
#[derive(Debug)]
pub struct MessageRoute {
    /// The MQTT topic the message is sent to.
    pub topic: String,
    /// The audiences the route takes; all when empty.
    pub audience: Vec<String>,
    /// The rooms of which one must be occupied; none needed when empty.
    pub presence_requirements: Vec<PresenceRequirement>,
}

/// The room each requirement's tracker reports, if any.
pub open spec fn rooms_view(v: Seq<Option<String>>) -> Seq<Option<Seq<char>>> {
    v.map_values(|o: Option<String>| match o { Some(s) => Some(s@), None => None })
}

/// Does the route take a message for `audience`, given the rooms the trackers
/// of its requirements report (paired in order)? Presence holds when there are
/// no requirements, or when a tracker reports its requirement's room; the
/// audience matches when the route lists it or lists none.
pub open spec fn route_matches(r: MessageRoute, rooms: Seq<Option<Seq<char>>>, audience: Seq<char>) -> bool {
    let reqs = r.presence_requirements@;
    let presence = reqs.len() == 0 || exists|j: int| 0 <= j < rooms.len() && j < reqs.len()
        && #[trigger] rooms[j] == Some(reqs[j].room@);
    let aud = strings_view(r.audience@).contains(audience) || r.audience@.len() == 0;
    presence && aud
}

/// Each route has its list of reported rooms, one per requirement.
pub open spec fn rooms_paired(routes: Seq<MessageRoute>, rooms: Seq<Vec<Option<String>>>) -> bool {
    &&& rooms.len() == routes.len()
    &&& forall|i: int| 0 <= i < routes.len() ==> (#[trigger] rooms[i])@.len() == routes[i].presence_requirements@.len()
}

/// The topics of the routes that take the message, in route order; routes
/// and room lists are paired in order.
pub open spec fn spec_route_topics(routes: Seq<MessageRoute>, rooms: Seq<Vec<Option<String>>>, audience: Seq<char>, k: int) -> Seq<Seq<char>>
    decreases k,
{
    if k <= 0 {
        Seq::empty()
    } else if route_matches(routes[k - 1], rooms_view(rooms[k - 1]@), audience) {
        spec_route_topics(routes, rooms, audience, k - 1).push(routes[k - 1].topic@)
    } else {
        spec_route_topics(routes, rooms, audience, k - 1)
    }
}

fn presence_matches(route: &MessageRoute, rooms: &Vec<Option<String>>) -> (b: bool)
    ensures
        b == (route.presence_requirements@.len() == 0 || exists|j: int| 0 <= j < rooms@.len() && j < route.presence_requirements@.len()
            && #[trigger] rooms_view(rooms@)[j] == Some(route.presence_requirements@[j].room@)),
{
    if route.presence_requirements.len() == 0 {
        return true;
    }
    let ghost rv = rooms_view(rooms@);
    let mut j: usize = 0;
    while j < rooms.len() && j < route.presence_requirements.len()
        invariant
            j <= rooms@.len(),
            rv == rooms_view(rooms@),
            forall|k: int| 0 <= k < j ==> #[trigger] rv[k] != Some(route.presence_requirements@[k].room@),
        decreases rooms@.len() - j,
    {
        match &rooms[j] {
            Some(room) => {
                if *room == route.presence_requirements[j].room {
                    assert(rv[j as int] == Some(route.presence_requirements@[j as int].room@));
                    return true;
                }
            },
            None => {},
        }
        assert(rv[j as int] != Some(route.presence_requirements@[j as int].room@));
        j = j + 1;
    }
    false
}

/// The topics to send a message for `audience` to: see `spec_route_topics`.
pub fn route_topics(routes: &Vec<MessageRoute>, rooms: &Vec<Vec<Option<String>>>, audience: &String) -> (topics: Vec<String>)
    requires
        rooms_paired(routes@, rooms@),
    ensures
        strings_view(topics@) == spec_route_topics(routes@, rooms@, audience@, routes@.len() as int),
{
    let mut topics: Vec<String> = Vec::new();
    let mut i: usize = 0;
    while i < routes.len() && i < rooms.len()
        invariant
            i <= routes@.len(),
            i <= rooms@.len(),
            strings_view(topics@) == spec_route_topics(routes@, rooms@, audience@, i as int),
        decreases routes@.len() - i,
    {
        let route = &routes[i];
        let presence = presence_matches(route, &rooms[i]);
        let aud = contains_str(&route.audience, audience) || route.audience.len() == 0;
        if presence && aud {
            let ghost before = strings_view(topics@);
            topics.push(copy_string(&route.topic));
            assert(strings_view(topics@) =~= before.push(route.topic@));
        }
        i = i + 1;
    }
    topics
}


/// What to send for a message: on the topic of each route that takes it (see
/// `spec_route_topics`), in route order, the message as a command, not
/// retained, exactly once.
pub fn route_message(routes: &Vec<MessageRoute>, rooms: &Vec<Vec<Option<String>>>, message: &Message) -> (sends: Vec<CommandSend>)
    requires
        rooms_paired(routes@, rooms@),
    ensures
        sends@.len() == spec_route_topics(routes@, rooms@, message.audience@, routes@.len() as int).len(),
        forall|i: int| 0 <= i < sends@.len() ==> {
            &&& (#[trigger] sends@[i]).topic@ == spec_route_topics(routes@, rooms@, message.audience@, routes@.len() as int)[i]
            &&& sends@[i].command@ == CommandV::Message(message@)
            &&& sends@[i].retain == Retain::NoRetain
            &&& sends@[i].qos == QoS::ExactlyOnce
        },
{
    let topics = route_topics(routes, rooms, &message.audience);
    let ghost ts = spec_route_topics(routes@, rooms@, message.audience@, routes@.len() as int);
    let mut sends: Vec<CommandSend> = Vec::new();
    let mut i: usize = 0;
    while i < topics.len()
        invariant
            i <= topics@.len(),
            strings_view(topics@) == ts,
            sends@.len() == i,
            forall|k: int| 0 <= k < i ==> {
                &&& (#[trigger] sends@[k]).topic@ == ts[k]
                &&& sends@[k].command@ == CommandV::Message(message@)
                &&& sends@[k].retain == Retain::NoRetain
                &&& sends@[k].qos == QoS::ExactlyOnce
            },
        decreases topics@.len() - i,
    {
        assert(strings_view(topics@)[i as int] == topics@[i as int]@);
        sends.push(CommandSend {
            topic: copy_string(&topics[i]),
            command: Command::Message(message.duplicate()),
            retain: Retain::NoRetain,
            qos: QoS::ExactlyOnce,
        });
        i = i + 1;
    }
    sends
}

} // verus!
