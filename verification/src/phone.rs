//! Incoming phone calls: what the phone book says of a caller, and the
//! switchboard commands and announcement a call gets.
use vstd::prelude::*;
use crate::messages::{Message, MessagePriority};
use crate::tasks::{QoS, Retain};
use crate::text::{copy_string, push_str, string_of};

verus! {

broadcast use vstd::string::group_string_axioms;

/// What to do with a call.
#[derive(Clone, Copy, Debug, PartialEq, Eq, Structural)]
pub enum Action {
    /// Let the call ring.
    Allow,
    /// Send the call to voicemail.
    VoiceMail,
}

/// What the phone book says of a caller.
#[derive(Debug)]
pub struct Response {
    /// The caller's name, if known.
    pub name: Option<String>,
    /// What to do with the call.
    pub action: Action,
}

/// A command to the switchboard.
#[derive(Debug)]
pub enum EslCommand {
    /// Run an application with an argument.
    Execute(String, String),
    /// Hang up, with a cause.
    Hangup(String),
}

pub enum EslCommandV {
    Execute(Seq<char>, Seq<char>),
    Hangup(Seq<char>),
}

impl View for EslCommand {
    type V = EslCommandV;

    open spec fn view(&self) -> EslCommandV {
        match self {
            EslCommand::Execute(a, b) => EslCommandV::Execute(a@, b@),
            EslCommand::Hangup(c) => EslCommandV::Hangup(c@),
        }
    }
}

/// Where calls are announced.
#[derive(Debug)]
pub struct Config {
    /// The address the switchboard connects to.
    pub listen_address: String,
    /// The MQTT topic of the announcements.
    pub topic: String,
    /// The audience of the announcements.
    pub audience: String,
}

/// A message to send over MQTT, as JSON.
#[derive(Debug)]
pub struct MessageSend {
    /// The topic.
    pub topic: String,
    /// The message.
    pub message: Message,
    /// The retain flag.
    pub retain: Retain,
    /// The quality of service.
    pub qos: QoS,
}

/// What a call gets: switchboard commands in order, and an announcement.
#[derive(Debug)]
pub struct CallPlan {
    /// The commands, in order.
    pub commands: Vec<EslCommand>,
    /// The announcement to send, if any.
    pub announcement: Option<MessageSend>,
    /// How many of the commands run before the announcement is sent; the
    /// rest run after it.
    pub announce_after: usize,
}

/// The text of an announcement, if any.
pub open spec fn announced_body(a: Option<MessageSend>) -> Option<Seq<char>> {
    match a {
        Some(m) => Some(m.message.body@),
        None => None,
    }
}

/// An announcement of a call: on the configured topic, titled `Home Phone`,
/// low priority, for the configured audience, without flashing lights, not
/// retained, sent exactly once.
pub open spec fn announcement_fits(a: MessageSend, config: Config) -> bool {
    &&& a.topic@ == config.topic@
    &&& a.message.title@ == "Home Phone"@
    &&& a.message.priority == MessagePriority::Low
    &&& a.message.audience@ == config.audience@
    &&& !a.message.flash_lights
    &&& a.retain == Retain::NoRetain
    &&& a.qos == QoS::ExactlyOnce
}

/// The commands of a list.
pub open spec fn commands_view(v: Seq<EslCommand>) -> Seq<EslCommandV> {
    v.map_values(|c: EslCommand| c@)
}

/// The phone book's answer when it cannot be asked: allow, name unknown.
pub fn fallback_response() -> (r: Response)
    ensures
        r.name is None,
        r.action == Action::Allow,
{
    Response { name: None, action: Action::Allow }
}

/// The phone book's answer to use: what it replied when it answered with
/// success and a reply that could be read, else `fallback_response` (the
/// call is let through rather than lost).
pub fn reply_or_fallback(success: bool, decoded: Option<Response>) -> (r: Response)
    ensures
        match decoded {
            Some(d) => if success { r == d } else { r.name is None && r.action == Action::Allow },
            None => r.name is None && r.action == Action::Allow,
        },
{
    match decoded {
        Some(d) => if success { d } else { fallback_response() },
        None => fallback_response(),
    }
}

/// What an allowed call gets by default: ring the home group, then answer
/// and take a message.
pub open spec fn default_commands() -> Seq<EslCommandV> {
    seq![
        EslCommandV::Execute("bridge"@, "${group_call(home@${domain_name})}"@),
        EslCommandV::Execute("answer"@, ""@),
        EslCommandV::Execute("sleep"@, "1000"@),
        EslCommandV::Execute("set"@, "skip_instructions=true"@),
        EslCommandV::Execute("voicemail"@, "default $${domain} ${dialed_extension}"@),
    ]
}

fn push_default_commands(commands: &mut Vec<EslCommand>)
    ensures
        commands_view(final(commands)@) == commands_view(old(commands)@) + default_commands(),
{
    let ghost start = commands_view(commands@);
    commands.push(EslCommand::Execute(string_of("bridge"), string_of("${group_call(home@${domain_name})}")));
    commands.push(EslCommand::Execute(string_of("answer"), string_of("")));
    commands.push(EslCommand::Execute(string_of("sleep"), string_of("1000")));
    commands.push(EslCommand::Execute(string_of("set"), string_of("skip_instructions=true")));
    commands.push(EslCommand::Execute(string_of("voicemail"), string_of("default $${domain} ${dialed_extension}")));
    assert(commands_view(commands@) =~= start + default_commands());
}

/// The plan of a call whose numbers are unknown: the default commands.
pub fn unknown_call_plan() -> (p: CallPlan)
    ensures
        commands_view(p.commands@) == default_commands(),
        p.announcement is None,
        p.announce_after == 0,
{
    let mut commands: Vec<EslCommand> = Vec::new();
    push_default_commands(&mut commands);
    assert(commands_view(Seq::<EslCommand>::empty()) + default_commands() =~= default_commands());
    CallPlan { commands, announcement: None, announce_after: 0 }
}

/// The plan of a call from a known number: set the caller's name when the
/// phone book knows it; then, when allowed, announce `Call from` the name
/// (or the number) and run the default commands; else send the call to
/// voicemail and hang up.
pub open spec fn spec_call_plan(caller: Seq<char>, name: Option<Seq<char>>, action: Action) -> (Seq<EslCommandV>, Option<Seq<char>>) {
    let set_name: Seq<EslCommandV> = match name {
        Some(n) => seq![EslCommandV::Execute("set"@, "effective_caller_id_name="@ + n)],
        None => Seq::empty(),
    };
    match action {
        Action::Allow => (
            set_name + default_commands(),
            Some("Call from "@ + match name { Some(n) => n, None => caller }),
        ),
        Action::VoiceMail => (
            set_name + seq![
                EslCommandV::Execute("voicemail"@, "default $${domain} ${dialed_extension}"@),
                EslCommandV::Hangup("NORMAL_CLEARING"@),
            ],
            None,
        ),
    }
}

/// An optional name.
pub open spec fn opt_name(o: Option<String>) -> Option<Seq<char>> {
    match o {
        Some(s) => Some(s@),
        None => None,
    }
}

/// The plan of a call from a known number: see `spec_call_plan`; the
/// announcement is sent as `announcement_fits` says, after the command that
/// sets the caller's name and before the others.
pub fn call_plan(config: &Config, caller: &str, response: &Response) -> (p: CallPlan)
    ensures
        (commands_view(p.commands@), announced_body(p.announcement)) == spec_call_plan(caller@, opt_name(response.name), response.action),
        p.announcement matches Some(a) ==> announcement_fits(a, *config),
        p.announce_after == (if response.name is Some { 1usize } else { 0usize }),
        p.announce_after <= p.commands@.len(),
{
    let mut commands: Vec<EslCommand> = Vec::new();
    if let Some(name) = &response.name {
        let mut arg = string_of("effective_caller_id_name=");
        push_str(&mut arg, name.as_str());
        commands.push(EslCommand::Execute(string_of("set"), arg));
    }
    let announce_after = commands.len();
    let ghost set_name = commands_view(commands@);
    assert(set_name =~= match opt_name(response.name) {
        Some(n) => seq![EslCommandV::Execute("set"@, "effective_caller_id_name="@ + n)],
        None => Seq::<EslCommandV>::empty(),
    });
    match response.action {
        Action::Allow => {
            let mut message = string_of("Call from ");
            match &response.name {
                Some(name) => push_str(&mut message, name.as_str()),
                None => push_str(&mut message, caller),
            }
            push_default_commands(&mut commands);
            assert(commands_view(commands@).len() == commands@.len());
            assert(set_name.len() == announce_after);
            let announcement = MessageSend {
                topic: copy_string(&config.topic),
                message: Message {
                    title: string_of("Home Phone"),
                    body: message,
                    priority: MessagePriority::Low,
                    audience: copy_string(&config.audience),
                    flash_lights: false,
                },
                retain: Retain::NoRetain,
                qos: QoS::ExactlyOnce,
            };
            CallPlan { commands, announcement: Some(announcement), announce_after }
        },
        Action::VoiceMail => {
            commands.push(EslCommand::Execute(string_of("voicemail"), string_of("default $${domain} ${dialed_extension}")));
            commands.push(EslCommand::Hangup(string_of("NORMAL_CLEARING")));
            assert(commands_view(commands@) =~= set_name + seq![
                EslCommandV::Execute("voicemail"@, "default $${domain} ${dialed_extension}"@),
                EslCommandV::Hangup("NORMAL_CLEARING"@),
            ]);
            CallPlan { commands, announcement: None, announce_after }
        },
    }
}

} // verus!
