//! Tasks of a schedule and the MQTT messages they send.
use vstd::prelude::*;
use crate::text::{copy_string, copy_strings, strings_view};

verus! {

/// MQTT quality of service.
#[derive(Clone, Copy, Debug, PartialEq, Eq, Structural)]
pub enum QoS {
    /// At most once.
    AtMostOnce,
    /// At least once.
    AtLeastOnce,
    /// Exactly once.
    ExactlyOnce,
}

/// Whether the broker keeps the message for later subscribers.
#[derive(Clone, Copy, Debug, PartialEq, Eq, Structural)]
pub enum Retain {
    /// Keep the message.
    Retain,
    /// Do not keep the message.
    NoRetain,
}

/// The payload of a task.
#[derive(Debug, PartialEq)]
pub enum Payload {
    /// A plain string.
    String(String),
    /// A JSON document, in its serialized form.
    Json(String),
}

/// A task: a payload sent to each of its topics.
#[derive(Debug, PartialEq)]
pub struct Task {
    /// The title of the task.
    pub title: String,
    /// The payload.
    pub payload: Payload,
    /// The quality of service.
    pub qos: QoS,
    /// The retain flag.
    pub retain: Retain,
    /// The topics the payload is sent to.
    pub topics: Vec<String>,
}

/// An outgoing MQTT message.
#[derive(Debug, PartialEq)]
pub struct MqttMessage {
    /// The topic.
    pub topic: String,
    /// The payload.
    pub payload: String,
    /// The retain flag.
    pub retain: Retain,
    /// The quality of service.
    pub qos: QoS,
}

/// Model of a payload.
pub enum PayloadV {
    String(Seq<char>),
    Json(Seq<char>),
}

/// Model of a task.
pub struct TaskV {
    pub title: Seq<char>,
    pub payload: PayloadV,
    pub qos: QoS,
    pub retain: Retain,
    pub topics: Seq<Seq<char>>,
}

/// Model of an MQTT message.
pub struct MqttMessageV {
    pub topic: Seq<char>,
    pub payload: Seq<char>,
    pub retain: Retain,
    pub qos: QoS,
}

impl View for Payload {
    type V = PayloadV;

    open spec fn view(&self) -> PayloadV {
        match self {
            Payload::String(s) => PayloadV::String(s@),
            Payload::Json(s) => PayloadV::Json(s@),
        }
    }
}

impl View for Task {
    type V = TaskV;

    open spec fn view(&self) -> TaskV {
        TaskV {
            title: self.title@,
            payload: self.payload@,
            qos: self.qos,
            retain: self.retain,
            topics: strings_view(self.topics@),
        }
    }
}

impl View for MqttMessage {
    type V = MqttMessageV;

    open spec fn view(&self) -> MqttMessageV {
        MqttMessageV { topic: self.topic@, payload: self.payload@, retain: self.retain, qos: self.qos }
    }
}

/// The text of a payload.
pub open spec fn payload_text(p: PayloadV) -> Seq<char> {
    match p {
        PayloadV::String(s) => s,
        PayloadV::Json(s) => s,
    }
}

/// The messages of a task: one per topic, in order.
pub open spec fn spec_task_messages(t: TaskV) -> Seq<MqttMessageV> {
    t.topics.map_values(|topic: Seq<char>| MqttMessageV {
        topic,
        payload: payload_text(t.payload),
        retain: t.retain,
        qos: t.qos,
    })
}

impl Payload {
    /// A copy of the payload.
    pub fn duplicate(&self) -> (copy: Payload)
        ensures
            copy@ == self@,
    {
        match self {
            Payload::String(s) => Payload::String(copy_string(s)),
            Payload::Json(s) => Payload::Json(copy_string(s)),
        }
    }
}

impl Task {
    /// A copy of the task.
    pub fn duplicate(&self) -> (copy: Task)
        ensures
            copy@ == self@,
    {
        Task {
            title: copy_string(&self.title),
            payload: self.payload.duplicate(),
            qos: self.qos,
            retain: self.retain,
            topics: copy_strings(&self.topics),
        }
    }
}

/// The MQTT messages of a task: one per topic.
pub fn get_task_messages(task: &Task) -> (messages: Vec<MqttMessage>)
    ensures
        messages@.map_values(|m: MqttMessage| m@) == spec_task_messages(task@),
{
    let mut messages: Vec<MqttMessage> = Vec::new();
    let mut i: usize = 0;
    while i < task.topics.len()
        invariant
            i <= task.topics@.len(),
            messages@.len() == i,
            forall|j: int| 0 <= j < i ==> #[trigger] messages@[j]@ == spec_task_messages(task@)[j],
        decreases task.topics@.len() - i,
    {
        let payload = match &task.payload {
            Payload::String(s) => copy_string(s),
            Payload::Json(s) => copy_string(s),
        };
        messages.push(MqttMessage {
            topic: copy_string(&task.topics[i]),
            payload,
            retain: task.retain,
            qos: task.qos,
        });
        i = i + 1;
    }
    assert(messages@.map_values(|m: MqttMessage| m@) =~= spec_task_messages(task@));
    messages
}

} // verus!
