//! Metrics to record: which MQTT topics to follow, where to record their
//! values, and how each value is read.
use vstd::prelude::*;
use crate::text::{copy_string, push_char, push_str, strings_view};

verus! {

broadcast use vstd::string::group_string_axioms;

/// The kind of a configured metric.
#[derive(Clone, Copy, Debug, PartialEq, Eq, Structural)]
pub enum ConfigMetricType {
    /// A Shelly switch status.
    ShellySwitchStatus,
    /// A Shelly notification.
    ShellyNotify,
    /// A fish tank.
    FishTank,
    /// A Z-Wave switch: four meter values.
    ZwaveSwitch,
    /// An Anavi thermometer's temperature.
    AnaviTemperature,
    /// An Anavi thermometer's humidity.
    AnaviHumidity,
    /// A Z-Wave number.
    ZwaveF64,
    /// A Z-Wave byte.
    ZwaveU8,
    /// A Climacontrol heat pump: one metric per subtopic.
    ClimacontrolAc,
}

/// A configured metric.
#[derive(Debug)]
pub struct ConfigMetric {
    /// The MQTT topic (or prefix) to follow.
    pub mqtt_topic: String,
    /// The topic (or prefix) to record under.
    pub influx_topic: String,
    /// The kind of metric.
    pub metric_type: ConfigMetricType,
}

/// How the value of a topic is read.
#[derive(Clone, Copy, Debug, PartialEq, Eq, Structural)]
pub enum RawMetricType {
    /// A Shelly switch status.
    ShellySwitchStatus,
    /// A Shelly notification.
    ShellyNotify,
    /// A fish tank.
    FishTank,
    /// An Anavi thermometer's temperature.
    AnaviTemperature,
    /// An Anavi thermometer's humidity.
    AnaviHumidity,
    /// A Z-Wave number.
    ZwaveF64,
    /// A Z-Wave byte.
    ZwaveU8,
    /// A Climacontrol number.
    ClimacontrolF64,
    /// A Climacontrol signed integer.
    ClimacontrolI32,
    /// A Climacontrol byte.
    ClimacontrolU8,
    /// A Climacontrol unsigned integer.
    ClimacontrolU32,
    /// A Climacontrol large unsigned integer.
    ClimacontrolU64,
    /// A Climacontrol flag.
    ClimacontrolBool,
    /// A Climacontrol string.
    ClimacontrolString,
}

impl RawMetricType {
    /// Is the payload JSON? Climacontrol values come as plain text.
    pub fn is_json(self) -> (b: bool)
        ensures
            b == !(self == RawMetricType::ClimacontrolF64 || self == RawMetricType::ClimacontrolI32
                || self == RawMetricType::ClimacontrolU8 || self == RawMetricType::ClimacontrolU32
                || self == RawMetricType::ClimacontrolU64 || self == RawMetricType::ClimacontrolBool
                || self == RawMetricType::ClimacontrolString),
    {
        match self {
            RawMetricType::ClimacontrolF64 | RawMetricType::ClimacontrolI32 | RawMetricType::ClimacontrolU8
            | RawMetricType::ClimacontrolU32 | RawMetricType::ClimacontrolU64 | RawMetricType::ClimacontrolBool
            | RawMetricType::ClimacontrolString => false,
            _ => true,
        }
    }

    /// Is the value recorded as a tag, so that it can be grouped by? Text
    /// values are; everything else is recorded as a field.
    pub fn is_tag(self) -> (b: bool)
        ensures
            b == (self == RawMetricType::ClimacontrolString),
    {
        match self {
            RawMetricType::ClimacontrolString => true,
            _ => false,
        }
    }
}

/// One topic to follow and record.
#[derive(Debug)]
pub struct RawMetric {
    /// The MQTT topic.
    pub mqtt_topic: String,
    /// The topic to record under.
    pub influx_topic: String,
    /// How the value is read.
    pub metric_type: RawMetricType,
}

pub struct RawMetricV {
    pub mqtt_topic: Seq<char>,
    pub influx_topic: Seq<char>,
    pub metric_type: RawMetricType,
}

impl View for RawMetric {
    type V = RawMetricV;

    open spec fn view(&self) -> RawMetricV {
        RawMetricV { mqtt_topic: self.mqtt_topic@, influx_topic: self.influx_topic@, metric_type: self.metric_type }
    }
}

/// A list of metrics.
pub open spec fn raw_metrics_view(v: Seq<RawMetric>) -> Seq<RawMetricV> {
    v.map_values(|m: RawMetric| m@)
}

/// The subtopics a Climacontrol heat pump publishes, and how each is read.
pub open spec fn climacontrol_entries() -> Seq<(Seq<char>, RawMetricType)> {
    seq![
        ("heatpump/actual_temperature"@, RawMetricType::ClimacontrolF64),
        ("heatpump/set_temperature"@, RawMetricType::ClimacontrolF64),
        ("heatpump/tout"@, RawMetricType::ClimacontrolF64),
        ("heatpump/tpcns"@, RawMetricType::ClimacontrolF64),
        ("heatpump/pinp"@, RawMetricType::ClimacontrolU32),
        ("heatpump/optime"@, RawMetricType::ClimacontrolU64),
        ("heatpump/oper"@, RawMetricType::ClimacontrolBool),
        ("heatpump/defrost"@, RawMetricType::ClimacontrolBool),
        ("heatpump/filter"@, RawMetricType::ClimacontrolBool),
        ("heatpump/standby"@, RawMetricType::ClimacontrolBool),
        ("heatpump/isee"@, RawMetricType::ClimacontrolBool),
        ("heatpump/mode"@, RawMetricType::ClimacontrolString),
        ("heatpump/power"@, RawMetricType::ClimacontrolString),
        ("heatpump/fan"@, RawMetricType::ClimacontrolString),
        ("heatpump/fault_code"@, RawMetricType::ClimacontrolString),
        ("sensor/thermometer/tact"@, RawMetricType::ClimacontrolF64),
        ("sensor/thermometer/hact"@, RawMetricType::ClimacontrolU8),
        ("sensor/thermometer/batt"@, RawMetricType::ClimacontrolU8),
        ("sensor/thermometer/rssi"@, RawMetricType::ClimacontrolI32),
        ("wifi/rssi"@, RawMetricType::ClimacontrolI32),
        ("sys/up"@, RawMetricType::ClimacontrolU64)
    ]
}

/// The meter subtopics of a Z-Wave switch.
pub open spec fn zwave_switch_entries() -> Seq<Seq<char>> {
    seq![
        "50/0/value/65537"@,
        "50/0/value/66049"@,
        "50/0/value/66561"@,
        "50/0/value/66817"@
    ]
}

/// The metric of subtopic `suffix` under both prefixes.
pub open spec fn sub_metric(mqtt_topic: Seq<char>, influx_topic: Seq<char>, suffix: Seq<char>, t: RawMetricType) -> RawMetricV {
    RawMetricV {
        mqtt_topic: mqtt_topic + seq!['/'] + suffix,
        influx_topic: influx_topic + seq!['/'] + suffix,
        metric_type: t,
    }
}

/// The metrics of a Climacontrol heat pump: one per subtopic, under both prefixes.
pub open spec fn spec_climacontrol_ac_metrics(mqtt_topic: Seq<char>, influx_topic: Seq<char>) -> Seq<RawMetricV> {
    climacontrol_entries().map_values(|e: (Seq<char>, RawMetricType)| sub_metric(mqtt_topic, influx_topic, e.0, e.1))
}

/// The metrics a configured metric expands to: a Z-Wave switch to its four
/// meter values, a heat pump to its subtopics, anything else to itself.
pub open spec fn spec_raw_metrics(m: Seq<char>, i: Seq<char>, t: ConfigMetricType) -> Seq<RawMetricV> {
    let single = |rt: RawMetricType| seq![RawMetricV { mqtt_topic: m, influx_topic: i, metric_type: rt }];
    match t {
        ConfigMetricType::ShellySwitchStatus => single(RawMetricType::ShellySwitchStatus),
        ConfigMetricType::ShellyNotify => single(RawMetricType::ShellyNotify),
        ConfigMetricType::FishTank => single(RawMetricType::FishTank),
        ConfigMetricType::ZwaveSwitch => zwave_switch_entries().map_values(|s: Seq<char>| sub_metric(m, i, s, RawMetricType::ZwaveF64)),
        ConfigMetricType::AnaviTemperature => single(RawMetricType::AnaviTemperature),
        ConfigMetricType::AnaviHumidity => single(RawMetricType::AnaviHumidity),
        ConfigMetricType::ZwaveF64 => single(RawMetricType::ZwaveF64),
        ConfigMetricType::ZwaveU8 => single(RawMetricType::ZwaveU8),
        ConfigMetricType::ClimacontrolAc => spec_climacontrol_ac_metrics(m, i),
    }
}

fn raw_metric(mqtt_topic: &str, influx_topic: &str, suffix: &str, t: RawMetricType) -> (r: RawMetric)
    ensures
        r@ == sub_metric(mqtt_topic@, influx_topic@, suffix@, t),
{
    let mut m = String::new();
    push_str(&mut m, mqtt_topic);
    push_char(&mut m, '/');
    push_str(&mut m, suffix);
    let mut i = String::new();
    push_str(&mut i, influx_topic);
    push_char(&mut i, '/');
    push_str(&mut i, suffix);
    assert(m@ =~= mqtt_topic@ + seq!['/'] + suffix@);
    assert(i@ =~= influx_topic@ + seq!['/'] + suffix@);
    RawMetric { mqtt_topic: m, influx_topic: i, metric_type: t }
}

/// The metrics of a Climacontrol heat pump: see `spec_climacontrol_ac_metrics`.
pub fn climacontrol_ac_metrics(mqtt_topic: &str, influx_topic: &str) -> (out: Vec<RawMetric>)
    ensures
        raw_metrics_view(out@) == spec_climacontrol_ac_metrics(mqtt_topic@, influx_topic@),
{
    let mut out: Vec<RawMetric> = Vec::new();
    out.push(raw_metric(mqtt_topic, influx_topic, "heatpump/actual_temperature", RawMetricType::ClimacontrolF64));
    out.push(raw_metric(mqtt_topic, influx_topic, "heatpump/set_temperature", RawMetricType::ClimacontrolF64));
    out.push(raw_metric(mqtt_topic, influx_topic, "heatpump/tout", RawMetricType::ClimacontrolF64));
    out.push(raw_metric(mqtt_topic, influx_topic, "heatpump/tpcns", RawMetricType::ClimacontrolF64));
    out.push(raw_metric(mqtt_topic, influx_topic, "heatpump/pinp", RawMetricType::ClimacontrolU32));
    out.push(raw_metric(mqtt_topic, influx_topic, "heatpump/optime", RawMetricType::ClimacontrolU64));
    out.push(raw_metric(mqtt_topic, influx_topic, "heatpump/oper", RawMetricType::ClimacontrolBool));
    out.push(raw_metric(mqtt_topic, influx_topic, "heatpump/defrost", RawMetricType::ClimacontrolBool));
    out.push(raw_metric(mqtt_topic, influx_topic, "heatpump/filter", RawMetricType::ClimacontrolBool));
    out.push(raw_metric(mqtt_topic, influx_topic, "heatpump/standby", RawMetricType::ClimacontrolBool));
    out.push(raw_metric(mqtt_topic, influx_topic, "heatpump/isee", RawMetricType::ClimacontrolBool));
    out.push(raw_metric(mqtt_topic, influx_topic, "heatpump/mode", RawMetricType::ClimacontrolString));
    out.push(raw_metric(mqtt_topic, influx_topic, "heatpump/power", RawMetricType::ClimacontrolString));
    out.push(raw_metric(mqtt_topic, influx_topic, "heatpump/fan", RawMetricType::ClimacontrolString));
    out.push(raw_metric(mqtt_topic, influx_topic, "heatpump/fault_code", RawMetricType::ClimacontrolString));
    out.push(raw_metric(mqtt_topic, influx_topic, "sensor/thermometer/tact", RawMetricType::ClimacontrolF64));
    out.push(raw_metric(mqtt_topic, influx_topic, "sensor/thermometer/hact", RawMetricType::ClimacontrolU8));
    out.push(raw_metric(mqtt_topic, influx_topic, "sensor/thermometer/batt", RawMetricType::ClimacontrolU8));
    out.push(raw_metric(mqtt_topic, influx_topic, "sensor/thermometer/rssi", RawMetricType::ClimacontrolI32));
    out.push(raw_metric(mqtt_topic, influx_topic, "wifi/rssi", RawMetricType::ClimacontrolI32));
    out.push(raw_metric(mqtt_topic, influx_topic, "sys/up", RawMetricType::ClimacontrolU64));
    assert(raw_metrics_view(out@) =~= spec_climacontrol_ac_metrics(mqtt_topic@, influx_topic@));
    out
}

impl ConfigMetric {
    /// The metrics to follow for this configured metric: see `spec_raw_metrics`.
    pub fn to_raw_metrics(&self) -> (out: Vec<RawMetric>)
        ensures
            raw_metrics_view(out@) == spec_raw_metrics(self.mqtt_topic@, self.influx_topic@, self.metric_type),
    {
        let single = |rt: RawMetricType| -> (v: Vec<RawMetric>)
            ensures
                raw_metrics_view(v@) == seq![RawMetricV { mqtt_topic: self.mqtt_topic@, influx_topic: self.influx_topic@, metric_type: rt }],
        {
            let mut v: Vec<RawMetric> = Vec::new();
            v.push(RawMetric { mqtt_topic: copy_string(&self.mqtt_topic), influx_topic: copy_string(&self.influx_topic), metric_type: rt });
            assert(raw_metrics_view(v@) =~= seq![RawMetricV { mqtt_topic: self.mqtt_topic@, influx_topic: self.influx_topic@, metric_type: rt }]);
            v
        };
        let m = self.mqtt_topic.as_str();
        let i = self.influx_topic.as_str();
        match self.metric_type {
            ConfigMetricType::ShellySwitchStatus => single(RawMetricType::ShellySwitchStatus),
            ConfigMetricType::ShellyNotify => single(RawMetricType::ShellyNotify),
            ConfigMetricType::FishTank => single(RawMetricType::FishTank),
            ConfigMetricType::ZwaveSwitch => {
                let mut out: Vec<RawMetric> = Vec::new();
            out.push(raw_metric(m, i, "50/0/value/65537", RawMetricType::ZwaveF64));
            out.push(raw_metric(m, i, "50/0/value/66049", RawMetricType::ZwaveF64));
            out.push(raw_metric(m, i, "50/0/value/66561", RawMetricType::ZwaveF64));
            out.push(raw_metric(m, i, "50/0/value/66817", RawMetricType::ZwaveF64));
                assert(raw_metrics_view(out@) =~= spec_raw_metrics(self.mqtt_topic@, self.influx_topic@, self.metric_type));
                out
            },
            ConfigMetricType::AnaviTemperature => single(RawMetricType::AnaviTemperature),
            ConfigMetricType::AnaviHumidity => single(RawMetricType::AnaviHumidity),
            ConfigMetricType::ZwaveF64 => single(RawMetricType::ZwaveF64),
            ConfigMetricType::ZwaveU8 => single(RawMetricType::ZwaveU8),
            ConfigMetricType::ClimacontrolAc => climacontrol_ac_metrics(m, i),
        }
    }
}

} // verus!
