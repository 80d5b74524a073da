use robotica_backend::metrics::{climacontrol_ac_metrics, ConfigMetric, ConfigMetricType, RawMetricType};

#[test]
fn metrics_single() {
    let m = ConfigMetric {
        mqtt_topic: "shelly/a".to_string(),
        influx_topic: "power/a".to_string(),
        metric_type: ConfigMetricType::ShellyNotify,
    };
    let raw = m.to_raw_metrics();
    assert_eq!(raw.len(), 1);
    assert_eq!(raw[0].mqtt_topic, "shelly/a");
    assert_eq!(raw[0].influx_topic, "power/a");
    assert_eq!(raw[0].metric_type, RawMetricType::ShellyNotify);
}

#[test]
fn metrics_zwave_switch() {
    let m = ConfigMetric {
        mqtt_topic: "zwave/5".to_string(),
        influx_topic: "switch".to_string(),
        metric_type: ConfigMetricType::ZwaveSwitch,
    };
    let raw = m.to_raw_metrics();
    assert_eq!(raw.len(), 4);
    assert_eq!(raw[0].mqtt_topic, "zwave/5/50/0/value/65537");
    assert_eq!(raw[3].influx_topic, "switch/50/0/value/66817");
    assert!(raw.iter().all(|r| r.metric_type == RawMetricType::ZwaveF64));
}

#[test]
fn metrics_climacontrol() {
    let raw = climacontrol_ac_metrics("climacontrol/HVAC_E07578", "ac/dining_room");
    assert_eq!(raw.len(), 21);
    assert_eq!(raw[0].mqtt_topic, "climacontrol/HVAC_E07578/heatpump/actual_temperature");
    assert_eq!(raw[0].influx_topic, "ac/dining_room/heatpump/actual_temperature");
    assert_eq!(raw[0].metric_type, RawMetricType::ClimacontrolF64);
    assert_eq!(raw[20].mqtt_topic, "climacontrol/HVAC_E07578/sys/up");
    assert_eq!(raw[20].metric_type, RawMetricType::ClimacontrolU64);
    let m = ConfigMetric {
        mqtt_topic: "x".to_string(),
        influx_topic: "y".to_string(),
        metric_type: ConfigMetricType::ClimacontrolAc,
    };
    assert_eq!(m.to_raw_metrics().len(), 21);
}

#[test]
fn metrics_payload_format_and_tags() {
    assert!(RawMetricType::ShellyNotify.is_json());
    assert!(RawMetricType::ZwaveU8.is_json());
    assert!(!RawMetricType::ClimacontrolF64.is_json());
    assert!(!RawMetricType::ClimacontrolString.is_json());
    assert!(RawMetricType::ClimacontrolString.is_tag());
    assert!(!RawMetricType::ClimacontrolBool.is_tag());
    assert!(!RawMetricType::FishTank.is_tag());
}
