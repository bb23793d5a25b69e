use paystream::config::{parse_brokers, split_commas, AppConfig};
use paystream::PayStreamError;

#[test]
fn app_config_has_sensible_defaults() {
    let cfg = AppConfig::default();
    assert_eq!(cfg.http_port, 8082);
    assert_eq!(cfg.input_topic, "payments.events");
    assert_eq!(cfg.output_topic, "payments.enriched");
    assert_eq!(cfg.partition, 0);
    assert!(!cfg.kafka_brokers.is_empty());
}

fn s(v: &str) -> Option<String> {
    Some(v.to_string())
}

#[test]
fn settings_override_defaults() {
    let cfg = AppConfig::from_settings(
        s(" a:1 ,b:2,\u{3000}c:3\t"),
        s("in"),
        None,
        s("+7"),
        s("9000"),
    )
    .unwrap();
    assert_eq!(cfg.kafka_brokers, vec!["a:1", "b:2", "c:3"]);
    assert_eq!(cfg.input_topic, "in");
    assert_eq!(cfg.output_topic, "payments.enriched");
    assert_eq!(cfg.partition, 7);
    assert_eq!(cfg.http_port, 9000);
    let defaults = AppConfig::from_settings(None, None, None, None, None).unwrap();
    assert_eq!(defaults.kafka_brokers, vec!["localhost:9092"]);
    assert_eq!(defaults.http_port, 8082);
    let negative = AppConfig::from_settings(None, None, None, s("-3"), None).unwrap();
    assert_eq!(negative.partition, -3);
}

#[test]
fn bad_numbers_are_configuration_errors() {
    match AppConfig::from_settings(None, None, None, s("x1"), s("99999")) {
        Err(PayStreamError::Config(m)) => {
            assert!(m.starts_with("PAYSTREAM_PARTITION: "), "{m}");
        }
        other => panic!("unexpected {other:?}"),
    }
    match AppConfig::from_settings(None, None, None, s("1"), s("99999")) {
        Err(PayStreamError::Config(m)) => assert!(m.starts_with("PAYSTREAM_HTTP_PORT: "), "{m}"),
        other => panic!("unexpected {other:?}"),
    }
    for bad in ["", "+", "-", " 1", "1 ", "2147483648", "1e3"] {
        assert!(AppConfig::from_settings(None, None, None, s(bad), None).is_err(), "{bad:?}");
    }
    for bad in ["-1", "65536", "-0"] {
        assert!(AppConfig::from_settings(None, None, None, None, s(bad)).is_err(), "{bad:?}");
    }
    let edge = AppConfig::from_settings(None, None, None, s("-2147483648"), s("65535")).unwrap();
    assert_eq!(edge.partition, i32::MIN);
    assert_eq!(edge.http_port, 65535);
}

#[test]
fn broker_lists_split_at_commas() {
    assert_eq!(split_commas(""), vec![""]);
    assert_eq!(split_commas("a,,b,"), vec!["a", "", "b", ""]);
    assert_eq!(parse_brokers(" x , y"), vec!["x", "y"]);
    assert_eq!(parse_brokers(","), vec!["", ""]);
}
