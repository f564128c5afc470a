use rmixer::config::{count_ports, find_fault, ChannelConfig, ChannelFault, Config, ConfigError};

fn channel(name: &str, ports: &[&str], volume_db: Option<i32>) -> ChannelConfig {
    ChannelConfig {
        name: name.to_string(),
        ports: ports.iter().map(|p| p.to_string()).collect(),
        volume_db,
    }
}

fn config_from_yaml(text: &str) -> Config {
    let doc: serde_yaml::Value = serde_yaml::from_str(text).unwrap();
    let channels = |key: &str| -> Vec<ChannelConfig> {
        doc[key]
            .as_sequence()
            .unwrap()
            .iter()
            .map(|c| ChannelConfig {
                name: c["name"].as_str().unwrap().to_string(),
                ports: c["ports"]
                    .as_sequence()
                    .unwrap()
                    .iter()
                    .map(|p| p.as_str().unwrap().to_string())
                    .collect(),
                volume_db: c
                    .get("volume_db")
                    .and_then(|v| v.as_f64())
                    .map(|v| (v * 1000.0).round() as i32),
            })
            .collect()
    };
    Config {
        client_name: doc["client_name"].as_str().unwrap().to_string(),
        inputs: channels("inputs"),
        outputs: channels("outputs"),
        config_path: None,
    }
}

fn good() -> Config {
    Config {
        client_name: "Mixer".to_string(),
        inputs: vec![channel("Mic", &["capture_1"], None), channel("Music", &["l", "r"], Some(-6_000))],
        outputs: vec![channel("Main", &["playback_1", "playback_2"], Some(12_000))],
        config_path: None,
    }
}

#[test]
fn test_parse_config() {
    let yaml = r#"
client_name: "Mixer"
inputs:
  - name: "Mic"
    ports: ["capture_1"]
  - name: "Music"
    ports: ["capture_2", "capture_3"]
outputs:
  - name: "Main"
    ports: ["playback_1", "playback_2"]
"#;

    let config: Config = config_from_yaml(yaml);
    assert_eq!(config.client_name, "Mixer");
    assert_eq!(config.inputs.len(), 2);
    assert_eq!(config.outputs.len(), 1);
    assert!(!config.inputs[0].is_stereo());
    assert!(config.inputs[1].is_stereo());
    assert!(config.outputs[0].is_stereo());
    assert_eq!(config.validate(), Ok(()));
}

#[test]
fn good_config_is_accepted() {
    assert_eq!(good().validate(), Ok(()));
}

#[test]
fn empty_client_name_is_rejected_first() {
    let mut c = good();
    c.client_name = String::new();
    c.inputs.clear();
    assert_eq!(c.validate(), Err(ConfigError::EmptyClientName));
}

#[test]
fn a_direction_without_channels_is_rejected() {
    let mut c = good();
    c.inputs.clear();
    c.outputs.clear();
    assert_eq!(c.validate(), Err(ConfigError::NoInputs));
    let mut d = good();
    d.outputs.clear();
    assert_eq!(d.validate(), Err(ConfigError::NoOutputs));
}

#[test]
fn channel_faults_are_reported_with_their_position() {
    let mut c = good();
    c.inputs[1].name = String::new();
    assert_eq!(
        c.validate(),
        Err(ConfigError::Input { index: 1, fault: ChannelFault::EmptyName })
    );
    let mut c = good();
    c.inputs[0].ports.clear();
    assert_eq!(c.validate(), Err(ConfigError::Input { index: 0, fault: ChannelFault::NoPorts }));
    let mut c = good();
    c.outputs[0].ports.push("playback_3".to_string());
    assert_eq!(
        c.validate(),
        Err(ConfigError::Output { index: 0, fault: ChannelFault::TooManyPorts })
    );
    let mut c = good();
    c.outputs[0].volume_db = Some(12_001);
    assert_eq!(
        c.validate(),
        Err(ConfigError::Output { index: 0, fault: ChannelFault::VolumeOutOfRange })
    );
    let mut c = good();
    c.inputs[0].volume_db = Some(-60_001);
    assert_eq!(
        c.validate(),
        Err(ConfigError::Input { index: 0, fault: ChannelFault::VolumeOutOfRange })
    );
}

#[test]
fn the_first_fault_wins() {
    let mut c = good();
    c.inputs[1].ports.clear();
    c.inputs[1].name = String::new();
    c.inputs[0].ports.push("x".to_string());
    c.inputs[0].ports.push("y".to_string());
    c.outputs[0].name = String::new();
    assert_eq!(
        c.validate(),
        Err(ConfigError::Input { index: 0, fault: ChannelFault::TooManyPorts })
    );
    assert_eq!(find_fault(&c.inputs), Some((0, ChannelFault::TooManyPorts)));
    assert_eq!(find_fault(&c.outputs), Some((0, ChannelFault::EmptyName)));
    assert_eq!(find_fault(&good().inputs), None);
    assert_eq!(c.inputs[1].check(), Some(ChannelFault::EmptyName));
}

#[test]
fn volume_limits_themselves_are_accepted() {
    let mut c = good();
    c.inputs[0].volume_db = Some(-60_000);
    c.outputs[0].volume_db = Some(12_000);
    assert_eq!(c.validate(), Ok(()));
}

#[test]
fn port_counts() {
    let c = good();
    assert_eq!(c.inputs[0].port_count(), 1);
    assert_eq!(c.inputs[1].port_count(), 2);
    assert_eq!(channel("X", &["a", "b", "c"], None).port_count(), 2);
    assert_eq!(channel("X", &[], None).port_count(), 0);
    assert!(channel("X", &["a", "b", "c"], None).is_stereo());
    assert_eq!(c.total_input_ports(), 3);
    assert_eq!(c.total_output_ports(), 2);
    assert_eq!(count_ports(&Vec::new()), 0);
}

#[test]
fn update_volumes_records_as_far_as_both_reach() {
    let mut c = good();
    c.update_volumes(&[-1_000, -2_000, -3_000], &[]);
    assert_eq!(c.inputs[0].volume_db, Some(-1_000));
    assert_eq!(c.inputs[1].volume_db, Some(-2_000));
    assert_eq!(c.outputs[0].volume_db, Some(12_000));
    c.update_volumes(&[500], &[250]);
    assert_eq!(c.inputs[0].volume_db, Some(500));
    assert_eq!(c.inputs[1].volume_db, Some(-2_000));
    assert_eq!(c.outputs[0].volume_db, Some(250));
    assert_eq!(c.inputs[1].name, "Music");
    assert_eq!(c.inputs[1].ports.len(), 2);
    assert_eq!(c.client_name, "Mixer");
}
