use slider_io::device::config::{
    brokenithm_ground_percent, BrokenithmSpec, ConfigField, ConfigValue, DeviceMode, HardwareSpec,
};

fn config(entries: Vec<(&str, ConfigField)>) -> ConfigValue {
    ConfigValue {
        entries: entries.into_iter().map(|(k, v)| (k.to_string(), v)).collect(),
    }
}

fn text(s: &str) -> ConfigField {
    ConfigField::Text(s.to_string())
}

#[test]
fn old_brokenithm_configs_default_to_equal_areas() {
    let value = config(vec![
        ("deviceMode", text("brokenithm")),
        ("disableAirStrings", ConfigField::Bool(false)),
        ("brokenithmPort", ConfigField::Integer(1606)),
    ]);

    assert_eq!(brokenithm_ground_percent(&value), 50);
    assert!(matches!(
        DeviceMode::from_serde_value(&value),
        Some(DeviceMode::Brokenithm {
            ground_percent: 50,
            ..
        })
    ));
}

#[test]
fn ipad_ground_area_is_clamped() {
    assert_eq!(
        brokenithm_ground_percent(&config(vec![("brokenithmGroundPercent", ConfigField::Integer(5))])),
        20
    );
    assert_eq!(
        brokenithm_ground_percent(&config(vec![("brokenithmGroundPercent", ConfigField::Integer(95))])),
        80
    );
    assert_eq!(
        brokenithm_ground_percent(&config(vec![("brokenithmGroundPercent", ConfigField::Integer(65))])),
        65
    );
}

#[test]
fn ground_percent_out_of_range_or_wrong_type_defaults() {
    for field in [
        ConfigField::Integer(300),
        ConfigField::Integer(-5),
        text("65"),
        ConfigField::Bool(true),
        ConfigField::Other,
    ] {
        assert_eq!(
            brokenithm_ground_percent(&config(vec![("brokenithmGroundPercent", field)])),
            50
        );
    }
    assert_eq!(
        brokenithm_ground_percent(&config(vec![("brokenithmGroundPercent", ConfigField::Integer(255))])),
        80
    );
    assert_eq!(
        brokenithm_ground_percent(&config(vec![("brokenithmGroundPercent", ConfigField::Integer(20))])),
        20
    );
    assert_eq!(brokenithm_ground_percent(&config(vec![])), 50);
}

#[test]
fn selects_no_device() {
    let value = config(vec![("deviceMode", text("none"))]);
    assert!(matches!(DeviceMode::from_serde_value(&value), Some(DeviceMode::NoDevice)));
}

#[test]
fn selects_hardware_controllers() {
    let cases = [
        ("tasoller-one", HardwareSpec::TasollerOne),
        ("tasoller-two", HardwareSpec::TasollerTwo),
        ("yuancon", HardwareSpec::Yuancon),
        ("yuancon-three", HardwareSpec::YuanconThree),
        ("yubideck", HardwareSpec::Yubideck),
        ("yubideck-three", HardwareSpec::YubideckThree),
    ];
    for (name, expected) in cases {
        let value = config(vec![
            ("deviceMode", text(name)),
            ("disableAirStrings", ConfigField::Bool(true)),
        ]);
        match DeviceMode::from_serde_value(&value) {
            Some(DeviceMode::Hardware { spec, disable_air }) => {
                assert_eq!(spec, expected);
                assert!(disable_air);
            }
            other => panic!("unexpected {:?}", other),
        }
        let missing = config(vec![("deviceMode", text(name))]);
        assert!(DeviceMode::from_serde_value(&missing).is_none());
    }
}

#[test]
fn selects_diva_slider() {
    let value = config(vec![
        ("deviceMode", text("diva")),
        ("divaSerialPort", text("COM3")),
        ("divaBrightness", ConfigField::Integer(63)),
    ]);
    match DeviceMode::from_serde_value(&value) {
        Some(DeviceMode::DivaSlider { port, brightness }) => {
            assert_eq!(port, "COM3");
            assert_eq!(brightness, 63);
        }
        other => panic!("unexpected {:?}", other),
    }
    let too_bright = config(vec![
        ("deviceMode", text("diva")),
        ("divaSerialPort", text("COM3")),
        ("divaBrightness", ConfigField::Integer(256)),
    ]);
    assert!(DeviceMode::from_serde_value(&too_bright).is_none());
    let no_port = config(vec![
        ("deviceMode", text("diva")),
        ("divaBrightness", ConfigField::Integer(1)),
    ]);
    assert!(DeviceMode::from_serde_value(&no_port).is_none());
}

#[test]
fn selects_brokenithm_layouts() {
    let value = config(vec![
        ("deviceMode", text("brokenithm-led")),
        ("disableAirStrings", ConfigField::Bool(true)),
        ("brokenithmPort", ConfigField::Integer(1700)),
        ("brokenithmGroundPercent", ConfigField::Integer(65)),
    ]);
    match DeviceMode::from_serde_value(&value) {
        Some(DeviceMode::Brokenithm { spec, lights_enabled, port, ground_percent }) => {
            assert_eq!(spec, BrokenithmSpec::GroundOnly);
            assert!(lights_enabled);
            assert_eq!(port, 1700);
            assert_eq!(ground_percent, 65);
        }
        other => panic!("unexpected {:?}", other),
    }
    let nostalgia = config(vec![
        ("deviceMode", text("brokenithm-nostalgia")),
        ("brokenithmPort", ConfigField::Integer(1606)),
    ]);
    match DeviceMode::from_serde_value(&nostalgia) {
        Some(DeviceMode::Brokenithm { spec, lights_enabled, port, ground_percent }) => {
            assert_eq!(spec, BrokenithmSpec::Nostalgia);
            assert!(!lights_enabled);
            assert_eq!(port, 1606);
            assert_eq!(ground_percent, 50);
        }
        other => panic!("unexpected {:?}", other),
    }
}

#[test]
fn brokenithm_port_falls_back_or_is_required() {
    let out_of_range = config(vec![
        ("deviceMode", text("brokenithm")),
        ("disableAirStrings", ConfigField::Bool(false)),
        ("brokenithmPort", ConfigField::Integer(70000)),
    ]);
    let mode = DeviceMode::from_serde_value(&out_of_range).unwrap();
    assert_eq!(mode.get_port(), Some(1606));
    let negative = config(vec![
        ("deviceMode", text("brokenithm-nostalgia")),
        ("brokenithmPort", ConfigField::Integer(-1)),
    ]);
    assert_eq!(DeviceMode::from_serde_value(&negative).unwrap().get_port(), Some(1606));
    let missing = config(vec![
        ("deviceMode", text("brokenithm")),
        ("disableAirStrings", ConfigField::Bool(false)),
    ]);
    assert!(DeviceMode::from_serde_value(&missing).is_none());
    let not_integer = config(vec![
        ("deviceMode", text("brokenithm")),
        ("disableAirStrings", ConfigField::Bool(false)),
        ("brokenithmPort", text("1606")),
    ]);
    assert!(DeviceMode::from_serde_value(&not_integer).is_none());
    let beyond_i64 = config(vec![
        ("deviceMode", text("brokenithm")),
        ("disableAirStrings", ConfigField::Bool(false)),
        ("brokenithmPort", ConfigField::Integer(u64::MAX as i128)),
    ]);
    assert!(DeviceMode::from_serde_value(&beyond_i64).is_none());
}

#[test]
fn unknown_or_missing_mode_selects_nothing() {
    assert!(DeviceMode::from_serde_value(&config(vec![("deviceMode", text("keyboard"))])).is_none());
    assert!(DeviceMode::from_serde_value(&config(vec![])).is_none());
    assert!(DeviceMode::from_serde_value(&config(vec![("deviceMode", ConfigField::Bool(true))])).is_none());
}

#[test]
fn get_port_only_for_brokenithm() {
    assert_eq!(DeviceMode::NoDevice.get_port(), None);
    let hw = DeviceMode::Hardware { spec: HardwareSpec::Yuancon, disable_air: false };
    assert_eq!(hw.get_port(), None);
    let diva = DeviceMode::DivaSlider { port: "COM1".to_string(), brightness: 1 };
    assert_eq!(diva.get_port(), None);
    let b = DeviceMode::Brokenithm {
        spec: BrokenithmSpec::Basic,
        lights_enabled: false,
        port: 1234,
        ground_percent: 50,
    };
    assert_eq!(b.get_port(), Some(1234));
}

#[test]
fn fields_read_like_json_and_names_are_looked_up() {
    assert_eq!(ConfigField::Integer(-3).as_i64(), Some(-3));
    assert_eq!(ConfigField::Integer(-3).as_u64(), None);
    assert_eq!(ConfigField::Integer(u64::MAX as i128).as_u64(), Some(u64::MAX));
    assert_eq!(ConfigField::Integer(u64::MAX as i128).as_i64(), None);
    assert_eq!(ConfigField::Bool(true).as_bool(), Some(true));
    assert_eq!(text("x").as_str(), Some("x"));
    assert_eq!(ConfigField::Other.as_str(), None);
    let value = config(vec![("a", ConfigField::Integer(1))]);
    assert!(value.get("a").is_some());
    assert!(value.get("b").is_none());
}
