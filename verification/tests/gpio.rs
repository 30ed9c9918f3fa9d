use slight::gpio::{parse_pin_config, Gpio, GpioError, LogicLevel, PinConfig, Pull};

#[test]
fn good_pin_configs() {
    for (config, expected) in [
        ("1/input", PinConfig::Input { pin: 1, pull: None }),
        (
            "2/input/pullup",
            PinConfig::Input {
                pin: 2,
                pull: Some(Pull::Up),
            },
        ),
        (
            "3/input/pulldown",
            PinConfig::Input {
                pin: 3,
                pull: Some(Pull::Down),
            },
        ),
        (
            "4/output",
            PinConfig::Output {
                pin: 4,
                init_level: None,
            },
        ),
        (
            "5/output/low",
            PinConfig::Output {
                pin: 5,
                init_level: Some(LogicLevel::Low),
            },
        ),
        (
            "6/output/high",
            PinConfig::Output {
                pin: 6,
                init_level: Some(LogicLevel::High),
            },
        ),
    ] {
        let result = parse_pin_config(config);
        assert!(result.is_ok(), "good config '{config}' returned {result:?}");
        match result {
            Ok(actual) => assert_eq!(
                expected, actual,
                "config '{config}': expected {expected:?}, got {actual:?}"
            ),
            Err(e) => panic!("no pin constructed for '{config}' (result is {e:?})"),
        }
    }
}

#[test]
fn bad_pin_configs() {
    for config in [
        "",
        "some",
        "body/once",
        "told/me/the",
        "1/world",
        "1/input/was",
        "1/output/gonna",
        "1/input/pullup/roll",
        "1/output/low/me",
        "-1/input",
        "420/output",
        "3.1415/input",
        "///",
        "2.71828/Eureka!",
        "1/2/3",
        "input/input/input",
    ] {
        match parse_pin_config(config) {
            Err(GpioError::ConfigurationError(_)) => (),
            Err(wrong) => {
                panic!(
                    "bad config '{config}' returned {wrong:?}, which is not a ConfigurationError"
                )
            }
            Ok(pin) => panic!("bad config '{config}' somehow returned Ok({pin:?}"),
        }
    }
}

#[test]
fn pin_config_error_messages() {
    match parse_pin_config("1") {
        Err(GpioError::ConfigurationError(m)) => assert_eq!(m, "no pin type"),
        other => panic!("unexpected {other:?}"),
    }
    match parse_pin_config("1/sideways") {
        Err(GpioError::ConfigurationError(m)) => assert_eq!(m, "unknown pin type 'sideways'"),
        other => panic!("unexpected {other:?}"),
    }
    match parse_pin_config("1/input/up") {
        Err(GpioError::ConfigurationError(m)) => assert_eq!(m, "unknown pull setting 'up'"),
        other => panic!("unexpected {other:?}"),
    }
    match parse_pin_config("1/output/mid") {
        Err(GpioError::ConfigurationError(m)) => assert_eq!(m, "unknown initial level 'mid'"),
        other => panic!("unexpected {other:?}"),
    }
    match parse_pin_config("1/input/pullup/x") {
        Err(GpioError::ConfigurationError(m)) => assert_eq!(m, "too many fields for input pin"),
        other => panic!("unexpected {other:?}"),
    }
    match parse_pin_config("1/output/low/x") {
        Err(GpioError::ConfigurationError(m)) => assert_eq!(m, "too many fields for output pin"),
        other => panic!("unexpected {other:?}"),
    }
    match parse_pin_config("300/input") {
        Err(GpioError::ConfigurationError(m)) => {
            let expected = format!(
                "invalid pin number '300': {}",
                "300".parse::<u8>().unwrap_err()
            );
            assert_eq!(m, expected)
        }
        other => panic!("unexpected {other:?}"),
    }
    assert_eq!(
        parse_pin_config("255/output").unwrap(),
        PinConfig::Output { pin: 255, init_level: None }
    );
    assert_eq!(
        parse_pin_config("+7/input").unwrap(),
        PinConfig::Input { pin: 7, pull: None }
    );
}

#[test]
fn named_pins_are_found_by_direction() {
    let gpio = Gpio::new(Some(vec![
        ("led".to_string(), "4/output/high".to_string()),
        ("button".to_string(), "5/input/pullup".to_string()),
        ("broken".to_string(), "x/input".to_string()),
        ("led".to_string(), "6/output".to_string()),
    ]));
    assert_eq!(
        gpio.output_pin_get_named("led").unwrap(),
        PinConfig::Output { pin: 6, init_level: None }
    );
    assert_eq!(
        gpio.input_pin_get_named("button").unwrap(),
        PinConfig::Input { pin: 5, pull: Some(Pull::Up) }
    );
    match gpio.input_pin_get_named("led") {
        Err(GpioError::PinUsageError(m)) => assert_eq!(m, "'led' is not an input pin"),
        other => panic!("unexpected {other:?}"),
    }
    match gpio.output_pin_get_named("button") {
        Err(GpioError::PinUsageError(m)) => assert_eq!(m, "'button' is not an output pin"),
        other => panic!("unexpected {other:?}"),
    }
    match gpio.input_pin_get_named("missing") {
        Err(GpioError::PinUsageError(m)) => assert_eq!(m, "'missing' is not a named pin"),
        other => panic!("unexpected {other:?}"),
    }
    assert!(matches!(
        gpio.input_pin_get_named("broken"),
        Err(GpioError::ConfigurationError(_))
    ));
    let empty = Gpio::new(None);
    assert!(matches!(
        empty.input_pin_get_named("led"),
        Err(GpioError::PinUsageError(_))
    ));
}
