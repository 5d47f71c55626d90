use comodoro::config::{from_str_to_duration, Comodo, ComodoDefaults, Config, RGB};
use comodoro::errors::ConfigError;
use comodoro::timefmt::{as_time, from_duration_to_str, u64_to_dec};

#[test]
fn contains_test() {
    let conf: Config = Config::from_stream_string(
        r#"
            [comodo]
            iterations = 5
            focus = "25:00"
            rest = "05:00"
            big-rest = "15:00"
        "#
        .to_string(),
    )
    .unwrap();
    println!("{:#?}", conf);
}

#[test]
fn parsed_values_are_exact() {
    let conf = Config::from_stream_string(
        "[comodo]\niterations = 5\nfocus = \"25:00\"\nrest = \"05:00\"\nbig-rest = \"15:00\"\n"
            .to_string(),
    )
    .unwrap();
    assert_eq!(conf.comodo.iterations, 5);
    assert_eq!(conf.comodo.focus, 1500);
    assert_eq!(conf.comodo.rest, 300);
    assert_eq!(conf.comodo.big_rest, 900);
    // fields the file is silent on keep their defaults
    assert!(conf.comodo.popup_notification);
    assert!(!conf.comodo.sound_notification);
    assert_eq!(conf.comodo.focus_notification_banner, "Focus Time!");
    assert_eq!(conf.comodo.rest_notification_banner, "Resting Time!");
    assert!(conf.comodo.focus_audio_notification_path.is_none());
    assert!(conf.comodo.rest_audio_notification_path.is_none());
}

#[test]
fn optional_fields_parse() {
    let text = "[comodo]
# schedule
iterations = 2
focus = \"00:10\"
rest = \"00:05\"
big_rest = \"00:15\"
popup-notification = false
sound_notification = true
focus_notification_banner = \"Go #\"
rest-notification-banner = \"Breathe\"
focus_audio_notification_path = \"/tmp/a.wav\"
rest_audio_notification_path = \"/tmp/b.wav\"
";
    let conf = Config::from_stream_string(text.to_string()).unwrap();
    assert_eq!(conf.comodo.iterations, 2);
    assert_eq!(conf.comodo.focus, 10);
    assert_eq!(conf.comodo.rest, 5);
    assert_eq!(conf.comodo.big_rest, 15);
    assert!(!conf.comodo.popup_notification);
    assert!(conf.comodo.sound_notification);
    assert_eq!(conf.comodo.focus_notification_banner, "Go #");
    assert_eq!(conf.comodo.rest_notification_banner, "Breathe");
    assert_eq!(conf.comodo.focus_audio_notification_path.as_deref(), Some("/tmp/a.wav"));
    assert_eq!(conf.comodo.rest_audio_notification_path.as_deref(), Some("/tmp/b.wav"));
}

fn expect_malformed(text: &str) {
    match Config::from_stream_string(text.to_string()) {
        Err(e) => assert_eq!(e, ConfigError::Malformed),
        Ok(_) => panic!("expected the configuration to be rejected"),
    }
}

#[test]
fn missing_required_field_is_malformed() {
    expect_malformed("[comodo]\niterations = 5\nfocus = \"25:00\"\nrest = \"05:00\"\n");
}

#[test]
fn missing_header_is_malformed() {
    expect_malformed("iterations = 5\n");
}

#[test]
fn bad_duration_is_malformed() {
    expect_malformed("[comodo]\niterations = 5\nfocus = \"25\"\nrest = \"05:00\"\nbig_rest = \"15:00\"\n");
    expect_malformed("[comodo]\niterations = 5\nfocus = 1500\nrest = \"05:00\"\nbig_rest = \"15:00\"\n");
}

#[test]
fn oversized_iterations_is_malformed() {
    expect_malformed("[comodo]\niterations = 256\nfocus = \"25:00\"\nrest = \"05:00\"\nbig_rest = \"15:00\"\n");
}

#[test]
fn unknown_keys_are_ignored() {
    let conf = Config::from_stream_string(
        "[comodo]\ncolor = \"red\"\niterations = 1\nfocus = \"00:01\"\nrest = \"00:01\"\nbig_rest = \"00:01\"\n"
            .to_string(),
    )
    .unwrap();
    assert_eq!(conf.comodo.iterations, 1);
}

#[test]
fn repeated_key_last_wins() {
    let conf = Config::from_stream_string(
        "[comodo]\niterations = 1\niterations = 9\nfocus = \"00:01\"\nrest = \"00:01\"\nbig_rest = \"00:01\"\n"
            .to_string(),
    )
    .unwrap();
    assert_eq!(conf.comodo.iterations, 9);
}

#[test]
fn duration_text_parses() {
    assert_eq!(from_str_to_duration("25:00"), Ok(1500));
    assert_eq!(from_str_to_duration("05:30"), Ok(330));
    assert_eq!(from_str_to_duration("1:2"), Ok(62));
    assert_eq!(from_str_to_duration("00:00"), Ok(0));
    assert_eq!(from_str_to_duration(""), Err(ConfigError::Malformed));
    assert_eq!(from_str_to_duration("25"), Err(ConfigError::Malformed));
    assert_eq!(from_str_to_duration(":30"), Err(ConfigError::Malformed));
    assert_eq!(from_str_to_duration("25:"), Err(ConfigError::Malformed));
    assert_eq!(from_str_to_duration("a:b"), Err(ConfigError::Malformed));
    assert_eq!(from_str_to_duration("1:2:3"), Err(ConfigError::Malformed));
    assert_eq!(
        from_str_to_duration("99999999999999999999:00"),
        Err(ConfigError::Malformed)
    );
}

#[test]
fn durations_render_as_mmss() {
    assert_eq!(from_duration_to_str(1500), "25:00");
    assert_eq!(from_duration_to_str(59), "00:59");
    assert_eq!(from_duration_to_str(330), "05:30");
    assert_eq!(from_duration_to_str(3661), "61:01");
    assert_eq!(as_time(0), "00:00");
    assert_eq!(as_time(90), "01:30");
    assert_eq!(as_time(600), "10:00");
    assert_eq!(u64_to_dec(0), "0");
    assert_eq!(u64_to_dec(1234567), "1234567");
}

#[test]
fn defaults_are_fixed() {
    assert_eq!(ComodoDefaults::focus(), 1500);
    assert_eq!(ComodoDefaults::rest(), 300);
    assert_eq!(ComodoDefaults::big_rest(), 900);
    assert_eq!(ComodoDefaults::iterations(), 4);
    assert!(ComodoDefaults::popup_notification());
    assert!(!ComodoDefaults::sound_notification());
    assert_eq!(ComodoDefaults::focus_notification_banner(), "Focus Time!");
    assert_eq!(ComodoDefaults::rest_notification_banner(), "Resting Time!");
    assert!(ComodoDefaults::focus_notification_path().is_none());
    assert!(ComodoDefaults::rest_notification_path().is_none());
}

#[test]
fn table_converts_to_a_session() {
    let comodo = Comodo {
        iterations: 3,
        focus: 60,
        rest: 30,
        big_rest: 90,
        popup_notification: true,
        sound_notification: true,
        focus_notification_banner: "Go #".to_string(),
        rest_notification_banner: "Breathe".to_string(),
        focus_audio_notification_path: Some("/tmp/a.wav".to_string()),
        rest_audio_notification_path: None,
    };
    let session = comodo.to_session_config();
    assert_eq!(session.iterations, 3);
    assert_eq!(session.focus, 60);
    assert_eq!(session.rest, 30);
    assert!(session.popup_notification);
    assert!(session.sound_notification);
    assert_eq!(session.focus_banner, b"Go #".to_vec());
    assert_eq!(session.rest_banner, b"Breathe".to_vec());
    assert_eq!(session.focus_audio_path, b"/tmp/a.wav".to_vec());
    assert!(session.rest_audio_path.is_empty());
}

#[test]
fn color_triple_holds_its_channels() {
    let c = RGB(10, 20, 30);
    assert_eq!(c.0, 10);
    assert_eq!(c.1, 20);
    assert_eq!(c.2, 30);
}
