use dankcaster::error::DkcError;
use dankcaster::media::{Direction, MediaType, ParamValue};
use dankcaster::names::{dec_string, port_name, str_eq};
use dankcaster::scene::{DkcScene, ProxyPort, DEFAULT_ALPHA_BITS, DEFAULT_VOLUME_BITS};

#[test]
fn sequential_names_per_class() {
    let mut scene = DkcScene::new("scene");
    for n in 0..3u32 {
        let vp = scene.request_input_port(MediaType::Video).unwrap();
        assert_eq!(vp.name(), format!("video_sink_{}", n));
        let ap = scene.request_input_port(MediaType::Audio).unwrap();
        assert_eq!(ap.name(), format!("audio_sink_{}", n));
        let vo = scene.request_output_port(MediaType::Video).unwrap();
        assert_eq!(vo.name(), format!("video_src_{}", n));
        let ao = scene.request_output_port(MediaType::Audio).unwrap();
        assert_eq!(ao.name(), format!("audio_src_{}", n));
    }
    assert_eq!(scene.pads.len(), 12);
}

#[test]
fn released_identifier_is_never_reused() {
    let mut scene = DkcScene::new("scene");
    let p0 = scene.request_input_port(MediaType::Video).unwrap();
    let p1 = scene.request_input_port(MediaType::Video).unwrap();
    assert_eq!(p0.name(), "video_sink_0");
    assert_eq!(p1.name(), "video_sink_1");

    scene.release_port(&p0).unwrap();
    let p2 = scene.request_input_port(MediaType::Video).unwrap();
    assert_eq!(p2.name(), "video_sink_2");

    scene.release_port(&p1).unwrap();
    scene.release_port(&p2).unwrap();
    let p3 = scene.request_input_port(MediaType::Video).unwrap();
    assert_eq!(p3.name(), "video_sink_3");
}

#[test]
fn release_of_unknown_port_fails() {
    let mut scene = DkcScene::new("scene");
    let never_exposed = ProxyPort { media: MediaType::Video, dir: Direction::Input, index: 0 };
    assert!(scene.release_port(&never_exposed).is_err());
}

#[test]
fn double_release_fails() {
    let mut scene = DkcScene::new("scene");
    let p = scene.request_input_port(MediaType::Audio).unwrap();
    assert!(scene.release_port(&p).is_ok());
    assert!(scene.release_port(&p).is_err());
}

#[test]
fn release_keeps_unrelated_ports() {
    let mut scene = DkcScene::new("scene");
    let p0 = scene.request_input_port(MediaType::Video).unwrap();
    let p1 = scene.request_input_port(MediaType::Video).unwrap();
    let q0 = scene.request_output_port(MediaType::Audio).unwrap();

    scene.release_port(&p0).unwrap();

    assert!(scene.update_input("video_sink_1", "width", ParamValue::IntVal(7)));
    assert_eq!(
        scene.input_setting("video_sink_1", "width"),
        Some(ParamValue::IntVal(7))
    );
    assert!(scene.release_port(&q0).is_ok());
    assert!(scene.release_port(&p1).is_ok());
    assert_eq!(scene.pads.len(), 0);
}

#[test]
fn update_then_read_back() {
    let mut scene = DkcScene::new("scene");
    scene.request_input_port(MediaType::Video).unwrap();

    assert!(scene.update_input("video_sink_0", "width", ParamValue::IntVal(300)));
    assert_eq!(
        scene.input_setting("video_sink_0", "width"),
        Some(ParamValue::IntVal(300))
    );
}

#[test]
fn rejected_update_leaves_value_unchanged() {
    let mut scene = DkcScene::new("scene");
    scene.request_input_port(MediaType::Video).unwrap();

    assert!(scene.update_input("video_sink_0", "width", ParamValue::IntVal(300)));
    assert!(!scene.update_input("video_sink_0", "width", ParamValue::DoubleBits((3.0f64).to_bits())));
    assert_eq!(
        scene.input_setting("video_sink_0", "width"),
        Some(ParamValue::IntVal(300))
    );
}

#[test]
fn unknown_audio_parameter_is_rejected() {
    let mut scene = DkcScene::new("scene");
    scene.request_input_port(MediaType::Audio).unwrap();

    assert!(!scene.update_input("audio_sink_0", "what", ParamValue::DoubleBits((3.0f64).to_bits())));
}

#[test]
fn update_on_output_port_is_rejected() {
    let mut scene = DkcScene::new("scene");
    scene.request_output_port(MediaType::Video).unwrap();

    assert!(!scene.update_input("video_src_0", "width", ParamValue::IntVal(1)));
}

#[test]
fn update_on_unknown_pad_name_is_rejected() {
    let mut scene = DkcScene::new("scene");
    scene.request_input_port(MediaType::Video).unwrap();

    assert!(!scene.update_input("video_sink_1", "width", ParamValue::IntVal(1)));
    assert!(!scene.update_input("nonsense", "width", ParamValue::IntVal(1)));
}

#[test]
fn fresh_input_starts_at_neutral_settings() {
    let mut scene = DkcScene::new("scene");
    scene.request_input_port(MediaType::Video).unwrap();
    scene.request_input_port(MediaType::Audio).unwrap();

    assert_eq!(
        scene.input_setting("video_sink_0", "alpha"),
        Some(ParamValue::DoubleBits((1.0f64).to_bits()))
    );
    assert_eq!(DEFAULT_ALPHA_BITS, (1.0f64).to_bits());
    assert_eq!(
        scene.input_setting("video_sink_0", "width"),
        Some(ParamValue::IntVal(0))
    );
    assert_eq!(
        scene.input_setting("audio_sink_0", "mute"),
        Some(ParamValue::BoolVal(false))
    );
    assert_eq!(
        scene.input_setting("audio_sink_0", "volume"),
        Some(ParamValue::DoubleBits((1.0f64).to_bits()))
    );
    assert_eq!(DEFAULT_VOLUME_BITS, (1.0f64).to_bits());
    assert_eq!(scene.input_setting("video_sink_0", "what"), None);
    assert_eq!(scene.input_setting("missing", "width"), None);
}

#[test]
fn updates_target_only_the_named_input() {
    let mut scene = DkcScene::new("scene");
    scene.request_input_port(MediaType::Video).unwrap();
    scene.request_input_port(MediaType::Video).unwrap();

    assert!(scene.update_input("video_sink_1", "xpos", ParamValue::IntVal(42)));
    assert_eq!(
        scene.input_setting("video_sink_0", "xpos"),
        Some(ParamValue::IntVal(0))
    );
    assert_eq!(
        scene.input_setting("video_sink_1", "xpos"),
        Some(ParamValue::IntVal(42))
    );
}

#[test]
fn decimal_rendering() {
    assert_eq!(dec_string(0), "0");
    assert_eq!(dec_string(7), "7");
    assert_eq!(dec_string(10), "10");
    assert_eq!(dec_string(123), "123");
    assert_eq!(dec_string(4294967295), "4294967295");
}

#[test]
fn port_name_rendering() {
    assert_eq!(port_name(MediaType::Video, Direction::Input, 0), "video_sink_0");
    assert_eq!(port_name(MediaType::Video, Direction::Output, 12), "video_src_12");
    assert_eq!(port_name(MediaType::Audio, Direction::Input, 3), "audio_sink_3");
    assert_eq!(port_name(MediaType::Audio, Direction::Output, 7), "audio_src_7");
}

#[test]
fn string_equality_by_characters() {
    assert!(str_eq("", ""));
    assert!(str_eq("video_sink_0", "video_sink_0"));
    assert!(!str_eq("video_sink_0", "video_sink_1"));
    assert!(!str_eq("video", "video_sink_0"));
}

#[test]
fn error_message_rendering() {
    let e = DkcError::new("node0", "DkcSource", "Could not link video pads.");
    assert_eq!(
        e.message(),
        "DankCaster error from node0 (DkcSource): Could not link video pads."
    );
}

#[test]
fn many_ports_multi_digit_names() {
    let mut scene = DkcScene::new("scene");
    let mut last = None;
    for _ in 0..11 {
        last = Some(scene.request_input_port(MediaType::Video).unwrap());
    }
    assert_eq!(last.unwrap().name(), "video_sink_10");
}
