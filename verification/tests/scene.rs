use dankcaster::media::{MediaType, ParamValue};
use dankcaster::scene::DkcScene;

#[test]
fn scene_test_new() {
    let scene = DkcScene::new("scene");
    assert_eq!(scene.name, "scene");
    assert_eq!(scene.pads.len(), 0);
}

#[test]
fn scene_test_video_sink_pad_request() {
    let mut scene = DkcScene::new("scene");
    let video_sink_0 = scene.request_input_port(MediaType::Video);
    let video_sink_1 = scene.request_input_port(MediaType::Video);

    assert!(match video_sink_0 {
        Ok(pad) => pad.name() == "video_sink_0",
        Err(_) => false,
    });
    assert!(match video_sink_1 {
        Ok(pad) => pad.name() == "video_sink_1",
        Err(_) => false,
    });
}

#[test]
fn scene_test_video_sink_pad_release() {
    let mut scene = DkcScene::new("scene");
    let video_sink_0 = scene.request_input_port(MediaType::Video).expect("Could not get request pad 0");
    let video_sink_1 = scene.request_input_port(MediaType::Video).expect("Could not get request pad 1");

    assert!(scene.release_port(&video_sink_0).is_ok());
    assert!(scene.release_port(&video_sink_1).is_ok());
}

#[test]
fn scene_test_audio_sink_pad_request() {
    let mut scene = DkcScene::new("scene");
    let audio_sink_0 = scene.request_input_port(MediaType::Audio);
    let audio_sink_1 = scene.request_input_port(MediaType::Audio);

    assert!(match audio_sink_0 {
        Ok(pad) => pad.name() == "audio_sink_0",
        Err(_) => false,
    });
    assert!(match audio_sink_1 {
        Ok(pad) => pad.name() == "audio_sink_1",
        Err(_) => false,
    });
}

#[test]
fn scene_test_audio_sink_pad_release() {
    let mut scene = DkcScene::new("scene");
    let audio_sink_0 = scene.request_input_port(MediaType::Audio).expect("Could not get request pad 0");
    let audio_sink_1 = scene.request_input_port(MediaType::Audio).expect("Could not get request pad 1");

    assert!(scene.release_port(&audio_sink_0).is_ok());
    assert!(scene.release_port(&audio_sink_1).is_ok());
}

#[test]
fn scene_test_video_src_pad_request() {
    let mut scene = DkcScene::new("scene");
    let video_src_0 = scene.request_output_port(MediaType::Video);
    let video_src_1 = scene.request_output_port(MediaType::Video);

    assert!(match video_src_0 {
        Ok(pad) => pad.name() == "video_src_0",
        Err(_) => false,
    });
    assert!(match video_src_1 {
        Ok(pad) => pad.name() == "video_src_1",
        Err(_) => false,
    });
}

#[test]
fn scene_test_video_src_pad_release() {
    let mut scene = DkcScene::new("scene");
    let video_src_0 = scene.request_output_port(MediaType::Video).expect("Could not get request pad 0");
    let video_src_1 = scene.request_output_port(MediaType::Video).expect("Could not get request pad 1");

    assert!(scene.release_port(&video_src_0).is_ok());
    assert!(scene.release_port(&video_src_1).is_ok());
}

#[test]
fn scene_test_audio_src_pad_request() {
    let mut scene = DkcScene::new("scene");
    let audio_src_0 = scene.request_output_port(MediaType::Audio);
    let audio_src_1 = scene.request_output_port(MediaType::Audio);

    assert!(match audio_src_0 {
        Ok(pad) => pad.name() == "audio_src_0",
        Err(_) => false,
    });
    assert!(match audio_src_1 {
        Ok(pad) => pad.name() == "audio_src_1",
        Err(_) => false,
    });
}

#[test]
fn scene_test_audio_src_pad_release() {
    let mut scene = DkcScene::new("scene");
    let audio_src_0 = scene.request_output_port(MediaType::Audio).expect("Could not get request pad 0");
    let audio_src_1 = scene.request_output_port(MediaType::Audio).expect("Could not get request pad 1");

    assert!(scene.release_port(&audio_src_0).is_ok());
    assert!(scene.release_port(&audio_src_1).is_ok());
}

#[test]
fn scene_test_update_input_action() {
    let mut scene = DkcScene::new("scene");

    /* Testing video pad */

    scene.request_input_port(MediaType::Video).expect("Could not get request pad 0");

    // Those parameters have valid value types.
    assert!(scene.update_input("video_sink_0", "width", ParamValue::IntVal(300)));
    assert!(scene.update_input("video_sink_0", "height", ParamValue::IntVal(300)));
    assert!(scene.update_input("video_sink_0", "xpos", ParamValue::IntVal(300)));
    assert!(scene.update_input("video_sink_0", "ypos", ParamValue::IntVal(300)));
    assert!(scene.update_input("video_sink_0", "alpha", ParamValue::DoubleBits((0.5f64).to_bits())));
    assert!(scene.update_input("video_sink_0", "zorder", ParamValue::UIntVal(3)));

    // Those parameters have invalid value types.
    assert!(!scene.update_input("video_sink_0", "width", ParamValue::DoubleBits((3.0f64).to_bits())));
    assert!(!scene.update_input("video_sink_0", "height", ParamValue::DoubleBits((3.0f64).to_bits())));
    assert!(!scene.update_input("video_sink_0", "xpos", ParamValue::DoubleBits((3.0f64).to_bits())));
    assert!(!scene.update_input("video_sink_0", "ypos", ParamValue::DoubleBits((3.0f64).to_bits())));
    assert!(!scene.update_input("video_sink_0", "alpha", ParamValue::IntVal(300)));
    assert!(!scene.update_input("video_sink_0", "zorder", ParamValue::DoubleBits((3.0f64).to_bits())));

    // This parameter does not exist.
    assert!(!scene.update_input("video_sink_0", "what", ParamValue::DoubleBits((3.0f64).to_bits())));

    /* Testing audio pad */

    scene.request_input_port(MediaType::Audio).expect("Could not get request pad 0");

    // Those parameters have valid value types.
    assert!(scene.update_input("audio_sink_0", "mute", ParamValue::BoolVal(true)));
    assert!(scene.update_input("audio_sink_0", "mute", ParamValue::BoolVal(false)));
    assert!(scene.update_input("audio_sink_0", "volume", ParamValue::DoubleBits((0.5f64).to_bits())));

    // Those parameters have invalid value types.
    assert!(!scene.update_input("audio_sink_0", "emit-signals", ParamValue::IntVal(1)));
    assert!(!scene.update_input("audio_sink_0", "mute", ParamValue::IntVal(1)));
    assert!(!scene.update_input("audio_sink_0", "volume", ParamValue::IntVal(1)));

    // This parameter does not exist.
    assert!(!scene.update_input("audio_sink_0", "what", ParamValue::DoubleBits((3.0f64).to_bits())));
}
