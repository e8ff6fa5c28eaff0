use dankcaster::media::StatusMessage;
use dankcaster::{make_app, ContainerState};

#[test]
fn test_make_app() {
    assert!(match make_app(Some("test"), 1280, 720) {
        Ok(_el) => true,
        Err(_err) => false,
    });
}

#[test]
fn test_make_source() {
    let mut app = make_app(Some("test"), 1280, 720).expect("Could not make app.");

    assert_eq!(app.sources.len(), 0);

    let source = app.make_source("dummy", None);

    assert!(match &source {
        Ok(_el) => true,
        Err(_err) => false,
    });

    let src = source.unwrap();

    assert!(match src.element.pad_peer("video_src") {
        Some(peer_pad) => peer_pad == "video_sink_0",
        None => false,
    });

    assert!(match src.element.pad_peer("audio_src") {
        Some(peer_pad) => peer_pad == "audio_sink_0",
        None => false,
    });

    assert_eq!(app.sources.len(), 1);

    assert!(match app.make_source("IdoNotExist", None) {
        Ok(_el) => false,
        Err(_err) => true,
    });
}

#[test]
fn test_make_sink() {
    let mut app = make_app(Some("test"), 1280, 720).expect("Could not make app.");

    assert_eq!(app.sinks.len(), 0);

    let sink = app.make_sink("dummy", None);

    assert!(match &sink {
        Ok(_el) => true,
        Err(_err) => false,
    });

    let snk = sink.unwrap();

    assert!(match snk.element.pad_peer("video_sink") {
        Some(peer_pad) => peer_pad == "video_src_0",
        None => false,
    });

    assert!(match snk.element.pad_peer("audio_sink") {
        Some(peer_pad) => peer_pad == "audio_src_0",
        None => false,
    });

    assert_eq!(app.sinks.len(), 1);

    assert!(match app.make_sink("IdoNotExist", None) {
        Ok(_el) => false,
        Err(_err) => true,
    });
}

#[test]
fn test_make_scene() {
    let mut app = make_app(Some("test"), 1280, 720).expect("Could not make app.");

    let scene = app.make_scene(Some("dummyscene"));

    assert!(match &scene {
        Ok(_el) => true,
        Err(_err) => false,
    });
}

#[test]
fn test_scene_add_source() {
    let mut app = make_app(Some("test"), 1280, 720).expect("Could not make app.");

    let mut scene = app.make_scene(Some("dummyscene")).expect("Could not make scene.");
    let source = app.make_source("dummy", None).expect("Could not make source.");

    assert!(match &scene.add_source(&source) {
        Ok(_wrpd) => true,
        Err(_err) => false,
    });
}

#[test]
fn source_then_sink_wiring() {
    let mut app = make_app(Some("test"), 1280, 720).expect("Could not make app.");

    let source = app.make_source("dummy", None).expect("Could not make source.");
    let sink = app.make_sink("dummy", None).expect("Could not make sink.");

    assert_eq!(source.element.pad_peer("video_src").unwrap(), "video_sink_0");
    assert_eq!(source.element.pad_peer("audio_src").unwrap(), "audio_sink_0");
    assert_eq!(sink.element.pad_peer("video_sink").unwrap(), "video_src_0");
    assert_eq!(sink.element.pad_peer("audio_sink").unwrap(), "audio_src_0");
}

#[test]
fn unknown_source_kind_leaves_count_unchanged() {
    let mut app = make_app(Some("test"), 1280, 720).expect("Could not make app.");

    assert!(app.make_source("unknown-kind", None).is_err());
    assert_eq!(app.sources.len(), 0);

    assert!(app.make_sink("unknown-kind", None).is_err());
    assert_eq!(app.sinks.len(), 0);
}

#[test]
fn turn_on_success_after_eos() {
    let mut app = make_app(Some("test"), 1280, 720).expect("Could not make app.");
    app.make_source("dummy", None).expect("Could not make source.");
    app.make_sink("dummy", None).expect("Could not make sink.");

    assert_eq!(app.state, ContainerState::Idle);
    let messages = vec![StatusMessage::Other, StatusMessage::Eos, StatusMessage::Other];
    assert!(app.turn_on(&messages).is_ok());
    assert_eq!(app.state, ContainerState::Idle);
}

#[test]
fn turn_on_surfaces_first_error() {
    let mut app = make_app(Some("test"), 1280, 720).expect("Could not make app.");

    let messages = vec![
        StatusMessage::Other,
        StatusMessage::Error(String::from("stream failure")),
        StatusMessage::Eos,
    ];
    let outcome = app.turn_on(&messages);
    match outcome {
        Ok(()) => panic!("an error signal must surface"),
        Err(e) => assert_eq!(e.error_msg, "stream failure"),
    }
    assert_eq!(app.state, ContainerState::Idle);
}

#[test]
fn turn_on_empty_stream_is_success() {
    let mut app = make_app(Some("test"), 1280, 720).expect("Could not make app.");
    let messages: Vec<StatusMessage> = vec![];
    assert!(app.turn_on(&messages).is_ok());
    assert_eq!(app.state, ContainerState::Idle);
}

#[test]
fn init_and_terminate_succeed() {
    assert!(dankcaster::init().is_ok());
    assert!(dankcaster::init().is_ok());
    assert!(dankcaster::terminate().is_ok());
}

#[test]
fn make_app_stores_configuration() {
    let app = make_app(Some("test"), 1280, 720).expect("Could not make app.");
    assert_eq!(app.width, 1280);
    assert_eq!(app.height, 720);
    assert_eq!(app.name, "test");
    assert_eq!(app.scenes.len(), 0);
}
