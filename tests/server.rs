use funkstrom::config::{Config, StreamConfig};
use funkstrom::server::{
    icy_metadata_block, listener_step, route, status_code, stream_headers, stream_status_text,
    stream_url, IcyInjector, ListenerAction, ListenerEvent, Route,
};

fn names() -> Vec<String> {
    vec!["main".to_string(), "low".to_string()]
}

#[test]
fn unknown_stream_is_not_found() {
    let r = route("/nonesuch", &names());
    assert_eq!(r, Route::NotFound);
    assert_eq!(status_code(r), 404);
}

#[test]
fn known_paths_route_to_their_handlers() {
    assert_eq!(route("/main", &names()), Route::Stream(0));
    assert_eq!(route("/low", &names()), Route::Stream(1));
    assert_eq!(route("/status", &names()), Route::Status);
    assert_eq!(route("/current", &names()), Route::Current);
    assert_eq!(route("/", &names()), Route::Info);
    assert_eq!(route("/api-docs", &names()), Route::ApiDocs);
    assert_eq!(route("/api-docs/openapi.yaml", &names()), Route::OpenApiSpec);
    assert_eq!(status_code(Route::Stream(0)), 200);
}

#[test]
fn stream_headers_advertise_the_station() {
    let h = stream_headers("Radio", "Desc", "Jazz", 128);
    let get = |k: &str| h.iter().find(|(n, _)| n == k).map(|(_, v)| v.clone());
    assert_eq!(get("Content-Type").as_deref(), Some("audio/mpeg"));
    assert_eq!(get("icy-br").as_deref(), Some("128"));
    assert_eq!(get("icy-metaint").as_deref(), Some("16000"));
    assert_eq!(get("icy-name").as_deref(), Some("Radio"));
    assert_eq!(get("Accept-Ranges").as_deref(), Some("none"));
    assert_eq!(get("Connection").as_deref(), Some("close"));
    assert_eq!(get("Cache-Control").as_deref(), Some("no-cache, no-store"));
    assert_eq!(get("Server").as_deref(), Some("funkstrom/0.1.0"));
}

#[test]
fn status_text_follows_the_writer() {
    assert_eq!(stream_status_text(true), "online");
    assert_eq!(stream_status_text(false), "offline");
}

#[test]
fn metadata_block_is_padded_to_sixteen_bytes() {
    let block = icy_metadata_block(&b"A - B".to_vec());
    assert_eq!(block.len(), 33);
    assert_eq!(block[0], 2);
    assert_eq!(&block[1..21], b"StreamTitle='A - B';");
    assert!(block[21..].iter().all(|b| *b == 0));
}

#[test]
fn long_title_is_cut_to_the_block_limit() {
    let block = icy_metadata_block(&vec![b'x'; 5000]);
    assert_eq!(block.len(), 4081);
    assert_eq!(block[0], 255);
}

#[test]
fn blocks_are_inserted_every_metaint_bytes() {
    let block = icy_metadata_block(&b"T".to_vec());
    let mut inj = IcyInjector::new();
    let data = vec![7u8; 20000];
    let out = inj.inject(&data, &block);
    assert_eq!(out.len(), 20000 + block.len());
    assert_eq!(&out[16000..16000 + block.len()], &block[..]);
    let more = inj.inject(&vec![8u8; 12000], &block);
    assert_eq!(more.len(), 12000 + block.len());
    assert_eq!(&more[12000..], &block[..]);
}

#[test]
fn stream_url_names_address_port_and_stream() {
    assert_eq!(stream_url("0.0.0.0", 8284, "main"), "http://0.0.0.0:8284/main");
}

#[test]
fn listener_closes_after_thirty_idle_seconds() {
    assert_eq!(listener_step(0, ListenerEvent::Data), ListenerAction::Forward);
    assert_eq!(listener_step(31_000, ListenerEvent::Data), ListenerAction::Forward);
    assert_eq!(listener_step(30_000, ListenerEvent::NoData), ListenerAction::Sleep);
    assert_eq!(listener_step(30_001, ListenerEvent::NoData), ListenerAction::Close);
    assert_eq!(listener_step(5, ListenerEvent::SendFailed), ListenerAction::Close);
}

#[test]
fn removing_blocks_gives_back_the_audio() {
    let block = icy_metadata_block(&b"Artist - Title".to_vec());
    let mut inj = IcyInjector::new();
    let data: Vec<u8> = (0..40_000u32).map(|i| (i % 251) as u8).collect();
    let out = inj.inject(&data, &block);
    let mut audio = Vec::new();
    let mut pos = 0;
    while pos < out.len() {
        let take = (out.len() - pos).min(16000);
        audio.extend_from_slice(&out[pos..pos + take]);
        pos += take;
        if take == 16000 && pos < out.len() {
            assert_eq!(&out[pos..pos + block.len()], &block[..]);
            pos += block.len();
        }
    }
    assert_eq!(audio, data);
}

#[test]
fn library_only_boot_serves_the_main_stream() {
    let mut config = Config::default();
    config.stream.clear();
    config.stream.push((
        "main".to_string(),
        StreamConfig {
            bitrate: 128,
            format: "mp3".to_string(),
            sample_rate: 44100,
            channels: 2,
            enabled: true,
        },
    ));
    assert!(config.validate().is_ok());
    let names: Vec<String> = config.stream.iter().map(|(n, _)| n.clone()).collect();
    let r = route("/main", &names);
    assert_eq!(r, Route::Stream(0));
    assert_eq!(status_code(r), 200);
    let h = stream_headers("Radio", "Desc", "Jazz", config.stream[0].1.bitrate);
    assert!(h.contains(&("Content-Type".to_string(), "audio/mpeg".to_string())));
    assert!(h.contains(&("icy-br".to_string(), "128".to_string())));
    assert!(h.contains(&("icy-metaint".to_string(), "16000".to_string())));
    assert_eq!(stream_status_text(true), "online");
}
