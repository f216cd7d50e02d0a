use proteus::hls_loader::{should_start_playback, HlsAction, HlsEvent, HlsLoader};

const MANIFEST: &str = "#EXTM3U\n#EXT-X-MAP:URI=\"init.m4s\"\n#EXTINF:6.006,\nseg_0.m4s\n#EXTINF:2.002,\nseg_1.m4s\n#EXT-X-ENDLIST\n";

fn fetch_url(a: HlsAction) -> String {
    match a {
        HlsAction::Fetch(u) => u,
        other => panic!("expected a fetch, got {other:?}"),
    }
}

#[test]
fn loads_manifest_init_then_segments_in_order() {
    let (mut l, url) = HlsLoader::new("videos/hls/tiger".to_string(), 3);
    assert_eq!(url, "videos/hls/tiger/stream.m3u8");
    match l.advance(3, HlsEvent::ManifestFetched(MANIFEST.to_string())) {
        HlsAction::ManifestReady { durations, init_url } => {
            assert_eq!(durations, vec!["6.006", "2.002"]);
            assert_eq!(init_url, "videos/hls/tiger/init.m4s");
        }
        other => panic!("unexpected {other:?}"),
    }
    assert!(matches!(l.advance(3, HlsEvent::Fetched), HlsAction::Append));
    assert_eq!(fetch_url(l.advance(3, HlsEvent::Appended)), "videos/hls/tiger/seg_0.m4s");
    assert!(matches!(l.advance(3, HlsEvent::Fetched), HlsAction::Append));
    match l.advance(3, HlsEvent::Appended) {
        HlsAction::FirstSegmentReady(Some(u)) => assert_eq!(u, "videos/hls/tiger/seg_1.m4s"),
        other => panic!("unexpected {other:?}"),
    }
    assert!(matches!(l.advance(3, HlsEvent::Fetched), HlsAction::Append));
    assert!(matches!(l.advance(3, HlsEvent::Appended), HlsAction::EndOfStream));
    // Loading is over.
    assert!(matches!(l.advance(3, HlsEvent::Appended), HlsAction::Stop));
}

#[test]
fn a_single_segment_stream_starts_and_ends_together() {
    let (mut l, _) = HlsLoader::new("d".to_string(), 0);
    l.advance(0, HlsEvent::ManifestFetched("#EXT-X-MAP:URI=\"i.mp4\"\n#EXTINF:1,\ns.m4s\n".to_string()));
    l.advance(0, HlsEvent::Fetched);
    assert_eq!(fetch_url(l.advance(0, HlsEvent::Appended)), "d/s.m4s");
    l.advance(0, HlsEvent::Fetched);
    assert!(matches!(l.advance(0, HlsEvent::Appended), HlsAction::FirstSegmentReady(None)));
}

#[test]
fn a_stopped_stream_drops_late_callbacks_silently() {
    let (mut l, _) = HlsLoader::new("d".to_string(), 1);
    assert!(matches!(l.advance(2, HlsEvent::ManifestFetched(MANIFEST.to_string())), HlsAction::Stop));
    // Even a later callback carrying the old generation does nothing.
    assert!(matches!(l.advance(1, HlsEvent::Fetched), HlsAction::Stop));
}

#[test]
fn a_bad_manifest_is_reported_with_its_url() {
    let (mut l, _) = HlsLoader::new("videos/x".to_string(), 0);
    match l.advance(0, HlsEvent::ManifestFetched("#EXTM3U\n".to_string())) {
        HlsAction::BadManifest(m) => assert_eq!(
            m,
            "videos/x/stream.m3u8: HLS manifest: missing init segment or media segments"
        ),
        other => panic!("unexpected {other:?}"),
    }
    assert!(matches!(l.advance(0, HlsEvent::Fetched), HlsAction::Stop));
}

#[test]
fn a_failed_step_ends_loading() {
    let (mut l, _) = HlsLoader::new("d".to_string(), 0);
    l.advance(0, HlsEvent::ManifestFetched(MANIFEST.to_string()));
    assert!(matches!(l.advance(0, HlsEvent::Failed), HlsAction::Fail));
    assert!(matches!(l.advance(0, HlsEvent::Fetched), HlsAction::Stop));
}

#[test]
fn out_of_order_reports_abandon_loading() {
    let (mut l, _) = HlsLoader::new("d".to_string(), 0);
    assert!(matches!(l.advance(0, HlsEvent::Appended), HlsAction::Stop));
    assert!(matches!(l.advance(0, HlsEvent::ManifestFetched(MANIFEST.to_string())), HlsAction::Stop));
}

#[test]
fn playback_starts_only_when_everything_is_ready() {
    assert!(should_start_playback(false, true, true, 640, 360));
    assert!(!should_start_playback(true, true, true, 640, 360));
    assert!(!should_start_playback(false, false, true, 640, 360));
    assert!(!should_start_playback(false, true, false, 640, 360));
    assert!(!should_start_playback(false, true, true, 0, 360));
    assert!(!should_start_playback(false, true, true, 640, 0));
}
