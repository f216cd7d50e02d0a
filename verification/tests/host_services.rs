use proteus::host::{asset_url, is_remote_url, resolve_url, split_video_key, FetchTracker};

#[test]
fn remote_urls_are_recognised_by_scheme() {
    assert!(is_remote_url("http://example.com/a.png"));
    assert!(is_remote_url("https://picsum.photos/id/1/2/3"));
    assert!(!is_remote_url("icons/home.png"));
    assert!(!is_remote_url("ftp://example.com"));
    assert!(!is_remote_url("https:/"));
}

#[test]
fn asset_keys_resolve_under_the_base_with_one_slash() {
    assert_eq!(asset_url("assets", "bg/ocean.jpg"), "assets/bg/ocean.jpg");
    assert_eq!(asset_url("assets///", "logo.png"), "assets/logo.png");
    assert_eq!(asset_url("", "logo.png"), "/logo.png");
}

#[test]
fn resolve_url_passes_remote_urls_through() {
    assert_eq!(
        resolve_url("assets/", "https://picsum.photos/id/606/182/121"),
        "https://picsum.photos/id/606/182/121"
    );
    assert_eq!(resolve_url("https://cdn.example/", "tiger.jpg"), "https://cdn.example/tiger.jpg");
}

#[test]
fn video_keys_split_at_the_first_bar() {
    assert_eq!(
        split_video_key("videos/tiger|video/mp4; codecs=\"avc1.64001f\""),
        Some(("videos/tiger".to_string(), "video/mp4; codecs=\"avc1.64001f\"".to_string()))
    );
    assert_eq!(split_video_key("a|b|c"), Some(("a".to_string(), "b|c".to_string())));
    assert_eq!(split_video_key("no-bar"), None);
}

#[test]
fn fetch_ids_count_up_from_zero() {
    let mut t = FetchTracker::new();
    assert_eq!(t.allocate(), 0);
    assert_eq!(t.allocate(), 1);
    assert_eq!(t.allocate(), 2);
    assert_eq!(t.next_id(), 3);
}

#[test]
fn cancelled_results_are_dropped_once() {
    let mut t = FetchTracker::new();
    let a = t.allocate();
    let b = t.allocate();
    let c = t.allocate();
    t.cancel(b);
    let delivered = t.filter_completed(vec![
        (a, Some(vec![1u8])),
        (b, Some(vec![2u8])),
        (c, None),
    ]);
    assert_eq!(delivered, vec![(a, Some(vec![1u8])), (c, None)]);
    // The cancellation is used up.
    assert!(t.take_delivery(b));
}

#[test]
fn take_delivery_reports_uncancelled_ids() {
    let mut t = FetchTracker::new();
    let a = t.allocate();
    assert!(t.take_delivery(a));
    t.cancel(a);
    assert!(!t.take_delivery(a));
    assert!(t.take_delivery(a));
}
