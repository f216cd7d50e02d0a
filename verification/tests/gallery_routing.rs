use proteus::gallery_fetch::{nature_photo_at, nonce_from_millis, tile_fetch_url, NATURE_PHOTO_COUNT};
use proteus::gallery_router::{GalleryFetchRouter, PendingGalleryFetch};

fn tracked_router(nonce: u32) -> GalleryFetchRouter {
    let mut r = GalleryFetchRouter::new();
    let plan = r.plan_tile_fetches(nonce, 186);
    for (idx, t) in plan.iter().enumerate() {
        r.track_tile_fetch(100 + idx as u64, idx, t.real_size);
    }
    r
}

#[test]
fn tile_fetches_route_back_to_their_tile_once() {
    let mut r = tracked_router(0);
    match r.complete_fetch(103) {
        Some(PendingGalleryFetch::Tile(idx, size)) => {
            assert_eq!(idx, 3);
            let expected = tile_fetch_url(0, 3, 186);
            assert_eq!(size, expected.real_size);
        }
        other => panic!("unexpected routing {other:?}"),
    }
    assert!(r.complete_fetch(103).is_none());
    assert!(r.complete_fetch(999).is_none());
}

#[test]
fn planned_tile_fetches_match_the_batch() {
    let mut r = GalleryFetchRouter::new();
    let plan = r.plan_tile_fetches(9, 150);
    assert_eq!(plan.len(), 12);
    for (i, t) in plan.iter().enumerate() {
        assert_eq!(t.url, tile_fetch_url(9, i, 150).url);
    }
}

#[test]
fn a_hires_fetch_reuses_the_tiles_photo() {
    let mut r = tracked_router(0);
    let plan = r.plan_hires_fetch(0, 900, 600);
    assert_eq!(plan.cancel, None);
    assert_eq!(plan.url.as_deref(), Some("https://picsum.photos/id/12/900/600"));
}

#[test]
fn no_hires_fetch_before_the_tile_has_a_photo() {
    let mut r = GalleryFetchRouter::new();
    let plan = r.plan_hires_fetch(5, 900, 600);
    assert_eq!(plan.cancel, None);
    assert_eq!(plan.url, None);
}

#[test]
fn a_new_enlarge_request_supersedes_the_hires_fetch_in_flight() {
    let mut r = tracked_router(0);
    let first = r.plan_hires_fetch(1, 900, 600);
    assert!(first.url.is_some());
    r.track_hires_fetch(500, 1);
    let second = r.plan_hires_fetch(2, 900, 600);
    assert_eq!(second.cancel, Some(500));
    r.track_hires_fetch(501, 2);
    // The superseded fetch's late completion is ignored.
    assert!(r.complete_fetch(500).is_none());
    match r.complete_fetch(501) {
        Some(PendingGalleryFetch::Hires(idx)) => assert_eq!(idx, 2),
        other => panic!("unexpected routing {other:?}"),
    }
    // Nothing left to cancel once it has landed.
    assert_eq!(r.cancel_hires_fetch(), None);
}

#[test]
fn cancelling_the_hires_fetch_names_it_once() {
    let mut r = tracked_router(0);
    r.plan_hires_fetch(4, 900, 600);
    r.track_hires_fetch(42, 4);
    assert_eq!(r.cancel_hires_fetch(), Some(42));
    assert_eq!(r.cancel_hires_fetch(), None);
    assert!(r.complete_fetch(42).is_none());
    // Tile fetches still route.
    assert!(r.complete_fetch(104).is_some());
}

#[test]
fn a_clock_batch_uses_consecutive_catalogue_photos() {
    let mut r = GalleryFetchRouter::new();
    let nonce = nonce_from_millis(Some(1_700_000_123_456));
    let plan = r.plan_tile_fetches(nonce, 186);
    assert_eq!(plan.len(), 12);
    let start = (0..NATURE_PHOTO_COUNT)
        .find(|&k| nature_photo_at(k).0 == plan[0].photo_id)
        .expect("first photo comes from the catalogue");
    for (i, t) in plan.iter().enumerate() {
        assert_eq!(t.photo_id, nature_photo_at((start + i) % NATURE_PHOTO_COUNT).0);
    }
    let hires = r.plan_hires_fetch(0, 10, 20);
    assert_eq!(
        hires.url,
        Some(format!("https://picsum.photos/id/{}/10/20", plan[0].photo_id))
    );
}

#[test]
fn hires_slot_is_clear_after_planning() {
    let mut r = tracked_router(0);
    r.plan_hires_fetch(1, 900, 600);
    assert_eq!(r.hires_fetch_in_flight(), None);
    r.track_hires_fetch(77, 1);
    assert_eq!(r.hires_fetch_in_flight(), Some(77));
}
