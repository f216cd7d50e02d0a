use proteus::gallery_fetch::{
    fetch_dimensions, hires_fetch_url, nature_photo_at, nonce_from_millis, tile_fetch_plan,
    tile_fetch_url, NATURE_PHOTO_COUNT,
};

fn relative_error(w: u32, h: u32, aspect: (u32, u32)) -> f32 {
    let real_ratio = aspect.0 as f32 / aspect.1 as f32;
    (w as f32 / h as f32 - real_ratio).abs() / real_ratio
}

/// Photos 606 (2513×1670) and 798 (4592×3448) must be approximated at
/// least as accurately as photo 630 (2517×1667) at the grid's 186px cap.
#[test]
fn fetch_dimensions_keeps_previously_shifting_photos_as_accurate_as_previously_fine_ones() {
    let side_px = 186;
    let reference = (2517, 1667);
    let (rw, rh) = fetch_dimensions(reference.0, reference.1, side_px);
    let ceiling = relative_error(rw, rh, reference);
    for aspect in [(2513, 1670), (4592, 3448)] {
        let (w, h) = fetch_dimensions(aspect.0, aspect.1, side_px);
        let err = relative_error(w, h, aspect);
        assert!(
            err <= ceiling,
            "{aspect:?} at {side_px}px: relative error {err} exceeds the \
             previously-fine-photos' ceiling {ceiling} — ({w}, {h})"
        );
    }
}

/// The naive approximation for id 606 lands on exactly 1.5 (186×124); the
/// search must find a closer pair.
#[test]
fn fetch_dimensions_finds_a_closer_ratio_than_pinning_the_larger_axis_exactly() {
    let aspect = (2513, 1670);
    let (w, h) = fetch_dimensions(aspect.0, aspect.1, 186);
    assert!(
        (w, h) != (186, 124),
        "expected the search to move off the naive (186, 124) pair"
    );
    assert!(relative_error(w, h, aspect) < 0.001);
}

#[test]
fn fetch_dimensions_never_exceeds_the_side_px_cap() {
    for aspect in [(2513, 1670), (4592, 3448), (1, 1), (589, 1600)] {
        let (w, h) = fetch_dimensions(aspect.0, aspect.1, 186);
        assert!(w <= 186 && h <= 186, "({w}, {h}) exceeds the 186px cap");
    }
}

#[test]
fn fetch_dimensions_exact_values() {
    assert_eq!(fetch_dimensions(2513, 1670, 186), (182, 121));
    assert_eq!(fetch_dimensions(2500, 1667, 186), (186, 124));
    assert_eq!(fetch_dimensions(1, 1, 186), (186, 186));
    // Portrait photos hold the height at the cap.
    assert_eq!(fetch_dimensions(1667, 2500, 186), (124, 186));
}

#[test]
fn fetch_dimensions_at_tiny_caps() {
    assert_eq!(fetch_dimensions(1, 1, 1), (1, 1));
    assert_eq!(fetch_dimensions(5000, 1, 3), (3, 1));
    assert_eq!(fetch_dimensions(1, 1, 0), (0, 1));
    assert_eq!(fetch_dimensions(1, 2, 0), (1, 1));
}

#[test]
fn hires_fetch_url_formats_the_picsum_path() {
    assert_eq!(
        hires_fetch_url(606, 1920, 1103),
        "https://picsum.photos/id/606/1920/1103"
    );
    assert_eq!(hires_fetch_url(0, 1, 0), "https://picsum.photos/id/0/1/0");
}

#[test]
fn nature_catalogue_ends() {
    assert_eq!(NATURE_PHOTO_COUNT, 72);
    assert_eq!(nature_photo_at(0), (12, 2500, 1667));
    assert_eq!(nature_photo_at(71), (1074, 5000, 3333));
}

#[test]
fn tile_fetch_url_picks_the_photo_at_the_nonce_offset() {
    let t = tile_fetch_url(0, 0, 186);
    assert_eq!(t.url, "https://picsum.photos/id/12/186/124");
    assert_eq!(t.photo_id, 12);
    assert_eq!(t.real_size, (2500, 1667));
    // The offset wraps at 32 bits before indexing the catalogue.
    let wrapped = tile_fetch_url(u32::MAX, 1, 186);
    assert_eq!(wrapped.photo_id, 12);
    // ... and then wraps around the catalogue.
    assert_eq!(tile_fetch_url(70, 2, 186).photo_id, 12);
    assert_eq!(tile_fetch_url(0, 71, 186).photo_id, 1074);
}

#[test]
fn tile_fetch_plan_lists_each_tiles_fetch_in_order() {
    let plan = tile_fetch_plan(5, 12, 100);
    assert_eq!(plan.len(), 12);
    for (i, t) in plan.iter().enumerate() {
        let one = tile_fetch_url(5, i, 100);
        assert_eq!(t.url, one.url);
        assert_eq!(t.photo_id, one.photo_id);
        assert_eq!(t.real_size, one.real_size);
        assert_eq!(one.photo_id, nature_photo_at(5 + i).0);
    }
}

#[test]
fn fetch_dimensions_without_a_finite_ratio() {
    // No height: the ratio is unbounded or undefined, nothing beats the cap by 1.
    assert_eq!(fetch_dimensions(5, 0, 186), (186, 1));
    assert_eq!(fetch_dimensions(0, 0, 186), (186, 1));
    assert_eq!(fetch_dimensions(5, 0, 0), (1, 1));
    // No width: a ratio of 0, so the narrowest tall pair.
    assert_eq!(fetch_dimensions(0, 5, 186), (1, 186));
    assert_eq!(fetch_dimensions(0, 5, 0), (1, 1));
}

#[test]
fn nonce_is_the_clock_truncated_to_32_bits() {
    assert_eq!(nonce_from_millis(None), 0);
    assert_eq!(nonce_from_millis(Some(5)), 5);
    assert_eq!(nonce_from_millis(Some((1u128 << 32) + 7)), 7);
    assert_eq!(nonce_from_millis(Some(1_700_000_123_456)), 1_700_000_123_456u128 as u32);
}

#[test]
fn tile_indices_wrap_at_32_bits() {
    let wide = (1usize << 32) + 3;
    assert_eq!(tile_fetch_url(0, wide, 186).photo_id, tile_fetch_url(0, 3, 186).photo_id);
}

#[test]
fn one_batch_shows_twelve_different_photos() {
    for nonce in [0u32, 60, 71, u32::MAX - 5, u32::MAX] {
        let plan = tile_fetch_plan(nonce, 12, 186);
        let mut ids: Vec<u32> = plan.iter().map(|t| t.photo_id).collect();
        ids.sort_unstable();
        ids.dedup();
        assert_eq!(ids.len(), 12, "nonce {nonce}");
    }
}

#[test]
fn distinct_triples_give_distinct_urls() {
    assert_ne!(hires_fetch_url(1, 23, 4), hires_fetch_url(12, 3, 4));
    assert_ne!(hires_fetch_url(1, 2, 34), hires_fetch_url(1, 23, 4));
}
