use proteus::navigation::{
    chrome_targets, AppState, DemoFlow, Edge, GalleryFetchRequest, GalleryHiresFetchRequest,
    LoadingStep, NavClick, StressKind, GALLERY_TILES, STRESS_CATEGORY,
};

fn at_home() -> DemoFlow {
    let mut f = DemoFlow::new();
    assert!(f.finish_splash());
    f
}

fn in_gallery() -> DemoFlow {
    let mut f = at_home();
    assert_eq!(f.apply_click(NavClick::OpenGallery, 186, (0, 0)), Some(Edge::HomeToLoading));
    for i in 0..GALLERY_TILES {
        f.record_gallery_tile(i);
    }
    let baked = vec![true; GALLERY_TILES];
    assert_eq!(f.advance_loading(true, false, true, &baked), LoadingStep::OpenGallery);
    f
}

#[test]
fn a_fresh_flow_starts_on_splash_with_nothing_pending() {
    let mut f = DemoFlow::new();
    assert_eq!(f.state, AppState::Splash);
    assert!(!f.dark_target);
    assert_eq!(f.take_pending_gallery_fetch(), None);
    assert_eq!(f.take_pending_gallery_hires_fetch(), None);
    assert!(!f.take_pending_gallery_hires_cancel());
    assert_eq!(f.take_pending_video_start(), None);
    assert!(!f.take_pending_video_stop());
    assert!(!f.take_pending_video_cancel());
    for i in 0..GALLERY_TILES {
        assert!(!f.tile_is_current(i));
    }
}

#[test]
fn splash_finishes_once_into_home() {
    let mut f = DemoFlow::new();
    assert!(f.finish_splash());
    assert_eq!(f.state, AppState::Home);
    assert!(!f.finish_splash());
    assert_eq!(f.state, AppState::Home);
}

#[test]
fn clicks_that_do_not_belong_to_the_screen_change_nothing() {
    let mut f = at_home();
    assert_eq!(f.apply_click(NavClick::Back, 186, (0, 0)), None);
    assert_eq!(f.apply_click(NavClick::RefetchGallery, 186, (0, 0)), None);
    assert_eq!(f.apply_click(NavClick::OpenGalleryImage(2), 186, (0, 0)), None);
    assert_eq!(f.apply_click(NavClick::GoHome, 186, (0, 0)), None);
    assert_eq!(f.state, AppState::Home);
    assert_eq!(f.take_pending_gallery_fetch(), None);
}

#[test]
fn clicking_videos_nav_button_opens_video_tiles_and_back_via_home_icon_returns_home() {
    let mut f = at_home();
    assert_eq!(f.apply_click(NavClick::OpenVideoTiles, 0, (0, 0)), Some(Edge::HomeToTiles));
    assert_eq!(f.state, AppState::VideoTiles);
    assert_eq!(f.apply_click(NavClick::GoHome, 0, (0, 0)), Some(Edge::TilesToHome));
    assert_eq!(f.state, AppState::Home);
}

#[test]
fn clicking_a_video_tile_queues_its_start_and_leaving_queues_a_stop() {
    let mut f = at_home();
    f.apply_click(NavClick::OpenVideoTiles, 0, (0, 0));
    assert_eq!(f.apply_click(NavClick::OpenVideoScreen(2), 0, (0, 0)), Some(Edge::TilesToScreen(2)));
    assert_eq!(f.state, AppState::VideoScreen(2));
    assert_eq!(f.take_pending_video_start(), Some(2));
    assert_eq!(f.take_pending_video_start(), None);
    assert_eq!(f.apply_click(NavClick::Back, 0, (0, 0)), Some(Edge::ScreenToTiles(2)));
    assert_eq!(f.state, AppState::VideoTiles);
    assert!(f.take_pending_video_stop());
    assert!(!f.take_pending_video_stop());
}

#[test]
fn video_load_timeout_cancels_exactly_once() {
    let mut f = at_home();
    f.apply_click(NavClick::OpenVideoTiles, 0, (0, 0));
    f.apply_click(NavClick::OpenVideoScreen(0), 0, (0, 0));
    // Still morphing: nothing shows yet.
    let step = f.advance_video_loading(true, true);
    assert!(!step.settled_waiting);
    assert!(!f.take_pending_video_cancel());
    // Settled, before the timeout: dots may show.
    let step = f.advance_video_loading(false, false);
    assert!(step.settled_waiting && step.dots_allowed && !step.error_visible);
    assert!(!f.take_pending_video_cancel());
    // The timeout elapses: the error replaces the dots and the cancel fires.
    let step = f.advance_video_loading(false, true);
    assert!(step.error_visible && !step.dots_allowed);
    assert!(f.take_pending_video_cancel());
    assert!(!f.take_pending_video_cancel());
    // Later ticks never raise it again.
    let step = f.advance_video_loading(false, true);
    assert!(step.error_visible);
    assert!(!f.take_pending_video_cancel());
}

#[test]
fn a_real_frame_ends_the_video_wait() {
    let mut f = at_home();
    f.apply_click(NavClick::OpenVideoTiles, 0, (0, 0));
    f.apply_click(NavClick::OpenVideoScreen(1), 0, (0, 0));
    f.set_video_first_frame_shown();
    let step = f.advance_video_loading(false, true);
    assert!(!step.settled_waiting && !step.dots_allowed && !step.error_visible);
    assert!(!f.take_pending_video_cancel());
}

#[test]
fn opening_the_gallery_queues_a_fetch_and_waits_for_every_tile() {
    let mut f = at_home();
    assert_eq!(f.apply_click(NavClick::OpenGallery, 186, (0, 0)), Some(Edge::HomeToLoading));
    assert_eq!(f.state, AppState::Loading);
    assert_eq!(f.take_pending_gallery_fetch(), Some(GalleryFetchRequest { tile_side_px: 186 }));
    assert_eq!(f.take_pending_gallery_fetch(), None);
    let baked = vec![true; GALLERY_TILES];
    // No tile of this fetch has landed yet.
    assert_eq!(f.advance_loading(true, false, true, &baked), LoadingStep::Wait);
    for i in 0..GALLERY_TILES - 1 {
        f.record_gallery_tile(i);
    }
    assert_eq!(f.advance_loading(true, false, true, &baked), LoadingStep::Wait);
    f.record_gallery_tile(GALLERY_TILES - 1);
    // Not before the minimum dwell, nor before the logo settles.
    assert_eq!(f.advance_loading(true, false, false, &baked), LoadingStep::Wait);
    assert_eq!(f.advance_loading(false, false, true, &baked), LoadingStep::Wait);
    let mut unbaked = baked.clone();
    unbaked[5] = false;
    assert_eq!(f.advance_loading(true, false, true, &unbaked), LoadingStep::Wait);
    assert_eq!(f.advance_loading(true, false, true, &baked), LoadingStep::OpenGallery);
    assert_eq!(f.state, AppState::Gallery);
}

#[test]
fn loading_shows_the_error_after_the_timeout_and_stays_put() {
    let mut f = at_home();
    f.apply_click(NavClick::OpenGallery, 186, (0, 0));
    let baked = vec![true; GALLERY_TILES];
    assert_eq!(f.advance_loading(true, true, true, &baked), LoadingStep::ShowError);
    assert!(f.gallery_error_shown);
    for i in 0..GALLERY_TILES {
        f.record_gallery_tile(i);
    }
    // The error is latched: no auto-advance afterwards.
    assert_eq!(f.advance_loading(true, false, true, &baked), LoadingStep::Wait);
    assert_eq!(f.state, AppState::Loading);
    // Home clears it; a new visit starts afresh.
    f.apply_click(NavClick::GoHome, 0, (0, 0));
    f.apply_click(NavClick::OpenGallery, 186, (0, 0));
    assert!(!f.gallery_error_shown);
}

#[test]
fn refetching_invalidates_every_tile_of_the_previous_fetch() {
    let mut f = in_gallery();
    let generation = f.gallery_fetch_generation;
    assert_eq!(f.apply_click(NavClick::RefetchGallery, 200, (0, 0)), Some(Edge::GalleryToLoading));
    assert_eq!(f.state, AppState::Loading);
    assert_eq!(f.gallery_fetch_generation, generation + 1);
    assert_eq!(f.take_pending_gallery_fetch(), Some(GalleryFetchRequest { tile_side_px: 200 }));
    for i in 0..GALLERY_TILES {
        assert!(!f.tile_is_current(i));
    }
}

#[test]
fn clicking_a_tile_opens_gallery_image_and_queues_a_hires_fetch() {
    let mut f = in_gallery();
    assert_eq!(
        f.apply_click(NavClick::OpenGalleryImage(4), 0, (1920, 1103)),
        Some(Edge::GalleryToImage(4))
    );
    assert_eq!(f.state, AppState::GalleryImage(4));
    assert_eq!(
        f.take_pending_gallery_hires_fetch(),
        Some(GalleryHiresFetchRequest { idx: 4, width_px: 1920, height_px: 1103 })
    );
    assert!(f.accepts_hires(4));
    assert!(!f.accepts_hires(5));
}

#[test]
fn clicking_the_enlarged_image_returns_to_gallery_and_cancels_the_hires_fetch() {
    let mut f = in_gallery();
    f.apply_click(NavClick::OpenGalleryImage(7), 0, (800, 600));
    assert_eq!(f.apply_click(NavClick::Back, 0, (0, 0)), Some(Edge::ImageToGallery));
    assert_eq!(f.state, AppState::Gallery);
    assert!(f.take_pending_gallery_hires_cancel());
    assert_eq!(f.take_pending_gallery_hires_fetch(), None);
    assert!(!f.accepts_hires(7));
}

#[test]
fn going_home_from_gallery_image_cancels_the_hires_fetch() {
    let mut f = in_gallery();
    f.apply_click(NavClick::OpenGalleryImage(0), 0, (800, 600));
    assert_eq!(f.apply_click(NavClick::GoHome, 0, (0, 0)), Some(Edge::ImageToHome));
    assert_eq!(f.state, AppState::Home);
    assert!(f.take_pending_gallery_hires_cancel());
}

#[test]
fn each_examples_home_category_button_opens_its_own_detail() {
    for idx in 0..6 {
        let mut f = at_home();
        f.apply_click(NavClick::OpenExamplesHome, 0, (0, 0));
        assert_eq!(f.state, AppState::ExamplesHome);
        assert_eq!(f.apply_click(NavClick::OpenExampleDetail(idx), 0, (0, 0)), Some(Edge::ExamplesToDetail(idx)));
        assert_eq!(f.state, AppState::ExampleDetail(idx));
        assert_eq!(f.active_example_category, Some(idx));
        assert_eq!(f.apply_click(NavClick::Back, 0, (0, 0)), Some(Edge::DetailToExamples));
        assert_eq!(f.state, AppState::ExamplesHome);
        assert_eq!(f.active_example_category, None);
    }
}

#[test]
fn stress_runs_start_once_and_end_when_leaving() {
    let mut f = at_home();
    f.apply_click(NavClick::OpenExamplesHome, 0, (0, 0));
    f.apply_click(NavClick::OpenExampleDetail(STRESS_CATEGORY), 0, (0, 0));
    assert!(f.stress_warning_visible(true));
    assert!(!f.stress_warning_visible(false));
    assert_eq!(f.apply_click(NavClick::RunBurstSpawn, 0, (0, 0)), Some(Edge::RunBurstSpawn));
    assert_eq!(f.stress_run, Some(StressKind::BurstSpawn));
    assert!(!f.stress_warning_visible(true));
    // A second button press while a run is going changes nothing.
    f.apply_click(NavClick::RunTextureChurn, 0, (0, 0));
    assert_eq!(f.stress_run, Some(StressKind::BurstSpawn));
    assert_eq!(f.finish_stress_test(), Some(StressKind::BurstSpawn));
    assert_eq!(f.stress_run, None);
    f.apply_click(NavClick::RunTextureChurn, 0, (0, 0));
    assert_eq!(f.stress_run, Some(StressKind::TextureChurn));
    // Leaving mid-run cancels it.
    f.apply_click(NavClick::GoHome, 0, (0, 0));
    assert_eq!(f.state, AppState::Home);
    assert_eq!(f.stress_run, None);
}

#[test]
fn stress_buttons_only_work_on_the_stress_category() {
    let mut f = at_home();
    f.apply_click(NavClick::OpenExamplesHome, 0, (0, 0));
    f.apply_click(NavClick::OpenExampleDetail(0), 0, (0, 0));
    assert_eq!(f.apply_click(NavClick::RunBurstSpawn, 0, (0, 0)), None);
    assert_eq!(f.stress_run, None);
    assert!(!f.stress_warning_visible(true));
}

#[test]
fn theme_toggle_works_from_any_screen() {
    let mut f = DemoFlow::new();
    assert_eq!(f.apply_click(NavClick::SetTheme(true), 0, (0, 0)), Some(Edge::SetTheme(true)));
    assert!(f.dark_target);
    assert_eq!(f.state, AppState::Splash);
    f.finish_splash();
    f.apply_click(NavClick::SetTheme(false), 0, (0, 0));
    assert!(!f.dark_target);
    assert_eq!(f.state, AppState::Home);
}

#[test]
fn chrome_shows_per_screen() {
    let splash = chrome_targets(AppState::Splash);
    assert!(!splash.nav_visible && !splash.back_visible);
    let home = chrome_targets(AppState::Home);
    assert!(home.nav_visible && home.home_selected && !home.home_interactive && !home.back_visible);
    let leaf = chrome_targets(AppState::GalleryImage(3));
    assert!(leaf.nav_visible && leaf.back_visible && !leaf.home_selected && leaf.home_interactive);
    assert!(chrome_targets(AppState::VideoScreen(0)).back_visible);
    assert!(chrome_targets(AppState::ExampleDetail(1)).back_visible);
    assert!(!chrome_targets(AppState::Gallery).back_visible);
    assert!(!chrome_targets(AppState::Loading).back_visible);
}

#[test]
fn clicking_the_moon_makes_the_sun_the_clickable_icon() {
    let mut f = at_home();
    assert_eq!(f.theme_icons_interactive(), (false, true));
    f.apply_click(NavClick::SetTheme(true), 0, (0, 0));
    assert!(f.dark_target);
    assert_eq!(f.theme_icons_interactive(), (true, false));
}
