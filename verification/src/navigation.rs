//! The reference demo's screen state machine and its request protocol with
//! the host: which click moves which screen where, what each transition
//! asks the host to do (start/stop a video, fetch the gallery, fetch or
//! abandon a hires image), and the one-shot `take_pending_*` hand-off.
//!
//! Only the discrete decisions live here; the morph animations, timers and
//! geometry that accompany each transition are the renderer's concern,
//! which reports its own observations (a transition has settled, a
//! timeout has elapsed, a tile has baked) as plain booleans.

use vstd::prelude::*;

verus! {

/// Number of gallery tiles.
pub const GALLERY_TILES: usize = 12;

/// Number of video tiles.
pub const VIDEO_TILES: usize = 3;

/// Number of `ExamplesHome` categories.
pub const EXAMPLE_CATEGORIES: usize = 6;

/// The Stress Tests category — the only one with runnable tests.
pub const STRESS_CATEGORY: usize = 3;

/// Which screen the demo is on.
#[derive(Debug, Clone, Copy, PartialEq, Eq, Structural)]
pub enum AppState {
    Splash,
    Home,
    ExamplesHome,
    ExampleDetail(usize),
    VideoTiles,
    VideoScreen(usize),
    /// Fetching the gallery's images in the background.
    Loading,
    /// The fetched grid is visible.
    Gallery,
    /// One gallery photo enlarged.
    GalleryImage(usize),
}

/// A click on one of the demo's interactive surfaces.
#[derive(Debug, Clone, Copy, PartialEq, Eq, Structural)]
pub enum NavClick {
    /// Home's "Examples" button.
    OpenExamplesHome,
    /// Home's "Videos" button.
    OpenVideoTiles,
    /// Home's "Gallery" button.
    OpenGallery,
    /// The gallery's "Fetch New Images" button.
    RefetchGallery,
    /// One of the gallery's tiles.
    OpenGalleryImage(usize),
    /// The nav bar's home icon.
    GoHome,
    /// One of `ExamplesHome`'s category buttons.
    OpenExampleDetail(usize),
    /// One of the video tiles.
    OpenVideoScreen(usize),
    /// The nav bar's back icon (or the enlarged gallery image itself).
    Back,
    /// Stress Tests' "Burst Spawn" button.
    RunBurstSpawn,
    /// Stress Tests' "Texture Churn" button.
    RunTextureChurn,
    /// The sun (`false`) or moon (`true`) icon.
    SetTheme(bool),
}

/// A transition (or in-place action) the state machine performs.
#[derive(Debug, Clone, Copy, PartialEq, Eq, Structural)]
pub enum Edge {
    SplashToHome,
    HomeToExamples,
    ExamplesToHome,
    HomeToTiles,
    TilesToHome,
    TilesToScreen(usize),
    ScreenToTiles(usize),
    ScreenToHome(usize),
    HomeToLoading,
    LoadingToHome,
    LoadingToGallery,
    GalleryToLoading,
    GalleryToHome,
    GalleryToImage(usize),
    ImageToGallery,
    ImageToHome,
    ExamplesToDetail(usize),
    DetailToExamples,
    DetailToHome,
    RunBurstSpawn,
    RunTextureChurn,
    SetTheme(bool),
}

/// Which Stress Tests run is in progress.
#[derive(Debug, Clone, Copy, PartialEq, Eq, Structural)]
pub enum StressKind {
    BurstSpawn,
    TextureChurn,
}

/// A fresh gallery fetch for the host to start: every tile's image at
/// roughly `tile_side_px` logical pixels.
#[derive(Debug, Clone, Copy, PartialEq, Eq, Structural)]
pub struct GalleryFetchRequest {
    pub tile_side_px: u32,
}

/// A hires upgrade for the enlarged tile `idx`, at exactly
/// `width_px`×`height_px` logical pixels.
#[derive(Debug, Clone, Copy, PartialEq, Eq, Structural)]
pub struct GalleryHiresFetchRequest {
    pub idx: usize,
    pub width_px: u32,
    pub height_px: u32,
}

/// What the gallery's `Loading` screen does this tick.
#[derive(Debug, Clone, Copy, PartialEq, Eq, Structural)]
pub enum LoadingStep {
    /// Keep waiting.
    Wait,
    /// The fetch timed out: show the error text (latched).
    ShowError,
    /// Every tile is in: fan out into the grid.
    OpenGallery,
}

/// What the video screen's loading UI shows this tick.
#[derive(Debug, Clone, Copy, PartialEq, Eq, Structural)]
pub struct VideoLoading {
    /// Resting on the video screen with no frame yet.
    pub settled_waiting: bool,
    /// The pulsing dots may show (still subject to their own short delay).
    pub dots_allowed: bool,
    /// The load-timeout error text shows.
    pub error_visible: bool,
}

/// Whether a click carries a tile/category index its screen actually has.
pub open spec fn click_in_range(click: NavClick) -> bool {
    match click {
        NavClick::OpenGalleryImage(i) => i < GALLERY_TILES,
        NavClick::OpenExampleDetail(i) => i < EXAMPLE_CATEGORIES,
        NavClick::OpenVideoScreen(i) => i < VIDEO_TILES,
        _ => true,
    }
}

/// Whether a screen's index is one its screen actually has.
pub open spec fn state_in_range(s: AppState) -> bool {
    match s {
        AppState::ExampleDetail(i) => i < EXAMPLE_CATEGORIES,
        AppState::VideoScreen(i) => i < VIDEO_TILES,
        AppState::GalleryImage(i) => i < GALLERY_TILES,
        _ => true,
    }
}

/// The transition a click triggers from `state`, if any. A click that does
/// not belong to the current screen (or arrives after an earlier click
/// this frame already moved on) triggers nothing.
pub open spec fn click_edge(state: AppState, click: NavClick) -> Option<Edge> {
    match click {
        NavClick::OpenExamplesHome => if state == AppState::Home {
            Some(Edge::HomeToExamples)
        } else {
            None
        },
        NavClick::OpenVideoTiles => if state == AppState::Home {
            Some(Edge::HomeToTiles)
        } else {
            None
        },
        NavClick::OpenGallery => if state == AppState::Home {
            Some(Edge::HomeToLoading)
        } else {
            None
        },
        NavClick::RefetchGallery => if state == AppState::Gallery {
            Some(Edge::GalleryToLoading)
        } else {
            None
        },
        NavClick::OpenGalleryImage(i) => if state == AppState::Gallery {
            Some(Edge::GalleryToImage(i))
        } else {
            None
        },
        NavClick::GoHome => match state {
            AppState::ExamplesHome => Some(Edge::ExamplesToHome),
            AppState::ExampleDetail(_) => Some(Edge::DetailToHome),
            AppState::VideoTiles => Some(Edge::TilesToHome),
            AppState::VideoScreen(i) => Some(Edge::ScreenToHome(i)),
            AppState::Loading => Some(Edge::LoadingToHome),
            AppState::Gallery => Some(Edge::GalleryToHome),
            AppState::GalleryImage(_) => Some(Edge::ImageToHome),
            _ => None,
        },
        NavClick::OpenExampleDetail(i) => if state == AppState::ExamplesHome {
            Some(Edge::ExamplesToDetail(i))
        } else {
            None
        },
        NavClick::OpenVideoScreen(i) => if state == AppState::VideoTiles {
            Some(Edge::TilesToScreen(i))
        } else {
            None
        },
        NavClick::Back => match state {
            AppState::ExampleDetail(_) => Some(Edge::DetailToExamples),
            AppState::VideoScreen(i) => Some(Edge::ScreenToTiles(i)),
            AppState::GalleryImage(_) => Some(Edge::ImageToGallery),
            _ => None,
        },
        NavClick::RunBurstSpawn => if state == AppState::ExampleDetail(STRESS_CATEGORY) {
            Some(Edge::RunBurstSpawn)
        } else {
            None
        },
        NavClick::RunTextureChurn => if state == AppState::ExampleDetail(STRESS_CATEGORY) {
            Some(Edge::RunTextureChurn)
        } else {
            None
        },
        NavClick::SetTheme(dark) => Some(Edge::SetTheme(dark)),
    }
}

/// The screen an edge taken from `state` lands on.
pub open spec fn edge_target(state: AppState, edge: Edge) -> AppState {
    match edge {
        Edge::SplashToHome => AppState::Home,
        Edge::HomeToExamples => AppState::ExamplesHome,
        Edge::ExamplesToHome => AppState::Home,
        Edge::HomeToTiles => AppState::VideoTiles,
        Edge::TilesToHome => AppState::Home,
        Edge::TilesToScreen(i) => AppState::VideoScreen(i),
        Edge::ScreenToTiles(_) => AppState::VideoTiles,
        Edge::ScreenToHome(_) => AppState::Home,
        Edge::HomeToLoading => AppState::Loading,
        Edge::LoadingToHome => AppState::Home,
        Edge::LoadingToGallery => AppState::Gallery,
        Edge::GalleryToLoading => AppState::Loading,
        Edge::GalleryToHome => AppState::Home,
        Edge::GalleryToImage(i) => AppState::GalleryImage(i),
        Edge::ImageToGallery => AppState::Gallery,
        Edge::ImageToHome => AppState::Home,
        Edge::ExamplesToDetail(i) => AppState::ExampleDetail(i),
        Edge::DetailToExamples => AppState::ExamplesHome,
        Edge::DetailToHome => AppState::Home,
        Edge::RunBurstSpawn => state,
        Edge::RunTextureChurn => state,
        Edge::SetTheme(_) => state,
    }
}

/// The discrete state of a running demo.
pub struct DemoFlow {
    /// The current screen.
    pub state: AppState,
    /// Whether the user last picked the dark theme.
    pub dark_target: bool,
    /// The `ExampleDetail` category whose content is showing.
    pub active_example_category: Option<usize>,
    /// The Stress Tests run in progress.
    pub stress_run: Option<StressKind>,
    /// A video tile for the host to start decoding.
    pub pending_video_start: Option<usize>,
    /// The host should stop the playing video.
    pub pending_video_stop: bool,
    /// The host should abort the timed-out video load.
    pub pending_video_cancel: bool,
    /// The host has shown a real decoded frame of the current video.
    pub video_first_frame_shown: bool,
    /// The current video's load timed out.
    pub video_load_timed_out: bool,
    /// Bumped every time a gallery fetch begins.
    pub gallery_fetch_generation: u32,
    /// The fetch generation each tile's current image belongs to.
    pub gallery_tile_fetch_generation: Vec<u32>,
    /// The current `Loading` visit gave up waiting.
    pub gallery_error_shown: bool,
    /// A gallery fetch for the host to start.
    pub pending_gallery_fetch: Option<GalleryFetchRequest>,
    /// A hires fetch for the host to start.
    pub pending_gallery_hires_fetch: Option<GalleryHiresFetchRequest>,
    /// The host should abandon its in-flight hires fetch.
    pub pending_gallery_hires_cancel: bool,
}

impl DemoFlow {
    /// Every index the flow holds is in range for its screen, and there is
    /// one fetch stamp per gallery tile.
    pub open spec fn wf(&self) -> bool {
        &&& state_in_range(self.state)
        &&& self.gallery_tile_fetch_generation@.len() == GALLERY_TILES
        &&& (self.active_example_category matches Some(i) ==> i < EXAMPLE_CATEGORIES)
        &&& (self.pending_video_start matches Some(i) ==> i < VIDEO_TILES)
        &&& (self.pending_gallery_hires_fetch matches Some(r) ==> r.idx < GALLERY_TILES)
    }

    /// The flow after a gallery fetch begins: a new generation, the error
    /// cleared, and a fetch request queued.
    pub open spec fn begin_fetch(self, tile_side_px: u32) -> DemoFlow {
        DemoFlow {
            gallery_fetch_generation: (if self.gallery_fetch_generation == u32::MAX {
                0
            } else {
                (self.gallery_fetch_generation + 1) as u32
            }),
            gallery_error_shown: false,
            pending_gallery_fetch: Some(GalleryFetchRequest { tile_side_px }),
            ..self
        }
    }

    /// The flow after taking `edge`: `tile_side_px` sizes a gallery fetch
    /// the edge begins, `hires_px` a hires fetch it queues.
    pub open spec fn after_edge(self, edge: Edge, tile_side_px: u32, hires_px: (u32, u32)) -> DemoFlow {
        let moved = DemoFlow { state: edge_target(self.state, edge), ..self };
        match edge {
            Edge::TilesToScreen(i) => DemoFlow {
                pending_video_start: Some(i),
                video_first_frame_shown: false,
                video_load_timed_out: false,
                pending_video_cancel: false,
                ..moved
            },
            Edge::ScreenToTiles(_) => DemoFlow { pending_video_stop: true, ..moved },
            Edge::ScreenToHome(_) => DemoFlow { pending_video_stop: true, ..moved },
            Edge::HomeToLoading => moved.begin_fetch(tile_side_px),
            Edge::GalleryToLoading => moved.begin_fetch(tile_side_px),
            Edge::GalleryToImage(i) => DemoFlow {
                pending_gallery_hires_fetch: Some(
                    GalleryHiresFetchRequest { idx: i, width_px: hires_px.0, height_px: hires_px.1 },
                ),
                ..moved
            },
            Edge::ImageToGallery => DemoFlow {
                pending_gallery_hires_cancel: true,
                pending_gallery_hires_fetch: None,
                ..moved
            },
            Edge::ImageToHome => DemoFlow {
                pending_gallery_hires_cancel: true,
                pending_gallery_hires_fetch: None,
                ..moved
            },
            Edge::ExamplesToDetail(i) => DemoFlow { active_example_category: Some(i), ..moved },
            Edge::DetailToExamples => DemoFlow {
                stress_run: None,
                active_example_category: None,
                ..moved
            },
            Edge::DetailToHome => DemoFlow {
                stress_run: None,
                active_example_category: None,
                ..moved
            },
            Edge::RunBurstSpawn => if self.stress_run is None {
                DemoFlow { stress_run: Some(StressKind::BurstSpawn), ..moved }
            } else {
                moved
            },
            Edge::RunTextureChurn => if self.stress_run is None {
                DemoFlow { stress_run: Some(StressKind::TextureChurn), ..moved }
            } else {
                moved
            },
            Edge::SetTheme(dark) => DemoFlow { dark_target: dark, ..moved },
            _ => moved,
        }
    }

    /// The flow after `click`: the triggered edge's effects, or nothing at
    /// all when the click triggers no edge.
    pub open spec fn after_click(
        self,
        click: NavClick,
        tile_side_px: u32,
        hires_px: (u32, u32),
    ) -> DemoFlow {
        match click_edge(self.state, click) {
            Some(e) => self.after_edge(e, tile_side_px, hires_px),
            None => self,
        }
    }

    /// Resting on the video screen, the tile no longer morphing, with no
    /// real frame shown yet.
    pub open spec fn settled_waiting(&self, mid_morph: bool) -> bool {
        !mid_morph && self.state is VideoScreen && !self.video_first_frame_shown
    }

    /// The flow after one tick of the video loading UI: a wait that has
    /// outlasted the timeout latches the error and raises the cancel.
    pub open spec fn video_tick(self, mid_morph: bool, timeout_elapsed: bool) -> DemoFlow {
        if self.settled_waiting(mid_morph) && !self.video_load_timed_out && timeout_elapsed {
            DemoFlow { video_load_timed_out: true, pending_video_cancel: true, ..self }
        } else {
            self
        }
    }

    /// Whether tile `i`'s current image belongs to the current fetch.
    pub open spec fn tile_current(&self, i: int) -> bool {
        self.gallery_tile_fetch_generation@[i] == self.gallery_fetch_generation
    }

    /// A fresh flow: on Splash, light theme, nothing pending, no tile
    /// holding an image of any fetch.
    pub fn new() -> (f: DemoFlow)
        ensures
            f.wf(),
            f.state == AppState::Splash,
            !f.dark_target,
            f.active_example_category is None,
            f.stress_run is None,
            f.pending_video_start is None,
            !f.pending_video_stop,
            !f.pending_video_cancel,
            !f.video_first_frame_shown,
            !f.video_load_timed_out,
            f.gallery_fetch_generation == 0,
            forall|i: int| 0 <= i < GALLERY_TILES ==> f.gallery_tile_fetch_generation@[i] == u32::MAX,
            !f.gallery_error_shown,
            f.pending_gallery_fetch is None,
            f.pending_gallery_hires_fetch is None,
            !f.pending_gallery_hires_cancel,
    {
        let mut stamps: Vec<u32> = Vec::new();
        let mut i: usize = 0;
        while i < GALLERY_TILES
            invariant
                i <= GALLERY_TILES,
                stamps@.len() == i,
                forall|j: int| 0 <= j < i ==> stamps@[j] == u32::MAX,
            decreases GALLERY_TILES - i,
        {
            stamps.push(u32::MAX);
            i = i + 1;
        }
        DemoFlow {
            state: AppState::Splash,
            dark_target: false,
            active_example_category: None,
            stress_run: None,
            pending_video_start: None,
            pending_video_stop: false,
            pending_video_cancel: false,
            video_first_frame_shown: false,
            video_load_timed_out: false,
            gallery_fetch_generation: 0,
            gallery_tile_fetch_generation: stamps,
            gallery_error_shown: false,
            pending_gallery_fetch: None,
            pending_gallery_hires_fetch: None,
            pending_gallery_hires_cancel: false,
        }
    }

    fn begin_gallery_fetch(&mut self, tile_side_px: u32)
        ensures
            *final(self) == old(self).begin_fetch(tile_side_px),
    {
        self.gallery_fetch_generation = self.gallery_fetch_generation.wrapping_add(1);
        self.gallery_error_shown = false;
        self.pending_gallery_fetch = Some(GalleryFetchRequest { tile_side_px });
    }

    /// Takes `edge` from the current screen.
    fn take_edge(&mut self, edge: Edge, tile_side_px: u32, hires_px: (u32, u32))
        ensures
            *final(self) == old(self).after_edge(edge, tile_side_px, hires_px),
    {
        match edge {
            Edge::SplashToHome => self.state = AppState::Home,
            Edge::HomeToExamples => self.state = AppState::ExamplesHome,
            Edge::ExamplesToHome => self.state = AppState::Home,
            Edge::HomeToTiles => self.state = AppState::VideoTiles,
            Edge::TilesToHome => self.state = AppState::Home,
            Edge::TilesToScreen(i) => {
                self.pending_video_start = Some(i);
                self.video_first_frame_shown = false;
                self.video_load_timed_out = false;
                self.pending_video_cancel = false;
                self.state = AppState::VideoScreen(i);
            },
            Edge::ScreenToTiles(_) => {
                self.pending_video_stop = true;
                self.state = AppState::VideoTiles;
            },
            Edge::ScreenToHome(_) => {
                self.pending_video_stop = true;
                self.state = AppState::Home;
            },
            Edge::HomeToLoading => {
                self.state = AppState::Loading;
                self.begin_gallery_fetch(tile_side_px);
            },
            Edge::LoadingToHome => self.state = AppState::Home,
            Edge::LoadingToGallery => self.state = AppState::Gallery,
            Edge::GalleryToLoading => {
                self.state = AppState::Loading;
                self.begin_gallery_fetch(tile_side_px);
            },
            Edge::GalleryToHome => self.state = AppState::Home,
            Edge::GalleryToImage(i) => {
                self.pending_gallery_hires_fetch = Some(
                    GalleryHiresFetchRequest { idx: i, width_px: hires_px.0, height_px: hires_px.1 },
                );
                self.state = AppState::GalleryImage(i);
            },
            Edge::ImageToGallery => {
                self.pending_gallery_hires_cancel = true;
                self.pending_gallery_hires_fetch = None;
                self.state = AppState::Gallery;
            },
            Edge::ImageToHome => {
                self.pending_gallery_hires_cancel = true;
                self.pending_gallery_hires_fetch = None;
                self.state = AppState::Home;
            },
            Edge::ExamplesToDetail(i) => {
                self.active_example_category = Some(i);
                self.state = AppState::ExampleDetail(i);
            },
            Edge::DetailToExamples => {
                self.stress_run = None;
                self.active_example_category = None;
                self.state = AppState::ExamplesHome;
            },
            Edge::DetailToHome => {
                self.stress_run = None;
                self.active_example_category = None;
                self.state = AppState::Home;
            },
            Edge::RunBurstSpawn => {
                if self.stress_run.is_none() {
                    self.stress_run = Some(StressKind::BurstSpawn);
                }
            },
            Edge::RunTextureChurn => {
                if self.stress_run.is_none() {
                    self.stress_run = Some(StressKind::TextureChurn);
                }
            },
            Edge::SetTheme(dark) => self.dark_target = dark,
        }
    }

    /// Processes one click: the edge it triggers from the current screen
    /// (see `click_edge`), whose effects are applied. `tile_side_px` is the
    /// gallery tile size a fetch begun by this click asks for; `hires_px`
    /// the enlarged image size a hires fetch queued by this click asks for.
    pub fn apply_click(&mut self, click: NavClick, tile_side_px: u32, hires_px: (u32, u32)) -> (r:
        Option<Edge>)
        requires
            old(self).wf(),
            click_in_range(click),
        ensures
            r == click_edge(old(self).state, click),
            *final(self) == old(self).after_click(click, tile_side_px, hires_px),
            final(self).wf(),
    {
        let edge = match click {
            NavClick::OpenExamplesHome => if self.state == AppState::Home {
                Some(Edge::HomeToExamples)
            } else {
                None
            },
            NavClick::OpenVideoTiles => if self.state == AppState::Home {
                Some(Edge::HomeToTiles)
            } else {
                None
            },
            NavClick::OpenGallery => if self.state == AppState::Home {
                Some(Edge::HomeToLoading)
            } else {
                None
            },
            NavClick::RefetchGallery => if self.state == AppState::Gallery {
                Some(Edge::GalleryToLoading)
            } else {
                None
            },
            NavClick::OpenGalleryImage(i) => if self.state == AppState::Gallery {
                Some(Edge::GalleryToImage(i))
            } else {
                None
            },
            NavClick::GoHome => match self.state {
                AppState::ExamplesHome => Some(Edge::ExamplesToHome),
                AppState::ExampleDetail(_) => Some(Edge::DetailToHome),
                AppState::VideoTiles => Some(Edge::TilesToHome),
                AppState::VideoScreen(i) => Some(Edge::ScreenToHome(i)),
                AppState::Loading => Some(Edge::LoadingToHome),
                AppState::Gallery => Some(Edge::GalleryToHome),
                AppState::GalleryImage(_) => Some(Edge::ImageToHome),
                _ => None,
            },
            NavClick::OpenExampleDetail(i) => if self.state == AppState::ExamplesHome {
                Some(Edge::ExamplesToDetail(i))
            } else {
                None
            },
            NavClick::OpenVideoScreen(i) => if self.state == AppState::VideoTiles {
                Some(Edge::TilesToScreen(i))
            } else {
                None
            },
            NavClick::Back => match self.state {
                AppState::ExampleDetail(_) => Some(Edge::DetailToExamples),
                AppState::VideoScreen(i) => Some(Edge::ScreenToTiles(i)),
                AppState::GalleryImage(_) => Some(Edge::ImageToGallery),
                _ => None,
            },
            NavClick::RunBurstSpawn => if self.state == AppState::ExampleDetail(STRESS_CATEGORY) {
                Some(Edge::RunBurstSpawn)
            } else {
                None
            },
            NavClick::RunTextureChurn => if self.state == AppState::ExampleDetail(
                STRESS_CATEGORY,
            ) {
                Some(Edge::RunTextureChurn)
            } else {
                None
            },
            NavClick::SetTheme(dark) => Some(Edge::SetTheme(dark)),
        };
        if let Some(e) = edge {
            self.take_edge(e, tile_side_px, hires_px);
        }
        edge
    }

    /// Splash hands off to Home once its intro and hold have played out
    /// (timed by the caller); `false`, with nothing changed, anywhere else.
    pub fn finish_splash(&mut self) -> (r: bool)
        requires
            old(self).wf(),
        ensures
            r == (old(self).state == AppState::Splash),
            r ==> *final(self) == old(self).after_edge(Edge::SplashToHome, 0, (0, 0)),
            !r ==> *final(self) == *old(self),
            final(self).wf(),
    {
        if self.state == AppState::Splash {
            self.take_edge(Edge::SplashToHome, 0, (0, 0));
            true
        } else {
            false
        }
    }

    /// Stamps tile `idx`'s freshly delivered image as belonging to the
    /// current fetch.
    pub fn record_gallery_tile(&mut self, idx: usize)
        requires
            old(self).wf(),
            idx < GALLERY_TILES,
        ensures
            final(self).gallery_tile_fetch_generation@ == old(self).gallery_tile_fetch_generation@.update(idx as int, old(self).gallery_fetch_generation),
            final(self).state == old(self).state,
            final(self).gallery_fetch_generation == old(self).gallery_fetch_generation,
            final(self).tile_current(idx as int),
            final(self).wf(),
    {
        let g = self.gallery_fetch_generation;
        self.gallery_tile_fetch_generation.set(idx, g);
    }

    /// Whether tile `idx`'s current image belongs to the current fetch.
    pub fn tile_is_current(&self, idx: usize) -> (r: bool)
        requires
            self.wf(),
            idx < GALLERY_TILES,
        ensures
            r == self.tile_current(idx as int),
    {
        self.gallery_tile_fetch_generation[idx] == self.gallery_fetch_generation
    }

    /// One tick of `Loading`'s resting logic, given what the renderer
    /// observed: whether the logo has settled in, whether the fetch timeout
    /// and the minimum dwell have elapsed, and which tiles have baked. Gives
    /// up (latching the error) on the timeout; otherwise fans out into the
    /// grid once the dwell is over and every tile holds a baked image of
    /// the current fetch.
    pub fn advance_loading(
        &mut self,
        settled: bool,
        timed_out: bool,
        dwell_done: bool,
        baked: &Vec<bool>,
    ) -> (r: LoadingStep)
        requires
            old(self).wf(),
            baked@.len() == GALLERY_TILES,
        ensures
            final(self).wf(),
            (old(self).state != AppState::Loading || old(self).gallery_error_shown || !settled)
                ==> r == LoadingStep::Wait && *final(self) == *old(self),
            (old(self).state == AppState::Loading && !old(self).gallery_error_shown && settled
                && timed_out) ==> r == LoadingStep::ShowError && *final(self) == (DemoFlow {
                gallery_error_shown: true,
                ..*old(self)
            }),
            (old(self).state == AppState::Loading && !old(self).gallery_error_shown && settled
                && !timed_out) ==> {
                let ready = dwell_done && old(self).tiles_ready(baked@);
                &&& ready ==> r == LoadingStep::OpenGallery && *final(self) == old(self).after_edge(Edge::LoadingToGallery, 0, (0, 0))
                &&& !ready ==> r == LoadingStep::Wait && *final(self) == *old(self)
            },
            // Fanning out into the grid needs every tile's image of the
            // current fetch, baked.
            r == LoadingStep::OpenGallery ==> forall|i: int|
                0 <= i < GALLERY_TILES ==> #[trigger] old(self).gallery_tile_fetch_generation@[i]
                    == old(self).gallery_fetch_generation && baked@[i],
    {
        if self.state != AppState::Loading || self.gallery_error_shown || !settled {
            return LoadingStep::Wait;
        }
        if timed_out {
            self.gallery_error_shown = true;
            return LoadingStep::ShowError;
        }
        if !dwell_done {
            return LoadingStep::Wait;
        }
        if !self.all_tiles_ready(baked) {
            return LoadingStep::Wait;
        }
        proof {
            law_gallery_ready_needs_every_tile(*self, baked@);
        }
        self.take_edge(Edge::LoadingToGallery, 0, (0, 0));
        LoadingStep::OpenGallery
    }

    /// Whether every tile holds a baked image of the current fetch.
    pub open spec fn tiles_ready(&self, baked: Seq<bool>) -> bool {
        &&& forall|i: int| 0 <= i < GALLERY_TILES ==> #[trigger] self.tile_current(i)
        &&& forall|i: int| 0 <= i < GALLERY_TILES ==> #[trigger] baked[i]
    }

    /// Whether every tile holds a baked image of the current fetch.
    pub fn all_tiles_ready(&self, baked: &Vec<bool>) -> (r: bool)
        requires
            self.wf(),
            baked@.len() == GALLERY_TILES,
        ensures
            r == self.tiles_ready(baked@),
    {
        let mut i: usize = 0;
        while i < GALLERY_TILES
            invariant
                i <= GALLERY_TILES,
                self.wf(),
                baked@.len() == GALLERY_TILES,
                forall|j: int| 0 <= j < i ==> #[trigger] self.tile_current(j),
                forall|j: int| 0 <= j < i ==> #[trigger] baked@[j],
            decreases GALLERY_TILES - i,
        {
            let stamp = self.gallery_tile_fetch_generation[i];
            let b = baked[i];
            if stamp != self.gallery_fetch_generation || !b {
                assert(!(self.tile_current(i as int) && baked@[i as int]));
                return false;
            }
            assert(self.tile_current(i as int) && baked@[i as int]);
            i = i + 1;
        }
        true
    }

    /// Whether a hires image delivered for tile `idx` is still wanted: only
    /// while that very tile is enlarged (a result that lands after the
    /// user moved on is dropped).
    pub fn accepts_hires(&self, idx: usize) -> (r: bool)
        ensures
            r == (self.state == AppState::GalleryImage(idx)),
    {
        self.state == AppState::GalleryImage(idx)
    }

    /// Records that the host has shown a real decoded frame of the current
    /// video.
    pub fn set_video_first_frame_shown(&mut self)
        requires
            old(self).wf(),
        ensures
            *final(self) == (DemoFlow { video_first_frame_shown: true, ..*old(self) }),
            final(self).wf(),
    {
        self.video_first_frame_shown = true;
    }

    /// One tick of the video screen's loading UI, given whether the playing
    /// tile is still morphing and whether the load timeout has elapsed since
    /// the click. Waiting means resting on the video screen with no frame
    /// yet; a wait that outlasts the timeout latches the error and asks the
    /// host — once — to abort the load.
    pub fn advance_video_loading(&mut self, mid_morph: bool, timeout_elapsed: bool) -> (r:
        VideoLoading)
        requires
            old(self).wf(),
        ensures
            final(self).wf(),
            r.settled_waiting == old(self).settled_waiting(mid_morph),
            *final(self) == old(self).video_tick(mid_morph, timeout_elapsed),
            r.dots_allowed == (r.settled_waiting && !final(self).video_load_timed_out),
            r.error_visible == (r.settled_waiting && final(self).video_load_timed_out),
            // Away from the video screen the loading UI shows nothing and
            // nothing changes.
            !(old(self).state is VideoScreen) ==> !r.settled_waiting && !r.dots_allowed
                && !r.error_visible && *final(self) == *old(self),
            // Once a real frame is shown, or mid-morph, nothing shows either.
            old(self).video_first_frame_shown || mid_morph ==> !r.settled_waiting
                && *final(self) == *old(self),
    {
        let in_video_screen = match self.state {
            AppState::VideoScreen(_) => true,
            _ => false,
        };
        let settled_waiting = !mid_morph && in_video_screen && !self.video_first_frame_shown;
        if settled_waiting && !self.video_load_timed_out && timeout_elapsed {
            self.video_load_timed_out = true;
            self.pending_video_cancel = true;
        }
        VideoLoading {
            settled_waiting,
            dots_allowed: settled_waiting && !self.video_load_timed_out,
            error_visible: settled_waiting && self.video_load_timed_out,
        }
    }

    /// Ends the current Stress Tests run, if any.
    pub fn finish_stress_test(&mut self) -> (r: Option<StressKind>)
        requires
            old(self).wf(),
        ensures
            r == old(self).stress_run,
            *final(self) == (DemoFlow { stress_run: None, ..*old(self) }),
            final(self).wf(),
    {
        let r = self.stress_run;
        self.stress_run = None;
        r
    }

    /// Drains the pending gallery fetch request, if any.
    pub fn take_pending_gallery_fetch(&mut self) -> (r: Option<GalleryFetchRequest>)
        requires
            old(self).wf(),
        ensures
            r == old(self).pending_gallery_fetch,
            *final(self) == (DemoFlow { pending_gallery_fetch: None, ..*old(self) }),
            final(self).wf(),
    {
        let r = self.pending_gallery_fetch;
        self.pending_gallery_fetch = None;
        r
    }

    /// Drains the pending hires fetch request, if any.
    pub fn take_pending_gallery_hires_fetch(&mut self) -> (r: Option<GalleryHiresFetchRequest>)
        requires
            old(self).wf(),
        ensures
            r == old(self).pending_gallery_hires_fetch,
            *final(self) == (DemoFlow { pending_gallery_hires_fetch: None, ..*old(self) }),
            final(self).wf(),
    {
        let r = self.pending_gallery_hires_fetch;
        self.pending_gallery_hires_fetch = None;
        r
    }

    /// Drains the pending hires cancellation.
    pub fn take_pending_gallery_hires_cancel(&mut self) -> (r: bool)
        requires
            old(self).wf(),
        ensures
            r == old(self).pending_gallery_hires_cancel,
            *final(self) == (DemoFlow { pending_gallery_hires_cancel: false, ..*old(self) }),
            final(self).wf(),
    {
        let r = self.pending_gallery_hires_cancel;
        self.pending_gallery_hires_cancel = false;
        r
    }

    /// Drains the pending video start, if any.
    pub fn take_pending_video_start(&mut self) -> (r: Option<usize>)
        requires
            old(self).wf(),
        ensures
            r == old(self).pending_video_start,
            *final(self) == (DemoFlow { pending_video_start: None, ..*old(self) }),
            final(self).wf(),
    {
        let r = self.pending_video_start;
        self.pending_video_start = None;
        r
    }

    /// Drains the pending video stop.
    pub fn take_pending_video_stop(&mut self) -> (r: bool)
        requires
            old(self).wf(),
        ensures
            r == old(self).pending_video_stop,
            *final(self) == (DemoFlow { pending_video_stop: false, ..*old(self) }),
            final(self).wf(),
    {
        let r = self.pending_video_stop;
        self.pending_video_stop = false;
        r
    }

    /// Drains the pending video cancel.
    pub fn take_pending_video_cancel(&mut self) -> (r: bool)
        requires
            old(self).wf(),
        ensures
            r == old(self).pending_video_cancel,
            *final(self) == (DemoFlow { pending_video_cancel: false, ..*old(self) }),
            final(self).wf(),
    {
        let r = self.pending_video_cancel;
        self.pending_video_cancel = false;
        r
    }
}

/// Which pieces of persistent chrome a screen shows.
#[derive(Debug, Clone, Copy, PartialEq, Eq, Structural)]
pub struct ChromeTargets {
    /// The nav bar's home icon, the logo lockup and the sun/moon toggle
    /// (everywhere past Splash).
    pub nav_visible: bool,
    /// The nav bar's back icon (only on a leaf screen).
    pub back_visible: bool,
    /// The home icon's "selected" overlay (only on Home).
    pub home_selected: bool,
    /// The home icon reacts to the pointer (everywhere but Home).
    pub home_interactive: bool,
}

/// Whether `state` is a leaf screen, reached from a grid and left by Back.
pub open spec fn is_leaf(state: AppState) -> bool {
    state is ExampleDetail || state is VideoScreen || state is GalleryImage
}

/// The chrome `state` shows.
pub fn chrome_targets(state: AppState) -> (r: ChromeTargets)
    ensures
        r.nav_visible == (state != AppState::Splash),
        r.back_visible == is_leaf(state),
        r.home_selected == (state == AppState::Home),
        r.home_interactive == (state != AppState::Home),
{
    let back_visible = match state {
        AppState::VideoScreen(_) | AppState::ExampleDetail(_) | AppState::GalleryImage(_) => true,
        _ => false,
    };
    ChromeTargets {
        nav_visible: state != AppState::Splash,
        back_visible,
        home_selected: state == AppState::Home,
        home_interactive: state != AppState::Home,
    }
}

impl DemoFlow {
    /// The photosensitivity warning shows only once the Stress Tests panel
    /// has settled in and no run is in progress.
    pub fn stress_warning_visible(&self, panel_visible: bool) -> (r: bool)
        ensures
            r == (panel_visible && self.state == AppState::ExampleDetail(STRESS_CATEGORY)
                && self.stress_run is None),
    {
        panel_visible && self.state == AppState::ExampleDetail(STRESS_CATEGORY)
            && self.stress_run.is_none()
    }

    /// Which of the sun and moon icons can be clicked, in that order: the
    /// one that does not match the chosen theme, so the pair toggles.
    pub fn theme_icons_interactive(&self) -> (r: (bool, bool))
        ensures
            r == (self.dark_target, !self.dark_target),
    {
        (self.dark_target, !self.dark_target)
    }
}

/// The screen an edge leaves from: `true` when `edge` can be taken from
/// `state`. Screen changes leave from the screen their name starts with;
/// the Stress Tests runs from the Stress Tests category; a theme change from
/// anywhere.
pub open spec fn edge_leaves_from(edge: Edge, state: AppState) -> bool {
    match edge {
        Edge::SplashToHome => state == AppState::Splash,
        Edge::HomeToExamples => state == AppState::Home,
        Edge::HomeToTiles => state == AppState::Home,
        Edge::HomeToLoading => state == AppState::Home,
        Edge::ExamplesToHome => state == AppState::ExamplesHome,
        Edge::ExamplesToDetail(_) => state == AppState::ExamplesHome,
        Edge::TilesToHome => state == AppState::VideoTiles,
        Edge::TilesToScreen(_) => state == AppState::VideoTiles,
        Edge::ScreenToTiles(i) => state == AppState::VideoScreen(i),
        Edge::ScreenToHome(i) => state == AppState::VideoScreen(i),
        Edge::LoadingToHome => state == AppState::Loading,
        Edge::LoadingToGallery => state == AppState::Loading,
        Edge::GalleryToLoading => state == AppState::Gallery,
        Edge::GalleryToHome => state == AppState::Gallery,
        Edge::GalleryToImage(_) => state == AppState::Gallery,
        Edge::ImageToGallery => state is GalleryImage,
        Edge::ImageToHome => state is GalleryImage,
        Edge::DetailToExamples => state is ExampleDetail,
        Edge::DetailToHome => state is ExampleDetail,
        Edge::RunBurstSpawn => state == AppState::ExampleDetail(STRESS_CATEGORY),
        Edge::RunTextureChurn => state == AppState::ExampleDetail(STRESS_CATEGORY),
        Edge::SetTheme(_) => true,
    }
}

/// Every edge a click triggers leaves from the current screen: the home
/// icon on the Examples grid is `ExamplesToHome`, on a category's detail
/// `DetailToHome`, and so on for every click.
pub proof fn law_clicks_leave_from_the_current_screen(state: AppState, click: NavClick)
    ensures
        click_edge(state, click) matches Some(e) ==> edge_leaves_from(e, state),
{
}

/// The home icon takes each screen home by its own edge.
pub proof fn law_home_icon_edges(state: AppState)
    ensures
        state == AppState::ExamplesHome ==> click_edge(state, NavClick::GoHome) == Some(
            Edge::ExamplesToHome,
        ),
        state is ExampleDetail ==> click_edge(state, NavClick::GoHome) == Some(Edge::DetailToHome),
        state == AppState::VideoTiles ==> click_edge(state, NavClick::GoHome) == Some(
            Edge::TilesToHome,
        ),
        state matches AppState::VideoScreen(i) ==> click_edge(state, NavClick::GoHome) == Some(
            Edge::ScreenToHome(i),
        ),
        state == AppState::Loading ==> click_edge(state, NavClick::GoHome) == Some(
            Edge::LoadingToHome,
        ),
        state == AppState::Gallery ==> click_edge(state, NavClick::GoHome) == Some(
            Edge::GalleryToHome,
        ),
        state is GalleryImage ==> click_edge(state, NavClick::GoHome) == Some(Edge::ImageToHome),
        state == AppState::Splash || state == AppState::Home ==> click_edge(
            state,
            NavClick::GoHome,
        ) is None,
{
}

/// Opening a video tile starts that tile's video afresh: the host is asked
/// to start it, and no frame, timeout or cancel of an earlier video carries
/// over — so the screen waits for the new video's first frame.
pub proof fn law_opening_a_video_starts_fresh(
    f: DemoFlow,
    i: usize,
    tile_side_px: u32,
    hires_px: (u32, u32),
)
    ensures
        f.after_edge(Edge::TilesToScreen(i), tile_side_px, hires_px).state == AppState::VideoScreen(
            i,
        ),
        f.after_edge(Edge::TilesToScreen(i), tile_side_px, hires_px).pending_video_start == Some(i),
        !f.after_edge(Edge::TilesToScreen(i), tile_side_px, hires_px).video_first_frame_shown,
        !f.after_edge(Edge::TilesToScreen(i), tile_side_px, hires_px).video_load_timed_out,
        !f.after_edge(Edge::TilesToScreen(i), tile_side_px, hires_px).pending_video_cancel,
        f.state == AppState::VideoTiles ==> {
            let g = f.after_click(NavClick::OpenVideoScreen(i), tile_side_px, hires_px);
            &&& g.state == AppState::VideoScreen(i)
            &&& !g.video_first_frame_shown
            &&& !g.video_load_timed_out
            &&& g.settled_waiting(false)
        },
{
}

/// The video loading UI waits only on the video screen: anywhere else no
/// tick waits, and a tick changes nothing, whatever the timeout says.
pub proof fn law_video_wait_only_on_video_screen(f: DemoFlow, mid_morph: bool, timeout_elapsed: bool)
    ensures
        !(f.state is VideoScreen) ==> !f.settled_waiting(mid_morph),
        !(f.state is VideoScreen) ==> f.video_tick(mid_morph, timeout_elapsed) == f,
        f.video_first_frame_shown ==> !f.settled_waiting(mid_morph),
        f.state is VideoScreen && !mid_morph && !f.video_first_frame_shown ==> f.settled_waiting(
            mid_morph,
        ),
{
}

/// The gallery is ready exactly when every one of its tiles holds an image
/// stamped with the current fetch generation and has baked; one tile whose
/// image belongs to another generation keeps it waiting.
pub proof fn law_gallery_ready_needs_every_tile(f: DemoFlow, baked: Seq<bool>)
    ensures
        f.tiles_ready(baked) ==> forall|i: int|
            0 <= i < GALLERY_TILES ==> #[trigger] f.gallery_tile_fetch_generation@[i]
                == f.gallery_fetch_generation && baked[i],
        (forall|i: int|
            0 <= i < GALLERY_TILES ==> #[trigger] f.gallery_tile_fetch_generation@[i]
                == f.gallery_fetch_generation && baked[i]) ==> f.tiles_ready(baked),
{
    if f.tiles_ready(baked) {
        assert forall|i: int| 0 <= i < GALLERY_TILES implies #[trigger] f.gallery_tile_fetch_generation@[i]
            == f.gallery_fetch_generation && baked[i] by {
            assert(f.tile_current(i));
            assert(baked[i]);
        }
    }
    if forall|i: int|
        0 <= i < GALLERY_TILES ==> #[trigger] f.gallery_tile_fetch_generation@[i]
            == f.gallery_fetch_generation && baked[i] {
        assert forall|i: int| 0 <= i < GALLERY_TILES implies #[trigger] f.tile_current(i) by {
            assert(f.gallery_tile_fetch_generation@[i] == f.gallery_fetch_generation);
        }
        assert forall|i: int| 0 <= i < GALLERY_TILES implies #[trigger] baked[i] by {
            assert(f.gallery_tile_fetch_generation@[i] == f.gallery_fetch_generation);
        }
    }
}

/// Where each click lands, read off the button: the Examples, Videos and
/// Gallery buttons open their screens, a tile or category opens its own
/// detail, the home icon goes Home, Back returns to the grid, and the run
/// and theme buttons stay put.
pub proof fn law_clicks_land_where_their_button_says(
    f: DemoFlow,
    click: NavClick,
    tile_side_px: u32,
    hires_px: (u32, u32),
)
    requires
        click_edge(f.state, click) is Some,
    ensures
        ({
            let to = f.after_click(click, tile_side_px, hires_px).state;
            match click {
                NavClick::OpenExamplesHome => to == AppState::ExamplesHome,
                NavClick::OpenVideoTiles => to == AppState::VideoTiles,
                NavClick::OpenGallery => to == AppState::Loading,
                NavClick::RefetchGallery => to == AppState::Loading,
                NavClick::OpenGalleryImage(i) => to == AppState::GalleryImage(i),
                NavClick::GoHome => to == AppState::Home,
                NavClick::OpenExampleDetail(i) => to == AppState::ExampleDetail(i),
                NavClick::OpenVideoScreen(i) => to == AppState::VideoScreen(i),
                NavClick::Back => match f.state {
                    AppState::ExampleDetail(_) => to == AppState::ExamplesHome,
                    AppState::VideoScreen(_) => to == AppState::VideoTiles,
                    _ => to == AppState::Gallery,
                },
                _ => to == f.state,
            }
        }),
{
}

/// What each click asks of the host or records, beside moving screens:
/// opening the gallery (or refetching) queues a fetch at the given tile
/// size and clears the error; opening a photo queues its hires fetch at
/// the given size; leaving a photo cancels it; a theme button records its
/// theme; a run button starts its run when none is going; a category
/// remembers itself. Every other field is left alone by every click but
/// the theme buttons' `dark_target`.
pub proof fn law_click_requests(
    f: DemoFlow,
    click: NavClick,
    tile_side_px: u32,
    hires_px: (u32, u32),
)
    requires
        click_edge(f.state, click) is Some,
    ensures
        ({
            let g = f.after_click(click, tile_side_px, hires_px);
            &&& (click == NavClick::OpenGallery || click == NavClick::RefetchGallery) ==> {
                &&& g.pending_gallery_fetch == Some(GalleryFetchRequest { tile_side_px })
                &&& !g.gallery_error_shown
                &&& g.gallery_fetch_generation != f.gallery_fetch_generation
            }
            &&& (click is OpenGalleryImage) ==> g.pending_gallery_hires_fetch
                == Some(
                GalleryHiresFetchRequest {
                    idx: click->OpenGalleryImage_0,
                    width_px: hires_px.0,
                    height_px: hires_px.1,
                },
            )
            &&& (f.state is GalleryImage && !(click is SetTheme)) ==> g.pending_gallery_hires_cancel
                && g.pending_gallery_hires_fetch is None
            &&& (click is SetTheme) ==> g.dark_target == click->SetTheme_0 && g.state == f.state
            &&& !(click is SetTheme) ==> g.dark_target == f.dark_target
            &&& (click == NavClick::RunBurstSpawn && f.stress_run is None) ==> g.stress_run == Some(
                StressKind::BurstSpawn,
            )
            &&& (click == NavClick::RunTextureChurn && f.stress_run is None) ==> g.stress_run
                == Some(StressKind::TextureChurn)
            &&& ((click is RunBurstSpawn || click is RunTextureChurn) && f.stress_run is Some)
                ==> g.stress_run == f.stress_run
            &&& (click is OpenExampleDetail) ==> g.active_example_category
                == Some(click->OpenExampleDetail_0)
            &&& !(click == NavClick::OpenGallery || click == NavClick::RefetchGallery) ==> {
                &&& g.gallery_fetch_generation == f.gallery_fetch_generation
                &&& g.pending_gallery_fetch == f.pending_gallery_fetch
            }
            &&& g.gallery_tile_fetch_generation == f.gallery_tile_fetch_generation
        }),
{
}

/// A gallery fetch moves the generation on by one, wrapping at 32 bits.
pub proof fn law_fetch_generation_counts_up(f: DemoFlow, tile_side_px: u32)
    ensures
        f.begin_fetch(tile_side_px).gallery_fetch_generation as int == (f.gallery_fetch_generation
            + 1) % 0x1_0000_0000,
{
}

/// A video tick latches the load error, and raises the cancel, exactly
/// when resting on the video screen without a frame, not yet timed out,
/// as the timeout elapses; nothing else about the flow changes.
pub proof fn law_video_timeout(f: DemoFlow, mid_morph: bool, timeout_elapsed: bool)
    ensures
        ({
            let g = f.video_tick(mid_morph, timeout_elapsed);
            let fires = f.state is VideoScreen && !mid_morph && !f.video_first_frame_shown
                && !f.video_load_timed_out && timeout_elapsed;
            &&& g.video_load_timed_out == (f.video_load_timed_out || fires)
            &&& g.pending_video_cancel == (f.pending_video_cancel || fires)
            &&& g == (DemoFlow {
                video_load_timed_out: g.video_load_timed_out,
                pending_video_cancel: g.pending_video_cancel,
                ..f
            })
        }),
{
}

/// A click that does not belong to the current screen changes nothing.
pub proof fn law_unmatched_click_changes_nothing(
    f: DemoFlow,
    click: NavClick,
    tile_side_px: u32,
    hires_px: (u32, u32),
)
    requires
        click_edge(f.state, click) is None,
    ensures
        f.after_click(click, tile_side_px, hires_px) == f,
{
}

/// The home icon takes every screen past Splash back to Home.
pub proof fn law_home_icon_goes_home(f: DemoFlow, tile_side_px: u32, hires_px: (u32, u32))
    requires
        f.state != AppState::Splash,
        f.state != AppState::Home,
    ensures
        f.after_click(NavClick::GoHome, tile_side_px, hires_px).state == AppState::Home,
{
}

/// Back from a leaf screen returns to the grid it was opened from.
pub proof fn law_back_returns_to_parent(
    f: DemoFlow,
    i: usize,
    tile_side_px: u32,
    hires_px: (u32, u32),
)
    ensures
        f.state == AppState::Gallery ==> f.after_click(NavClick::OpenGalleryImage(i), tile_side_px, hires_px).after_click(NavClick::Back, tile_side_px, hires_px).state == AppState::Gallery,
        f.state == AppState::ExamplesHome ==> f.after_click(NavClick::OpenExampleDetail(i), tile_side_px, hires_px).after_click(NavClick::Back, tile_side_px, hires_px).state == AppState::ExamplesHome,
        f.state == AppState::VideoTiles ==> f.after_click(NavClick::OpenVideoScreen(i), tile_side_px, hires_px).after_click(NavClick::Back, tile_side_px, hires_px).state == AppState::VideoTiles,
{
}

/// Leaving the enlarged gallery image, by any click, abandons its hires
/// fetch: the cancel is raised and no fetch request is left queued.
pub proof fn law_leaving_enlarged_image_abandons_hires(
    f: DemoFlow,
    click: NavClick,
    tile_side_px: u32,
    hires_px: (u32, u32),
)
    requires
        f.state is GalleryImage,
        f.after_click(click, tile_side_px, hires_px).state != f.state,
    ensures
        f.after_click(click, tile_side_px, hires_px).pending_gallery_hires_cancel,
        f.after_click(click, tile_side_px, hires_px).pending_gallery_hires_fetch is None,
{
}

/// Leaving the video screen, by any click, asks the host to stop the video.
pub proof fn law_leaving_video_screen_stops_video(
    f: DemoFlow,
    click: NavClick,
    tile_side_px: u32,
    hires_px: (u32, u32),
)
    requires
        f.state is VideoScreen,
        f.after_click(click, tile_side_px, hires_px).state != f.state,
    ensures
        f.after_click(click, tile_side_px, hires_px).pending_video_stop,
{
}

/// Leaving an example category, by any click, ends its Stress Tests run
/// and hides its content.
pub proof fn law_leaving_detail_ends_stress_run(
    f: DemoFlow,
    click: NavClick,
    tile_side_px: u32,
    hires_px: (u32, u32),
)
    requires
        f.state is ExampleDetail,
        f.after_click(click, tile_side_px, hires_px).state != f.state,
    ensures
        f.after_click(click, tile_side_px, hires_px).stress_run is None,
        f.after_click(click, tile_side_px, hires_px).active_example_category is None,
{
}

/// Beginning a gallery fetch leaves no tile counting as current — a
/// previous fetch's image can never satisfy the auto-advance — as long as
/// no stamp runs ahead of the generation and the generation does not wrap
/// onto the "never fetched" stamp.
pub proof fn law_fresh_fetch_invalidates_every_tile(
    f: DemoFlow,
    click: NavClick,
    tile_side_px: u32,
    hires_px: (u32, u32),
)
    requires
        f.wf(),
        click_edge(f.state, click) == Some(Edge::HomeToLoading) || click_edge(f.state, click)
            == Some(Edge::GalleryToLoading),
        f.gallery_fetch_generation + 1 < u32::MAX,
        forall|i: int|
            0 <= i < GALLERY_TILES ==> #[trigger] f.gallery_tile_fetch_generation@[i]
                <= f.gallery_fetch_generation || f.gallery_tile_fetch_generation@[i] == u32::MAX,
    ensures
        f.after_click(click, tile_side_px, hires_px).state == AppState::Loading,
        f.after_click(click, tile_side_px, hires_px).pending_gallery_fetch == Some(
            GalleryFetchRequest { tile_side_px },
        ),
        forall|i: int|
            0 <= i < GALLERY_TILES ==> !#[trigger] f.after_click(
                click,
                tile_side_px,
                hires_px,
            ).tile_current(i),
{
}

/// A video's load timeout asks the host to cancel at most once: after it has
/// fired and the host drained the cancel, no later tick raises it again
/// until a new video starts.
pub proof fn law_video_cancel_fires_once(f: DemoFlow, mid_morph: bool, timeout_elapsed: bool)
    requires
        f.video_load_timed_out,
        !f.pending_video_cancel,
    ensures
        !f.video_tick(mid_morph, timeout_elapsed).pending_video_cancel,
        f.video_tick(mid_morph, timeout_elapsed) == f,
{
}

} // verus!
