//! Routing of the gallery's network fetches: which photo each tile's
//! low-res fetch landed on (so an enlarged tile fetches the same photo
//! bigger), which in-flight fetch id belongs to which tile, and the single
//! high-resolution fetch that may be in flight at a time.
//!
//! The host starts and cancels the fetches; the router decides what to
//! start, what to cancel, and where a completed fetch's bytes go.

use vstd::prelude::*;
use std::collections::HashMap;
use crate::gallery::TILE_COUNT;
use crate::gallery_fetch::{
    TileFetch,
    hires_fetch_url,
    picsum_url,
    plan_matches,
    tile_fetch,
    tile_fetch_plan,
};

verus! {

broadcast use vstd::std_specs::hash::group_hash_axioms;

/// What a completed fetch routes back to: a grid tile (with the real pixel
/// size of the photo it asked for) or the enlarged view of a tile.
#[derive(Clone, Copy, Debug)]
pub enum PendingGalleryFetch {
    Tile(usize, (u32, u32)),
    Hires(usize),
}

/// The router's state as plain values.
pub struct RouterModel {
    /// Per tile, the photo id its low-res fetch asked for, if any.
    pub photo_ids: Seq<Option<u32>>,
    /// The in-flight fetches, by id.
    pub pending: Map<u64, PendingGalleryFetch>,
    /// The id of the high-resolution fetch in flight, if any.
    pub hires: Option<u64>,
}

impl RouterModel {
    /// The router's invariant: one photo slot per tile, every tracked fetch
    /// names a tile of the grid, and the only high-resolution fetch tracked
    /// is the one in flight.
    pub open spec fn wf(self) -> bool {
        &&& self.photo_ids.len() == TILE_COUNT
        &&& forall|k: u64| #[trigger]
            self.pending.contains_key(k) ==> match self.pending[k] {
                PendingGalleryFetch::Tile(i, _) => i < TILE_COUNT,
                PendingGalleryFetch::Hires(i) => i < TILE_COUNT && self.hires == Some(k),
            }
    }
}

/// A router that has fetched nothing yet.
pub open spec fn initial_router() -> RouterModel {
    RouterModel {
        photo_ids: Seq::new(TILE_COUNT as nat, |i: int| None),
        pending: Map::empty(),
        hires: None,
    }
}

/// After a fresh batch identified by `nonce` is planned at `side` pixels:
/// every tile remembers the photo its fetch asks for.
pub open spec fn after_tiles_planned(m: RouterModel, nonce: u32, side: u32) -> RouterModel {
    RouterModel {
        photo_ids: Seq::new(TILE_COUNT as nat, |i: int| Some(tile_fetch(nonce, i, side).1)),
        ..m
    }
}

/// After fetch `id` for tile `idx` (of a photo `size` pixels large) starts.
pub open spec fn after_tile_tracked(m: RouterModel, id: u64, idx: usize, size: (u32, u32)) -> RouterModel {
    RouterModel { pending: m.pending.insert(id, PendingGalleryFetch::Tile(idx, size)), ..m }
}

/// The high-resolution fetch in flight is given up: the router forgets it
/// and names it for the host to cancel.
pub open spec fn hires_taken(m: RouterModel) -> (RouterModel, Option<u64>) {
    match m.hires {
        Some(h) => (RouterModel { pending: m.pending.remove(h), hires: None, ..m }, Some(h)),
        None => (m, None),
    }
}

/// After high-resolution fetch `id` for tile `idx` starts.
pub open spec fn after_hires_tracked(m: RouterModel, id: u64, idx: usize) -> RouterModel {
    RouterModel {
        pending: m.pending.insert(id, PendingGalleryFetch::Hires(idx)),
        hires: Some(id),
        ..m
    }
}

/// Fetch `id` completes: where its bytes go (nothing, when the router does
/// not track it), and the router afterwards.
pub open spec fn completed(m: RouterModel, id: u64) -> (RouterModel, Option<PendingGalleryFetch>) {
    if m.pending.contains_key(id) {
        let kind = m.pending[id];
        let hires = if kind is Hires && m.hires == Some(id) {
            None
        } else {
            m.hires
        };
        (RouterModel { pending: m.pending.remove(id), hires, ..m }, Some(kind))
    } else {
        (m, None)
    }
}

/// What an enlarge request asks of the host: the high-resolution fetch to
/// cancel first, if one was in flight, and the URL to fetch, when the tile's
/// photo is known.
pub struct HiresPlan {
    pub cancel: Option<u64>,
    pub url: Option<String>,
}

/// Routes the gallery's fetches.
pub struct GalleryFetchRouter {
    tile_photo_id: Vec<Option<u32>>,
    gallery_fetches: HashMap<u64, PendingGalleryFetch>,
    hires_fetch: Option<u64>,
}

impl View for GalleryFetchRouter {
    type V = RouterModel;

    closed spec fn view(&self) -> RouterModel {
        RouterModel {
            photo_ids: self.tile_photo_id@,
            pending: self.gallery_fetches@,
            hires: self.hires_fetch,
        }
    }
}

impl GalleryFetchRouter {
    /// A router that has fetched nothing yet.
    pub fn new() -> (r: GalleryFetchRouter)
        ensures
            r@ == initial_router(),
            r@.wf(),
    {
        let mut ids: Vec<Option<u32>> = Vec::new();
        let mut i: usize = 0;
        while i < TILE_COUNT
            invariant
                i <= TILE_COUNT,
                ids@ == Seq::new(i as nat, |j: int| None::<u32>),
            decreases TILE_COUNT - i,
        {
            ids.push(None);
            i = i + 1;
            assert(ids@ =~= Seq::new(i as nat, |j: int| None::<u32>));
        }
        let r = GalleryFetchRouter { tile_photo_id: ids, gallery_fetches: HashMap::new(), hires_fetch: None };
        assert(r@.pending =~= Map::empty());
        r
    }

    /// Records, for every tile, the photo its fetch in the batch `nonce`
    /// at `side_px` asks for, and returns those fetches in tile order.
    pub fn plan_tile_fetches(&mut self, nonce: u32, side_px: u32) -> (r: Vec<TileFetch>)
        requires
            old(self)@.wf(),
        ensures
            r@.len() == TILE_COUNT,
            plan_matches(r@, nonce, side_px),
            final(self)@ == after_tiles_planned(old(self)@, nonce, side_px),
            final(self)@.wf(),
    {
        let plan = tile_fetch_plan(nonce, TILE_COUNT, side_px);
        self.record_photo_ids(&plan, Ghost(nonce), Ghost(side_px));
        plan
    }

    fn record_photo_ids(&mut self, plan: &Vec<TileFetch>, Ghost(nonce): Ghost<u32>, Ghost(side): Ghost<u32>)
        requires
            old(self)@.wf(),
            plan@.len() == TILE_COUNT,
            plan_matches(plan@, nonce, side),
        ensures
            final(self)@ == after_tiles_planned(old(self)@, nonce, side),
            final(self)@.wf(),
    {
        let ghost target = Seq::new(TILE_COUNT as nat, |i: int| Some(tile_fetch(nonce, i, side).1));
        let mut i: usize = 0;
        while i < TILE_COUNT
            invariant
                i <= TILE_COUNT,
                plan@.len() == TILE_COUNT,
                plan_matches(plan@, nonce, side),
                target == Seq::new(TILE_COUNT as nat, |k: int| Some(tile_fetch(nonce, k, side).1)),
                self.tile_photo_id@.len() == TILE_COUNT,
                forall|j: int| 0 <= j < i ==> self.tile_photo_id@[j] == target[j],
                self.gallery_fetches@ == old(self).gallery_fetches@,
                self.hires_fetch == old(self).hires_fetch,
            decreases TILE_COUNT - i,
        {
            assert(plan@[i as int].view() == tile_fetch(nonce, i as int, side));
            self.tile_photo_id.set(i, Some(plan[i].photo_id));
            i = i + 1;
        }
        assert(self.tile_photo_id@ =~= target);
    }

    /// Tracks fetch `id`, started for tile `idx` and a photo `real_size`
    /// pixels large.
    pub fn track_tile_fetch(&mut self, id: u64, idx: usize, real_size: (u32, u32))
        requires
            old(self)@.wf(),
            idx < TILE_COUNT,
        ensures
            final(self)@ == after_tile_tracked(old(self)@, id, idx, real_size),
            final(self)@.wf(),
    {
        self.gallery_fetches.insert(id, PendingGalleryFetch::Tile(idx, real_size));
        proof {
            let m = self@;
            assert forall|k: u64| #[trigger] m.pending.contains_key(k) implies match m.pending[k] {
                PendingGalleryFetch::Tile(i, _) => i < TILE_COUNT,
                PendingGalleryFetch::Hires(i) => i < TILE_COUNT && m.hires == Some(k),
            } by {
                if k != id {
                    assert(old(self)@.pending.contains_key(k));
                }
            }
        }
    }

    fn take_hires(&mut self) -> (r: Option<u64>)
        requires
            old(self)@.wf(),
        ensures
            final(self)@ == hires_taken(old(self)@).0,
            r == hires_taken(old(self)@).1,
            final(self)@.wf(),
    {
        match self.hires_fetch.take() {
            Some(old_id) => {
                self.gallery_fetches.remove(&old_id);
                proof {
                    let m = self@;
                    assert forall|k: u64| #[trigger] m.pending.contains_key(k) implies match m.pending[k] {
                        PendingGalleryFetch::Tile(i, _) => i < TILE_COUNT,
                        PendingGalleryFetch::Hires(i) => i < TILE_COUNT && m.hires == Some(k),
                    } by {
                        assert(old(self)@.pending.contains_key(k));
                    }
                }
                Some(old_id)
            },
            None => None,
        }
    }

    /// Handles a request to enlarge tile `idx` at `width`×`height` pixels:
    /// gives up the high-resolution fetch in flight, and plans one of the
    /// tile's own photo when its low-res fetch named one.
    pub fn plan_hires_fetch(&mut self, idx: usize, width: u32, height: u32) -> (r: HiresPlan)
        requires
            old(self)@.wf(),
            idx < TILE_COUNT,
        ensures
            final(self)@ == hires_taken(old(self)@).0,
            r.cancel == hires_taken(old(self)@).1,
            match old(self)@.photo_ids[idx as int] {
                Some(p) => r.url matches Some(u) && u@ == picsum_url(p, width, height),
                None => r.url is None,
            },
            final(self)@.wf(),
    {
        let cancel = self.take_hires();
        let url = match self.tile_photo_id[idx] {
            Some(photo_id) => Some(hires_fetch_url(photo_id, width, height)),
            None => None,
        };
        HiresPlan { cancel, url }
    }

    /// The high-resolution fetch in flight, if any.
    pub fn hires_fetch_in_flight(&self) -> (r: Option<u64>)
        ensures
            r == self@.hires,
    {
        self.hires_fetch
    }

    /// Tracks high-resolution fetch `id`, started for tile `idx`.
    pub fn track_hires_fetch(&mut self, id: u64, idx: usize)
        requires
            old(self)@.wf(),
            old(self)@.hires is None,
            idx < TILE_COUNT,
        ensures
            final(self)@ == after_hires_tracked(old(self)@, id, idx),
            final(self)@.wf(),
    {
        self.gallery_fetches.insert(id, PendingGalleryFetch::Hires(idx));
        self.hires_fetch = Some(id);
        proof {
            let m = self@;
            assert forall|k: u64| #[trigger] m.pending.contains_key(k) implies match m.pending[k] {
                PendingGalleryFetch::Tile(i, _) => i < TILE_COUNT,
                PendingGalleryFetch::Hires(i) => i < TILE_COUNT && m.hires == Some(k),
            } by {
                if k != id {
                    assert(old(self)@.pending.contains_key(k));
                }
            }
        }
    }

    /// Gives up the high-resolution fetch in flight, naming it for the host
    /// to cancel.
    pub fn cancel_hires_fetch(&mut self) -> (r: Option<u64>)
        requires
            old(self)@.wf(),
        ensures
            final(self)@ == hires_taken(old(self)@).0,
            r == hires_taken(old(self)@).1,
            final(self)@.wf(),
    {
        self.take_hires()
    }

    /// Fetch `id` has completed: where its bytes go, or `None` for a fetch
    /// the router does not track (one given up, or some other caller's).
    pub fn complete_fetch(&mut self, id: u64) -> (r: Option<PendingGalleryFetch>)
        requires
            old(self)@.wf(),
        ensures
            final(self)@ == completed(old(self)@, id).0,
            r == completed(old(self)@, id).1,
            final(self)@.wf(),
    {
        let kind = self.gallery_fetches.remove(&id);
        if let Some(PendingGalleryFetch::Hires(_)) = kind {
            let current = match self.hires_fetch {
                Some(h) => h == id,
                None => false,
            };
            if current {
                self.hires_fetch = None;
            }
        }
        proof {
            if !old(self)@.pending.contains_key(id) {
                assert(self@.pending =~= old(self)@.pending);
            }
            let m = self@;
            assert forall|k: u64| #[trigger] m.pending.contains_key(k) implies match m.pending[k] {
                PendingGalleryFetch::Tile(i, _) => i < TILE_COUNT,
                PendingGalleryFetch::Hires(i) => i < TILE_COUNT && m.hires == Some(k),
            } by {
                assert(old(self)@.pending.contains_key(k));
            }
        }
        kind
    }
}

/// At most one high-resolution fetch is ever tracked: any two tracked
/// high-resolution fetches are the same fetch.
pub proof fn law_at_most_one_hires_in_flight(m: RouterModel, k1: u64, k2: u64)
    requires
        m.wf(),
        m.pending.contains_key(k1),
        m.pending.contains_key(k2),
        m.pending[k1] is Hires,
        m.pending[k2] is Hires,
    ensures
        k1 == k2,
{
}

/// A high-resolution fetch that was given up (cancelled, or superseded by a
/// newer enlarge request) is never routed when it completes late.
pub proof fn law_given_up_hires_is_never_routed(m: RouterModel)
    requires
        m.wf(),
    ensures
        hires_taken(m).1 == m.hires,
        hires_taken(m).0.hires is None,
        hires_taken(m).1 matches Some(h) ==> completed(hires_taken(m).0, h).1 is None,
{
}

/// A completed fetch is routed at most once: completing the same id again
/// routes nothing.
pub proof fn law_completion_routes_once(m: RouterModel, id: u64)
    ensures
        completed(completed(m, id).0, id).1 is None,
{
}

/// The photo an enlarged tile fetches bigger is the one its low-res fetch
/// asked for: planning a batch records each tile's photo, and nothing but
/// planning changes what is recorded.
pub proof fn law_enlarged_tile_fetches_its_own_photo(
    m: RouterModel,
    nonce: u32,
    side: u32,
    idx: usize,
    id: u64,
    size: (u32, u32),
)
    requires
        idx < TILE_COUNT,
    ensures
        after_tiles_planned(m, nonce, side).photo_ids[idx as int] == Some(
            tile_fetch(nonce, idx as int, side).1,
        ),
        after_tile_tracked(m, id, idx, size).photo_ids == m.photo_ids,
        after_hires_tracked(m, id, idx).photo_ids == m.photo_ids,
        hires_taken(m).0.photo_ids == m.photo_ids,
        completed(m, id).0.photo_ids == m.photo_ids,
{
}

} // verus!
