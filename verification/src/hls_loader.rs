//! The order in which a web HLS stream is loaded: the manifest, then the
//! init segment, then every media segment in manifest order, each fetched
//! and appended before the next; the first appended media segment lets
//! playback start. Every step belongs to one playback generation: once the
//! host's generation has moved on (the stream was stopped), whatever
//! arrives late is dropped silently.
//!
//! The host performs each fetch and append and reports back; the loader
//! decides what comes next.

use vstd::prelude::*;
use crate::hls::{parse_hls_manifest, parsed_manifest, manifest_error, string_views};
use crate::text::{chars_of, concat_chars, string_of};

verus! {

/// Where a stream's loading stands.
#[derive(Clone, Copy, Debug, PartialEq, Eq, Structural)]
pub enum HlsLoadState {
    /// Waiting for the manifest.
    AwaitManifest,
    /// Waiting for the init segment's bytes.
    AwaitInit,
    /// Waiting for the init segment's append.
    AwaitInitAppend,
    /// Waiting for media segment `k`'s bytes.
    AwaitSegment(usize),
    /// Waiting for media segment `k`'s append.
    AwaitSegmentAppend(usize),
    /// Every segment is appended.
    Finished,
    /// Stopped: by a newer generation, or by a failure.
    Abandoned,
}

/// What the host reports.
pub enum HlsEvent {
    /// The manifest's text arrived.
    ManifestFetched(String),
    /// The bytes last asked for arrived.
    Fetched,
    /// The last append completed.
    Appended,
    /// The last fetch or append failed.
    Failed,
}

/// What the host is to do next.
#[derive(Debug)]
pub enum HlsAction {
    /// Set the stream's duration to the sum of these `#EXTINF` durations,
    /// then fetch `init_url`.
    ManifestReady { durations: Vec<String>, init_url: String },
    /// Fetch this URL.
    Fetch(String),
    /// Append the bytes just fetched.
    Append,
    /// The first media segment is in: playback may start. Then fetch the
    /// next segment's URL, or end the stream when there is none.
    FirstSegmentReady(Option<String>),
    /// Every segment is appended: end the stream.
    EndOfStream,
    /// The manifest did not parse; the message says why.
    BadManifest(String),
    /// Loading failed; the host reports its own error.
    Fail,
    /// Nothing more to do: the stream was stopped, or loading is over.
    Stop,
}

/// `dir/name`.
pub open spec fn joined_url(dir: Seq<char>, name: Seq<char>) -> Seq<char> {
    dir + seq!['/'] + name
}

/// The manifest of the stream under `dir`.
pub open spec fn manifest_url(dir: Seq<char>) -> Seq<char> {
    joined_url(dir, "stream.m3u8"@)
}

/// Whether `s` is a state the loader can still act in.
pub open spec fn is_live(s: HlsLoadState) -> bool {
    !(s is Finished) && !(s is Abandoned)
}

/// Loads one HLS stream for one playback generation.
pub struct HlsLoader {
    dir: String,
    generation: u32,
    state: HlsLoadState,
    segments: Vec<String>,
}

impl HlsLoader {
    /// The stream's directory.
    pub closed spec fn dir(&self) -> Seq<char> {
        self.dir@
    }

    /// The playback generation this loader belongs to.
    pub closed spec fn generation(&self) -> u32 {
        self.generation
    }

    /// Where loading stands.
    pub closed spec fn state(&self) -> HlsLoadState {
        self.state
    }

    /// The media segment URIs, relative to the directory.
    pub closed spec fn segments(&self) -> Seq<Seq<char>> {
        string_views(self.segments@)
    }

    /// Segment indices stay within the manifest's segments, of which there
    /// is at least one once the manifest is in.
    pub open spec fn wf(&self) -> bool {
        &&& !(self.state() is AwaitManifest) && !(self.state() is Abandoned) ==> self.segments().len() > 0
        &&& self.state() matches HlsLoadState::AwaitSegment(k) ==> k < self.segments().len()
        &&& self.state() matches HlsLoadState::AwaitSegmentAppend(k) ==> k < self.segments().len()
    }

    /// A loader for the stream under `dir`, started by playback generation
    /// `generation`, and the manifest URL to fetch first.
    pub fn new(dir: String, generation: u32) -> (r: (HlsLoader, String))
        ensures
            r.0.dir() == dir@,
            r.0.generation() == generation,
            r.0.state() == HlsLoadState::AwaitManifest,
            r.0.wf(),
            r.1@ == manifest_url(dir@),
    {
        let url = join(&dir, "stream.m3u8");
        (HlsLoader { dir, generation, state: HlsLoadState::AwaitManifest, segments: Vec::new() }, url)
    }

    fn segment_url(&self, k: usize) -> (r: String)
        requires
            k < self.segments@.len(),
        ensures
            r@ == joined_url(self.dir(), self.segments()[k as int]),
    {
        join(&self.dir, self.segments[k].as_str())
    }

    /// Handles what the host reports under its current generation
    /// `current_generation`, and says what to do next.
    pub fn advance(&mut self, current_generation: u32, event: HlsEvent) -> (r: HlsAction)
        requires
            old(self).wf(),
        ensures
            final(self).wf(),
            final(self).dir() == old(self).dir(),
            final(self).generation() == old(self).generation(),
            // Loading is over: nothing more happens.
            !is_live(old(self).state()) ==> r is Stop && final(self).state() == old(self).state(),
            // A stopped stream's late callbacks are dropped silently.
            is_live(old(self).state()) && current_generation != old(self).generation() ==> r is Stop
                && final(self).state() == HlsLoadState::Abandoned,
            is_live(old(self).state()) && current_generation == old(self).generation() ==> {
                let s = old(self).state();
                let segs = old(self).segments();
                match event {
                    HlsEvent::Failed => r is Fail && final(self).state() == HlsLoadState::Abandoned,
                    HlsEvent::ManifestFetched(text) => if s == HlsLoadState::AwaitManifest {
                        match parsed_manifest(text@) {
                            Some((init, new_segs, durs)) => r matches HlsAction::ManifestReady {
                                durations,
                                init_url,
                            } && string_views(durations@) == durs && init_url@ == joined_url(
                                old(self).dir(),
                                init,
                            ) && final(self).state() == HlsLoadState::AwaitInit
                                && final(self).segments() == new_segs,
                            None => r matches HlsAction::BadManifest(m) && m@ == manifest_url(
                                old(self).dir(),
                            ) + ": "@ + manifest_error() && final(self).state()
                                == HlsLoadState::Abandoned,
                        }
                    } else {
                        r is Stop && final(self).state() == HlsLoadState::Abandoned
                    },
                    HlsEvent::Fetched => match s {
                        HlsLoadState::AwaitInit => r is Append && final(self).state()
                            == HlsLoadState::AwaitInitAppend,
                        HlsLoadState::AwaitSegment(k) => r is Append && final(self).state()
                            == HlsLoadState::AwaitSegmentAppend(k),
                        _ => r is Stop && final(self).state() == HlsLoadState::Abandoned,
                    },
                    HlsEvent::Appended => match s {
                        HlsLoadState::AwaitInitAppend => r matches HlsAction::Fetch(u) && u@
                            == joined_url(old(self).dir(), segs[0]) && final(self).state()
                            == HlsLoadState::AwaitSegment(0),
                        HlsLoadState::AwaitSegmentAppend(k) => if k + 1 < segs.len() {
                            final(self).state() == HlsLoadState::AwaitSegment((k + 1) as usize)
                                && if k == 0 {
                                r matches HlsAction::FirstSegmentReady(Some(u)) && u@ == joined_url(
                                    old(self).dir(),
                                    segs[k + 1],
                                )
                            } else {
                                r matches HlsAction::Fetch(u) && u@ == joined_url(
                                    old(self).dir(),
                                    segs[k + 1],
                                )
                            }
                        } else {
                            final(self).state() == HlsLoadState::Finished && if k == 0 {
                                r matches HlsAction::FirstSegmentReady(None)
                            } else {
                                r is EndOfStream
                            }
                        },
                        _ => r is Stop && final(self).state() == HlsLoadState::Abandoned,
                    },
                }
            },
            // The segments change only when the manifest comes in.
            !(old(self).state() is AwaitManifest) ==> final(self).segments() == old(self).segments(),
    {
        if self.state == HlsLoadState::Finished || self.state == HlsLoadState::Abandoned {
            return HlsAction::Stop;
        }
        if current_generation != self.generation {
            self.state = HlsLoadState::Abandoned;
            return HlsAction::Stop;
        }
        match event {
            HlsEvent::Failed => {
                self.state = HlsLoadState::Abandoned;
                HlsAction::Fail
            },
            HlsEvent::ManifestFetched(text) => {
                if self.state != HlsLoadState::AwaitManifest {
                    self.state = HlsLoadState::Abandoned;
                    return HlsAction::Stop;
                }
                match parse_hls_manifest(text.as_str()) {
                    Ok(manifest) => {
                        let init_url = join(&self.dir, manifest.init_uri.as_str());
                        self.segments = manifest.segment_uris;
                        self.state = HlsLoadState::AwaitInit;
                        HlsAction::ManifestReady { durations: manifest.segment_durations, init_url }
                    },
                    Err(e) => {
                        self.state = HlsLoadState::Abandoned;
                        let url = join(&self.dir, "stream.m3u8");
                        let with_sep = join_with(&url, ": ", e.as_str());
                        HlsAction::BadManifest(with_sep)
                    },
                }
            },
            HlsEvent::Fetched => match self.state {
                HlsLoadState::AwaitInit => {
                    self.state = HlsLoadState::AwaitInitAppend;
                    HlsAction::Append
                },
                HlsLoadState::AwaitSegment(k) => {
                    self.state = HlsLoadState::AwaitSegmentAppend(k);
                    HlsAction::Append
                },
                _ => {
                    self.state = HlsLoadState::Abandoned;
                    HlsAction::Stop
                },
            },
            HlsEvent::Appended => match self.state {
                HlsLoadState::AwaitInitAppend => {
                    let u = self.segment_url(0);
                    self.state = HlsLoadState::AwaitSegment(0);
                    HlsAction::Fetch(u)
                },
                HlsLoadState::AwaitSegmentAppend(k) => {
                    assert(self.segments().len() == self.segments@.len());
                    let n = self.segments.len();
                    if k + 1 < n {
                        let u = self.segment_url(k + 1);
                        self.state = HlsLoadState::AwaitSegment(k + 1);
                        if k == 0 {
                            HlsAction::FirstSegmentReady(Some(u))
                        } else {
                            HlsAction::Fetch(u)
                        }
                    } else {
                        self.state = HlsLoadState::Finished;
                        if k == 0 {
                            HlsAction::FirstSegmentReady(None)
                        } else {
                            HlsAction::EndOfStream
                        }
                    }
                },
                _ => {
                    self.state = HlsLoadState::Abandoned;
                    HlsAction::Stop
                },
            },
        }
    }
}

/// Whether playback starts now: not yet started, the metadata and the
/// first media segment are both in, and the video's real size is known.
pub fn should_start_playback(
    started: bool,
    metadata_ready: bool,
    first_segment_ready: bool,
    video_width: u32,
    video_height: u32,
) -> (r: bool)
    ensures
        r == (!started && metadata_ready && first_segment_ready && video_width > 0 && video_height
            > 0),
{
    !started && metadata_ready && first_segment_ready && video_width > 0 && video_height > 0
}

/// `dir/name` as a `String`.
fn join(dir: &String, name: &str) -> (r: String)
    ensures
        r@ == joined_url(dir@, name@),
{
    proof {
        reveal_strlit("/");
    }
    join_with(dir, "/", name)
}

/// `a`, `sep` and `b` one after the other.
fn join_with(a: &String, sep: &str, b: &str) -> (r: String)
    ensures
        r@ == a@ + sep@ + b@,
{
    let front = concat_chars(chars_of(a.as_str()), &chars_of(sep));
    let all = concat_chars(front, &chars_of(b));
    string_of(all.as_slice())
}

} // verus!
