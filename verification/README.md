# proteus

The verified core of the Proteus reference demo and its native and web
hosts, written in Verus. Every function under `src/` carries a contract
that Verus proves, but one: `text::string_of` wraps std's
`String::from_iter`, whose contract is trusted. The laws the demo relies
on (grid partitions, photo sizing, fetch routing and cancellation, the
screen state machine) are stated and proved as public proof functions
beside the code they govern.

- `src/navigation.rs` — the demo's screens, the clicks that move between
  them, and the requests each transition hands to the host.
- `src/gallery.rs`, `src/gallery_fetch.rs`, `src/gallery_router.rs` — the
  photo grid, which photo each tile shows and at what size, and the routing
  of tile and high-resolution fetches.
- `src/hls.rs`, `src/hls_loader.rs` — HLS manifest parsing and the order in
  which a web stream's segments are fetched and appended.
- `src/host.rs`, `src/video_probe.rs` — asset URLs, fetch-id bookkeeping
  and cancellation, and reading a video's size out of `ffprobe` output.
- `src/stress.rs`, `src/examples.rs`, `src/text.rs` — the Stress Tests'
  generator and textures, the Examples catalogue, and character-level text
  helpers.

`app/` holds the hosts' I/O around the library: files, HTTP via `ureq`,
the clock, the `ffprobe`/`ffmpeg` video pipeline, the web host's `fetch()`
and `MediaSource` plumbing, and the floating-point parts (display scaling,
durations, colours, frame rates).
