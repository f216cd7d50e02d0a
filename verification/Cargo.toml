[package]
name = "proteus"
version = "0.1.0"
edition = "2021"
publish = false

[dependencies]
web-time = "=1.1.0"
ureq = "=2.12.1"
log = "=0.4.35"
wasm-bindgen = "0.2"
wasm-bindgen-futures = "0.4"
js-sys = "0.3"
futures-util = "0.3"

[dependencies.web-sys]
version = "0.3"
features = [
    "AbortController",
    "AbortSignal",
    "CanvasRenderingContext2d",
    "CssStyleDeclaration",
    "Document",
    "Element",
    "Event",
    "EventTarget",
    "HtmlCanvasElement",
    "HtmlElement",
    "HtmlMediaElement",
    "HtmlVideoElement",
    "ImageData",
    "MediaSource",
    "MediaSourceReadyState",
    "Node",
    "RequestInit",
    "Response",
    "SourceBuffer",
    "Url",
    "Window",
]
