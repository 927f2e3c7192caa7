[package]
name = "holocard"
version = "0.1.0"
edition = "2021"
publish = false

[dependencies]
id3 = "1"
leptos = { version = "0.8", features = ["csr"] }
leptos_router = "0.8"
wasm-bindgen = "0.2"
wasm-bindgen-futures = "0.4"
js-sys = "0.3"
web-sys = { version = "0.3", features = ["Window", "Document", "Element", "DomRect", "MediaQueryList", "HtmlAudioElement", "HtmlMediaElement", "HtmlVideoElement", "HtmlInputElement", "HtmlAnchorElement", "AudioContext", "BaseAudioContext", "DeviceOrientationEvent", "PointerEvent", "MouseEvent", "Event", "EventTarget", "Blob", "BlobPropertyBag", "Url", "File", "FileList"] }
gloo-net = { version = "0.6", default-features = false, features = ["http"] }
gloo-timers = { version = "0.3", features = ["futures"] }
console_error_panic_hook = "0.1"
serde = { version = "1", features = ["derive"] }
