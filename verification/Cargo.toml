[package]
name = "ashina"
version = "0.1.0"
edition = "2021"
publish = false

[dependencies]
byteorder = "=1.5.0"
dash-mpd = { version = "0.18", default-features = false }
dioxus = { version = "*", default-features = false, features = ["web", "launch", "macro", "html", "hooks", "signals"] }
displaydoc = "*"
flume = "*"
futures = "*"
gloo-timers = { version = "*", features = ["futures"] }
js-sys = "*"
mp4 = "=0.14.0"
regex = "*"
reqwest = { version = "*", default-features = false }
thiserror = "*"
tracing = "*"
tracing-wasm = "*"
url = "=2.5.8"
wasm-bindgen = "*"
wasm-bindgen-futures = "*"
web-sys = { version = "*", features = ["Document", "Element", "Event", "EventTarget", "HtmlElement", "HtmlMediaElement", "HtmlVideoElement", "MediaSource", "Node", "SourceBuffer", "TimeRanges", "Url", "Window"] }
