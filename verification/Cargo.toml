[package]
name = "piky"
version = "0.1.0"
edition = "2021"
publish = false

[dependencies]
libadwaita = "=0.9.2"
cairo-rs = "=0.22.9"
gettext-rs = "=0.8.0"
glib = "=0.22.10"
gtk4 = "=0.11.5"
merman-analysis = { version = "=0.9.3", features = ["all-diagrams"] }
merman-core = { version = "=0.9.3", features = ["all-diagrams"] }
merman-editor-core = { version = "=0.9.3", features = ["all-diagrams"] }
merman-render = { version = "=0.9.3", features = ["all-diagrams"] }
serde = { version = "=1.0.229", features = ["derive"] }
serde_json = "=1.0.154"
sourceview5 = "=0.11.2"
thiserror = "=2.0.21"
tiny-skia-path = "=0.12.0"
tracing = "=0.1.44"
tracing-subscriber = "=0.3.23"
usvg = "=0.49.0"
