[package]
name = "delenix"
version = "0.1.0"
edition = "2021"
publish = false

[dependencies]
chrono = "=0.4.45"
rand = "=0.8.8"
jsonpath_lib = "=0.3.0"
serde_json = "=1.0.154"
serde_urlencoded = "=0.7.1"
image = { version = "=0.24.9", default-features = false, features = ["png", "jpeg", "tiff"] }
serde = { version = "=1.0.229", features = ["derive"] }
serde_derive = "=1.0.229"
reqwest = { version = "=0.11.27", features = ["blocking", "json", "multipart"] }
tokio = { version = "=1.54.1", features = ["full"] }
structopt = "=0.3.26"
tracing = "=0.1.44"
tracing-subscriber = "=0.3.23"
home = "=0.5.12"
atty = "=0.2.14"
x11rb = "=0.12.0"
gtk = "=0.17.1"
gdk = "=0.17.1"
gdk-pixbuf = "=0.17.10"
glib = "=0.17.10"
tesseract = "=0.15.2"
webbrowser = "*"
winapi = { version = "=0.3.9", features = ["minwindef", "windef", "wingdi", "winuser"] }
