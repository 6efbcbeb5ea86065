[package]
name = "cosmic-greeter"
version = "0.1.0"
edition = "2021"
publish = false

[dependencies]
chrono = { version = "0.4", features = ["unstable-locales"] }
chrono-tz = "0.10"
dirs = "6"
freedesktop_entry_parser = "1.3"
futures-util = "0.3"
greetd_ipc = { version = "0.10", features = ["tokio-codec"] }
icu = "2.0"
image = { version = "0.25", default-features = false, features = ["bmp", "gif", "jpeg", "png", "webp"] }
kdl = "6.3"
lexopt = "0.3"
logind-zbus = "5.3"
nix = { version = "0.30", features = ["user"] }
pam-client = "0.5"
pwd = "1.4"
rayon = "1.11"
ron = "0.11"
serde = { version = "1.0", features = ["derive"] }
serde_json = "1.0"
shlex = "1.3"
timedate-zbus = "0.1"
tokio = { version = "1", features = ["full"] }
tracing = "0.1"
tracing-journald = "0.3"
tracing-subscriber = { version = "0.3", features = ["env-filter"] }
upower_dbus = "0.3"
wayland-client = "0.31"
xdg = "3.0"
xkb-data = "0.2"
zbus = { version = "5", default-features = false, features = ["tokio"] }
zbus_systemd = { version = "0.25701", features = ["network1"] }
