//! Decision logic of a login greeter and lock screen.
pub mod text;
pub mod blur;
pub mod frost;
pub mod order;
pub mod keyboard;
pub mod theme;
pub mod user;
pub mod walk;
pub mod config;
pub mod daemon;
pub mod session;
pub mod localize;
pub mod time;
pub mod geometry;
pub mod rects;
pub mod battery;
pub mod common;
pub mod locker;
pub mod menu;
pub mod locker_menu;
pub mod nesting;
pub mod displays;
pub mod greeter;
pub mod greeter_menu;
pub mod networkmanager;
pub mod systemd;
pub mod upower;
pub mod fprintd;
pub mod initial_session;
pub mod logind;
pub mod ipc;
pub mod pam_worker;
pub mod worker;
pub mod entry;
pub mod text_laws;
pub mod picture_laws;
pub mod session_laws;
pub mod account_laws;
pub mod service_laws;
pub mod conversation_laws;
pub mod machine_laws;
pub mod common_laws;
pub mod screen_laws;
pub mod view_laws;
pub mod locker_laws;
pub mod lock_cycle_laws;
pub mod greeter_laws;
pub mod start_laws;
