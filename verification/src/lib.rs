//! Core of neopatch: the decisions, parsers, tables and state machines that the
//! hooks are built from, as verified functions over plain values.

pub mod ansi;
pub mod bytes;
pub mod cfg_pin;
pub mod com8;
pub mod config;
pub mod console;
pub mod d3d8;
pub mod d3d9;
pub mod d3d9_hooks;
pub mod d3d;
pub mod d3dx9;
pub mod decode;
pub mod destructor_pump;
pub mod device8;
pub mod dinput8;
pub mod exit_hooks;
pub mod frame_loop;
pub mod game_addr;
pub mod gdi_caps;
pub mod iat;
pub mod ini;
pub mod input;
pub mod ladder;
pub mod loader_sync;
pub mod log;
pub mod log_cap;
pub mod manifest;
pub mod modules;
pub mod nonzero;
pub mod once;
pub mod pacer;
pub mod patches;
pub mod pinned;
pub mod protect;
pub mod rates;
pub mod render;
pub mod replay;
pub mod screenshot;
pub mod session;
pub mod text;
pub mod th06;
pub mod th07;
pub mod th08;
pub mod th095;
pub mod th10;
pub mod thread;
pub mod timer_period;
pub mod untrusted;
pub mod vtable;
pub mod watchdog;
pub mod window;
