//! The host side of the HARDWARIO TOWER console link: a console and a shell for one device,
//! and a gateway that bridges a radio network to MQTT.
//!
//! Everything here computes: frames, keys, ticks and messages come in as plain values, and
//! what is to be sent, written or drawn goes out as plain values. Ports, threads, sockets
//! and the terminal belong to the program around it.
//!
//! - One device: `frame` (what comes off the link), `session` (waiting for answers),
//!   `render` (streaming output), `commands` (exit codes and what the commands decide),
//!   `port` (choosing and opening a port), `console`, `console_keys` and `console_view` (the
//!   full-screen console), `line_edit` and `highlight`.
//! - The gateway: `gate` (whether a device is let in), `bridge` (between the links and the
//!   engine), `engine` and its parts, `engine_model` (what the engine does, as a function),
//!   `engine_laws` and its siblings (what holds of it), `mgmt`, `naming`, `topics`,
//!   `payload`, `json_literal` (what its literals say) and `wire`.
//! - The dashboard: `dashboard`, `dashboard_keys`, `dashboard_time`, `dashboard_modal`,
//!   `dashboard_view`, `chart`, `json_view`, `layout` and `style`.
//! - The clients of a gateway: `client`, `nodes`, `net` and `cable`.
//! - What comes from outside: `clock` and `entropy`; and `text`, on which all of it rests.
//!
//! The modules whose names end in `_laws` hold no code: each states what holds of the modules
//! it is named after, in terms of what goes in and what comes out. `view_laws` speaks of all
//! that is drawn, and `shape_laws` of what the models show of the values.

pub mod bridge;
pub mod bridge_laws;
pub mod cable;
pub mod chart;
pub mod client;
pub mod client_laws;
pub mod clock;
pub mod commands;
pub mod commands_laws;
pub mod console;
pub mod console_keys;
pub mod console_laws;
pub mod console_view;
pub mod dashboard;
pub mod dashboard_event_laws;
pub mod dashboard_key_laws;
pub mod dashboard_keys;
pub mod dashboard_laws;
pub mod dashboard_modal;
pub mod dashboard_time;
pub mod dashboard_time_laws;
pub mod dashboard_view;
pub mod engine;
pub mod engine_answer_laws;
pub mod engine_dialog_laws;
pub mod engine_dispatch_laws;
pub mod engine_laws;
mod engine_mgmt;
pub mod engine_model;
pub mod engine_queue_laws;
pub mod engine_reply_laws;
pub mod engine_request_laws;
pub mod engine_rpc;
mod engine_serial;
pub mod engine_state;
pub mod engine_step_laws;
pub mod engine_topic_laws;
pub mod engine_turn_laws;
pub mod engine_uplink_laws;
pub mod entropy;
pub mod frame;
pub mod gate;
pub mod highlight;
pub mod highlight_laws;
pub mod json_literal;
pub mod json_view;
pub mod layout;
pub mod line_edit;
pub mod mgmt;
pub mod mgmt_laws;
pub mod naming;
pub mod net;
pub mod nodes;
pub mod nodes_laws;
pub mod payload;
pub mod payload_laws;
pub mod port;
pub mod render;
pub mod render_laws;
pub mod session;
pub mod session_laws;
pub mod shape_laws;
pub mod style;
pub mod text;
pub mod text_laws;
pub mod topics;
pub mod view_laws;
pub mod wire;
