//! Nagisa bot-framework runtime core: the decision logic of the dispatch engine
//! (command guards, cooldown windows, enable switches, plugin linking, service
//! ordering), the wire-level helpers shared by protocol adapters (SSE framing,
//! base64), and the pure parts of the event-log layer.

pub mod assoc;
pub mod ids;

pub mod service;
pub mod supervisor;
pub mod sse;
pub mod text;
pub mod wire;
pub mod event;
pub mod event_trigger;
pub mod plugin;
pub mod enabled;
pub mod cooldown;
pub mod rendezvous;
pub mod args;
pub mod arg_scan;
pub mod reconnect;
pub mod names;
pub mod render;
pub mod line;
pub mod log;
pub mod observer;
pub mod messages;
pub mod matcher;
pub mod session;
pub mod ratelimit;
pub mod middleware;
pub mod impl_info;
pub mod framesource;
pub mod router;
pub mod dispatch;
pub mod slots;
pub mod slot_seq;
pub mod rule;
