//! The decision core of the Prime Agent driver.

pub mod counter;
pub mod text;
pub mod text_laws;
pub mod json;
pub mod json_laws;
pub mod wire;
pub mod render;
pub mod render_laws;
pub mod proto;
pub mod lists;
pub mod names;
pub mod tool_images;
pub mod media;
pub mod events;
pub mod event_laws;
pub mod ids;
pub mod children;
pub mod children_laws;
pub mod child_call_laws;
pub mod invocation;
pub mod extension_ui;
pub mod turn;
pub mod turn_laws;
pub mod actions;
pub mod session;
pub mod session_laws;
pub mod wait_laws;
pub mod session_call_laws;
pub mod catalog;
pub mod catalog_laws;
pub mod requests;
pub mod client;
pub mod client_laws;
pub mod request_laws;
pub mod setup;
pub mod setup_laws;
pub mod setup_call_laws;
pub mod daemon;
pub mod daemon_laws;
pub mod daemon_call_laws;
pub mod file_names;
pub mod rollout;
pub mod attachments;
pub mod picture_laws;
pub mod harness;
pub mod paths;
pub mod host_laws;
pub mod piece_laws;
pub mod exact_laws;
pub mod fresh_laws;
pub mod view_laws;
