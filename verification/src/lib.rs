use vstd::prelude::*;

pub mod text;
pub mod time;
pub mod protocol;
pub mod pattern;
pub mod criteria;
pub mod policy;
pub mod timers;
pub mod admin_config;
pub mod selfheal;
pub mod subchat;
pub mod root_branch;
pub mod channels;
pub mod event_loop;
pub mod safety_guard;
pub mod hand_eye;
pub mod json;
pub mod daemon;
pub mod executor;
pub mod dashboard;
pub mod admin_rows;
pub mod config;
pub mod desktop_io;
pub mod audit;
pub mod approvals;
pub mod config_paths;
pub mod messages;
pub mod admin_panel;

verus! {
}
