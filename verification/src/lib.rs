use vstd::prelude::*;

pub mod clock;
pub mod text;
pub mod types;
pub mod rolemap;
pub mod boot_state;
pub mod control_lock;
pub mod inventory;
pub mod wt_router;
pub mod bus;
pub mod log_filter;
pub mod log_store;
pub mod boot_orchestrator;
pub mod gates;
pub mod state;
pub mod config;
pub mod actuator_spec;
pub mod discovery;
pub mod api_types;
pub mod logs_api;
pub mod commissioning;
pub mod config_route;
pub mod migrate;
pub mod auto_recovery;
pub mod jog_watchdog;
pub mod limbs;
pub mod feedback;
pub mod motors_api;
pub mod motion;
