//! Verified decision logic of the Sidereal game client: settings, asset catalog and fetch
//! planning, session and control state machines, replication bookkeeping and debug views.

pub mod adoption;
pub mod asset_bootstrap;
pub mod asset_cache;
pub mod asset_deps;
pub mod asset_fetch;
pub mod asset_stream;
pub mod assets;
pub mod camera_anchor;
pub mod config;
pub mod console;
pub mod control;
pub mod debug_lanes;
pub mod debug_overlay;
pub mod guid;
pub mod hierarchy;
pub mod input_send;
pub mod keyed;
pub mod logout;
pub mod manifest;
pub mod motion_ownership;
pub mod numparse;
pub mod owned_ships;
pub mod pause_menu;
pub mod prediction_runtime;
pub mod render_layers;
pub mod render_registry;
pub mod replicon_sample;
pub mod session;
pub mod text;
pub mod watchdog;

use vstd::prelude::*;
use crate::config::{is_truthy, is_truthy_flag};

verus! {

/// The platform a client runs on.
#[derive(Debug, Clone, Copy, PartialEq, Eq)]
pub enum ClientPlatform {
    Native,
    Wasm,
}

/// How the client application is to be built and started.
#[derive(Debug)]
pub struct ClientLaunchPlan {
    pub platform: ClientPlatform,
    /// A headless client runs transport and replication without a window.
    pub headless_transport: bool,
    /// Root directory of the asset cache.
    pub asset_root: String,
}

/// The launch plan of the native client, from the values of `SIDEREAL_CLIENT_HEADLESS`
/// (untrimmed flag) and `SIDEREAL_ASSET_ROOT` (defaults to `.`).
pub fn run_native(headless_raw: Option<&str>, asset_root_raw: Option<&str>) -> (r: ClientLaunchPlan)
    ensures
        r.platform == ClientPlatform::Native,
        r.headless_transport == match headless_raw {
            Some(v) => is_truthy(v@),
            None => false,
        },
        r.asset_root@ == match asset_root_raw {
            Some(v) => v@,
            None => "."@,
        },
{
    let headless_transport = match headless_raw {
        Some(v) => is_truthy_flag(v),
        None => false,
    };
    let asset_root = match asset_root_raw {
        Some(v) => v.to_string(),
        None => ".".to_string(),
    };
    ClientLaunchPlan { platform: ClientPlatform::Native, headless_transport, asset_root }
}

/// The launch plan of the browser client: always windowed, assets under `.`.
pub fn run_wasm() -> (r: ClientLaunchPlan)
    ensures
        r.platform == ClientPlatform::Wasm,
        !r.headless_transport,
        r.asset_root@ == "."@,
{
    ClientLaunchPlan {
        platform: ClientPlatform::Wasm,
        headless_transport: false,
        asset_root: ".".to_string(),
    }
}

} // verus!
