//! Client settings read from environment values, and the launch plan.

use vstd::prelude::*;
use crate::text::{eq_ignore_ascii_case, eq_ignore_ascii_case_spec, str_eq, trim, trimmed};
use crate::numparse::{parse_unsigned, parse_unsigned_spec};
use crate::guid::{parse_uuid, uuid_parse_str};

verus! {

/// A flag value that switches a setting on: `1`, or `true` in any ASCII case.
pub open spec fn is_truthy(v: Seq<char>) -> bool {
    v == "1"@ || eq_ignore_ascii_case_spec(v, "true"@)
}

/// Whether a raw flag value switches a setting on.
pub fn is_truthy_flag(v: &str) -> (r: bool)
    ensures
        r == is_truthy(v@),
{
    str_eq(v, "1") || eq_ignore_ascii_case(v, "true")
}

/// Whether an optional environment value is a truthy flag.
pub open spec fn env_value_truthy(raw: Option<Seq<char>>) -> bool {
    match raw {
        Some(v) => is_truthy(v),
        None => false,
    }
}

pub open spec fn opt_view(raw: Option<&str>) -> Option<Seq<char>> {
    match raw {
        Some(v) => Some(v@),
        None => None,
    }
}

/// A flag read from an optional environment value, untrimmed.
pub fn flag_from_env_value(raw: Option<&str>) -> (r: bool)
    ensures
        r == env_value_truthy(opt_view(raw)),
{
    match raw {
        Some(v) => is_truthy_flag(v),
        None => false,
    }
}

/// A flag read from an optional environment value after trimming white space.
pub fn env_flag(raw: Option<&str>) -> (r: bool)
    ensures
        r == match raw {
            Some(v) => is_truthy(trimmed(v@)),
            None => false,
        },
{
    match raw {
        Some(v) => is_truthy_flag(trim(v)),
        None => false,
    }
}


/// Whether the gameplay camera also renders debug gizmos.
#[derive(Debug, Clone, Copy, PartialEq, Eq)]
pub struct DebugGizmoOnGameplayCamera(pub bool);

impl DebugGizmoOnGameplayCamera {
    /// Built from the value of `SIDEREAL_CLIENT_DEBUG_GIZMOS_ON_GAMEPLAY_CAMERA`.
    pub fn from_env(raw: Option<&str>) -> (r: Self)
        ensures
            r.0 == env_value_truthy(opt_view(raw)),
    {
        DebugGizmoOnGameplayCamera(flag_from_env_value(raw))
    }
}

/// Whether debug velocity arrows are drawn as meshes.
#[derive(Debug, Clone, Copy, PartialEq, Eq)]
pub struct DebugVelocityArrowAsMesh(pub bool);

impl DebugVelocityArrowAsMesh {
    /// Built from the value of `SIDEREAL_CLIENT_DEBUG_ARROW_AS_MESH`.
    pub fn from_env(raw: Option<&str>) -> (r: Self)
        ensures
            r.0 == env_value_truthy(opt_view(raw)),
    {
        DebugVelocityArrowAsMesh(flag_from_env_value(raw))
    }
}

/// Whether the motion-ownership audit log runs.
#[derive(Debug, Clone, Copy, PartialEq, Eq)]
pub struct MotionOwnershipAuditEnabled(pub bool);

impl MotionOwnershipAuditEnabled {
    /// Built from the value of `SIDEREAL_CLIENT_MOTION_AUDIT`.
    pub fn from_env(raw: Option<&str>) -> (r: Self)
        ensures
            r.0 == env_value_truthy(opt_view(raw)),
    {
        MotionOwnershipAuditEnabled(flag_from_env_value(raw))
    }
}

/// Full local simulation without server reconciliation (a debug mode).
#[derive(Debug, Clone, Copy, PartialEq, Eq)]
pub struct LocalSimulationDebugMode(pub bool);

impl LocalSimulationDebugMode {
    /// Built from the value of `SIDEREAL_CLIENT_PHYSICS_MODE`: on when it is `local` in any
    /// ASCII case.
    pub fn from_env(raw: Option<&str>) -> (r: Self)
        ensures
            r.0 == match raw {
                Some(v) => eq_ignore_ascii_case_spec(v@, "local"@),
                None => false,
            },
    {
        let enabled = match raw {
            Some(v) => eq_ignore_ascii_case(v, "local"),
            None => false,
        };
        LocalSimulationDebugMode(enabled)
    }
}

/// How prediction rollbacks check state.
#[derive(Debug, Clone, Copy, PartialEq, Eq)]
pub enum PredictionRollbackStateTuning {
    Always,
    Check,
    Disabled,
}

/// The rollback mode that a raw `SIDEREAL_CLIENT_ROLLBACK_STATE` value selects.
pub open spec fn rollback_state_spec(raw: Option<Seq<char>>) -> PredictionRollbackStateTuning {
    match raw {
        Some(v) => if eq_ignore_ascii_case_spec(v, "always"@) {
            PredictionRollbackStateTuning::Always
        } else if eq_ignore_ascii_case_spec(v, "disabled"@) {
            PredictionRollbackStateTuning::Disabled
        } else {
            PredictionRollbackStateTuning::Check
        },
        None => PredictionRollbackStateTuning::Check,
    }
}

impl PredictionRollbackStateTuning {
    /// Built from the value of `SIDEREAL_CLIENT_ROLLBACK_STATE`: `always` or `disabled` in any
    /// ASCII case, else `Check`.
    pub fn from_env(raw: Option<&str>) -> (r: Self)
        ensures
            r == rollback_state_spec(opt_view(raw)),
    {
        match raw {
            Some(v) => if eq_ignore_ascii_case(v, "always") {
                PredictionRollbackStateTuning::Always
            } else if eq_ignore_ascii_case(v, "disabled") {
                PredictionRollbackStateTuning::Disabled
            } else {
                PredictionRollbackStateTuning::Check
            },
            None => PredictionRollbackStateTuning::Check,
        }
    }
}

/// Rollback and correction settings of the prediction manager.
#[derive(Debug, Clone, Copy, PartialEq, Eq)]
pub struct PredictionCorrectionTuning {
    pub max_rollback_ticks: u16,
    pub instant_correction: bool,
    pub rollback_state: PredictionRollbackStateTuning,
}

/// The largest `u16`.
pub open spec fn u16_max() -> int {
    0xffff
}

impl PredictionCorrectionTuning {
    /// Built from the values of `SIDEREAL_CLIENT_MAX_ROLLBACK_TICKS` (a `u16`, else 100),
    /// `SIDEREAL_CLIENT_INSTANT_CORRECTION` (a flag) and `SIDEREAL_CLIENT_ROLLBACK_STATE`.
    pub fn from_env(
        max_rollback_ticks_raw: Option<&str>,
        instant_correction_raw: Option<&str>,
        rollback_state_raw: Option<&str>,
    ) -> (r: Self)
        ensures
            r.max_rollback_ticks as int == match max_rollback_ticks_raw {
                Some(v) => match parse_unsigned_spec(v@, u16_max()) {
                    Some(n) => n,
                    None => 100,
                },
                None => 100,
            },
            r.instant_correction == env_value_truthy(opt_view(instant_correction_raw)),
            r.rollback_state == rollback_state_spec(opt_view(rollback_state_raw)),
    {
        let max_rollback_ticks: u16 = match max_rollback_ticks_raw {
            Some(v) => match parse_unsigned(v, 0xffff) {
                Some(n) => n as u16,
                None => 100,
            },
            None => 100,
        };
        PredictionCorrectionTuning {
            max_rollback_ticks,
            instant_correction: flag_from_env_value(instant_correction_raw),
            rollback_state: PredictionRollbackStateTuning::from_env(rollback_state_raw),
        }
    }
}

/// Default number of nearby collision proxies kept for the predicted ship.
pub const DEFAULT_NEARBY_COLLISION_PROXY_MAX: usize = 8;

/// The largest number of nearby collision proxies, from the value of
/// `SIDEREAL_CLIENT_NEARBY_COLLISION_PROXY_MAX`: a positive `usize`, else 8.
pub fn nearby_collision_proxy_max_from_env(raw: Option<&str>) -> (r: usize)
    ensures
        r as int == match raw {
            Some(v) => match parse_unsigned_spec(v@, usize::MAX as int) {
                Some(n) => if n > 0 { n } else { 8 },
                None => 8,
            },
            None => 8,
        },
{
    match raw {
        Some(v) => match parse_unsigned(v, usize::MAX as u64) {
            Some(n) => if n > 0 {
                n as usize
            } else {
                DEFAULT_NEARBY_COLLISION_PROXY_MAX
            },
            None => DEFAULT_NEARBY_COLLISION_PROXY_MAX,
        },
        None => DEFAULT_NEARBY_COLLISION_PROXY_MAX,
    }
}

/// Settings of the prediction lifecycle audit log.
#[derive(Debug, Clone, Copy, PartialEq, Eq)]
pub struct PredictionLifecycleAuditConfig {
    pub enabled: bool,
    /// The GUID to audit; `None` audits the controlled entity.
    pub target_guid: Option<u128>,
    /// Time between two audit lines, in milliseconds.
    pub interval_ms: u64,
}

impl PredictionLifecycleAuditConfig {
    /// Built from the value of `SIDEREAL_CLIENT_LIFECYCLE_AUDIT_GUID`: set means enabled; the
    /// trimmed value is the GUID to audit unless it is empty or `controlled` (any ASCII case).
    pub fn from_env(raw: Option<&str>) -> (r: Self)
        ensures
            r.enabled == raw.is_some(),
            r.interval_ms == 500,
            r.target_guid == match raw {
                Some(v) => if trimmed(v@).len() == 0 || eq_ignore_ascii_case_spec(
                    trimmed(v@),
                    "controlled"@,
                ) {
                    None
                } else {
                    uuid_parse_str(trimmed(v@))
                },
                None => None,
            },
    {
        let target_guid = match raw {
            Some(v) => {
                let t = trim(v);
                if t.unicode_len() == 0 || eq_ignore_ascii_case(t, "controlled") {
                    None
                } else {
                    parse_uuid(t)
                }
            },
            None => None,
        };
        PredictionLifecycleAuditConfig { enabled: raw.is_some(), target_guid, interval_ms: 500 }
    }
}

} // verus!
