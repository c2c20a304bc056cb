use sidereal_client::config::{
    nearby_collision_proxy_max_from_env, LocalSimulationDebugMode, MotionOwnershipAuditEnabled,
    PredictionCorrectionTuning, PredictionLifecycleAuditConfig, PredictionRollbackStateTuning,
};
use sidereal_client::numparse::{format_decimal, parse_unsigned};
use sidereal_client::text::{ends_with, eq_ignore_ascii_case, is_blank_str, starts_with, trim};
use sidereal_client::{run_native, run_wasm, ClientPlatform};

#[test]
fn launch_plans_follow_the_environment() {
    let plan = run_native(Some("TRUE"), Some("/data"));
    assert_eq!(plan.platform, ClientPlatform::Native);
    assert!(plan.headless_transport);
    assert_eq!(plan.asset_root, "/data");
    let plan = run_native(Some(" 1"), None);
    assert!(!plan.headless_transport);
    assert_eq!(plan.asset_root, ".");
    let web = run_wasm();
    assert_eq!(web.platform, ClientPlatform::Wasm);
    assert!(!web.headless_transport);
}

#[test]
fn flags_accept_one_and_true_in_any_case() {
    assert!(MotionOwnershipAuditEnabled::from_env(Some("1")).0);
    assert!(MotionOwnershipAuditEnabled::from_env(Some("TrUe")).0);
    assert!(!MotionOwnershipAuditEnabled::from_env(Some("yes")).0);
    assert!(!MotionOwnershipAuditEnabled::from_env(None).0);
    assert!(LocalSimulationDebugMode::from_env(Some("LOCAL")).0);
    assert!(!LocalSimulationDebugMode::from_env(Some("remote")).0);
}

#[test]
fn correction_tuning_parses_with_defaults() {
    let t = PredictionCorrectionTuning::from_env(Some("42"), Some("true"), Some("Always"));
    assert_eq!(t.max_rollback_ticks, 42);
    assert!(t.instant_correction);
    assert_eq!(t.rollback_state, PredictionRollbackStateTuning::Always);
    let d = PredictionCorrectionTuning::from_env(Some("70000"), None, Some("off"));
    assert_eq!(d.max_rollback_ticks, 100);
    assert!(!d.instant_correction);
    assert_eq!(d.rollback_state, PredictionRollbackStateTuning::Check);
    assert_eq!(PredictionRollbackStateTuning::from_env(Some("DISABLED")), PredictionRollbackStateTuning::Disabled);
}

#[test]
fn proxy_max_requires_a_positive_number() {
    assert_eq!(nearby_collision_proxy_max_from_env(Some("3")), 3);
    assert_eq!(nearby_collision_proxy_max_from_env(Some("0")), 8);
    assert_eq!(nearby_collision_proxy_max_from_env(Some("-1")), 8);
    assert_eq!(nearby_collision_proxy_max_from_env(None), 8);
}

#[test]
fn lifecycle_audit_reads_a_guid_or_the_controlled_entity() {
    let c = PredictionLifecycleAuditConfig::from_env(Some(" Controlled "));
    assert!(c.enabled);
    assert_eq!(c.target_guid, None);
    assert_eq!(c.interval_ms, 500);
    let g = PredictionLifecycleAuditConfig::from_env(Some(" 00000000-0000-0000-0000-00000000002a "));
    assert_eq!(g.target_guid, Some(42));
    let bad = PredictionLifecycleAuditConfig::from_env(Some("not-a-guid"));
    assert_eq!(bad.target_guid, None);
    assert!(!PredictionLifecycleAuditConfig::from_env(None).enabled);
}

#[test]
fn numbers_parse_and_print() {
    assert_eq!(parse_unsigned("+17", 100), Some(17));
    assert_eq!(parse_unsigned("101", 100), None);
    assert_eq!(parse_unsigned("", 100), None);
    assert_eq!(parse_unsigned("1a", 100), None);
    assert_eq!(format_decimal(0), "0");
    assert_eq!(format_decimal(1234567890), "1234567890");
    assert_eq!(parse_unsigned(format_decimal(u64::MAX).as_str(), u64::MAX), Some(u64::MAX));
}

#[test]
fn text_helpers_behave_like_std() {
    assert_eq!(trim("\t a b \n"), "a b");
    assert!(is_blank_str(" \u{3000} "));
    assert!(!is_blank_str(" x "));
    assert!(eq_ignore_ascii_case("LoCaL", "local"));
    assert!(!eq_ignore_ascii_case("locale", "local"));
    assert!(starts_with("https://x", "https://"));
    assert!(!starts_with("http", "https://"));
    assert!(ends_with("shaders/a.wgsl", ".wgsl"));
    assert!(!ends_with("wgsl", ".wgsl"));
}
