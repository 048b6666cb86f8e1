use rudydae::config::{
    default_auto_recovery_max_rad, default_bitrate, default_boot_max_step_rad,
    default_commission_readback_tolerance_rad, default_homer_timeout_ms,
    default_max_feedback_age_ms, default_poll_ms, default_recovery_margin_rad,
    default_step_size_rad, default_target_tolerance_rad, default_tick_interval_ms,
    default_tracking_error_max_rad, CanConfig, Config, HttpConfig, LogsConfig, PathsConfig,
    SafetyConfig, TelemetryConfig, WebTransportConfig,
};

fn cfg_with(audit_log: &str, db_path: Option<&str>) -> Config {
    let mut logs = LogsConfig::default();
    if let Some(p) = db_path {
        logs.db_path = p.to_string();
    }
    Config {
        http: HttpConfig { bind: "127.0.0.1:0".into() },
        webtransport: WebTransportConfig {
            bind: "127.0.0.1:0".into(),
            enabled: false,
            cert_path: None,
            key_path: None,
        },
        paths: PathsConfig {
            actuator_spec: "spec.yaml".into(),
            inventory: "inv.yaml".into(),
            inventory_seed: None,
            audit_log: audit_log.into(),
        },
        can: CanConfig { mock: true, buses: vec![] },
        telemetry: TelemetryConfig { poll_interval_ms: default_poll_ms() },
        safety: SafetyConfig {
            require_verified: true,
            boot_max_step_rad: default_boot_max_step_rad(),
            auto_recovery_max_rad: default_auto_recovery_max_rad(),
            recovery_margin_rad: default_recovery_margin_rad(),
            step_size_rad: default_step_size_rad(),
            tick_interval_ms: default_tick_interval_ms(),
            tracking_error_max_rad: default_tracking_error_max_rad(),
            target_tolerance_rad: default_target_tolerance_rad(),
            homer_timeout_ms: default_homer_timeout_ms(),
            auto_recovery_enabled: true,
            max_feedback_age_ms: default_max_feedback_age_ms(),
            commission_readback_tolerance_rad: default_commission_readback_tolerance_rad(),
            auto_home_on_boot: true,
        },
        logs,
    }
}

#[test]
fn normalize_relative_db_path_anchors_to_absolute_audit_log_parent() {
    let mut cfg = cfg_with("/var/lib/rudy/audit.jsonl", None);
    cfg.normalize_paths();
    assert_eq!(cfg.logs.db_path, "/var/lib/rudy/logs.db");
}

#[test]
fn normalize_keeps_dev_relative_paths_unchanged() {
    let mut cfg = cfg_with("./.rudyd/audit.jsonl", None);
    cfg.normalize_paths();
    assert_eq!(cfg.logs.db_path, ".rudyd/logs.db");
}

#[test]
fn normalize_respects_explicit_absolute_db_path() {
    let mut cfg = cfg_with("/var/lib/rudy/audit.jsonl", Some("/srv/logs/rudy.db"));
    cfg.normalize_paths();
    assert_eq!(cfg.logs.db_path, "/srv/logs/rudy.db");
}

#[test]
fn normalize_keeps_custom_relative_file_name() {
    let mut cfg = cfg_with("/var/lib/rudy/audit.jsonl", Some("data/custom.db"));
    cfg.normalize_paths();
    assert_eq!(cfg.logs.db_path, "/var/lib/rudy/custom.db");
}

#[test]
fn logs_config_defaults() {
    let l = LogsConfig::default();
    assert_eq!(l.db_path, ".rudyd/logs.db");
    assert_eq!(l.retention_days, 7);
    assert_eq!(l.default_filter, "rudydae=info,tower_http=info");
    assert_eq!(l.batch_max_rows, 1000);
    assert_eq!(l.batch_flush_ms, 250);
    assert_eq!(l.purge_interval_s, 300);
}

#[test]
fn safety_defaults_encode_documented_values() {
    assert_eq!(f32::from_bits(default_boot_max_step_rad().0), 0.087);
    assert_eq!(f32::from_bits(default_commission_readback_tolerance_rad().0), 1e-3);
    assert_eq!(f32::from_bits(default_auto_recovery_max_rad().0), std::f32::consts::FRAC_PI_2);
    assert_eq!(f32::from_bits(default_recovery_margin_rad().0), 0.087);
    assert_eq!(f32::from_bits(default_step_size_rad().0), 0.02);
    assert_eq!(f32::from_bits(default_tracking_error_max_rad().0), 0.05);
    assert_eq!(f32::from_bits(default_target_tolerance_rad().0), 0.005);
    assert_eq!(default_tick_interval_ms(), 50);
    assert_eq!(default_homer_timeout_ms(), 30_000);
    assert_eq!(default_max_feedback_age_ms(), 250);
    assert_eq!(default_bitrate(), 1_000_000);
    assert_eq!(default_poll_ms(), 100);
}
