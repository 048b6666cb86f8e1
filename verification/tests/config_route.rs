use rudydae::config::{
    CanConfig, Config, HttpConfig, LogsConfig, PathsConfig, SafetyConfig, TelemetryConfig,
    WebTransportConfig,
};
use rudydae::config_route::{server_config, wt_url};
use rudydae::types::F32Bits;

fn cfg(enabled: bool, bind: &str) -> Config {
    let z = F32Bits(0);
    Config {
        http: HttpConfig { bind: "127.0.0.1:0".into() },
        webtransport: WebTransportConfig { bind: bind.into(), enabled, cert_path: None, key_path: None },
        paths: PathsConfig {
            actuator_spec: "spec.yaml".into(),
            inventory: "inv.yaml".into(),
            inventory_seed: None,
            audit_log: "audit.jsonl".into(),
        },
        can: CanConfig { mock: true, buses: vec![] },
        telemetry: TelemetryConfig { poll_interval_ms: 100 },
        safety: SafetyConfig {
            require_verified: true,
            boot_max_step_rad: z,
            auto_recovery_max_rad: z,
            recovery_margin_rad: z,
            step_size_rad: z,
            tick_interval_ms: 50,
            tracking_error_max_rad: z,
            target_tolerance_rad: z,
            homer_timeout_ms: 30_000,
            auto_recovery_enabled: true,
            max_feedback_age_ms: 250,
            commission_readback_tolerance_rad: z,
            auto_home_on_boot: true,
        },
        logs: LogsConfig::default(),
    }
}

#[test]
fn config_advertises_resolvable_wt_url_when_enabled() {
    let c = server_config(&cfg(true, "0.0.0.0:4433"), "0.1.0", "RS03", Some("rudy-pi.tail0b414.ts.net"));
    assert!(c.webtransport.enabled);
    assert_eq!(c.webtransport.url.as_deref(), Some("https://rudy-pi.tail0b414.ts.net:4433/wt"));
    assert!(c.features.mock_can);
    assert!(c.features.require_verified);
    assert_eq!(c.version, "0.1.0");
    assert_eq!(c.actuator_model, "RS03");
}

#[test]
fn config_strips_port_from_host_header() {
    assert_eq!(wt_url(true, "0.0.0.0:4433", Some("localhost:5173")).as_deref(), Some("https://localhost:4433/wt"));
}

#[test]
fn config_omits_wt_url_when_host_header_missing_or_disabled() {
    assert_eq!(wt_url(true, "0.0.0.0:4433", None), None);
    assert_eq!(wt_url(false, "0.0.0.0:4433", Some("localhost")), None);
}

#[test]
fn wt_port_defaults_when_bind_has_none() {
    assert_eq!(wt_url(true, "wtbind", Some("h")).as_deref(), Some("https://h:4433/wt"));
}
