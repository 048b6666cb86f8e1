use rudydae::discovery::{
    BusParamReader, DeviceProbe, DeviceProbeRegistry, HardwareScanReport, Identification,
    RobstrideProbe, Type17Reply,
};

struct MockReader {
    reply: Type17Reply,
}

impl BusParamReader for MockReader {
    fn read_type17_register(&self, _iface: &str, _motor_id: u8, _index: u16, _timeout_ms: u64) -> Type17Reply {
        self.reply
    }
}

#[test]
fn robstride_probe_none_reply_counts_as_present() {
    let reader = MockReader { reply: Type17Reply::ReadFail };
    let p = RobstrideProbe::default();
    let dev = p.probe(&reader, "can0", 0x55, 1).unwrap();
    assert_eq!(dev.bus, "can0");
    assert_eq!(dev.can_id, 0x55);
    assert_eq!(dev.family_hint, "robstride");
    assert!(dev.identification.is_some());
}

#[test]
fn robstride_probe_timeout_yields_none() {
    let reader = MockReader { reply: Type17Reply::NoReply };
    let p = RobstrideProbe::default();
    assert!(p.probe(&reader, "can0", 0x55, 1).is_none());
}

#[test]
fn registry_first_probe_wins() {
    let reader = MockReader { reply: Type17Reply::Value(*b"v1\0\0") };
    let reg = DeviceProbeRegistry::with_default_probes();
    let (dev, att) = reg.probe_one_id(&reader, "can0", 0x10, 1);
    assert!(dev.is_some());
    assert_eq!(att.len(), 1);
    assert!(att[0].found);
}

#[test]
fn firmware_snippet_strips_nul_and_whitespace() {
    let reader = MockReader { reply: Type17Reply::Value(*b" v2\0") };
    let dev = RobstrideProbe::default().probe(&reader, "can1", 3, 1).unwrap();
    match dev.identification {
        Some(Identification::FirmwareSnippet { param_index, snippet }) => {
            assert_eq!(param_index, 0x1003);
            assert_eq!(snippet, "v2");
        }
        other => panic!("unexpected {other:?}"),
    }
}

#[test]
fn read_fail_reports_param_index() {
    let reader = MockReader { reply: Type17Reply::ReadFail };
    let dev = RobstrideProbe::default().probe(&reader, "can1", 3, 1).unwrap();
    assert!(matches!(dev.identification, Some(Identification::ReadFail { param_index: 0x1003 })));
}

#[test]
fn registry_miss_records_one_attempt_per_probe() {
    let reader = MockReader { reply: Type17Reply::NoReply };
    let reg = DeviceProbeRegistry::with_default_probes();
    let (dev, att) = reg.probe_one_id(&reader, "can0", 0x10, 1);
    assert!(dev.is_none());
    assert_eq!(att.len(), 1);
    assert!(!att[0].found);
    assert_eq!(att[0].probe, "robstride");
    assert_eq!(att[0].bus, "can0");
    assert_eq!(att[0].can_id, 0x10);
}

#[test]
fn empty_scan_report_carries_message() {
    let r = HardwareScanReport::empty("nothing yet".to_string());
    assert!(r.discovered.is_empty());
    assert!(r.attempts.is_empty());
    assert_eq!(r.message.as_deref(), Some("nothing yet"));
}
