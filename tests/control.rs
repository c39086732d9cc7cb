use vm_ctl::api::{
    detect_image_format, detect_image_format_folded, ma_mode_url, update_status_url,
    validate_disk_size, ApiKeyAuth,
};
use vm_ctl::control::{
    timestamp_from, backup_command, backup_file_name, monitor_command, monitor_transcript, parse_monitor_request,
    MonitorOp, MonitorPaths, MonitorReply, Timestamp,
};
use vm_ctl::error::{NameFault, VmError};
use vm_ctl::monitor::clean_monitor_output;
use vm_ctl::seed::{generate_meta_data, generate_userdata, resolve_mac, seed_image_path, MdsConfig};

fn s(x: &str) -> String {
    x.to_string()
}

fn paths() -> MonitorPaths {
    MonitorPaths { iso_path: s("/tmp/vmcontrol/iso"), live_path: s("/tmp/vmcontrol/backups"), gzip_path: s("/usr/bin/gzip") }
}

fn ts(second: u32) -> Timestamp {
    Timestamp { year: 2024, month: 1, day: 2, hour: 3, minute: 4, second }
}

#[test]
fn cleaning_drops_banner_prompt_and_escapes() {
    let raw = "QEMU 8.2.0 monitor - type 'help' for more information\r\n(qemu) info status\r\n\x1b[K\x1b[DVM status: running\r\n\r\n(qemu) ";
    assert_eq!(clean_monitor_output(raw), "VM status: running");
}

#[test]
fn cleaned_output_never_holds_banner_words() {
    let raw = "line one\n(qemu) x\nQEMU 9.0 monitor - type 'help'\nline two (qemu)\nline three\n\x1b[1;31mred\x1b[0m\n";
    let out = clean_monitor_output(raw);
    assert!(!out.contains("(qemu)"));
    assert!(!out.contains("monitor"));
    assert_eq!(out, "line one\nline three\nred");
    assert_eq!(clean_monitor_output(""), "");
    assert_eq!(clean_monitor_output("\x1b[12"), "[12");
}

#[test]
fn cleaning_keeps_output_that_mentions_qemu() {
    let raw = "(qemu) help\r\nversion  -- show the version of QEMU\r\nQEMU\r\nmonitor QEMU\r\n";
    assert_eq!(clean_monitor_output(raw), "version  -- show the version of QEMU\nQEMU\nmonitor QEMU");
}

#[test]
fn backup_names_same_second_equal_next_second_differ() {
    let a = backup_file_name("vm1", &ts(5));
    let b = backup_file_name("vm1", &ts(5));
    let c = backup_file_name("vm1", &ts(6));
    assert_eq!(a, "vm1_20240102_030405.gz");
    assert_eq!(a, b);
    assert_ne!(a, c);
    let y = Timestamp { year: 987, month: 12, day: 31, hour: 23, minute: 59, second: 59 };
    assert_eq!(backup_file_name("v", &y), "v_09871231_235959.gz");
}

#[test]
fn backup_command_from_clock() {
    let c = backup_command(&paths(), "vm1").unwrap();
    assert!(c.starts_with("migrate \"exec: /usr/bin/gzip -c > /tmp/vmcontrol/backups/vm1_"));
    assert!(c.ends_with(".gz\""));
    assert_eq!(c.len(), "migrate \"exec: /usr/bin/gzip -c > /tmp/vmcontrol/backups/vm1_20240102_030405.gz\"".len());
}

#[test]
fn monitor_command_vocabulary() {
    let p = paths();
    let t = Some(ts(5));
    assert_eq!(monitor_command(&MonitorOp::Stop, &p, "vm1", &None).unwrap(), "quit");
    assert_eq!(monitor_command(&MonitorOp::Stop, &p, "vm1", &t).unwrap(), "quit");
    assert_eq!(monitor_command(&MonitorOp::Reset, &p, "vm1", &t).unwrap(), "system_reset");
    assert_eq!(monitor_command(&MonitorOp::Powerdown, &p, "vm1", &t).unwrap(), "system_powerdown");
    assert_eq!(monitor_command(&MonitorOp::UnmountMedia, &p, "vm1", &t).unwrap(), "eject ide0-cd0");
    assert_eq!(
        monitor_command(&MonitorOp::MountMedia { media: s("ubuntu.iso") }, &p, "vm1", &t).unwrap(),
        "change ide0-cd0 /tmp/vmcontrol/iso/ubuntu.iso"
    );
    assert!(matches!(
        monitor_command(&MonitorOp::MountMedia { media: s("a;quit") }, &p, "vm1", &t),
        Err(VmError::InvalidName(NameFault::BadChar(';')))
    ));
    assert_eq!(
        monitor_command(&MonitorOp::Migrate { target: s("10.40.1.32") }, &p, "vm1", &t).unwrap(),
        "migrate -d tcp:10.40.1.32:4444"
    );
    assert!(matches!(
        monitor_command(&MonitorOp::Migrate { target: s("host") }, &p, "vm1", &t),
        Err(VmError::InvalidAddress)
    ));
    assert_eq!(
        monitor_command(&MonitorOp::Backup, &p, "vm1", &t).unwrap(),
        "migrate \"exec: /usr/bin/gzip -c > /tmp/vmcontrol/backups/vm1_20240102_030405.gz\""
    );
}

#[test]
fn request_parsing() {
    let (v, op) = parse_monitor_request("stop", "vm1").unwrap();
    assert_eq!(v, "vm1");
    assert!(matches!(op, MonitorOp::Stop));
    let (v, op) = parse_monitor_request("mountiso", "vm1 disk one.iso").unwrap();
    assert_eq!(v, "vm1");
    match op {
        MonitorOp::MountMedia { media } => assert_eq!(media, "disk one.iso"),
        _ => panic!("wrong op"),
    }
    let (v, op) = parse_monitor_request("livemigrate", "vm1 10.0.0.2").unwrap();
    assert_eq!(v, "vm1");
    assert!(matches!(op, MonitorOp::Migrate { target } if target == "10.0.0.2"));
    assert!(matches!(parse_monitor_request("mountiso", "vm1"), Err(VmError::MissingArgument)));
    assert!(matches!(parse_monitor_request("explode", "vm1"), Err(VmError::UnknownOperation)));
    assert!(matches!(parse_monitor_request("backup", "vm1"), Ok((_, MonitorOp::Backup))));
}

#[test]
fn transcripts() {
    let out = monitor_transcript("vm1", "info status", &MonitorReply::Output(s("(qemu) info status\r\nVM status: running\r\n")));
    assert_eq!(out, "monitor(vm1) => info status\nVM status: running\nOK\n");
    let out = monitor_transcript("vm1", "quit", &MonitorReply::Output(s("(qemu) ")));
    assert_eq!(out, "monitor(vm1) => quit\nOK\n");
    let out = monitor_transcript("vm1", "quit", &MonitorReply::NoReply);
    assert_eq!(out, "monitor(vm1) => quit\nno response before timeout; the command may still take effect\n");
    let out = monitor_transcript("vm1", "quit", &MonitorReply::Unreachable(s("refused")));
    assert_eq!(out, "monitor(vm1) => quit\nError: refused\n");
}

#[test]
fn userdata_and_metadata() {
    let mut c = MdsConfig::default();
    let ud = generate_userdata(&c);
    assert!(ud.starts_with("#cloud-config\nssh_pwauth: true\n"));
    assert!(ud.contains("    root:changeme\n"));
    assert!(!ud.contains("ssh_authorized_keys"));
    assert!(ud.ends_with("  dsid_missing_source: off\n"));
    c.ssh_pubkey = s("ssh-ed25519 AAAA");
    c.userdata_extra = s("runcmd: []");
    let ud = generate_userdata(&c);
    assert!(ud.contains("ssh_authorized_keys:\n  - ssh-ed25519 AAAA\n"));
    assert!(ud.ends_with("dsid_missing_source: off\nruncmd: []\n"));
    let md = generate_meta_data(&c, "vm1");
    assert_eq!(
        md,
        "instance-id: i-0000000000000001\nlocal-hostname: vm-vm1\nami-id: ami-00000001\nlocal-ipv4: 10.0.0.1\npublic-keys:\n  - ssh-ed25519 AAAA\n"
    );
    assert_eq!(resolve_mac(None, &c), "52:54:00:00:00:01");
    assert_eq!(resolve_mac(Some(s("aa:bb")), &c), "aa:bb");
    assert_eq!(seed_image_path("/tmp/vmcontrol", "vm1"), "/tmp/vmcontrol/seed_vm1.iso");
}

#[test]
fn image_formats_by_extension() {
    assert_eq!(detect_image_format("Disk.VMDK"), Some("vmdk"));
    assert_eq!(detect_image_format("a.Img"), Some("raw"));
    assert_eq!(detect_image_format("a.qcow2"), Some("qcow2"));
    assert_eq!(detect_image_format("a.VHDX"), Some("vhdx"));
    assert_eq!(detect_image_format("a.vdi"), Some("vdi"));
    assert_eq!(detect_image_format("a.iso"), None);
    assert_eq!(detect_image_format_folded("a.raw"), Some("raw"));
    assert_eq!(detect_image_format_folded("a.RAW"), None);
}

#[test]
fn api_key_rules() {
    let open = ApiKeyAuth(s(""));
    assert!(open.allows("/api/vms", ""));
    let k = ApiKeyAuth(s("SECRET-REDACTED"));
    assert!(k.allows("/static/index.html", ""));
    assert!(k.allows("/2009-04-04/meta-data/", "wrong"));
    assert!(!k.allows("/api/vms", "wrong"));
    assert!(k.allows("/api/vms", "SECRET-REDACTED"));
}

#[test]
fn inventory_urls() {
    assert_eq!(ma_mode_url("localhost", "vm1", "1"), "https://localhost/api/v1.0/instances/vm1/update-ma-mode/1");
    assert_eq!(update_status_url("localhost", "vm1", "2"), "https://localhost/api/v1.0/instances/vm1/update-status/2");
}

#[test]
fn disk_sizes() {
    assert!(validate_disk_size("40G").is_ok());
    assert!(validate_disk_size("512M").is_ok());
    assert!(matches!(validate_disk_size("G"), Err(VmError::ConfigurationError(_))));
    assert!(matches!(validate_disk_size("40T"), Err(VmError::ConfigurationError(_))));
    assert!(matches!(validate_disk_size("4x0G"), Err(VmError::ConfigurationError(_))));
    assert!(matches!(validate_disk_size("99999999999999999999G"), Err(VmError::ConfigurationError(_))));
}

#[test]
fn cleaning_leaves_no_escape_sequence() {
    let raw = "QEMU 8.2.0 monitor - type 'help' for more information\r\n\x1b\x1b[0m[1mdone\r\n";
    let out = clean_monitor_output(raw);
    assert_eq!(out, "[1mdone");
    assert!(!out.contains('\x1b'));
    assert!(!out.contains('\r'));
}

#[test]
fn timestamps_from_clock_fields() {
    let t = timestamp_from(2024, 1, 2, 3, 4, 5).unwrap();
    assert_eq!(t, Timestamp { year: 2024, month: 1, day: 2, hour: 3, minute: 4, second: 5 });
    assert!(timestamp_from(-1, 1, 1, 0, 0, 0).is_none());
    assert!(timestamp_from(10000, 1, 1, 0, 0, 0).is_none());
    assert!(timestamp_from(9999, 12, 31, 23, 59, 59).is_some());
}
