use vm_ctl::api::{disk_size_label, root_password_update, trim_all, unregistered_disk_names, upload_file_name};
use vm_ctl::control::backup_listing;
use vm_ctl::error::VmError;
use vm_ctl::lifecycle::{status_after_launch_of, LaunchProbe};
use vm_ctl::resources::{allocation_step, backfill_vnc_ports, give_up_error, AllocationStep};
use vm_ctl::seed::{device_number, macs_listing, metadata_hostname};
use vm_ctl::settings::{conf_value, defaults, settings_from, HostKind};
use vm_ctl::store::{DiskRecord, RecordStore, VmStatus};

fn s(x: &str) -> String {
    x.to_string()
}

#[test]
fn backup_listing_reads_names_back() {
    let (vm, t) = backup_listing("vm_1_20240102_030405.gz").unwrap();
    assert_eq!(vm, "vm_1");
    assert_eq!(t, "2024-01-02 03:04:05");
    let (vm, t) = backup_listing("old-backup.gz").unwrap();
    assert_eq!((vm.as_str(), t.as_str()), ("old-backup", ""));
    let (vm, t) = backup_listing("a_b_c.gz.gz").unwrap();
    assert_eq!((vm.as_str(), t.as_str()), ("a_b_c", ""));
    assert!(backup_listing("notes.txt").is_none());
}

#[test]
fn upload_names_are_filtered() {
    assert_eq!(upload_file_name("my disk (1).iso"), "mydisk1.iso");
    assert_eq!(upload_file_name("../x.img"), "..x.img");
    assert_eq!(upload_file_name("ünï.iso"), "ünï.iso");
}

#[test]
fn root_password_rules() {
    assert_eq!(root_password_update("", "oldpass").unwrap(), "oldpass");
    assert_eq!(root_password_update("secret1", "oldpass").unwrap(), "secret1");
    assert!(matches!(root_password_update("abc", "oldpass"), Err(VmError::ConfigurationError(_))));
    assert_eq!(root_password_update("ééé", "x").unwrap(), "ééé");
}

#[test]
fn port_backfill_hands_out_in_turn() {
    assert_eq!(backfill_vnc_ports(&vec![12001, 12005], 3).unwrap(), vec![12003, 12007, 12009]);
    assert_eq!(backfill_vnc_ports(&vec![], 0).unwrap(), Vec::<u16>::new());
    assert!(matches!(backfill_vnc_ports(&vec![], 501), Err(VmError::ResourceExhausted)));
    assert_eq!(backfill_vnc_ports(&vec![], 500).unwrap().len(), 500);
    assert!(matches!(backfill_vnc_ports(&vec![12001], 500), Err(VmError::ResourceExhausted)));
    assert_eq!(backfill_vnc_ports(&vec![12001, 12002], 499).unwrap().last(), Some(&12999));
}

#[test]
fn owned_disks_cannot_be_deleted() {
    let mut store = RecordStore::new();
    store.disks.push(DiskRecord { name: s("d1"), size: s("40G"), owner: s("vm1"), created_at: s("") });
    store.disks.push(DiskRecord { name: s("d2"), size: s("40G"), owner: s(""), created_at: s("") });
    assert!(matches!(store.check_disk_deletable("d1"), Err(VmError::Conflict)));
    assert!(store.check_disk_deletable("d2").is_ok());
    assert!(store.check_disk_deletable("d3").is_ok());
}

#[test]
fn disk_directory_sync() {
    let files = vec![s("a.qcow2"), s("b.qcow2"), s("c.iso"), s(".qcow2"), s("d.qcow2.qcow2")];
    let known = vec![s("b")];
    assert_eq!(unregistered_disk_names(&files, &known), vec!["a", "d"]);
    assert_eq!(trim_all("x.gz.gz", ".gz"), "x");
}

#[test]
fn clone_size_labels() {
    assert_eq!(disk_size_label(0), "0M");
    assert_eq!(disk_size_label(512 * 1024 * 1024), "512M");
    assert_eq!(disk_size_label(40 * 1024 * 1024 * 1024), "40G");
}

#[test]
fn metadata_answers() {
    assert_eq!(metadata_hostname("vm", "10.0.3.10"), "vm-10.local");
    assert_eq!(metadata_hostname("vm", "localhost"), "vm-localhost.local");
    assert_eq!(macs_listing("52:54:00:00:00:01"), "52:54:00:00:00:01/\n52:54:c4:ca:f1:01/");
    assert_eq!(device_number("aa", "aa"), "0");
    assert_eq!(device_number("aa", "bb"), "1");
}

#[test]
fn launch_status_from_probe() {
    assert_eq!(status_after_launch_of(&LaunchProbe::Exited { exit_code: None, log: s(""), log_path: s("") }), VmStatus::Stopped);
    assert_eq!(status_after_launch_of(&LaunchProbe::Alive { pid: 1, log_path: s("") }), VmStatus::Running);
    assert_eq!(status_after_launch_of(&LaunchProbe::Unchecked { pid: 1, note: s("") }), VmStatus::Running);
}

#[test]
fn host_settings_defaults_and_overrides() {
    let linux = defaults(HostKind::Linux);
    assert_eq!(conf_value(&linux, "qemu_path"), "/usr/bin/qemu-system-x86_64");
    assert_eq!(conf_value(&linux, "qemu_accel"), "kvm:tcg");
    assert_eq!(conf_value(&linux, "no_such_key"), "");
    let mac = defaults(HostKind::MacOs);
    assert_eq!(conf_value(&mac, "qemu_accel"), "hvf:tcg");
    let win = defaults(HostKind::Windows);
    assert_eq!(conf_value(&win, "pctl_path"), r"C:\vmcontrol");
    assert_eq!(conf_value(&win, "python_path"), "python3");
    let (merged, bad) = settings_from(HostKind::Linux, Some("qemu_path: /opt/q\nextra_key: hello\n"));
    assert!(!bad);
    assert_eq!(conf_value(&merged, "qemu_path"), "/opt/q");
    assert_eq!(conf_value(&merged, "extra_key"), "hello");
    assert_eq!(conf_value(&merged, "domain"), "localhost");
    let (kept, bad) = settings_from(HostKind::Linux, Some("- not\n- a mapping\n"));
    assert!(bad);
    assert_eq!(conf_value(&kept, "qemu_path"), "/usr/bin/qemu-system-x86_64");
    let (plain, bad) = settings_from(HostKind::MacOs, None);
    assert!(!bad);
    assert_eq!(plain.len(), mac.len());
}

fn rec(id: &str) -> vm_ctl::store::VmRecord {
    vm_ctl::store::VmRecord { smac: s(id), mac: s(""), disk_size: s(""), config: s("{}"), status: VmStatus::Stopped, created_at: s("") }
}

#[test]
fn create_and_update_claim_disks() {
    let mut store = RecordStore::new();
    for d in ["d1", "d2", "d3"] {
        store.disks.push(DiskRecord { name: s(d), size: s("40G"), owner: s(""), created_at: s("") });
    }
    store.create_vm(rec("vm1"), &vec![s("d1"), s("d2")]).unwrap();
    assert_eq!(store.disks[0].owner, "vm1");
    assert_eq!(store.disks[1].owner, "vm1");
    assert!(matches!(store.create_vm(rec("vm2"), &vec![s("d2")]), Err(VmError::Conflict)));
    assert_eq!(store.vms.len(), 1);
    assert!(matches!(store.create_vm(rec("vm1"), &vec![]), Err(VmError::Conflict)));
    store.create_vm(rec("vm2"), &vec![s("d3")]).unwrap();
    store.update_vm_config("vm1", s("{\"x\":1}"), &vec![s("d2")]).unwrap();
    assert_eq!(store.disks[0].owner, "");
    assert_eq!(store.disks[1].owner, "vm1");
    assert_eq!(store.vms[0].config, "{\"x\":1}");
    assert!(matches!(store.update_vm_config("vm1", s("{}"), &vec![s("d3")]), Err(VmError::Conflict)));
    assert!(matches!(store.update_vm_config("nope", s("{}"), &vec![]), Err(VmError::NotFound)));
    assert!(store.check_disks_free("vm2", &vec![s("d3")]).is_ok());
}

#[test]
fn stop_records_stopped() {
    let mut store = RecordStore::new();
    let mut r = rec("vm1");
    r.status = VmStatus::Running;
    store.insert_vm(r).unwrap();
    vm_ctl::lifecycle::finish_stop(&mut store, "vm1").unwrap();
    assert_eq!(store.vms[0].status, VmStatus::Stopped);
    assert!(matches!(vm_ctl::lifecycle::finish_stop(&mut store, "vm9"), Err(VmError::NotFound)));
}

#[test]
fn write_time_recheck() {
    let ports = vec![12001];
    let ips = vec![s("10.0.1.10")];
    assert!(vm_ctl::resources::still_free(Some(12003), Some(&s("10.0.2.10")), &ports, &ips));
    assert!(!vm_ctl::resources::still_free(Some(12001), None, &ports, &ips));
    assert!(!vm_ctl::resources::still_free(None, Some(&s("10.0.1.10")), &ports, &ips));
    assert!(vm_ctl::resources::still_free(None, None, &ports, &ips));
    assert!(vm_ctl::resources::guest_address_needed(&None));
    assert!(vm_ctl::resources::guest_address_needed(&Some(s("10.0.0.1"))));
    assert!(!vm_ctl::resources::guest_address_needed(&Some(s("10.0.4.10"))));
}

#[test]
fn allocation_race_steps() {
    assert_eq!(allocation_step(0, true), AllocationStep::Accept);
    assert_eq!(allocation_step(0, false), AllocationStep::Retry);
    assert_eq!(allocation_step(1, false), AllocationStep::Retry);
    assert_eq!(allocation_step(2, false), AllocationStep::GiveUp);
    assert_eq!(allocation_step(2, true), AllocationStep::Accept);
    assert!(matches!(give_up_error(), VmError::ResourceExhausted));
}
