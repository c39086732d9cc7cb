use vm_ctl::builder::{
    auto_disk_create_args, build_qemu_args, check_inputs, disk_create_args, disk_file_path,
    disk_resize_args, slirp_options, HostSettings, Platform,
};
use vm_ctl::error::{NameFault, VmError};
use vm_ctl::lifecycle::{check_startable, finish_start, finish_stop, LaunchProbe};
use vm_ctl::models::{
    default_arch, default_vnc_port, CpuInfo, DiskInfo, Features, MemoryInfo, NetworkAdapter,
    VmStartConfig,
};
use vm_ctl::store::{DiskRecord, RecordStore, VmRecord, VmStatus};

fn s(x: &str) -> String {
    x.to_string()
}

fn config(arch: &str, sockets: &str, cores: &str, threads: &str) -> VmStartConfig {
    VmStartConfig {
        cpu: CpuInfo { sockets: s(sockets), cores: s(cores), threads: s(threads) },
        memory: MemoryInfo { size: s("2048") },
        features: Features { is_windows: s("0"), arch: s(arch) },
        network_adapters: vec![NetworkAdapter { netid: s("0"), mac: s("52:54:c4:ca:42:38"), vlan: s("0") }],
        disks: vec![DiskInfo {
            diskid: s("0"),
            diskname: s("52-54-c4-ca-42-38"),
            iops_total: s("9600"),
            iops_total_max: s("11520"),
            iops_total_max_length: s("60"),
        }],
        vnc_port: 12003,
    }
}

fn unix_host() -> HostSettings {
    HostSettings {
        platform: Platform::UnixLike,
        pctl_path: s("/tmp/vmcontrol"),
        disk_path: s("/tmp/vmcontrol/disks"),
        qemu_machine: s("pc"),
        qemu_accel: s("kvm:tcg"),
        firmware_path: s("/fw/edk2-aarch64-code.fd"),
    }
}

fn arg_after(args: &[String], flag: &str) -> String {
    let i = args.iter().position(|a| a == flag).unwrap();
    args[i + 1].clone()
}

#[test]
fn full_argument_list_for_x86_guest() {
    let cfg = config("x86_64", "1", "2", "1");
    let seed = Some(s("/tmp/vmcontrol/seed_vm1.iso"));
    let args = build_qemu_args("vm1", &cfg, &unix_host(), "10.0.3.10", &seed, false).unwrap();
    let expected: Vec<&str> = vec![
        "-nodefaults", "-vga", "std", "-boot", "d",
        "-display", "vnc=127.0.0.1:3,websocket=12003",
        "-m", "2048M",
        "-drive", "file=/tmp/vmcontrol/disks/52-54-c4-ca-42-38.qcow2,format=qcow2,if=virtio,index=0,iops=9600,iops_max=11520,iops_max_length=60",
        "-netdev", "user,id=net0,net=10.0.3.0/24,host=10.0.3.1,dns=10.0.3.2,dhcpstart=10.0.3.10",
        "-device", "virtio-net-pci,netdev=net0,mac=52:54:c4:ca:42:38",
        "-machine", "type=pc,accel=kvm:tcg",
        "-smp", "2,sockets=1,cores=2,threads=1",
        "-drive", "if=ide,index=0,media=cdrom",
        "-drive", "file=/tmp/vmcontrol/seed_vm1.iso,if=ide,index=1,media=cdrom,readonly=on",
        "-smbios", "type=11,value=cloud-init:ds=nocloud",
        "-usb", "-device", "usb-tablet,bus=usb-bus.0,port=1",
        "-monitor", "unix:/tmp/vmcontrol/vm1,server,nowait",
    ];
    assert_eq!(args, expected);
}

#[test]
fn vcpu_total_is_product_of_topology() {
    let cfg = config("x86_64", "2", "4", "1");
    let args = build_qemu_args("vm1", &cfg, &unix_host(), "", &None, false).unwrap();
    assert_eq!(arg_after(&args, "-smp"), "8,sockets=2,cores=4,threads=1");
    let cfg = config("x86_64", "x", "3", "2");
    let args = build_qemu_args("vm1", &cfg, &unix_host(), "", &None, false).unwrap();
    assert_eq!(arg_after(&args, "-smp"), "6,sockets=1,cores=3,threads=2");
}

#[test]
fn vcpu_overflow_is_configuration_error() {
    let cfg = config("x86_64", "65536", "65536", "2");
    let r = build_qemu_args("vm1", &cfg, &unix_host(), "", &None, false);
    assert!(matches!(r, Err(VmError::ConfigurationError(_))));
}

#[test]
fn aarch64_without_firmware_fails() {
    let cfg = config("aarch64", "1", "1", "1");
    let r = build_qemu_args("vm1", &cfg, &unix_host(), "", &None, false);
    assert!(matches!(r, Err(VmError::ConfigurationError(_))));
}

#[test]
fn aarch64_with_firmware_uses_virt_devices() {
    let cfg = config("aarch64", "1", "1", "1");
    let seed = Some(s("/s.iso"));
    let args = build_qemu_args("vm1", &cfg, &unix_host(), "", &seed, true).unwrap();
    assert_eq!(&args[0..5], &["-nodefaults", "-boot", "d", "-bios", "/fw/edk2-aarch64-code.fd"]);
    assert_eq!(arg_after(&args, "-machine"), "type=virt,accel=kvm:tcg");
    assert!(args.contains(&s("virtio-blk-pci,drive=seed0")));
    assert!(!args.contains(&s("-smbios")));
    assert!(!args.contains(&s("if=ide,index=0,media=cdrom")));
}

#[test]
fn unsafe_input_rejected_before_any_argument() {
    let mut cfg = config("x86_64", "1", "1", "1");
    cfg.disks[0].diskname = s("../etc/passwd");
    let r = build_qemu_args("vm1", &cfg, &unix_host(), "", &None, false);
    assert!(matches!(r, Err(VmError::InvalidName(NameFault::DotDot))));
    cfg.disks[0].diskname = s("etc/passwd");
    let r = build_qemu_args("vm1", &cfg, &unix_host(), "", &None, false);
    assert!(matches!(r, Err(VmError::InvalidName(NameFault::BadChar('/')))));
    let cfg = config("x86_64", "1", "1", "1");
    let r = build_qemu_args("vm 1", &cfg, &unix_host(), "", &None, false);
    assert!(matches!(r, Err(VmError::InvalidName(NameFault::BadChar(' ')))));
    let mut cfg = config("x86_64", "1", "1", "1");
    cfg.network_adapters[0].mac = s("52:54,id=x");
    assert!(matches!(check_inputs("vm1", &cfg), Err(VmError::InvalidName(NameFault::BadChar(',')))));
}

#[test]
fn console_port_range_checked() {
    let mut cfg = config("x86_64", "1", "1", "1");
    cfg.vnc_port = 12000;
    assert!(matches!(build_qemu_args("vm1", &cfg, &unix_host(), "", &None, false), Err(VmError::ConfigurationError(_))));
    cfg.vnc_port = 13001;
    assert!(matches!(build_qemu_args("vm1", &cfg, &unix_host(), "", &None, false), Err(VmError::ConfigurationError(_))));
    cfg.vnc_port = 13000;
    assert!(build_qemu_args("vm1", &cfg, &unix_host(), "", &None, false).is_ok());
}

#[test]
fn windows_host_uses_tcp_transport() {
    let mut host = unix_host();
    host.platform = Platform::Windows { vnc_port: 5902, monitor_port: 55555 };
    host.disk_path = s("C:\\vmcontrol\\disks");
    let mut cfg = config("x86_64", "1", "1", "1");
    cfg.features.is_windows = s("1");
    let args = build_qemu_args("vm1", &cfg, &host, "", &None, false).unwrap();
    assert_eq!(args[5], "-localtime");
    assert_eq!(arg_after(&args, "-display"), "vnc=0.0.0.0:2");
    assert_eq!(arg_after(&args, "-monitor"), "tcp:127.0.0.1:55555,server,nowait");
    assert!(args.contains(&s("-no-shutdown")));
    assert!(arg_after(&args, "-drive").starts_with("file=C:\\vmcontrol\\disks\\52-54-c4-ca-42-38.qcow2,"));
}

#[test]
fn missing_disk_created_at_attached_path() {
    let cfg = config("x86_64", "1", "1", "1");
    let host = unix_host();
    let file = disk_file_path(&host, &cfg.disks[0].diskname);
    assert_eq!(file, "/tmp/vmcontrol/disks/52-54-c4-ca-42-38.qcow2");
    assert_eq!(auto_disk_create_args(&file), vec!["create", "-f", "qcow2", file.as_str(), "10G"]);
    let args = build_qemu_args("vm1", &cfg, &host, "", &None, false).unwrap();
    assert!(arg_after(&args, "-drive").starts_with(&format!("file={},", file)));
    assert_eq!(disk_create_args("/d/x.qcow2", "40G"), vec!["create", "-f", "qcow2", "/d/x.qcow2", "40G"]);
    assert_eq!(disk_resize_args("/d/x.qcow2", "80G"), vec!["resize", "-f", "qcow2", "/d/x.qcow2", "80G"]);
}

#[test]
fn user_network_derivation() {
    assert_eq!(slirp_options("10.0.5.10"), ",net=10.0.5.0/24,host=10.0.5.1,dns=10.0.5.2,dhcpstart=10.0.5.10");
    assert_eq!(slirp_options("10.0.5.2"), ",net=10.0.5.0/24,host=10.0.5.1,dns=10.0.5.2,dhcpstart=10.0.5.10");
    assert_eq!(slirp_options("10.0.5.0"), ",net=10.0.5.0/24,host=10.0.5.1,dns=10.0.5.2,dhcpstart=10.0.5.10");
    assert_eq!(slirp_options("10.0.5.x"), ",net=10.0.5.0/24,host=10.0.5.1,dns=10.0.5.2,dhcpstart=10.0.5.x");
    assert_eq!(slirp_options(""), "");
    assert_eq!(slirp_options("10.0.5"), "");
}

#[test]
fn model_defaults() {
    assert_eq!(default_vnc_port(), 12001);
    assert_eq!(default_arch(), "x86_64");
}

fn vm(id: &str, status: VmStatus) -> VmRecord {
    VmRecord { smac: s(id), mac: s(""), disk_size: s(""), config: s("{}"), status, created_at: s("") }
}

fn status_of(store: &RecordStore, id: &str) -> VmStatus {
    store.vms.iter().find(|v| v.smac == id).unwrap().status
}

#[test]
fn crash_in_grace_window_leaves_vm_stopped() {
    let mut store = RecordStore::new();
    store.insert_vm(vm("vm1", VmStatus::Stopped)).unwrap();
    check_startable(&store, "vm1").unwrap();
    let r = finish_start(&mut store, "vm1", LaunchProbe::Exited { exit_code: Some(1), log: s("bad drive"), log_path: s("/l/q.log") });
    match r {
        Err(VmError::ProcessCrashed { exit_code, log_tail, log_path }) => {
            assert_eq!(log_path, "/l/q.log");
            assert_eq!(exit_code, Some(1));
            assert_eq!(log_tail, "bad drive");
        }
        other => panic!("unexpected {:?}", other),
    }
    assert_eq!(status_of(&store, "vm1"), VmStatus::Stopped);
}

#[test]
fn surviving_process_leaves_vm_running() {
    let mut store = RecordStore::new();
    store.insert_vm(vm("vm1", VmStatus::Stopped)).unwrap();
    store.insert_vm(vm("vm2", VmStatus::Stopped)).unwrap();
    let out = finish_start(&mut store, "vm1", LaunchProbe::Alive { pid: 4242, log_path: s("/l/q.log") }).unwrap();
    assert_eq!(out, "QEMU started (PID 4242)\nQEMU log: /l/q.log\n");
    assert_eq!(status_of(&store, "vm1"), VmStatus::Running);
    assert_eq!(status_of(&store, "vm2"), VmStatus::Stopped);
    assert!(matches!(check_startable(&store, "vm1"), Err(VmError::Conflict)));
    assert!(matches!(check_startable(&store, "nope"), Err(VmError::NotFound)));
    finish_stop(&mut store, "vm1").unwrap();
    assert_eq!(status_of(&store, "vm1"), VmStatus::Stopped);
    assert_eq!(VmStatus::Running.as_text(), "running");
}

fn disk(name: &str, owner: &str) -> DiskRecord {
    DiskRecord { name: s(name), size: s("40G"), owner: s(owner), created_at: s("") }
}

#[test]
fn delete_releases_both_disks_then_reports_not_found() {
    let mut store = RecordStore::new();
    store.insert_vm(vm("vm1", VmStatus::Running)).unwrap();
    store.insert_vm(vm("vm2", VmStatus::Stopped)).unwrap();
    store.disks.push(disk("d1", ""));
    store.disks.push(disk("d2", ""));
    store.disks.push(disk("d3", ""));
    store.set_disk_owner("d1", "vm1").unwrap();
    store.set_disk_owner("d2", "vm1").unwrap();
    store.set_disk_owner("d3", "vm2").unwrap();
    assert!(matches!(store.set_disk_owner("d9", "vm1"), Err(VmError::NotFound)));
    store.delete_vm("vm1").unwrap();
    assert_eq!(store.disks[0].owner, "");
    assert_eq!(store.disks[1].owner, "");
    assert_eq!(store.disks[2].owner, "vm2");
    assert_eq!(store.vms.len(), 1);
    assert!(matches!(store.delete_vm("vm1"), Err(VmError::NotFound)));
    assert!(matches!(store.insert_vm(vm("vm2", VmStatus::Stopped)), Err(VmError::Conflict)));
}

#[test]
fn listings_are_newest_first() {
    let mut store = RecordStore::new();
    store.insert_vm(vm("a", VmStatus::Stopped)).unwrap();
    store.insert_vm(vm("b", VmStatus::Stopped)).unwrap();
    store.disks.push(disk("d1", ""));
    store.disks.push(disk("d2", ""));
    let names: Vec<&str> = vm_ctl::store::list_vms(&store).iter().map(|v| v.smac.as_str()).collect();
    assert_eq!(names, vec!["b", "a"]);
    let disks: Vec<&str> = vm_ctl::store::list_disks(&store).iter().map(|d| d.name.as_str()).collect();
    assert_eq!(disks, vec!["d2", "d1"]);
}
