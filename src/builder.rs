use vstd::prelude::*;
use vstd::string::*;

use crate::error::{ConfigFault, NameFault, VmError};
use crate::models::{CpuInfo, DiskInfo, NetworkAdapter, VmStartConfig};
use crate::names::{
    dot_fields, name_fault, parse_unsigned, parsed_unsigned,
    sanitize_name, split_dots, string_views,
};
use crate::text::{decimal, decimal_text, same_text};

verus! {

/// How the hypervisor is reached on this host.
pub enum Platform {
    /// Unix-like hosts: the console is a websocket on the VM's own console port and the
    /// control socket is a domain socket under the runtime directory.
    UnixLike,
    /// Hosts without domain sockets: console and control socket listen on loopback TCP
    /// ports that were found free just before launch.
    Windows { vnc_port: u16, monitor_port: u16 },
}

/// The host-side settings that a launch depends on.
pub struct HostSettings {
    pub platform: Platform,
    /// Runtime directory: control sockets, seed images, logs.
    pub pctl_path: String,
    /// Directory of the disk images.
    pub disk_path: String,
    pub qemu_machine: String,
    pub qemu_accel: String,
    /// UEFI firmware image that a foreign (aarch64) guest boots from.
    pub firmware_path: String,
}

pub open spec fn path_sep(host: HostSettings) -> Seq<char> {
    if host.platform is Windows {
        "\\"@
    } else {
        "/"@
    }
}

/// The backing file of the disk called `name`.
pub open spec fn disk_file_text(host: HostSettings, name: Seq<char>) -> Seq<char> {
    host.disk_path@ + path_sep(host) + name + ".qcow2"@
}

pub open spec fn wants_aarch64(cfg: VmStartConfig) -> bool {
    cfg.features.arch@ == "aarch64"@
}

pub open spec fn optional(v: Seq<char>) -> Seq<Seq<char>> {
    if v.len() == 0 {
        seq![]
    } else {
        seq![v]
    }
}

/// The user-supplied values of a disk that end up in an argument.
pub open spec fn disk_inputs(d: DiskInfo) -> Seq<Seq<char>> {
    seq![d.diskid@, d.diskname@] + optional(d.iops_total@) + optional(d.iops_total_max@) + optional(
        d.iops_total_max_length@,
    )
}

pub open spec fn disks_inputs(ds: Seq<DiskInfo>) -> Seq<Seq<char>>
    decreases ds.len(),
{
    if ds.len() == 0 {
        seq![]
    } else {
        disks_inputs(ds.drop_last()) + disk_inputs(ds.last())
    }
}

pub open spec fn nics_inputs(ns: Seq<NetworkAdapter>) -> Seq<Seq<char>>
    decreases ns.len(),
{
    if ns.len() == 0 {
        seq![]
    } else {
        nics_inputs(ns.drop_last()) + seq![ns.last().netid@, ns.last().mac@]
    }
}

/// Every user-supplied value that the argument list embeds, in the order they are checked.
pub open spec fn user_inputs(vm_id: Seq<char>, cfg: VmStartConfig) -> Seq<Seq<char>> {
    seq![vm_id, cfg.memory.size@] + disks_inputs(cfg.disks@) + nics_inputs(cfg.network_adapters@)
}

/// The fault of the first value of `v` that fails sanitization.
pub open spec fn first_fault(v: Seq<Seq<char>>) -> Option<NameFault>
    decreases v.len(),
{
    if v.len() == 0 {
        None
    } else if name_fault(v[0]) is Some {
        name_fault(v[0])
    } else {
        first_fault(v.drop_first())
    }
}

/// A CPU count as the hypervisor gets it: the number, or 1 when the text is not one.
pub open spec fn cpu_count(s: Seq<char>) -> nat {
    match parsed_unsigned(s, u32::MAX as nat) {
        Some(v) => v,
        None => 1,
    }
}

/// Total vCPUs: sockets times cores times threads.
pub open spec fn vcpu_total(cpu: CpuInfo) -> nat {
    cpu_count(cpu.sockets@) * cpu_count(cpu.cores@) * cpu_count(cpu.threads@)
}

pub open spec fn console_port_ok(cfg: VmStartConfig, host: HostSettings) -> bool {
    match host.platform {
        Platform::UnixLike => 12000 < cfg.vnc_port <= 13000,
        Platform::Windows { vnc_port, .. } => vnc_port >= 5900,
    }
}

/// Why a launch cannot be assembled, checked in this order; `None` when it can.
pub open spec fn build_fault(
    vm_id: Seq<char>,
    cfg: VmStartConfig,
    host: HostSettings,
    firmware_present: bool,
) -> Option<VmError> {
    if first_fault(user_inputs(vm_id, cfg)) is Some {
        Some(VmError::InvalidName(first_fault(user_inputs(vm_id, cfg))->Some_0))
    } else if wants_aarch64(cfg) && !firmware_present {
        Some(VmError::ConfigurationError(ConfigFault::MissingFirmware))
    } else if !console_port_ok(cfg, host) {
        Some(VmError::ConfigurationError(ConfigFault::ConsolePortOutOfRange))
    } else if vcpu_total(cfg.cpu) > u32::MAX {
        Some(VmError::ConfigurationError(ConfigFault::TooManyVcpus))
    } else {
        None
    }
}

pub open spec fn boot_args(aarch64: bool, firmware: Seq<char>) -> Seq<Seq<char>> {
    if aarch64 {
        seq![
            "-nodefaults"@,
            "-boot"@,
            "d"@,
            "-bios"@,
            firmware,
            "-cpu"@,
            "max"@,
            "-device"@,
            "virtio-gpu-pci"@,
            "-device"@,
            "qemu-xhci"@,
            "-device"@,
            "usb-kbd"@,
            "-device"@,
            "usb-tablet"@,
        ]
    } else {
        seq!["-nodefaults"@, "-vga"@, "std"@, "-boot"@, "d"@]
    }
}

pub open spec fn localtime_args(cfg: VmStartConfig) -> Seq<Seq<char>> {
    if cfg.features.is_windows@ == "1"@ {
        seq!["-localtime"@]
    } else {
        seq![]
    }
}

pub open spec fn display_args(cfg: VmStartConfig, host: HostSettings) -> Seq<Seq<char>> {
    match host.platform {
        Platform::UnixLike => seq![
            "-display"@,
            "vnc=127.0.0.1:"@ + decimal_text((cfg.vnc_port - 12000) as nat) + ",websocket="@
                + decimal_text(cfg.vnc_port as nat),
        ],
        Platform::Windows { vnc_port, .. } => seq![
            "-display"@,
            "vnc=0.0.0.0:"@ + decimal_text((vnc_port - 5900) as nat),
        ],
    }
}

pub open spec fn memory_args(cfg: VmStartConfig) -> Seq<Seq<char>> {
    seq!["-m"@, cfg.memory.size@ + "M"@]
}

pub open spec fn throttle_opt(key: Seq<char>, v: Seq<char>) -> Seq<char> {
    if v.len() == 0 {
        seq![]
    } else {
        key + v
    }
}

pub open spec fn drive_text(host: HostSettings, d: DiskInfo) -> Seq<char> {
    "file="@ + disk_file_text(host, d.diskname@) + ",format=qcow2,if=virtio,index="@ + d.diskid@
        + throttle_opt(",iops="@, d.iops_total@) + throttle_opt(",iops_max="@, d.iops_total_max@)
        + throttle_opt(",iops_max_length="@, d.iops_total_max_length@)
}

pub open spec fn disks_args(host: HostSettings, ds: Seq<DiskInfo>) -> Seq<Seq<char>>
    decreases ds.len(),
{
    if ds.len() == 0 {
        seq![]
    } else {
        disks_args(host, ds.drop_last()) + seq!["-drive"@, drive_text(host, ds.last())]
    }
}

/// The first three fields of a dotted address, joined by dots.
pub open spec fn subnet_prefix(f: Seq<Seq<char>>) -> Seq<char> {
    f[0] + "."@ + f[1] + "."@ + f[2]
}

/// The DHCP start address: the guest address itself, or `.10` of its subnet when its last
/// octet is 2 or less and would clash with the gateway (`.1`) or the DNS server (`.2`).
pub open spec fn dhcp_start_text(ip: Seq<char>) -> Seq<char> {
    let f = dot_fields(ip);
    let last = match parsed_unsigned(f[3], 255) {
        Some(v) => v,
        None => 10,
    };
    if last <= 2 {
        subnet_prefix(f) + ".10"@
    } else {
        ip
    }
}

/// The user-network options derived from the guest address: network, gateway, DNS and
/// DHCP start; nothing when the address is not four dotted fields.
pub open spec fn slirp_text(ip: Seq<char>) -> Seq<char> {
    let f = dot_fields(ip);
    if f.len() != 4 {
        seq![]
    } else {
        ",net="@ + subnet_prefix(f) + ".0/24"@ + ",host="@ + subnet_prefix(f) + ".1"@ + ",dns="@
            + subnet_prefix(f) + ".2"@ + ",dhcpstart="@ + dhcp_start_text(ip)
    }
}

pub open spec fn nic_args(n: NetworkAdapter, slirp: Seq<char>) -> Seq<Seq<char>> {
    seq![
        "-netdev"@,
        "user,id=net"@ + n.netid@ + slirp,
        "-device"@,
        "virtio-net-pci,netdev=net"@ + n.netid@ + ",mac="@ + n.mac@,
    ]
}

pub open spec fn nics_args(ns: Seq<NetworkAdapter>, slirp: Seq<char>) -> Seq<Seq<char>>
    decreases ns.len(),
{
    if ns.len() == 0 {
        seq![]
    } else {
        nics_args(ns.drop_last(), slirp) + nic_args(ns.last(), slirp)
    }
}

pub open spec fn machine_args(cfg: VmStartConfig, host: HostSettings) -> Seq<Seq<char>> {
    let machine = if wants_aarch64(cfg) {
        "virt"@
    } else {
        host.qemu_machine@
    };
    seq!["-machine"@, "type="@ + machine + ",accel="@ + host.qemu_accel@] + if host.platform is Windows {
        seq!["-no-shutdown"@]
    } else {
        seq![]
    }
}

pub open spec fn smp_args(cpu: CpuInfo) -> Seq<Seq<char>> {
    seq![
        "-smp"@,
        decimal_text(vcpu_total(cpu)) + ",sockets="@ + decimal_text(cpu_count(cpu.sockets@))
            + ",cores="@ + decimal_text(cpu_count(cpu.cores@)) + ",threads="@ + decimal_text(
            cpu_count(cpu.threads@),
        ),
    ]
}

pub open spec fn cdrom_args(aarch64: bool) -> Seq<Seq<char>> {
    if aarch64 {
        seq![]
    } else {
        seq!["-drive"@, "if=ide,index=0,media=cdrom"@]
    }
}

pub open spec fn seed_args(aarch64: bool, seed: Option<Seq<char>>) -> Seq<Seq<char>> {
    match seed {
        None => seq![],
        Some(p) => if aarch64 {
            seq![
                "-drive"@,
                "file="@ + p + ",if=none,id=seed0,media=cdrom,readonly=on"@,
                "-device"@,
                "virtio-blk-pci,drive=seed0"@,
            ]
        } else {
            seq!["-drive"@, "file="@ + p + ",if=ide,index=1,media=cdrom,readonly=on"@]
        },
    }
}

pub open spec fn legacy_args(aarch64: bool) -> Seq<Seq<char>> {
    if aarch64 {
        seq![]
    } else {
        seq![
            "-smbios"@,
            "type=11,value=cloud-init:ds=nocloud"@,
            "-usb"@,
            "-device"@,
            "usb-tablet,bus=usb-bus.0,port=1"@,
        ]
    }
}

pub open spec fn monitor_args(vm_id: Seq<char>, host: HostSettings) -> Seq<Seq<char>> {
    match host.platform {
        Platform::UnixLike => seq![
            "-monitor"@,
            "unix:"@ + host.pctl_path@ + "/"@ + vm_id + ",server,nowait"@,
        ],
        Platform::Windows { monitor_port, .. } => seq![
            "-monitor"@,
            "tcp:127.0.0.1:"@ + decimal_text(monitor_port as nat) + ",server,nowait"@,
        ],
    }
}

pub open spec fn opt_view(o: Option<String>) -> Option<Seq<char>> {
    match o {
        Some(s) => Some(s@),
        None => None,
    }
}

/// The hypervisor's argument list, in its fixed order.
pub open spec fn qemu_args(
    vm_id: Seq<char>,
    cfg: VmStartConfig,
    host: HostSettings,
    ip: Seq<char>,
    seed: Option<Seq<char>>,
) -> Seq<Seq<char>> {
    let a = wants_aarch64(cfg);
    boot_args(a, host.firmware_path@) + localtime_args(cfg) + display_args(cfg, host)
        + memory_args(cfg) + disks_args(host, cfg.disks@) + nics_args(
        cfg.network_adapters@,
        slirp_text(ip),
    ) + machine_args(cfg, host) + smp_args(cfg.cpu) + cdrom_args(a) + seed_args(a, seed)
        + legacy_args(a) + monitor_args(vm_id, host)
}

fn lit(s: &str) -> (r: String)
    ensures
        r@ == s@,
{
    String::from_str(s)
}

fn push_text(args: &mut Vec<String>, s: String)
    ensures
        string_views(final(args)@) == string_views(old(args)@).push(s@),
{
    let ghost sv = s@;
    args.push(s);
    assert(string_views(args@) =~= string_views(old(args)@).push(sv));
}

fn push_optional(args: &mut Vec<String>, s: &String)
    ensures
        string_views(final(args)@) == string_views(old(args)@) + optional(s@),
{
    if s.as_str().unicode_len() > 0 {
        push_text(args, s.clone());
        assert(string_views(args@) =~= string_views(old(args)@) + optional(s@));
    } else {
        assert(string_views(args@) =~= string_views(old(args)@) + optional(s@));
    }
}

/// Gathers every user-supplied value that the argument list would embed.
fn collect_inputs(vm_id: &str, cfg: &VmStartConfig) -> (r: Vec<String>)
    ensures
        string_views(r@) == user_inputs(vm_id@, *cfg),
{
    let mut v: Vec<String> = Vec::new();
    push_text(&mut v, lit(vm_id));
    push_text(&mut v, cfg.memory.size.clone());
    let ghost head = seq![vm_id@, cfg.memory.size@];
    assert(string_views(v@) =~= head + disks_inputs(cfg.disks@.take(0)));
    let mut i: usize = 0;
    while i < cfg.disks.len()
        invariant
            i <= cfg.disks@.len(),
            head == seq![vm_id@, cfg.memory.size@],
            string_views(v@) == head + disks_inputs(cfg.disks@.take(i as int)),
        decreases cfg.disks@.len() - i,
    {
        let d = &cfg.disks[i];
        push_text(&mut v, d.diskid.clone());
        push_text(&mut v, d.diskname.clone());
        push_optional(&mut v, &d.iops_total);
        push_optional(&mut v, &d.iops_total_max);
        push_optional(&mut v, &d.iops_total_max_length);
        assert(cfg.disks@.take(i + 1).drop_last() =~= cfg.disks@.take(i as int));
        assert(string_views(v@) =~= head + disks_inputs(cfg.disks@.take(i + 1)));
        i += 1;
    }
    assert(cfg.disks@.take(i as int) =~= cfg.disks@);
    let ghost mid = head + disks_inputs(cfg.disks@);
    assert(string_views(v@) =~= mid + nics_inputs(cfg.network_adapters@.take(0)));
    let mut j: usize = 0;
    while j < cfg.network_adapters.len()
        invariant
            j <= cfg.network_adapters@.len(),
            string_views(v@) == mid + nics_inputs(cfg.network_adapters@.take(j as int)),
        decreases cfg.network_adapters@.len() - j,
    {
        let n = &cfg.network_adapters[j];
        push_text(&mut v, n.netid.clone());
        push_text(&mut v, n.mac.clone());
        assert(cfg.network_adapters@.take(j + 1).drop_last() =~= cfg.network_adapters@.take(
            j as int,
        ));
        assert(string_views(v@) =~= mid + nics_inputs(cfg.network_adapters@.take(j + 1)));
        j += 1;
    }
    assert(cfg.network_adapters@.take(j as int) =~= cfg.network_adapters@);
    assert(string_views(v@) =~= user_inputs(vm_id@, *cfg));
    v
}

/// Runs every user-supplied value of a launch through `sanitize_name`, stopping at the first
/// that fails.
pub fn check_inputs(vm_id: &str, cfg: &VmStartConfig) -> (r: Result<(), VmError>)
    ensures
        match first_fault(user_inputs(vm_id@, *cfg)) {
            Some(f) => r matches Err(e) && e == VmError::InvalidName(f),
            None => r is Ok,
        },
{
    let inputs = collect_inputs(vm_id, cfg);
    let ghost all = string_views(inputs@);
    let n = inputs.len();
    assert(all.subrange(0, n as int) =~= all);
    let mut i: usize = 0;
    while i < n
        invariant
            i <= n,
            n == inputs@.len(),
            all == string_views(inputs@),
            all == user_inputs(vm_id@, *cfg),
            first_fault(all) == first_fault(all.subrange(i as int, n as int)),
        decreases n - i,
    {
        assert(all.subrange(i as int, n as int).drop_first() =~= all.subrange(i + 1, n as int));
        assert(all.subrange(i as int, n as int)[0] == inputs@[i as int]@);
        match sanitize_name(inputs[i].as_str()) {
            Err(e) => {
                return Err(e);
            },
            Ok(_) => {},
        }
        i += 1;
    }
    assert(all.subrange(n as int, n as int) =~= Seq::<Seq<char>>::empty());
    Ok(())
}

fn cpu_count_of(s: &String) -> (r: u32)
    ensures
        r as nat == cpu_count(s@),
{
    match parse_unsigned(s.as_str(), 0xffff_ffff) {
        Some(v) => v as u32,
        None => 1,
    }
}

fn push_boot_args(args: &mut Vec<String>, aarch64: bool, firmware: &String)
    ensures
        string_views(final(args)@) == string_views(old(args)@) + boot_args(aarch64, firmware@),
{
    push_text(args, lit("-nodefaults"));
    if aarch64 {
        push_text(args, lit("-boot"));
        push_text(args, lit("d"));
        push_text(args, lit("-bios"));
        push_text(args, firmware.clone());
        push_text(args, lit("-cpu"));
        push_text(args, lit("max"));
        push_text(args, lit("-device"));
        push_text(args, lit("virtio-gpu-pci"));
        push_text(args, lit("-device"));
        push_text(args, lit("qemu-xhci"));
        push_text(args, lit("-device"));
        push_text(args, lit("usb-kbd"));
        push_text(args, lit("-device"));
        push_text(args, lit("usb-tablet"));
    } else {
        push_text(args, lit("-vga"));
        push_text(args, lit("std"));
        push_text(args, lit("-boot"));
        push_text(args, lit("d"));
    }
    assert(string_views(args@) =~= string_views(old(args)@) + boot_args(aarch64, firmware@));
}

fn push_display_args(args: &mut Vec<String>, cfg: &VmStartConfig, host: &HostSettings)
    requires
        console_port_ok(*cfg, *host),
    ensures
        string_views(final(args)@) == string_views(old(args)@) + display_args(*cfg, *host),
{
    push_text(args, lit("-display"));
    match host.platform {
        Platform::UnixLike => {
            let mut d = lit("vnc=127.0.0.1:");
            d.append(decimal((cfg.vnc_port - 12000) as u64).as_str());
            d.append(",websocket=");
            d.append(decimal(cfg.vnc_port as u64).as_str());
            push_text(args, d);
        },
        Platform::Windows { vnc_port, .. } => {
            let mut d = lit("vnc=0.0.0.0:");
            d.append(decimal((vnc_port - 5900) as u64).as_str());
            push_text(args, d);
        },
    }
    assert(string_views(args@) =~= string_views(old(args)@) + display_args(*cfg, *host));
}

fn push_disk_args(args: &mut Vec<String>, cfg: &VmStartConfig, host: &HostSettings)
    ensures
        string_views(final(args)@) == string_views(old(args)@) + disks_args(*host, cfg.disks@),
{
    let ghost base = string_views(args@);
    assert(string_views(args@) =~= base + disks_args(*host, cfg.disks@.take(0)));
    let mut i: usize = 0;
    while i < cfg.disks.len()
        invariant
            i <= cfg.disks@.len(),
            base == string_views(old(args)@),
            string_views(args@) == base + disks_args(*host, cfg.disks@.take(i as int)),
        decreases cfg.disks@.len() - i,
    {
        let d = &cfg.disks[i];
        let mut f = lit("file=");
        f.append(host.disk_path.as_str());
        match host.platform {
            Platform::UnixLike => f.append("/"),
            Platform::Windows { .. } => f.append("\\"),
        }
        f.append(d.diskname.as_str());
        f.append(".qcow2");
        f.append(",format=qcow2,if=virtio,index=");
        f.append(d.diskid.as_str());
        if d.iops_total.as_str().unicode_len() > 0 {
            f.append(",iops=");
            f.append(d.iops_total.as_str());
        }
        if d.iops_total_max.as_str().unicode_len() > 0 {
            f.append(",iops_max=");
            f.append(d.iops_total_max.as_str());
        }
        if d.iops_total_max_length.as_str().unicode_len() > 0 {
            f.append(",iops_max_length=");
            f.append(d.iops_total_max_length.as_str());
        }
        assert(f@ =~= drive_text(*host, *d));
        push_text(args, lit("-drive"));
        push_text(args, f);
        assert(cfg.disks@.take(i + 1).drop_last() =~= cfg.disks@.take(i as int));
        assert(string_views(args@) =~= base + disks_args(*host, cfg.disks@.take(i + 1)));
        i += 1;
    }
    assert(cfg.disks@.take(i as int) =~= cfg.disks@);
}

/// The user-network options for a guest at address `ip`.
pub fn slirp_options(ip: &str) -> (r: String)
    ensures
        r@ == slirp_text(ip@),
{
    let f = split_dots(ip);
    let ghost fs = dot_fields(ip@);
    assert(string_views(f@).len() == f@.len());
    if f.len() != 4 {
        return String::new();
    }
    assert(forall|k: int| 0 <= k < 4 ==> #[trigger] f@[k]@ == fs[k]) by {
        assert forall|k: int| 0 <= k < 4 implies #[trigger] f@[k]@ == fs[k] by {
            assert(string_views(f@)[k] == f@[k]@);
        }
    }
    let mut prefix = f[0].clone();
    prefix.append(".");
    prefix.append(f[1].as_str());
    prefix.append(".");
    prefix.append(f[2].as_str());
    assert(prefix@ == subnet_prefix(fs));
    let last: u64 = match parse_unsigned(f[3].as_str(), 255) {
        Some(v) => v,
        None => 10,
    };
    let dhcp = if last <= 2 {
        let mut d = prefix.clone();
        d.append(".10");
        d
    } else {
        lit(ip)
    };
    assert(dhcp@ == dhcp_start_text(ip@));
    let mut r = lit(",net=");
    r.append(prefix.as_str());
    r.append(".0/24");
    r.append(",host=");
    r.append(prefix.as_str());
    r.append(".1");
    r.append(",dns=");
    r.append(prefix.as_str());
    r.append(".2");
    r.append(",dhcpstart=");
    r.append(dhcp.as_str());
    r
}

fn push_nic_args(args: &mut Vec<String>, cfg: &VmStartConfig, slirp: &String)
    ensures
        string_views(final(args)@) == string_views(old(args)@) + nics_args(
            cfg.network_adapters@,
            slirp@,
        ),
{
    let ghost base = string_views(args@);
    let ghost ns = cfg.network_adapters@;
    assert(string_views(args@) =~= base + nics_args(ns.take(0), slirp@));
    let mut i: usize = 0;
    while i < cfg.network_adapters.len()
        invariant
            i <= ns.len(),
            ns == cfg.network_adapters@,
            base == string_views(old(args)@),
            string_views(args@) == base + nics_args(ns.take(i as int), slirp@),
        decreases ns.len() - i,
    {
        let n = &cfg.network_adapters[i];
        let mut netdev = lit("user,id=net");
        netdev.append(n.netid.as_str());
        netdev.append(slirp.as_str());
        let mut device = lit("virtio-net-pci,netdev=net");
        device.append(n.netid.as_str());
        device.append(",mac=");
        device.append(n.mac.as_str());
        push_text(args, lit("-netdev"));
        push_text(args, netdev);
        push_text(args, lit("-device"));
        push_text(args, device);
        assert(ns.take(i + 1).drop_last() =~= ns.take(i as int));
        assert(string_views(args@) =~= base + nics_args(ns.take(i + 1), slirp@));
        i += 1;
    }
    assert(ns.take(i as int) =~= ns);
}

fn push_machine_args(args: &mut Vec<String>, aarch64: bool, cfg: &VmStartConfig, host: &HostSettings)
    requires
        aarch64 == wants_aarch64(*cfg),
    ensures
        string_views(final(args)@) == string_views(old(args)@) + machine_args(*cfg, *host),
{
    let mut m = lit("type=");
    if aarch64 {
        m.append("virt");
    } else {
        m.append(host.qemu_machine.as_str());
    }
    m.append(",accel=");
    m.append(host.qemu_accel.as_str());
    push_text(args, lit("-machine"));
    push_text(args, m);
    match host.platform {
        Platform::Windows { .. } => push_text(args, lit("-no-shutdown")),
        Platform::UnixLike => {},
    }
    assert(string_views(args@) =~= string_views(old(args)@) + machine_args(*cfg, *host));
}

fn push_smp_args(args: &mut Vec<String>, cpu: &CpuInfo, total: u32, sockets: u32, cores: u32, threads: u32)
    requires
        total == vcpu_total(*cpu),
        sockets == cpu_count(cpu.sockets@),
        cores == cpu_count(cpu.cores@),
        threads == cpu_count(cpu.threads@),
    ensures
        string_views(final(args)@) == string_views(old(args)@) + smp_args(*cpu),
{
    let mut t = decimal(total as u64);
    t.append(",sockets=");
    t.append(decimal(sockets as u64).as_str());
    t.append(",cores=");
    t.append(decimal(cores as u64).as_str());
    t.append(",threads=");
    t.append(decimal(threads as u64).as_str());
    push_text(args, lit("-smp"));
    push_text(args, t);
    assert(string_views(args@) =~= string_views(old(args)@) + smp_args(*cpu));
}

fn push_media_args(args: &mut Vec<String>, aarch64: bool, seed: &Option<String>)
    ensures
        string_views(final(args)@) == string_views(old(args)@) + cdrom_args(aarch64) + seed_args(
            aarch64,
            opt_view(*seed),
        ) + legacy_args(aarch64),
{
    let ghost base = string_views(args@);
    if !aarch64 {
        push_text(args, lit("-drive"));
        push_text(args, lit("if=ide,index=0,media=cdrom"));
    }
    let ghost after_cdrom = string_views(args@);
    assert(after_cdrom =~= base + cdrom_args(aarch64));
    match seed {
        Some(p) => {
            let mut d = lit("file=");
            d.append(p.as_str());
            if aarch64 {
                d.append(",if=none,id=seed0,media=cdrom,readonly=on");
                push_text(args, lit("-drive"));
                push_text(args, d);
                push_text(args, lit("-device"));
                push_text(args, lit("virtio-blk-pci,drive=seed0"));
            } else {
                d.append(",if=ide,index=1,media=cdrom,readonly=on");
                push_text(args, lit("-drive"));
                push_text(args, d);
            }
        },
        None => {},
    }
    let ghost after_seed = string_views(args@);
    assert(after_seed =~= after_cdrom + seed_args(aarch64, opt_view(*seed)));
    if !aarch64 {
        push_text(args, lit("-smbios"));
        push_text(args, lit("type=11,value=cloud-init:ds=nocloud"));
        push_text(args, lit("-usb"));
        push_text(args, lit("-device"));
        push_text(args, lit("usb-tablet,bus=usb-bus.0,port=1"));
    }
    assert(string_views(args@) =~= after_seed + legacy_args(aarch64));
}

fn push_monitor_args(args: &mut Vec<String>, vm_id: &str, host: &HostSettings)
    ensures
        string_views(final(args)@) == string_views(old(args)@) + monitor_args(vm_id@, *host),
{
    push_text(args, lit("-monitor"));
    match host.platform {
        Platform::UnixLike => {
            let mut m = lit("unix:");
            m.append(host.pctl_path.as_str());
            m.append("/");
            m.append(vm_id);
            m.append(",server,nowait");
            push_text(args, m);
        },
        Platform::Windows { monitor_port, .. } => {
            let mut m = lit("tcp:127.0.0.1:");
            m.append(decimal(monitor_port as u64).as_str());
            m.append(",server,nowait");
            push_text(args, m);
        },
    }
    assert(string_views(args@) =~= string_views(old(args)@) + monitor_args(vm_id@, *host));
}

/// Assembles the hypervisor's argument list for a launch of `cfg` as `vm_id`: every
/// user-supplied value is sanitized first, a foreign architecture needs its firmware
/// (`firmware_present` says whether the file exists), and the console port must be valid
/// for the platform. On success nothing is left out and nothing passes through a shell.
pub fn build_qemu_args(
    vm_id: &str,
    cfg: &VmStartConfig,
    host: &HostSettings,
    local_ipv4: &str,
    seed_image: &Option<String>,
    firmware_present: bool,
) -> (r: Result<Vec<String>, VmError>)
    ensures
        match build_fault(vm_id@, *cfg, *host, firmware_present) {
            Some(e) => r matches Err(x) && x == e,
            None => r matches Ok(a) && string_views(a@) == qemu_args(
                vm_id@,
                *cfg,
                *host,
                local_ipv4@,
                opt_view(*seed_image),
            ),
        },
{
    match check_inputs(vm_id, cfg) {
        Err(e) => {
            return Err(e);
        },
        Ok(()) => {},
    }
    let aarch64 = same_text(cfg.features.arch.as_str(), "aarch64");
    if aarch64 && !firmware_present {
        return Err(VmError::ConfigurationError(ConfigFault::MissingFirmware));
    }
    let console_ok = match host.platform {
        Platform::UnixLike => 12000 < cfg.vnc_port && cfg.vnc_port <= 13000,
        Platform::Windows { vnc_port, .. } => vnc_port >= 5900,
    };
    if !console_ok {
        return Err(VmError::ConfigurationError(ConfigFault::ConsolePortOutOfRange));
    }
    let sockets = cpu_count_of(&cfg.cpu.sockets);
    let cores = cpu_count_of(&cfg.cpu.cores);
    let threads = cpu_count_of(&cfg.cpu.threads);
    assert((sockets as u128) * (cores as u128) <= 0xffff_ffff_ffff_ffff_u128) by (nonlinear_arith)
        requires
            sockets <= 0xffff_ffff_u32,
            cores <= 0xffff_ffff_u32,
    ;
    let sc: u128 = (sockets as u128) * (cores as u128);
    assert(sc * (threads as u128) <= 0xffff_ffff_ffff_ffff_ffff_ffff_u128) by (nonlinear_arith)
        requires
            sc <= 0xffff_ffff_ffff_ffff_u128,
            threads <= 0xffff_ffff_u32,
    ;
    let total: u128 = sc * (threads as u128);
    if total > 0xffff_ffff {
        return Err(VmError::ConfigurationError(ConfigFault::TooManyVcpus));
    }
    let mut args: Vec<String> = Vec::new();
    push_boot_args(&mut args, aarch64, &host.firmware_path);
    if same_text(cfg.features.is_windows.as_str(), "1") {
        push_text(&mut args, lit("-localtime"));
    }
    let ghost a1 = string_views(args@);
    assert(a1 =~= boot_args(aarch64, host.firmware_path@) + localtime_args(*cfg));
    push_display_args(&mut args, cfg, host);
    push_text(&mut args, lit("-m"));
    let mut mem = cfg.memory.size.clone();
    mem.append("M");
    push_text(&mut args, mem);
    let ghost a2 = string_views(args@);
    assert(a2 =~= a1 + display_args(*cfg, *host) + memory_args(*cfg));
    push_disk_args(&mut args, cfg, host);
    let slirp = slirp_options(local_ipv4);
    push_nic_args(&mut args, cfg, &slirp);
    push_machine_args(&mut args, aarch64, cfg, host);
    push_smp_args(&mut args, &cfg.cpu, total as u32, sockets, cores, threads);
    push_media_args(&mut args, aarch64, seed_image);
    push_monitor_args(&mut args, vm_id, host);
    assert(string_views(args@) =~= qemu_args(
        vm_id@,
        *cfg,
        *host,
        local_ipv4@,
        opt_view(*seed_image),
    ));
    Ok(args)
}

/// The backing file of the disk called `name`.
pub fn disk_file_path(host: &HostSettings, name: &str) -> (r: String)
    ensures
        r@ == disk_file_text(*host, name@),
{
    let mut f = String::from_str(host.disk_path.as_str());
    match host.platform {
        Platform::UnixLike => f.append("/"),
        Platform::Windows { .. } => f.append("\\"),
    }
    f.append(name);
    f.append(".qcow2");
    f
}

/// The image-tool arguments that create a qcow2 disk at `file` of size `size`.
pub fn disk_create_args(file: &str, size: &str) -> (r: Vec<String>)
    ensures
        string_views(r@) == seq!["create"@, "-f"@, "qcow2"@, file@, size@],
{
    let mut v: Vec<String> = Vec::new();
    push_text(&mut v, lit("create"));
    push_text(&mut v, lit("-f"));
    push_text(&mut v, lit("qcow2"));
    push_text(&mut v, lit(file));
    push_text(&mut v, lit(size));
    assert(string_views(v@) =~= seq!["create"@, "-f"@, "qcow2"@, file@, size@]);
    v
}

/// The image-tool arguments that create a missing disk at `file` with the default size
/// of 10 GiB.
pub fn auto_disk_create_args(file: &str) -> (r: Vec<String>)
    ensures
        string_views(r@) == seq!["create"@, "-f"@, "qcow2"@, file@, "10G"@],
{
    disk_create_args(file, "10G")
}

/// The image-tool arguments that resize the qcow2 disk at `file` to `size`.
pub fn disk_resize_args(file: &str, size: &str) -> (r: Vec<String>)
    ensures
        string_views(r@) == seq!["resize"@, "-f"@, "qcow2"@, file@, size@],
{
    let mut v: Vec<String> = Vec::new();
    push_text(&mut v, lit("resize"));
    push_text(&mut v, lit("-f"));
    push_text(&mut v, lit("qcow2"));
    push_text(&mut v, lit(file));
    push_text(&mut v, lit(size));
    assert(string_views(v@) =~= seq!["resize"@, "-f"@, "qcow2"@, file@, size@]);
    v
}

proof fn lemma_disks_args_len(host: HostSettings, ds: Seq<DiskInfo>)
    ensures
        disks_args(host, ds).len() == 2 * ds.len(),
    decreases ds.len(),
{
    if ds.len() > 0 {
        lemma_disks_args_len(host, ds.drop_last());
    }
}

/// Each disk is attached, in the order of the disks, by a `-drive` argument whose value
/// starts with `file=` and the disk's backing file: the file that is created beforehand
/// when it is missing.
pub proof fn lemma_drive_args_name_backing_files(host: HostSettings, ds: Seq<DiskInfo>, i: int)
    requires
        0 <= i < ds.len(),
    ensures
        disks_args(host, ds).len() == 2 * ds.len(),
        disks_args(host, ds)[2 * i] == "-drive"@,
        disks_args(host, ds)[2 * i + 1].take(5 + disk_file_text(host, ds[i].diskname@).len() as int)
            == "file="@ + disk_file_text(host, ds[i].diskname@),
    decreases ds.len(),
{
    lemma_disks_args_len(host, ds);
    reveal_strlit("file=");
    let prefix = "file="@ + disk_file_text(host, ds[i].diskname@);
    if i == ds.len() - 1 {
        lemma_disks_args_len(host, ds.drop_last());
        assert(disks_args(host, ds)[2 * i + 1] == drive_text(host, ds[i]));
        assert(drive_text(host, ds[i]).take(prefix.len() as int) =~= prefix);
    } else {
        lemma_drive_args_name_backing_files(host, ds.drop_last(), i);
        lemma_disks_args_len(host, ds.drop_last());
        assert(ds.drop_last()[i] == ds[i]);
    }
}

/// With two sockets, four cores and one thread the launch asks for eight vCPUs: the
/// product of the three, not the core count.
pub proof fn lemma_vcpus_two_sockets_four_cores(cpu: CpuInfo)
    requires
        cpu.sockets@ == "2"@,
        cpu.cores@ == "4"@,
        cpu.threads@ == "1"@,
    ensures
        vcpu_total(cpu) == 8,
        smp_args(cpu)[1][0] == '8',
{
    reveal_strlit("2");
    reveal_strlit("4");
    reveal_strlit("1");
    let s = cpu.sockets@;
    let c = cpu.cores@;
    let t = cpu.threads@;
    assert(s.drop_last() =~= Seq::<char>::empty());
    assert(c.drop_last() =~= Seq::<char>::empty());
    assert(t.drop_last() =~= Seq::<char>::empty());
    assert(s.last() == '2');
    assert(crate::names::digit_value('2') == 2);
    assert(crate::names::digits_value(Seq::<char>::empty()) == 0);
    assert(crate::names::digits_value(s) == crate::names::digits_value(s.drop_last()) * 10
        + crate::names::digit_value(s.last()));
    assert(crate::names::digits_value(s) == 2);
    assert(crate::names::digits_value(c) == 4);
    assert(crate::names::digits_value(t) == 1);
    assert(cpu_count(s) == 2);
    assert(cpu_count(c) == 4);
    assert(cpu_count(t) == 1);
    assert(decimal_text(8) == seq!['8']);
}

/// A foreign-architecture launch whose firmware file is missing fails with a configuration
/// error (once its names pass), so no argument list comes out.
pub proof fn lemma_missing_firmware_fails(vm_id: Seq<char>, cfg: VmStartConfig, host: HostSettings)
    requires
        wants_aarch64(cfg),
        first_fault(user_inputs(vm_id, cfg)) is None,
    ensures
        build_fault(vm_id, cfg, host, false) == Some(VmError::ConfigurationError(ConfigFault::MissingFirmware)),
{
}

} // verus!
