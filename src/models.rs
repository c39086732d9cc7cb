use vstd::prelude::*;
use vstd::string::*;

verus! {

/// Console port given to a configuration that names none.
pub fn default_vnc_port() -> (r: u16)
    ensures
        r == 12001,
{
    12001
}

/// Architecture assumed for a configuration that names none.
pub fn default_arch() -> (r: String)
    ensures
        r@ == "x86_64"@,
{
    String::from_str("x86_64")
}

/// CPU topology, each count as the decimal text the user submitted.
#[derive(Debug)]
pub struct CpuInfo {
    pub sockets: String,
    pub cores: String,
    pub threads: String,
}

/// Memory size in MiB, as decimal text.
#[derive(Debug)]
pub struct MemoryInfo {
    pub size: String,
}

#[derive(Debug)]
pub struct Features {
    /// `"1"` for a Windows guest, which wants its clock in local time.
    pub is_windows: String,
    /// Guest architecture; `"aarch64"` needs foreign firmware.
    pub arch: String,
}

#[derive(Debug)]
pub struct NetworkAdapter {
    pub netid: String,
    pub mac: String,
    pub vlan: String,
}

/// One attached disk with its I/O throttling parameters; an empty parameter is not applied.
#[derive(Debug)]
pub struct DiskInfo {
    pub diskid: String,
    pub diskname: String,
    pub iops_total: String,
    pub iops_total_max: String,
    pub iops_total_max_length: String,
}

/// The declarative description of a VM's virtual hardware.
#[derive(Debug)]
pub struct VmStartConfig {
    pub cpu: CpuInfo,
    pub memory: MemoryInfo,
    pub features: Features,
    pub network_adapters: Vec<NetworkAdapter>,
    pub disks: Vec<DiskInfo>,
    pub vnc_port: u16,
}

/// A request naming one VM.
#[derive(Debug)]
pub struct SimpleCmd {
    pub smac: String,
}

/// A request to put removable media into a VM.
#[derive(Debug)]
pub struct MountIsoCmd {
    pub smac: String,
    pub isoname: String,
}

/// A request to migrate a VM to another node.
#[derive(Debug)]
pub struct LiveMigrateCmd {
    pub smac: String,
    pub to_node_ip: String,
}

/// A request about a VM's console proxy port.
#[derive(Debug)]
pub struct VncCmd {
    pub smac: String,
    pub novncport: String,
}

/// The answer to an API call.
#[derive(Debug)]
pub struct ApiResponse {
    pub success: bool,
    pub message: String,
    pub output: Option<String>,
}

} // verus!
