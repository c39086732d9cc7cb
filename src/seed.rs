use vstd::prelude::*;
use vstd::string::*;

use crate::names::{fields_of, split_on, string_views};

verus! {

/// The cloud-init identity served to a guest.
#[derive(Debug)]
pub struct MdsConfig {
    pub instance_id: String,
    pub ami_id: String,
    pub hostname_prefix: String,
    pub public_ipv4: String,
    pub local_ipv4: String,
    pub ssh_pubkey: String,
    pub root_password: String,
    pub userdata_extra: String,
    pub default_mac: String,
    pub kea_socket_path: String,
}

impl Default for MdsConfig {
    fn default() -> (r: MdsConfig)
        ensures
            r.instance_id@ == "i-0000000000000001"@,
            r.ami_id@ == "ami-00000001"@,
            r.hostname_prefix@ == "vm"@,
            r.public_ipv4@ == "10.0.0.1"@,
            r.local_ipv4@ == "10.0.0.1"@,
            r.ssh_pubkey@.len() == 0,
            r.root_password@ == "changeme"@,
            r.userdata_extra@.len() == 0,
            r.default_mac@ == "52:54:00:00:00:01"@,
            r.kea_socket_path@.len() == 0,
    {
        MdsConfig {
            instance_id: String::from_str("i-0000000000000001"),
            ami_id: String::from_str("ami-00000001"),
            hostname_prefix: String::from_str("vm"),
            public_ipv4: String::from_str("10.0.0.1"),
            local_ipv4: String::from_str("10.0.0.1"),
            ssh_pubkey: String::new(),
            root_password: String::from_str("changeme"),
            userdata_extra: String::new(),
            default_mac: String::from_str("52:54:00:00:00:01"),
            kea_socket_path: String::new(),
        }
    }
}

/// The cloud-config user-data for `c`.
pub open spec fn userdata_text(c: MdsConfig) -> Seq<char> {
    "#cloud-config\n"@ + "ssh_pwauth: true\n"@ + "users:\n"@ + "  - name: root\n"@
        + "    primary_group: root\n"@ + "    groups: root\n"@ + "    lock_passwd: false\n"@
        + "    shell: /bin/bash\n"@ + "resize_rootfs: True\n"@ + "chpasswd:\n"@ + "  list: |\n"@
        + "    root:"@ + c.root_password@ + "\n"@ + "  expire: False\n"@ + (if c.ssh_pubkey@.len()
        == 0 {
        seq![]
    } else {
        "ssh_authorized_keys:\n"@ + "  - "@ + c.ssh_pubkey@ + "\n"@
    }) + "datasource:\n"@ + "  Ec2:\n"@ + "    strict_id: false\n"@ + "    max_wait: 60\n"@
        + "    timeout: 30\n"@ + "warnings:\n"@ + "  dsid_missing_source: off\n"@ + (
    if c.userdata_extra@.len() == 0 {
        seq![]
    } else if c.userdata_extra@.last() == '\n' {
        c.userdata_extra@
    } else {
        c.userdata_extra@ + "\n"@
    })
}

/// Writes the cloud-config user-data for `config`: a root account with its password, the
/// SSH key when one is set, the datasource settings, then any extra text, newline-ended.
pub fn generate_userdata(config: &MdsConfig) -> (r: String)
    ensures
        r@ == userdata_text(*config),
{
    let mut ud = String::from_str("#cloud-config\n");
    ud.append("ssh_pwauth: true\n");
    ud.append("users:\n");
    ud.append("  - name: root\n");
    ud.append("    primary_group: root\n");
    ud.append("    groups: root\n");
    ud.append("    lock_passwd: false\n");
    ud.append("    shell: /bin/bash\n");
    ud.append("resize_rootfs: True\n");
    ud.append("chpasswd:\n");
    ud.append("  list: |\n");
    ud.append("    root:");
    ud.append(config.root_password.as_str());
    ud.append("\n");
    ud.append("  expire: False\n");
    if config.ssh_pubkey.as_str().unicode_len() > 0 {
        ud.append("ssh_authorized_keys:\n");
        ud.append("  - ");
        ud.append(config.ssh_pubkey.as_str());
        ud.append("\n");
    }
    ud.append("datasource:\n");
    ud.append("  Ec2:\n");
    ud.append("    strict_id: false\n");
    ud.append("    max_wait: 60\n");
    ud.append("    timeout: 30\n");
    ud.append("warnings:\n");
    ud.append("  dsid_missing_source: off\n");
    let n = config.userdata_extra.as_str().unicode_len();
    if n > 0 {
        ud.append(config.userdata_extra.as_str());
        if config.userdata_extra.as_str().get_char(n - 1) != '\n' {
            ud.append("\n");
        }
    }
    assert(ud@ =~= userdata_text(*config));
    ud
}

/// The NoCloud meta-data for the guest `vm_name`.
pub open spec fn meta_data_text(c: MdsConfig, vm_name: Seq<char>) -> Seq<char> {
    "instance-id: "@ + c.instance_id@ + "\n"@ + "local-hostname: "@ + c.hostname_prefix@ + "-"@
        + vm_name + "\n"@ + "ami-id: "@ + c.ami_id@ + "\n"@ + "local-ipv4: "@ + c.local_ipv4@
        + "\n"@ + if c.ssh_pubkey@.len() == 0 {
        seq![]
    } else {
        "public-keys:\n"@ + "  - "@ + c.ssh_pubkey@ + "\n"@
    }
}

/// Writes the NoCloud meta-data of the seed image for `vm_name`: instance id, host name
/// (`<prefix>-<vm_name>`), image id, guest address and, when set, the public key.
pub fn generate_meta_data(config: &MdsConfig, vm_name: &str) -> (r: String)
    ensures
        r@ == meta_data_text(*config, vm_name@),
{
    let mut m = String::from_str("instance-id: ");
    m.append(config.instance_id.as_str());
    m.append("\n");
    m.append("local-hostname: ");
    m.append(config.hostname_prefix.as_str());
    m.append("-");
    m.append(vm_name);
    m.append("\n");
    m.append("ami-id: ");
    m.append(config.ami_id.as_str());
    m.append("\n");
    m.append("local-ipv4: ");
    m.append(config.local_ipv4.as_str());
    m.append("\n");
    if config.ssh_pubkey.as_str().unicode_len() > 0 {
        m.append("public-keys:\n");
        m.append("  - ");
        m.append(config.ssh_pubkey.as_str());
        m.append("\n");
    }
    assert(m@ =~= meta_data_text(*config, vm_name@));
    m
}

/// The MAC address that a metadata request is answered for: the one the DHCP server leased
/// to the client, or else the configured default.
pub fn resolve_mac(leased: Option<String>, config: &MdsConfig) -> (r: String)
    ensures
        r@ == match leased {
            Some(m) => m@,
            None => config.default_mac@,
        },
{
    match leased {
        Some(m) => m,
        None => config.default_mac.clone(),
    }
}

/// Where the seed image of `vm_name` is written: `<runtime dir>/seed_<vm_name>.iso`.
pub fn seed_image_path(pctl_path: &str, vm_name: &str) -> (r: String)
    ensures
        r@ == pctl_path@ + "/"@ + "seed_"@ + vm_name@ + ".iso"@,
{
    let mut p = String::from_str(pctl_path);
    p.append("/");
    p.append("seed_");
    p.append(vm_name);
    p.append(".iso");
    p
}

/// The host name served to the guest at `ip`: `<prefix>-<last dotted field of ip>.local`.
pub fn metadata_hostname(prefix: &str, ip: &str) -> (r: String)
    ensures
        r@ == prefix@ + "-"@ + fields_of(ip@, '.').last() + ".local"@,
{
    let parts = split_on(ip, '.');
    assert(string_views(parts@).len() == parts@.len());
    proof {
        crate::names::lemma_fields_nonempty(ip@, '.');
    }
    let last = parts.len() - 1;
    assert(string_views(parts@)[last as int] == parts@[last as int]@);
    let mut h = String::from_str(prefix);
    h.append("-");
    h.append(parts[last].as_str());
    h.append(".local");
    h
}

/// The MAC listing served to the guest whose MAC is `mac`: the MAC itself and a second
/// entry ending in the last colon-separated field of `mac`, each followed by `/`.
pub fn macs_listing(mac: &str) -> (r: String)
    ensures
        r@ == mac@ + "/\n"@ + "52:54:c4:ca:f1:"@ + fields_of(mac@, ':').last() + "/"@,
{
    let parts = split_on(mac, ':');
    assert(string_views(parts@).len() == parts@.len());
    proof {
        crate::names::lemma_fields_nonempty(mac@, ':');
    }
    let last = parts.len() - 1;
    assert(string_views(parts@)[last as int] == parts@[last as int]@);
    let mut l = String::from_str(mac);
    l.append("/\n");
    l.append("52:54:c4:ca:f1:");
    l.append(parts[last].as_str());
    l.append("/");
    l
}

/// The device number of the interface `requested`: `0` for the guest's own MAC, `1`
/// otherwise.
pub fn device_number(requested: &str, mac: &str) -> (r: &'static str)
    ensures
        r@ == if requested@ == mac@ {
            "0"@
        } else {
            "1"@
        },
{
    if crate::text::same_text(requested, mac) {
        "0"
    } else {
        "1"
    }
}

} // verus!
