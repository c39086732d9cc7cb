use vstd::prelude::*;
use vstd::string::*;

use crate::text::same_text;

verus! {

/// The kind of host, which decides the built-in settings.
#[derive(Debug, Clone, Copy, PartialEq, Eq, Structural)]
pub enum HostKind {
    Linux,
    MacOs,
    Windows,
}

pub open spec fn pair_views(v: Seq<(String, String)>) -> Seq<(Seq<char>, Seq<char>)> {
    v.map_values(|p: (String, String)| (p.0@, p.1@))
}

/// The mapping that a list of pairs builds when inserted in order: a later pair wins.
pub open spec fn pairs_map(v: Seq<(Seq<char>, Seq<char>)>) -> Map<Seq<char>, Seq<char>>
    decreases v.len(),
{
    if v.len() == 0 {
        Map::empty()
    } else {
        pairs_map(v.drop_last()).insert(v.last().0, v.last().1)
    }
}

/// The built-in settings of each kind of host.
pub open spec fn default_pairs(kind: HostKind) -> Seq<(Seq<char>, Seq<char>)> {
    match kind {
        HostKind::Linux => seq![
            ("qemu_path"@, "/usr/bin/qemu-system-x86_64"@),
            ("ctl_bin_path"@, "/opt/ctl/bin"@),
            ("live_path"@, "/tmp/vmcontrol/backups"@),
            ("gzip_path"@, "/usr/bin/gzip"@),
            ("vs_up_script"@, "vs-up.sh"@),
            ("vs_down_script"@, "vs-down.sh"@),
            ("pctl_script"@, "pctl.sh"@),
            ("pctl_path"@, "/tmp/vmcontrol"@),
            ("disk_path"@, "/tmp/vmcontrol/disks"@),
            ("iso_path"@, "/tmp/vmcontrol/iso"@),
            ("qemu_img_path"@, "/usr/bin/qemu-img"@),
            ("websockify_path"@, "websockify"@),
            ("domain"@, "localhost"@),
            ("db_path"@, "/tmp/vmcontrol/vmcontrol.db"@),
            ("mds_config_path"@, "/tmp/vmcontrol/mds.json"@),
            ("static_path"@, "./static"@),
            ("qemu_accel"@, "kvm:tcg"@),
            ("qemu_machine"@, "pc"@),
            ("qemu_aarch64_path"@, "/usr/bin/qemu-system-aarch64"@),
            ("edk2_aarch64_bios"@, "/usr/share/qemu/edk2-aarch64-code.fd"@),
        ],
        HostKind::MacOs => seq![
            ("qemu_path"@, "/opt/homebrew/bin/qemu-system-x86_64"@),
            ("ctl_bin_path"@, "/opt/ctl/bin"@),
            ("live_path"@, "/tmp/vmcontrol/backups"@),
            ("gzip_path"@, "/usr/bin/gzip"@),
            ("vs_up_script"@, "vs-up.sh"@),
            ("vs_down_script"@, "vs-down.sh"@),
            ("pctl_script"@, "pctl.sh"@),
            ("pctl_path"@, "/tmp/vmcontrol"@),
            ("disk_path"@, "/tmp/vmcontrol/disks"@),
            ("iso_path"@, "/tmp/vmcontrol/iso"@),
            ("qemu_img_path"@, "/opt/homebrew/bin/qemu-img"@),
            ("domain"@, "localhost"@),
            ("db_path"@, "/tmp/vmcontrol/vmcontrol.db"@),
            ("mds_config_path"@, "/tmp/vmcontrol/mds.json"@),
            ("static_path"@, "./static"@),
            ("qemu_accel"@, "hvf:tcg"@),
            ("qemu_machine"@, "pc"@),
            ("qemu_aarch64_path"@, "/opt/homebrew/bin/qemu-system-aarch64"@),
            ("edk2_aarch64_bios"@, "/opt/homebrew/share/qemu/edk2-aarch64-code.fd"@),
        ],
        HostKind::Windows => seq![
            ("qemu_path"@, r"C:\Program Files\qemu\qemu-system-x86_64.exe"@),
            ("ctl_bin_path"@, r"C:\vmcontrol\bin"@),
            ("live_path"@, r"C:\vmcontrol\backups"@),
            ("gzip_path"@, "gzip"@),
            ("vs_up_script"@, "vs-up.bat"@),
            ("vs_down_script"@, "vs-down.bat"@),
            ("pctl_script"@, "pctl.bat"@),
            ("pctl_path"@, r"C:\vmcontrol"@),
            ("disk_path"@, r"C:\vmcontrol\disks"@),
            ("iso_path"@, r"C:\vmcontrol\iso"@),
            ("qemu_img_path"@, r"C:\Program Files\qemu\qemu-img.exe"@),
            ("websockify_path"@, "websockify"@),
            ("python_path"@, "python3"@),
            ("domain"@, "localhost"@),
            ("db_path"@, r"C:\vmcontrol\vmcontrol.db"@),
            ("mds_config_path"@, r"C:\vmcontrol\mds.json"@),
            ("static_path"@, "./static"@),
            ("qemu_accel"@, "whpx:tcg"@),
            ("qemu_machine"@, "pc"@),
        ],
    }
}

fn push_pair(v: &mut Vec<(String, String)>, k: &str, x: &str)
    ensures
        pair_views(final(v)@) == pair_views(old(v)@).push((k@, x@)),
{
    v.push((String::from_str(k), String::from_str(x)));
    assert(pair_views(final(v)@) =~= pair_views(old(v)@).push((k@, x@)));
}

/// The built-in settings of a host of the given kind.
pub fn defaults(kind: HostKind) -> (r: Vec<(String, String)>)
    ensures
        pair_views(r@) == default_pairs(kind),
{
    let mut v: Vec<(String, String)> = Vec::new();
    match kind {
        HostKind::Linux => {
            push_pair(&mut v, "qemu_path", "/usr/bin/qemu-system-x86_64");
            push_pair(&mut v, "ctl_bin_path", "/opt/ctl/bin");
            push_pair(&mut v, "live_path", "/tmp/vmcontrol/backups");
            push_pair(&mut v, "gzip_path", "/usr/bin/gzip");
            push_pair(&mut v, "vs_up_script", "vs-up.sh");
            push_pair(&mut v, "vs_down_script", "vs-down.sh");
            push_pair(&mut v, "pctl_script", "pctl.sh");
            push_pair(&mut v, "pctl_path", "/tmp/vmcontrol");
            push_pair(&mut v, "disk_path", "/tmp/vmcontrol/disks");
            push_pair(&mut v, "iso_path", "/tmp/vmcontrol/iso");
            push_pair(&mut v, "qemu_img_path", "/usr/bin/qemu-img");
            push_pair(&mut v, "websockify_path", "websockify");
            push_pair(&mut v, "domain", "localhost");
            push_pair(&mut v, "db_path", "/tmp/vmcontrol/vmcontrol.db");
            push_pair(&mut v, "mds_config_path", "/tmp/vmcontrol/mds.json");
            push_pair(&mut v, "static_path", "./static");
            push_pair(&mut v, "qemu_accel", "kvm:tcg");
            push_pair(&mut v, "qemu_machine", "pc");
            push_pair(&mut v, "qemu_aarch64_path", "/usr/bin/qemu-system-aarch64");
            push_pair(&mut v, "edk2_aarch64_bios", "/usr/share/qemu/edk2-aarch64-code.fd");
        },
        HostKind::MacOs => {
            push_pair(&mut v, "qemu_path", "/opt/homebrew/bin/qemu-system-x86_64");
            push_pair(&mut v, "ctl_bin_path", "/opt/ctl/bin");
            push_pair(&mut v, "live_path", "/tmp/vmcontrol/backups");
            push_pair(&mut v, "gzip_path", "/usr/bin/gzip");
            push_pair(&mut v, "vs_up_script", "vs-up.sh");
            push_pair(&mut v, "vs_down_script", "vs-down.sh");
            push_pair(&mut v, "pctl_script", "pctl.sh");
            push_pair(&mut v, "pctl_path", "/tmp/vmcontrol");
            push_pair(&mut v, "disk_path", "/tmp/vmcontrol/disks");
            push_pair(&mut v, "iso_path", "/tmp/vmcontrol/iso");
            push_pair(&mut v, "qemu_img_path", "/opt/homebrew/bin/qemu-img");
            push_pair(&mut v, "domain", "localhost");
            push_pair(&mut v, "db_path", "/tmp/vmcontrol/vmcontrol.db");
            push_pair(&mut v, "mds_config_path", "/tmp/vmcontrol/mds.json");
            push_pair(&mut v, "static_path", "./static");
            push_pair(&mut v, "qemu_accel", "hvf:tcg");
            push_pair(&mut v, "qemu_machine", "pc");
            push_pair(&mut v, "qemu_aarch64_path", "/opt/homebrew/bin/qemu-system-aarch64");
            push_pair(&mut v, "edk2_aarch64_bios", "/opt/homebrew/share/qemu/edk2-aarch64-code.fd");
        },
        HostKind::Windows => {
            push_pair(&mut v, "qemu_path", r"C:\Program Files\qemu\qemu-system-x86_64.exe");
            push_pair(&mut v, "ctl_bin_path", r"C:\vmcontrol\bin");
            push_pair(&mut v, "live_path", r"C:\vmcontrol\backups");
            push_pair(&mut v, "gzip_path", "gzip");
            push_pair(&mut v, "vs_up_script", "vs-up.bat");
            push_pair(&mut v, "vs_down_script", "vs-down.bat");
            push_pair(&mut v, "pctl_script", "pctl.bat");
            push_pair(&mut v, "pctl_path", r"C:\vmcontrol");
            push_pair(&mut v, "disk_path", r"C:\vmcontrol\disks");
            push_pair(&mut v, "iso_path", r"C:\vmcontrol\iso");
            push_pair(&mut v, "qemu_img_path", r"C:\Program Files\qemu\qemu-img.exe");
            push_pair(&mut v, "websockify_path", "websockify");
            push_pair(&mut v, "python_path", "python3");
            push_pair(&mut v, "domain", "localhost");
            push_pair(&mut v, "db_path", r"C:\vmcontrol\vmcontrol.db");
            push_pair(&mut v, "mds_config_path", r"C:\vmcontrol\mds.json");
            push_pair(&mut v, "static_path", "./static");
            push_pair(&mut v, "qemu_accel", "whpx:tcg");
            push_pair(&mut v, "qemu_machine", "pc");
        },
    }
    assert(pair_views(v@) =~= default_pairs(kind));
    v
}

/// The string pairs that a YAML document denotes, when it is a mapping from strings to
/// strings.
pub uninterp spec fn yaml_string_map(text: Seq<char>) -> Option<Map<Seq<char>, Seq<char>>>;

/// Relies on `serde_yaml::from_str` into a `HashMap<String, String>`: the mapping that the
/// document denotes, or an error when it is not a mapping of strings. The pairs come out
/// in the map's own order.
#[verifier::external_body]
fn parse_yaml_pairs(text: &str) -> (r: Option<Vec<(String, String)>>)
    ensures
        match yaml_string_map(text@) {
            Some(m) => r matches Some(v) && pairs_map(pair_views(v@)) == m,
            None => r is None,
        },
{
    match serde_yaml::from_str::<std::collections::HashMap<String, String>>(text) {
        Ok(m) => Some(m.into_iter().collect()),
        Err(_) => None,
    }
}

proof fn lemma_pairs_map_concat(a: Seq<(Seq<char>, Seq<char>)>, b: Seq<(Seq<char>, Seq<char>)>)
    ensures
        pairs_map(a + b) == pairs_map(a).union_prefer_right(pairs_map(b)),
    decreases b.len(),
{
    if b.len() == 0 {
        assert(a + b =~= a);
        assert(pairs_map(a).union_prefer_right(pairs_map(b)) =~= pairs_map(a));
    } else {
        assert((a + b).drop_last() =~= a + b.drop_last());
        assert((a + b).last() == b.last());
        lemma_pairs_map_concat(a, b.drop_last());
        assert(pairs_map(a + b) =~= pairs_map(a).union_prefer_right(pairs_map(b)));
    }
}

/// The host's settings: the built-in ones of `kind`, overridden by those of the YAML text
/// of the settings file when there is one. The flag tells that a file was given but is not
/// a mapping of strings, in which case only the built-in settings apply.
pub fn settings_from(kind: HostKind, file_text: Option<&str>) -> (r: (Vec<(String, String)>, bool))
    ensures
        r.1 == (file_text matches Some(t) && yaml_string_map(t@) is None),
        pairs_map(pair_views(r.0@)) == match file_text {
            Some(t) => match yaml_string_map(t@) {
                Some(m) => pairs_map(default_pairs(kind)).union_prefer_right(m),
                None => pairs_map(default_pairs(kind)),
            },
            None => pairs_map(default_pairs(kind)),
        },
{
    let mut merged = defaults(kind);
    let text = match file_text {
        None => {
            return (merged, false);
        },
        Some(t) => t,
    };
    match parse_yaml_pairs(text) {
        None => (merged, true),
        Some(file) => {
            let ghost before = pair_views(merged@);
            let ghost extra = pair_views(file@);
            let mut file = file;
            merged.append(&mut file);
            assert(pair_views(merged@) =~= before + extra);
            proof {
                lemma_pairs_map_concat(before, extra);
            }
            (merged, false)
        },
    }
}

/// The value of setting `key`: the last pair that names it wins, and a missing setting
/// reads as empty.
pub fn conf_value(pairs: &Vec<(String, String)>, key: &str) -> (r: String)
    ensures
        r@ == if pairs_map(pair_views(pairs@)).contains_key(key@) {
            pairs_map(pair_views(pairs@))[key@]
        } else {
            Seq::<char>::empty()
        },
{
    let ghost pv = pair_views(pairs@);
    let n = pairs.len();
    let mut i = n;
    assert(pv.take(n as int) =~= pv);
    while i > 0
        invariant
            i <= n,
            n == pairs@.len(),
            pv == pair_views(pairs@),
            pv.len() == n,
            pairs_map(pv).contains_key(key@) == pairs_map(pv.take(i as int)).contains_key(key@),
            pairs_map(pv).contains_key(key@) ==> pairs_map(pv)[key@] == pairs_map(
                pv.take(i as int),
            )[key@],
        decreases i,
    {
        assert(pv.take(i as int).drop_last() =~= pv.take(i - 1));
        assert(pv.take(i as int).last() == pv[i - 1]);
        assert(pv[i - 1] == (pairs@[i - 1].0@, pairs@[i - 1].1@));
        if same_text(pairs[i - 1].0.as_str(), key) {
            return pairs[i - 1].1.clone();
        }
        i -= 1;
    }
    assert(pv.take(0) =~= Seq::<(Seq<char>, Seq<char>)>::empty());
    String::new()
}

} // verus!
