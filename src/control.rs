use vstd::prelude::*;
use vstd::string::*;

use chrono::{Datelike, Timelike};

use crate::error::{ConfigFault, VmError};
use crate::names::{is_ipv4_text, is_safe_name, name_fault, sanitize_name, validate_ip};
use crate::api::{ends_with, trim_all, trim_suffixes};
use crate::monitor::{clean_monitor_output, cleaned_text};
use crate::text::{digit_char, same_text};

verus! {

/// A local wall-clock time to the second.
#[derive(Debug, Clone, Copy, PartialEq, Eq, Structural)]
pub struct Timestamp {
    pub year: u32,
    pub month: u32,
    pub day: u32,
    pub hour: u32,
    pub minute: u32,
    pub second: u32,
}

/// A time that fits the fixed-width `YYYYMMDD_HHMMSS` form.
pub open spec fn valid_timestamp(t: Timestamp) -> bool {
    t.year <= 9999 && 1 <= t.month <= 12 && 1 <= t.day <= 31 && t.hour <= 23 && t.minute <= 59
        && t.second <= 59
}

/// Relies on chrono's `Local::now` read through `Datelike` and `Timelike`, whose
/// documentation gives month 1 to 12, day 1 to 31, hour 0 to 23, minute 0 to 59 and second
/// 0 to 59.
#[verifier::external_body]
fn local_now() -> (r: (i32, u32, u32, u32, u32, u32))
    ensures
        1 <= r.1 <= 12,
        1 <= r.2 <= 31,
        r.3 <= 23,
        r.4 <= 59,
        r.5 <= 59,
{
    let now = chrono::Local::now();
    (now.year(), now.month(), now.day(), now.hour(), now.minute(), now.second())
}

/// The timestamp of the given clock fields; `None` for a year outside 0 to 9999, which the
/// fixed-width form cannot hold.
pub fn timestamp_from(y: i32, mo: u32, d: u32, h: u32, mi: u32, s: u32) -> (r: Option<Timestamp>)
    ensures
        r is Some <==> 0 <= y <= 9999,
        r matches Some(t) ==> t.year == y as u32 && t.month == mo && t.day == d && t.hour == h
            && t.minute == mi && t.second == s,
{
    if y < 0 || y > 9999 {
        return None;
    }
    Some(Timestamp { year: y as u32, month: mo, day: d, hour: h, minute: mi, second: s })
}

/// The local time now; `None` in the unlikely case of a year outside 0 to 9999.
pub fn current_timestamp() -> (r: Option<Timestamp>)
    ensures
        r matches Some(t) ==> valid_timestamp(t),
{
    let (y, mo, d, h, mi, s) = local_now();
    timestamp_from(y, mo, d, h, mi, s)
}

pub open spec fn pad2_text(n: nat) -> Seq<char> {
    seq![digit_char(n / 10), digit_char(n % 10)]
}

pub open spec fn pad4_text(n: nat) -> Seq<char> {
    pad2_text(n / 100) + pad2_text(n % 100)
}

/// `YYYYMMDD_HHMMSS`.
pub open spec fn stamp_text(t: Timestamp) -> Seq<char> {
    pad4_text(t.year as nat) + pad2_text(t.month as nat) + pad2_text(t.day as nat) + "_"@
        + pad2_text(t.hour as nat) + pad2_text(t.minute as nat) + pad2_text(t.second as nat)
}

/// The name of the backup file of `vm_id` taken at `t`.
pub open spec fn backup_name_text(vm_id: Seq<char>, t: Timestamp) -> Seq<char> {
    vm_id + "_"@ + stamp_text(t) + ".gz"@
}

fn digit(d: u32) -> (r: String)
    requires
        d < 10,
    ensures
        r@ == seq![digit_char(d as nat)],
{
    let s = if d == 0 {
        proof { reveal_strlit("0"); }
        "0"
    } else if d == 1 {
        proof { reveal_strlit("1"); }
        "1"
    } else if d == 2 {
        proof { reveal_strlit("2"); }
        "2"
    } else if d == 3 {
        proof { reveal_strlit("3"); }
        "3"
    } else if d == 4 {
        proof { reveal_strlit("4"); }
        "4"
    } else if d == 5 {
        proof { reveal_strlit("5"); }
        "5"
    } else if d == 6 {
        proof { reveal_strlit("6"); }
        "6"
    } else if d == 7 {
        proof { reveal_strlit("7"); }
        "7"
    } else if d == 8 {
        proof { reveal_strlit("8"); }
        "8"
    } else {
        proof { reveal_strlit("9"); }
        "9"
    };
    let r = String::from_str(s);
    assert(r@ =~= seq![digit_char(d as nat)]);
    r
}

fn pad2(out: &mut String, n: u32)
    requires
        n < 100,
    ensures
        final(out)@ == old(out)@ + pad2_text(n as nat),
{
    out.append(digit(n / 10).as_str());
    out.append(digit(n % 10).as_str());
    assert(final(out)@ =~= old(out)@ + pad2_text(n as nat));
}

/// Appends the `YYYYMMDD_HHMMSS` form of `t`.
fn push_stamp(out: &mut String, t: &Timestamp)
    requires
        valid_timestamp(*t),
    ensures
        final(out)@ == old(out)@ + stamp_text(*t),
{
    pad2(out, t.year / 100);
    pad2(out, t.year % 100);
    pad2(out, t.month);
    pad2(out, t.day);
    out.append("_");
    pad2(out, t.hour);
    pad2(out, t.minute);
    pad2(out, t.second);
    assert(final(out)@ =~= old(out)@ + stamp_text(*t));
}

/// The backup file name of `vm_id` at `t`: `<vm_id>_YYYYMMDD_HHMMSS.gz`.
pub fn backup_file_name(vm_id: &str, t: &Timestamp) -> (r: String)
    requires
        valid_timestamp(*t),
    ensures
        r@ == backup_name_text(vm_id@, *t),
{
    let mut r = String::from_str(vm_id);
    r.append("_");
    push_stamp(&mut r, t);
    r.append(".gz");
    r
}

proof fn lemma_digit_char_injective(a: nat, b: nat)
    requires
        a < 10,
        b < 10,
        digit_char(a) == digit_char(b),
    ensures
        a == b,
{
    assert(a == 0 || a == 1 || a == 2 || a == 3 || a == 4 || a == 5 || a == 6 || a == 7 || a == 8
        || a == 9);
    assert(b == 0 || b == 1 || b == 2 || b == 3 || b == 4 || b == 5 || b == 6 || b == 7 || b == 8
        || b == 9);
}

proof fn lemma_pad2_injective(a: nat, b: nat)
    requires
        a < 100,
        b < 100,
        pad2_text(a) == pad2_text(b),
    ensures
        a == b,
{
    assert(pad2_text(a)[0] == pad2_text(b)[0]);
    assert(pad2_text(a)[1] == pad2_text(b)[1]);
    lemma_digit_char_injective(a / 10, b / 10);
    lemma_digit_char_injective(a % 10, b % 10);
}

proof fn lemma_stamp_injective(t1: Timestamp, t2: Timestamp)
    requires
        valid_timestamp(t1),
        valid_timestamp(t2),
        stamp_text(t1) == stamp_text(t2),
    ensures
        t1 == t2,
{
    let s1 = stamp_text(t1);
    let s2 = stamp_text(t2);
    assert(s1.subrange(0, 2) =~= pad2_text(t1.year as nat / 100));
    assert(s2.subrange(0, 2) =~= pad2_text(t2.year as nat / 100));
    assert(s1.subrange(2, 4) =~= pad2_text(t1.year as nat % 100));
    assert(s2.subrange(2, 4) =~= pad2_text(t2.year as nat % 100));
    assert(s1.subrange(4, 6) =~= pad2_text(t1.month as nat));
    assert(s2.subrange(4, 6) =~= pad2_text(t2.month as nat));
    assert(s1.subrange(6, 8) =~= pad2_text(t1.day as nat));
    assert(s2.subrange(6, 8) =~= pad2_text(t2.day as nat));
    assert("_"@.len() == 1) by {
        reveal_strlit("_");
    }
    assert(s1.subrange(9, 11) =~= pad2_text(t1.hour as nat));
    assert(s2.subrange(9, 11) =~= pad2_text(t2.hour as nat));
    assert(s1.subrange(11, 13) =~= pad2_text(t1.minute as nat));
    assert(s2.subrange(11, 13) =~= pad2_text(t2.minute as nat));
    assert(s1.subrange(13, 15) =~= pad2_text(t1.second as nat));
    assert(s2.subrange(13, 15) =~= pad2_text(t2.second as nat));
    lemma_pad2_injective(t1.year as nat / 100, t2.year as nat / 100);
    lemma_pad2_injective(t1.year as nat % 100, t2.year as nat % 100);
    lemma_pad2_injective(t1.month as nat, t2.month as nat);
    lemma_pad2_injective(t1.day as nat, t2.day as nat);
    lemma_pad2_injective(t1.hour as nat, t2.hour as nat);
    lemma_pad2_injective(t1.minute as nat, t2.minute as nat);
    lemma_pad2_injective(t1.second as nat, t2.second as nat);
}

/// Backup names of one VM agree exactly when they are taken in the same second: the same
/// time gives the same name, and two different times (a second apart or more) give
/// different names.
pub proof fn lemma_backup_names_by_second(vm_id: Seq<char>, t1: Timestamp, t2: Timestamp)
    requires
        valid_timestamp(t1),
        valid_timestamp(t2),
    ensures
        (backup_name_text(vm_id, t1) == backup_name_text(vm_id, t2)) <==> (t1 == t2),
{
    if backup_name_text(vm_id, t1) == backup_name_text(vm_id, t2) {
        reveal_strlit("_");
        let start = vm_id.len() as int + 1;
        assert(backup_name_text(vm_id, t1).subrange(start, start + 15) =~= stamp_text(t1));
        assert(backup_name_text(vm_id, t2).subrange(start, start + 15) =~= stamp_text(t2));
        lemma_stamp_injective(t1, t2);
    }
}

/// A runtime operation carried out through the control socket.
pub enum MonitorOp {
    /// Graceful quit.
    Stop,
    /// Hardware reset.
    Reset,
    /// ACPI power-button event.
    Powerdown,
    /// Put the named image into the removable-media drive.
    MountMedia { media: String },
    /// Eject the removable media.
    UnmountMedia,
    /// Live-migrate to the node at this address.
    Migrate { target: String },
    /// Stream the VM state into a compressed file.
    Backup,
}

/// The host paths that monitor commands refer to.
pub struct MonitorPaths {
    /// Directory of the media images.
    pub iso_path: String,
    /// Directory of the backup files.
    pub live_path: String,
    /// The compressor that a backup is piped through.
    pub gzip_path: String,
}

/// The monitor command line for `op` on `vm_id`; a backup is named after the time in `t`,
/// which the other operations do not read.
pub open spec fn monitor_command_text(
    op: MonitorOp,
    paths: MonitorPaths,
    vm_id: Seq<char>,
    t: Option<Timestamp>,
) -> Seq<char> {
    match op {
        MonitorOp::Stop => "quit"@,
        MonitorOp::Reset => "system_reset"@,
        MonitorOp::Powerdown => "system_powerdown"@,
        MonitorOp::MountMedia { media } => "change ide0-cd0 "@ + paths.iso_path@ + "/"@ + media@,
        MonitorOp::UnmountMedia => "eject ide0-cd0"@,
        MonitorOp::Migrate { target } => "migrate -d tcp:"@ + target@ + ":4444"@,
        MonitorOp::Backup => "migrate \"exec: "@ + paths.gzip_path@ + " -c > "@ + paths.live_path@
            + "/"@ + backup_name_text(vm_id, t->Some_0) + "\""@,
    }
}

/// Why the arguments of `op` are refused; `None` when they are accepted.
pub open spec fn op_fault(op: MonitorOp) -> Option<VmError> {
    match op {
        MonitorOp::MountMedia { media } => if is_safe_name(media@) {
            None
        } else {
            Some(VmError::InvalidName(name_fault(media@)->Some_0))
        },
        MonitorOp::Migrate { target } => if is_ipv4_text(target@) {
            None
        } else {
            Some(VmError::InvalidAddress)
        },
        _ => None,
    }
}

/// Builds the monitor command for `op` on `vm_id`, naming a backup after time `t`. A media
/// name must pass sanitization and a migration target must be an IPv4 address.
pub fn monitor_command(op: &MonitorOp, paths: &MonitorPaths, vm_id: &str, t: &Option<Timestamp>) -> (r:
    Result<String, VmError>)
    requires
        *op is Backup ==> (*t matches Some(x) && valid_timestamp(x)),
    ensures
        match op_fault(*op) {
            Some(e) => r matches Err(x) && x == e,
            None => r matches Ok(c) && c@ == monitor_command_text(*op, *paths, vm_id@, *t),
        },
{
    match op {
        MonitorOp::Stop => Ok(String::from_str("quit")),
        MonitorOp::Reset => Ok(String::from_str("system_reset")),
        MonitorOp::Powerdown => Ok(String::from_str("system_powerdown")),
        MonitorOp::MountMedia { media } => {
            match sanitize_name(media.as_str()) {
                Err(e) => Err(e),
                Ok(_) => {
                    let mut c = String::from_str("change ide0-cd0 ");
                    c.append(paths.iso_path.as_str());
                    c.append("/");
                    c.append(media.as_str());
                    Ok(c)
                },
            }
        },
        MonitorOp::UnmountMedia => Ok(String::from_str("eject ide0-cd0")),
        MonitorOp::Migrate { target } => {
            match validate_ip(target.as_str()) {
                Err(e) => Err(e),
                Ok(_) => {
                    let mut c = String::from_str("migrate -d tcp:");
                    c.append(target.as_str());
                    c.append(":4444");
                    Ok(c)
                },
            }
        },
        MonitorOp::Backup => {
            let mut c = String::from_str("migrate \"exec: ");
            c.append(paths.gzip_path.as_str());
            c.append(" -c > ");
            c.append(paths.live_path.as_str());
            c.append("/");
            let stamp = match t {
                Some(x) => x,
                None => {
                    return Err(VmError::ConfigurationError(ConfigFault::ClockOutOfRange));
                },
            };
            c.append(backup_file_name(vm_id, stamp).as_str());
            c.append("\"");
            Ok(c)
        },
    }
}

/// The backup command for `vm_id`, named after the local time now. The clock is read here,
/// so nothing fixes which second the name records; whatever it is, the command has the form
/// of `monitor_command_text` for a valid time.
pub fn backup_command(paths: &MonitorPaths, vm_id: &str) -> (r: Result<String, VmError>)
    ensures
        (r matches Ok(c) ==> exists|t: Timestamp|
            valid_timestamp(t) && c@ == #[trigger] monitor_command_text(
                MonitorOp::Backup,
                *paths,
                vm_id@,
                Some(t),
            )),
        r matches Err(e) ==> e matches VmError::ConfigurationError(ConfigFault::ClockOutOfRange),
{
    match current_timestamp() {
        None => Err(VmError::ConfigurationError(ConfigFault::ClockOutOfRange)),
        Some(t) => {
            let r = monitor_command(&MonitorOp::Backup, paths, vm_id, &Some(t));
            assert(op_fault(MonitorOp::Backup) is None);
            r
        },
    }
}

/// The index of the first space of `s`.
pub open spec fn first_space(s: Seq<char>) -> Option<int> {
    if exists|i: int| 0 <= i < s.len() && s[i] == ' ' {
        Some(choose|i: int| 0 <= i < s.len() && s[i] == ' ' && forall|j: int| 0 <= j < i ==> s[j] != ' ')
    } else {
        None
    }
}

fn find_space(s: &str) -> (r: Option<usize>)
    ensures
        match r {
            Some(i) => i < s@.len() && s@[i as int] == ' ' && forall|j: int| 0 <= j < i ==> s@[j] != ' ',
            None => forall|j: int| 0 <= j < s@.len() ==> s@[j] != ' ',
        },
{
    let n = s.unicode_len();
    let mut i: usize = 0;
    while i < n
        invariant
            i <= n,
            n == s@.len(),
            forall|j: int| 0 <= j < i ==> s@[j] != ' ',
        decreases n - i,
    {
        if s.get_char(i) == ' ' {
            return Some(i);
        }
        i += 1;
    }
    None
}

/// The operation words that requests use.
pub open spec fn op_word_kind(mode: Seq<char>) -> int {
    if mode == "stop"@ {
        0
    } else if mode == "reset"@ {
        1
    } else if mode == "powerdown"@ {
        2
    } else if mode == "mountiso"@ {
        3
    } else if mode == "unmountiso"@ {
        4
    } else if mode == "livemigrate"@ {
        5
    } else if mode == "backup"@ {
        6
    } else {
        -1
    }
}

/// Reads a request `mode` with its argument text: the VM name alone, or for `mountiso` and
/// `livemigrate` the VM name, one space, and the media name or target address.
pub fn parse_monitor_request(mode: &str, smac: &str) -> (r: Result<(String, MonitorOp), VmError>)
    ensures
        op_word_kind(mode@) == -1 ==> r matches Err(VmError::UnknownOperation),
        op_word_kind(mode@) == 0 ==> (r matches Ok((v, MonitorOp::Stop)) && v@ == smac@),
        op_word_kind(mode@) == 1 ==> (r matches Ok((v, MonitorOp::Reset)) && v@ == smac@),
        op_word_kind(mode@) == 2 ==> (r matches Ok((v, MonitorOp::Powerdown)) && v@ == smac@),
        op_word_kind(mode@) == 4 ==> (r matches Ok((v, MonitorOp::UnmountMedia)) && v@ == smac@),
        op_word_kind(mode@) == 6 ==> (r matches Ok((v, MonitorOp::Backup)) && v@ == smac@),
        op_word_kind(mode@) == 3 ==> match first_space(smac@) {
            Some(i) => r matches Ok((v, MonitorOp::MountMedia { media })) && v@ == smac@.take(i)
                && media@ == smac@.skip(i + 1),
            None => r matches Err(VmError::MissingArgument),
        },
        op_word_kind(mode@) == 5 ==> match first_space(smac@) {
            Some(i) => r matches Ok((v, MonitorOp::Migrate { target })) && v@ == smac@.take(i)
                && target@ == smac@.skip(i + 1),
            None => r matches Err(VmError::MissingArgument),
        },
{
    proof {
        reveal_strlit("stop");
        reveal_strlit("reset");
        reveal_strlit("powerdown");
        reveal_strlit("mountiso");
        reveal_strlit("unmountiso");
        reveal_strlit("livemigrate");
        reveal_strlit("backup");
        assert("unmountiso"@.len() != "mountiso"@.len());
        assert("unmountiso"@.len() != "livemigrate"@.len());
        assert("backup"@.len() != "mountiso"@.len());
        assert("backup"@.len() != "livemigrate"@.len());
    }
    let whole = String::from_str(smac);
    if same_text(mode, "stop") {
        return Ok((whole, MonitorOp::Stop));
    }
    if same_text(mode, "reset") {
        return Ok((whole, MonitorOp::Reset));
    }
    if same_text(mode, "powerdown") {
        return Ok((whole, MonitorOp::Powerdown));
    }
    if same_text(mode, "unmountiso") {
        return Ok((whole, MonitorOp::UnmountMedia));
    }
    if same_text(mode, "backup") {
        return Ok((whole, MonitorOp::Backup));
    }
    let mount = same_text(mode, "mountiso");
    let migrate = same_text(mode, "livemigrate");
    if !mount && !migrate {
        return Err(VmError::UnknownOperation);
    }
    let n = smac.unicode_len();
    match find_space(smac) {
        None => {
            assert(first_space(smac@) is None);
            Err(VmError::MissingArgument)
        },
        Some(i) => {
            assert(first_space(smac@) == Some(i as int)) by {
                let k = first_space(smac@)->Some_0;
                assert(!(k < (i as int)) && !((i as int) < k));
            }
            let vm = String::from_str(smac.substring_char(0, i));
            let rest = String::from_str(smac.substring_char(i + 1, n));
            assert(smac@.subrange(0, i as int) =~= smac@.take(i as int));
            assert(smac@.subrange(i + 1, n as int) =~= smac@.skip(i + 1));
            if mount {
                Ok((vm, MonitorOp::MountMedia { media: rest }))
            } else {
                Ok((vm, MonitorOp::Migrate { target: rest }))
            }
        },
    }
}

/// What came back from the control socket.
pub enum MonitorReply {
    /// The raw bytes read back, as text.
    Output(String),
    /// The command was sent but nothing came back in time; several commands (quit, power
    /// events) never answer, so this is no failure.
    NoReply,
    /// The socket could not be reached, most often because the VM is not running.
    Unreachable(String),
}

/// The operation transcript for `cmd` sent to `vm_id`.
pub open spec fn transcript_text(vm_id: Seq<char>, cmd: Seq<char>, reply: MonitorReply) -> Seq<char> {
    "monitor("@ + vm_id + ") => "@ + cmd + "\n"@ + match reply {
        MonitorReply::Output(raw) => (if cleaned_text(raw@).len() > 0 {
            cleaned_text(raw@) + "\n"@
        } else {
            seq![]
        }) + "OK\n"@,
        MonitorReply::NoReply => "no response before timeout; the command may still take effect\n"@,
        MonitorReply::Unreachable(e) => "Error: "@ + e@ + "\n"@,
    }
}

/// Renders the result of a monitor exchange as transcript text: the command, then the
/// cleaned response and `OK`, a notice that no answer came, or the error.
pub fn monitor_transcript(vm_id: &str, cmd: &str, reply: &MonitorReply) -> (r: String)
    ensures
        r@ == transcript_text(vm_id@, cmd@, *reply),
{
    let mut out = String::from_str("monitor(");
    out.append(vm_id);
    out.append(") => ");
    out.append(cmd);
    out.append("\n");
    match reply {
        MonitorReply::Output(raw) => {
            let clean = clean_monitor_output(raw.as_str());
            if clean.as_str().unicode_len() > 0 {
                out.append(clean.as_str());
                out.append("\n");
            }
            out.append("OK\n");
        },
        MonitorReply::NoReply => {
            out.append("no response before timeout; the command may still take effect\n");
        },
        MonitorReply::Unreachable(e) => {
            out.append("Error: ");
            out.append(e.as_str());
            out.append("\n");
        },
    }
    assert(out@ =~= transcript_text(vm_id@, cmd@, *reply));
    out
}

/// The position of the last `c` in `s`.
pub open spec fn last_index_of(s: Seq<char>, c: char) -> Option<int>
    decreases s.len(),
{
    if s.len() == 0 {
        None
    } else if s.last() == c {
        Some(s.len() - 1)
    } else {
        last_index_of(s.drop_last(), c)
    }
}

fn find_last(s: &str, end: usize, c: char) -> (r: Option<usize>)
    requires
        end <= s@.len(),
    ensures
        match last_index_of(s@.take(end as int), c) {
            Some(k) => r == Some(k as usize) && 0 <= k < end,
            None => r is None,
        },
{
    let mut i = end;
    while i > 0
        invariant
            i <= end <= s@.len(),
            last_index_of(s@.take(end as int), c) == last_index_of(s@.take(i as int), c),
        decreases i,
    {
        assert(s@.take(i as int).last() == s@[i - 1]);
        assert(s@.take(i as int).drop_last() =~= s@.take(i - 1));
        if s.get_char(i - 1) == c {
            return Some(i - 1);
        }
        i -= 1;
    }
    None
}

/// What the backup list shows of a file name `<vm>_YYYYMMDD_HHMMSS.gz`: the VM name and
/// the time as `YYYY-MM-DD HH:MM:SS`; a `.gz` file of another shape shows its whole base
/// name and no time; other files are not backups.
pub open spec fn backup_listing_text(fname: Seq<char>) -> Option<(Seq<char>, Seq<char>)> {
    if !ends_with(fname, ".gz"@) {
        None
    } else {
        let base = trim_suffixes(fname, ".gz"@);
        match last_index_of(base, '_') {
            None => Some((base, seq![])),
            Some(j1) => match last_index_of(base.take(j1), '_') {
                None => Some((base, seq![])),
                Some(j2) => {
                    let hms = base.skip(j1 + 1);
                    let ymd = base.subrange(j2 + 1, j1);
                    if ymd.len() >= 8 && hms.len() >= 6 {
                        Some(
                            (
                                base.take(j2),
                                ymd.take(4) + "-"@ + ymd.subrange(4, 6) + "-"@ + ymd.subrange(6, 8)
                                    + " "@ + hms.take(2) + ":"@ + hms.subrange(2, 4) + ":"@
                                    + hms.subrange(4, 6),
                            ),
                        )
                    } else {
                        Some((base, seq![]))
                    }
                },
            },
        }
    }
}

/// Reads the VM name and the time back out of a backup file name.
pub fn backup_listing(fname: &str) -> (r: Option<(String, String)>)
    ensures
        match backup_listing_text(fname@) {
            Some((v, t)) => r matches Some((a, b)) && a@ == v && b@ == t,
            None => r is None,
        },
{
    proof {
        reveal_strlit(".gz");
    }
    let fl = fname.unicode_len();
    if fl < 3 || !same_text(fname.substring_char(fl - 3, fl), ".gz") {
        return None;
    }
    let base = trim_all(fname, ".gz");
    let b = base.as_str();
    let n = b.unicode_len();
    assert(b@.take(n as int) =~= b@);
    let j1 = match find_last(b, n, '_') {
        None => {
            return Some((base.clone(), String::new()));
        },
        Some(j) => j,
    };
    let j2 = match find_last(b, j1, '_') {
        None => {
            return Some((base.clone(), String::new()));
        },
        Some(j) => j,
    };
    let hms = b.substring_char(j1 + 1, n);
    let ymd = b.substring_char(j2 + 1, j1);
    if ymd.unicode_len() < 8 || hms.unicode_len() < 6 {
        return Some((base.clone(), String::new()));
    }
    let vm = String::from_str(b.substring_char(0, j2));
    let mut t = String::from_str(ymd.substring_char(0, 4));
    t.append("-");
    t.append(ymd.substring_char(4, 6));
    t.append("-");
    t.append(ymd.substring_char(6, 8));
    t.append(" ");
    t.append(hms.substring_char(0, 2));
    t.append(":");
    t.append(hms.substring_char(2, 4));
    t.append(":");
    t.append(hms.substring_char(4, 6));
    assert(b@.subrange(0, j2 as int) =~= b@.take(j2 as int));
    assert(b@.subrange(j1 + 1, n as int) =~= b@.skip(j1 + 1));
    assert(ymd@.subrange(0, 4) =~= ymd@.take(4));
    assert(hms@.subrange(0, 2) =~= hms@.take(2));
    Some((vm, t))
}

} // verus!
