use vstd::prelude::*;
use vstd::string::*;
use vstd::utf8::encode_utf8;

use crate::error::{ConfigFault, VmError};
use crate::names::{parse_unsigned, parsed_unsigned};
use crate::text::{contains_text, decimal, decimal_text, holds_text, same_text};

verus! {

/// The lowercase form that `str::to_lowercase` gives of a string.
pub uninterp spec fn lower_of(s: Seq<char>) -> Seq<char>;

/// Relies on `str::to_lowercase`: Unicode lowercase mapping, a function of the characters
/// alone.
#[verifier::external_body]
fn lowercase(s: &str) -> (r: String)
    ensures
        r@ == lower_of(s@),
{
    s.to_lowercase()
}

pub open spec fn ends_with(s: Seq<char>, suffix: Seq<char>) -> bool {
    suffix.len() <= s.len() && s.subrange(s.len() - suffix.len(), s.len() as int) == suffix
}

fn has_suffix(s: &str, suffix: &str) -> (r: bool)
    ensures
        r == ends_with(s@, suffix@),
{
    let n = s.unicode_len();
    let m = suffix.unicode_len();
    if m > n {
        return false;
    }
    same_text(s.substring_char(n - m, n), suffix)
}

/// The image format that a (lowercased) file name's extension names.
pub open spec fn image_format_of(lower: Seq<char>) -> Option<Seq<char>> {
    if ends_with(lower, ".vmdk"@) {
        Some("vmdk"@)
    } else if ends_with(lower, ".vdi"@) {
        Some("vdi"@)
    } else if ends_with(lower, ".vhdx"@) {
        Some("vhdx"@)
    } else if ends_with(lower, ".raw"@) || ends_with(lower, ".img"@) {
        Some("raw"@)
    } else if ends_with(lower, ".qcow2"@) {
        Some("qcow2"@)
    } else {
        None
    }
}

/// The image format named by the extension of an already lowercased file name.
pub fn detect_image_format_folded(lower: &str) -> (r: Option<&'static str>)
    ensures
        match image_format_of(lower@) {
            Some(f) => r matches Some(x) && x@ == f,
            None => r is None,
        },
{
    if has_suffix(lower, ".vmdk") {
        Some("vmdk")
    } else if has_suffix(lower, ".vdi") {
        Some("vdi")
    } else if has_suffix(lower, ".vhdx") {
        Some("vhdx")
    } else if has_suffix(lower, ".raw") || has_suffix(lower, ".img") {
        Some("raw")
    } else if has_suffix(lower, ".qcow2") {
        Some("qcow2")
    } else {
        None
    }
}

/// The input format for converting an uploaded image, read from its file extension in any
/// letter case.
pub fn detect_image_format(filename: &str) -> (r: Option<&'static str>)
    ensures
        match image_format_of(lower_of(filename@)) {
            Some(f) => r matches Some(x) && x@ == f,
            None => r is None,
        },
{
    let lower = lowercase(filename);
    detect_image_format_folded(lower.as_str())
}

/// Optional API-key check: with an empty key every request passes.
pub struct ApiKeyAuth(pub String);

/// A request passes when no key is configured, when its path is outside `/api/`, or when
/// it presents the key.
pub open spec fn request_allowed(key: Seq<char>, path: Seq<char>, provided: Seq<char>) -> bool {
    key.len() == 0 || !(path.len() >= 5 && path.take(5) == "/api/"@) || provided == key
}

impl ApiKeyAuth {
    /// Whether a request for `path` that presents `provided` as its key may go through.
    pub fn allows(&self, path: &str, provided: &str) -> (r: bool)
        ensures
            r == request_allowed(self.0@, path@, provided@),
    {
        if self.0.as_str().unicode_len() == 0 {
            return true;
        }
        let n = path.unicode_len();
        if n < 5 || !same_text(path.substring_char(0, 5), "/api/") {
            return true;
        }
        same_text(provided, self.0.as_str())
    }
}

/// The URL that reports a VM's maintenance mode to the inventory service.
pub fn ma_mode_url(domain: &str, smac: &str, mode: &str) -> (r: String)
    ensures
        r@ == "https://"@ + domain@ + "/api/v1.0/instances/"@ + smac@ + "/update-ma-mode/"@ + mode@,
{
    let mut u = String::from_str("https://");
    u.append(domain);
    u.append("/api/v1.0/instances/");
    u.append(smac);
    u.append("/update-ma-mode/");
    u.append(mode);
    u
}

/// The URL that reports a VM's status to the inventory service.
pub fn update_status_url(domain: &str, smac: &str, mode: &str) -> (r: String)
    ensures
        r@ == "https://"@ + domain@ + "/api/v1.0/instances/"@ + smac@ + "/update-status/"@ + mode@,
{
    let mut u = String::from_str("https://");
    u.append(domain);
    u.append("/api/v1.0/instances/");
    u.append(smac);
    u.append("/update-status/");
    u.append(mode);
    u
}

/// A disk size: a decimal number of at most `u64::MAX` followed by `G` or `M`.
pub open spec fn is_disk_size(s: Seq<char>) -> bool {
    &&& s.len() >= 2
    &&& (s.last() == 'G' || s.last() == 'M')
    &&& parsed_unsigned(s.drop_last(), u64::MAX as nat) is Some
}

/// Accepts a disk size such as `40G` or `512M`.
pub fn validate_disk_size(size: &str) -> (r: Result<(), VmError>)
    ensures
        r is Ok <==> is_disk_size(size@),
        r matches Err(e) ==> e matches VmError::ConfigurationError(ConfigFault::BadDiskSize),
{
    let n = size.unicode_len();
    if n < 2 {
        return Err(VmError::ConfigurationError(ConfigFault::BadDiskSize));
    }
    let unit = size.get_char(n - 1);
    if unit != 'G' && unit != 'M' {
        return Err(VmError::ConfigurationError(ConfigFault::BadDiskSize));
    }
    let number = size.substring_char(0, n - 1);
    assert(number@ =~= size@.drop_last());
    match parse_unsigned(number, 0xffff_ffff_ffff_ffff) {
        Some(_) => Ok(()),
        None => Err(VmError::ConfigurationError(ConfigFault::BadDiskSize)),
    }
}

/// The size label recorded for a cloned disk of `bytes` bytes: whole GiB when at least one
/// GiB, else whole MiB.
pub fn disk_size_label(bytes: u64) -> (r: String)
    ensures
        r@ == if bytes / 1048576 >= 1024 {
            decimal_text((bytes / 1048576 / 1024) as nat) + "G"@
        } else {
            decimal_text((bytes / 1048576) as nat) + "M"@
        },
{
    let mb = bytes / 1024 / 1024;
    assert(mb == bytes / 1048576) by (nonlinear_arith)
        requires
            mb == bytes / 1024 / 1024,
    ;
    if mb >= 1024 {
        let mut l = decimal(mb / 1024);
        l.append("G");
        l
    } else {
        let mut l = decimal(mb);
        l.append("M");
        l
    }
}

/// `s` with every trailing repetition of `suffix` removed, as `str::trim_end_matches` does.
pub open spec fn trim_suffixes(s: Seq<char>, suffix: Seq<char>) -> Seq<char>
    decreases s.len(),
{
    if suffix.len() > 0 && ends_with(s, suffix) {
        trim_suffixes(s.take(s.len() - suffix.len()), suffix)
    } else {
        s
    }
}

/// `s` with every trailing repetition of `suffix` removed.
pub fn trim_all(s: &str, suffix: &str) -> (r: String)
    requires
        suffix@.len() > 0,
    ensures
        r@ == trim_suffixes(s@, suffix@),
{
    let m = suffix.unicode_len();
    let mut n = s.unicode_len();
    assert(s@.take(n as int) =~= s@);
    while n >= m && same_text(s.substring_char(n - m, n), suffix)
        invariant
            n <= s@.len(),
            m == suffix@.len(),
            m > 0,
            trim_suffixes(s@, suffix@) == trim_suffixes(s@.take(n as int), suffix@),
        decreases n,
    {
        assert(s@.take(n as int).subrange(n - m, n as int) =~= s@.subrange(n - m, n as int));
        assert(s@.take(n as int).take(n - m) =~= s@.take(n - m));
        n -= m;
    }
    assert(n >= m ==> s@.take(n as int).subrange(n - m, n as int) =~= s@.subrange(n - m, n as int));
    String::from_str(s.substring_char(0, n))
}

/// The disk names that image files imply: for each file name ending in `.qcow2`, the name
/// with that extension trimmed, when it is non-empty and not among `known`.
pub open spec fn implied_disks(files: Seq<String>, known: Seq<String>) -> Seq<Seq<char>>
    decreases files.len(),
{
    if files.len() == 0 {
        seq![]
    } else {
        let f = files.last()@;
        let base = trim_suffixes(f, ".qcow2"@);
        let rest = implied_disks(files.drop_last(), known);
        if ends_with(f, ".qcow2"@) && base.len() > 0 && !holds_text(known, base) {
            rest.push(base)
        } else {
            rest
        }
    }
}

/// The disks found as image files in the disk directory that the record store lacks.
pub fn unregistered_disk_names(files: &Vec<String>, known: &Vec<String>) -> (r: Vec<String>)
    ensures
        crate::names::string_views(r@) == implied_disks(files@, known@),
{
    let mut out: Vec<String> = Vec::new();
    let mut i: usize = 0;
    while i < files.len()
        invariant
            i <= files@.len(),
            crate::names::string_views(out@) == implied_disks(files@.take(i as int), known@),
        decreases files@.len() - i,
    {
        assert(files@.take(i + 1).drop_last() =~= files@.take(i as int));
        assert(files@.take(i + 1).last() == files@[i as int]);
        let f = files[i].as_str();
        if has_suffix(f, ".qcow2") {
            proof {
                reveal_strlit(".qcow2");
            }
            let base = trim_all(f, ".qcow2");
            if base.as_str().unicode_len() > 0 && !contains_text(known, &base) {
                let ghost before = out@;
                out.push(base);
                assert(crate::names::string_views(out@) =~= crate::names::string_views(before).push(
                    out@.last()@,
                ));
            }
        }
        i += 1;
    }
    assert(files@.take(i as int) =~= files@);
    out
}

/// The characters that an uploaded file's name keeps.
pub open spec fn upload_char_ok(c: char) -> bool {
    crate::names::unicode_alphanumeric(c) || c == '-' || c == '_' || c == '.'
}

/// `s` without the characters that an uploaded file's name may not hold.
pub open spec fn upload_name_text(s: Seq<char>) -> Seq<char>
    decreases s.len(),
{
    if s.len() == 0 {
        seq![]
    } else if upload_char_ok(s.last()) {
        upload_name_text(s.drop_last()).push(s.last())
    } else {
        upload_name_text(s.drop_last())
    }
}

/// The name an uploaded file is stored under: the given name with every character other
/// than alphanumerics, `-`, `_` and `.` dropped.
pub fn upload_file_name(name: &str) -> (r: String)
    ensures
        r@ == upload_name_text(name@),
{
    let n = name.unicode_len();
    let mut out = String::new();
    let mut i: usize = 0;
    assert(name@.take(0) =~= Seq::<char>::empty());
    while i < n
        invariant
            i <= n,
            n == name@.len(),
            out@ == upload_name_text(name@.take(i as int)),
        decreases n - i,
    {
        let c = name.get_char(i);
        assert(name@.take(i + 1).drop_last() =~= name@.take(i as int));
        assert(name@.take(i + 1).last() == c);
        if crate::names::is_alphanumeric(c) || c == '-' || c == '_' || c == '.' {
            out.append(name.substring_char(i, i + 1));
            assert(name@.subrange(i as int, i + 1) =~= seq![c]);
        }
        i += 1;
    }
    assert(name@.take(n as int) =~= name@);
    out
}

/// The root password to store when a guest's identity is saved: a new password must have
/// at least 6 bytes; an empty one keeps the password already stored.
pub fn root_password_update(new_pw: &str, existing: &str) -> (r: Result<String, VmError>)
    ensures
        new_pw@.len() == 0 ==> (r matches Ok(p) && p@ == existing@),
        new_pw@.len() > 0 && encode_utf8(new_pw@).len() < 6 ==> (r matches Err(
            VmError::ConfigurationError(ConfigFault::ShortPassword),
        )),
        new_pw@.len() > 0 && encode_utf8(new_pw@).len() >= 6 ==> (r matches Ok(p) && p@ == new_pw@),
{
    let n = new_pw.unicode_len();
    if n == 0 {
        return Ok(String::from_str(existing));
    }
    proof {
        crate::names::lemma_utf8_len_bounds(new_pw@);
    }
    if n >= 6 {
        return Ok(String::from_str(new_pw));
    }
    let bytes = new_pw.len();
    assert(new_pw.spec_bytes() == encode_utf8(new_pw@));
    if bytes < 6 {
        Err(VmError::ConfigurationError(ConfigFault::ShortPassword))
    } else {
        Ok(String::from_str(new_pw))
    }
}

} // verus!
