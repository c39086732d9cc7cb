use vstd::prelude::*;
use vstd::string::*;
use vstd::utf8::encode_utf8;

use crate::error::{NameFault, VmError};

verus! {

/// Longest identifier accepted, counted in UTF-8 bytes.
pub const MAX_NAME_BYTES: usize = 255;

/// Whether `char::is_alphanumeric` holds of a character (Unicode Alphabetic or Numeric).
pub uninterp spec fn unicode_alphanumeric(c: char) -> bool;

pub open spec fn is_ascii_alnum(c: char) -> bool {
    ('a' <= c && c <= 'z') || ('A' <= c && c <= 'Z') || ('0' <= c && c <= '9')
}

/// Relies on `char::is_alphanumeric`: Alphabetic or Numeric in Unicode terms, which on
/// ASCII characters are exactly the letters and the digits.
#[verifier::external_body]
pub(crate) fn is_alphanumeric(c: char) -> (r: bool)
    ensures
        r == unicode_alphanumeric(c),
        (c as u32) < 128 ==> (r <==> is_ascii_alnum(c)),
{
    c.is_alphanumeric()
}

pub open spec fn name_char_allowed(c: char) -> bool {
    unicode_alphanumeric(c) || c == '-' || c == '_' || c == '.' || c == ':'
}

/// The first character of `s` that an identifier may not hold.
pub open spec fn first_disallowed(s: Seq<char>) -> Option<char>
    decreases s.len(),
{
    if s.len() == 0 {
        None
    } else if !name_char_allowed(s[0]) {
        Some(s[0])
    } else {
        first_disallowed(s.drop_first())
    }
}

pub open spec fn has_double_dot(s: Seq<char>) -> bool {
    exists|i: int| 0 <= i && i + 1 < s.len() && s[i] == '.' && #[trigger] s[i + 1] == '.'
}

/// Why `s` is refused as an identifier, checked in this order; `None` when it is accepted.
pub open spec fn name_fault(s: Seq<char>) -> Option<NameFault> {
    if s.len() == 0 {
        Some(NameFault::Empty)
    } else if encode_utf8(s).len() > MAX_NAME_BYTES {
        Some(NameFault::TooLong)
    } else if has_double_dot(s) {
        Some(NameFault::DotDot)
    } else {
        match first_disallowed(s) {
            Some(c) => Some(NameFault::BadChar(c)),
            None => None,
        }
    }
}

/// A string of `n` characters takes between `n` and `4 * n` bytes in UTF-8.
pub proof fn lemma_utf8_len_bounds(s: Seq<char>)
    ensures
        s.len() <= encode_utf8(s).len() <= 4 * s.len(),
    decreases s.len(),
{
    if s.len() > 0 {
        lemma_utf8_len_bounds(s.drop_first());
    }
}

pub open spec fn is_safe_name(s: Seq<char>) -> bool {
    name_fault(s) is None
}

/// Accepts a string as a VM, disk or media identifier: non-empty, at most 255 bytes,
/// no `..`, and only alphanumerics, `-`, `_`, `.` and `:`.
pub fn sanitize_name(name: &str) -> (r: Result<&str, VmError>)
    ensures
        match r {
            Ok(n) => n@ == name@ && is_safe_name(name@),
            Err(e) => name_fault(name@) is Some && e == VmError::InvalidName(
                name_fault(name@)->Some_0,
            ),
        },
{
    let n = name.unicode_len();
    if n == 0 {
        return Err(VmError::InvalidName(NameFault::Empty));
    }
    proof {
        lemma_utf8_len_bounds(name@);
    }
    if n > MAX_NAME_BYTES {
        return Err(VmError::InvalidName(NameFault::TooLong));
    }
    let nbytes = name.len();
    assert(name.spec_bytes() == encode_utf8(name@));
    assert(nbytes as int == encode_utf8(name@).len());
    if nbytes > MAX_NAME_BYTES {
        return Err(VmError::InvalidName(NameFault::TooLong));
    }
    let mut i: usize = 1;
    while i < n
        invariant
            1 <= i <= n,
            n == name@.len(),
            encode_utf8(name@).len() <= MAX_NAME_BYTES,
            forall|j: int| 0 <= j && j + 1 < i ==> !(name@[j] == '.' && #[trigger] name@[j + 1] == '.'),
        decreases n - i,
    {
        if name.get_char(i - 1) == '.' && name.get_char(i) == '.' {
            assert(name@[(i - 1) as int + 1] == '.');
            assert(has_double_dot(name@));
            return Err(VmError::InvalidName(NameFault::DotDot));
        }
        i += 1;
    }
    assert(!has_double_dot(name@));
    assert(name@.subrange(0, n as int) =~= name@);
    let mut k: usize = 0;
    while k < n
        invariant
            k <= n,
            n == name@.len(),
            n > 0,
            encode_utf8(name@).len() <= MAX_NAME_BYTES,
            !has_double_dot(name@),
            first_disallowed(name@) == first_disallowed(name@.subrange(k as int, n as int)),
        decreases n - k,
    {
        let c = name.get_char(k);
        assert(name@.subrange(k as int, n as int).drop_first() =~= name@.subrange(k + 1, n as int));
        let allowed = is_alphanumeric(c) || c == '-' || c == '_' || c == '.' || c == ':';
        if !allowed {
            assert(name@.subrange(k as int, n as int)[0] == c);
            assert(first_disallowed(name@) == Some(c));
            return Err(VmError::InvalidName(NameFault::BadChar(c)));
        }
        k += 1;
    }
    assert(name@.subrange(n as int, n as int) =~= Seq::<char>::empty());
    Ok(name)
}

pub open spec fn is_dec_digit(c: char) -> bool {
    '0' <= c && c <= '9'
}

pub open spec fn digit_value(c: char) -> nat {
    (c as int - 48) as nat
}

pub open spec fn all_digits(s: Seq<char>) -> bool {
    forall|i: int| 0 <= i < s.len() ==> is_dec_digit(#[trigger] s[i])
}

/// The number that a run of decimal digits denotes.
pub open spec fn digits_value(s: Seq<char>) -> nat
    decreases s.len(),
{
    if s.len() == 0 {
        0
    } else {
        digits_value(s.drop_last()) * 10 + digit_value(s.last())
    }
}

/// The digits of an unsigned number as `str::parse` reads them: after one optional `+`.
pub open spec fn unsigned_digits(s: Seq<char>) -> Seq<char> {
    if s.len() > 0 && s[0] == '+' {
        s.drop_first()
    } else {
        s
    }
}

/// The value of `s` read as an unsigned decimal number no larger than `max`.
pub open spec fn parsed_unsigned(s: Seq<char>, max: nat) -> Option<nat> {
    let d = unsigned_digits(s);
    if d.len() > 0 && all_digits(d) && digits_value(d) <= max {
        Some(digits_value(d))
    } else {
        None
    }
}

/// Reads `s` as an unsigned decimal number no larger than `max`, as `str::parse` does for
/// unsigned integer types of that range.
pub fn parse_unsigned(s: &str, max: u64) -> (r: Option<u64>)
    ensures
        match parsed_unsigned(s@, max as nat) {
            Some(v) => r == Some(v as u64),
            None => r is None,
        },
{
    let n = s.unicode_len();
    let mut start: usize = 0;
    if n > 0 && s.get_char(0) == '+' {
        start = 1;
    }
    assert(unsigned_digits(s@) =~= s@.subrange(start as int, n as int));
    if start == n {
        return None;
    }
    let mut k: usize = start;
    let mut acc: u64 = 0;
    let mut overflow = false;
    let ghost mut value: nat = 0;
    assert(s@.subrange(start as int, start as int) =~= Seq::<char>::empty());
    while k < n
        invariant
            start <= k <= n,
            n == s@.len(),
            unsigned_digits(s@) =~= s@.subrange(start as int, n as int),
            all_digits(s@.subrange(start as int, k as int)),
            value == digits_value(s@.subrange(start as int, k as int)),
            overflow ==> value > max,
            !overflow ==> acc == value && acc <= max,
        decreases n - k,
    {
        let c = s.get_char(k);
        if !('0' <= c && c <= '9') {
            assert(s@.subrange(start as int, n as int)[k - start] == c);
            return None;
        }
        let d = (c as u32 - 48) as u64;
        let ghost prefix = s@.subrange(start as int, k + 1);
        assert(prefix.drop_last() =~= s@.subrange(start as int, k as int));
        assert(prefix.last() == c);
        proof {
            value = value * 10 + digit_value(c);
        }
        if !overflow {
            if d > max || acc > (max - d) / 10 {
                assert(acc * 10 + d > max) by (nonlinear_arith)
                    requires
                        d > max || acc > (max - d) / 10,
                        d <= max ==> (max - d) / 10 * 10 + 10 > max - d,
                ;
                overflow = true;
            } else {
                assert(acc * 10 + d <= max) by (nonlinear_arith)
                    requires
                        d <= max,
                        acc <= (max - d) / 10,
                        (max - d) / 10 * 10 <= max - d,
                ;
                acc = acc * 10 + d;
            }
        }
        assert(all_digits(prefix)) by {
            assert forall|i: int| 0 <= i < prefix.len() implies is_dec_digit(#[trigger] prefix[i]) by {
                if i < prefix.len() - 1 {
                    assert(prefix[i] == s@.subrange(start as int, k as int)[i]);
                }
            }
        }
        k += 1;
    }
    assert(s@.subrange(start as int, n as int) =~= s@.subrange(start as int, k as int));
    if overflow {
        None
    } else {
        Some(acc)
    }
}

/// Accepts a console or proxy port: a decimal number of at most 65535 and at least 1024.
pub fn validate_port(port_str: &str) -> (r: Result<u16, VmError>)
    ensures
        match parsed_unsigned(port_str@, 65535) {
            Some(v) => if v >= 1024 {
                r == Ok::<u16, VmError>(v as u16)
            } else {
                r matches Err(VmError::InvalidPort)
            },
            None => r matches Err(VmError::InvalidPort),
        },
{
    match parse_unsigned(port_str, 65535) {
        None => Err(VmError::InvalidPort),
        Some(p) => {
            if p < 1024 {
                Err(VmError::InvalidPort)
            } else {
                Ok(p as u16)
            }
        },
    }
}

/// The pieces of `s` between occurrences of `sep`, as `str::split(sep)` yields them.
pub open spec fn fields_of(s: Seq<char>, sep: char) -> Seq<Seq<char>>
    decreases s.len(),
{
    if s.len() == 0 {
        seq![Seq::<char>::empty()]
    } else {
        let f = fields_of(s.drop_last(), sep);
        if s.last() == sep {
            f.push(Seq::<char>::empty())
        } else {
            f.update(f.len() - 1, f.last().push(s.last()))
        }
    }
}

pub proof fn lemma_fields_nonempty(s: Seq<char>, sep: char)
    ensures
        fields_of(s, sep).len() >= 1,
    decreases s.len(),
{
    if s.len() > 0 {
        lemma_fields_nonempty(s.drop_last(), sep);
    }
}

/// The pieces of `s` between dots.
pub open spec fn dot_fields(s: Seq<char>) -> Seq<Seq<char>> {
    fields_of(s, '.')
}

pub open spec fn string_views(v: Seq<String>) -> Seq<Seq<char>> {
    v.map_values(|x: String| x@)
}

/// Splits `s` at every `sep`.
pub fn split_on(s: &str, sep: char) -> (r: Vec<String>)
    ensures
        string_views(r@) == fields_of(s@, sep),
{
    let n = s.unicode_len();
    let mut fields: Vec<String> = Vec::new();
    let mut start: usize = 0;
    let mut k: usize = 0;
    assert(s@.subrange(0, 0) =~= Seq::<char>::empty());
    while k < n
        invariant
            start <= k <= n,
            n == s@.len(),
            fields@.len() + 1 == fields_of(s@.subrange(0, k as int), sep).len(),
            forall|j: int| 0 <= j < fields@.len() ==> #[trigger] fields@[j]@ == fields_of(
                s@.subrange(0, k as int),
                sep,
            )[j],
            fields_of(s@.subrange(0, k as int), sep)[fields@.len() as int] == s@.subrange(
                start as int,
                k as int,
            ),
        decreases n - k,
    {
        let c = s.get_char(k);
        let ghost pre = s@.subrange(0, k as int);
        let ghost next = s@.subrange(0, k + 1);
        assert(next.drop_last() =~= pre);
        assert(next.last() == c);
        if c == sep {
            let piece = String::from_str(s.substring_char(start, k));
            fields.push(piece);
            start = k + 1;
            assert(s@.subrange(start as int, k + 1) =~= Seq::<char>::empty());
        } else {
            assert(s@.subrange(start as int, k + 1) =~= s@.subrange(start as int, k as int).push(c));
        }
        k += 1;
    }
    let last = String::from_str(s.substring_char(start, n));
    fields.push(last);
    assert(s@.subrange(0, n as int) =~= s@);
    assert(string_views(fields@) =~= fields_of(s@, sep));
    fields
}

/// Splits `s` at every `.`.
pub fn split_dots(s: &str) -> (r: Vec<String>)
    ensures
        string_views(r@) == dot_fields(s@),
{
    split_on(s, '.')
}

/// A dotted-quad IPv4 address: four fields, each a decimal number of at most 255.
pub open spec fn is_ipv4_text(s: Seq<char>) -> bool {
    let f = dot_fields(s);
    f.len() == 4 && forall|i: int| 0 <= i < 4 ==> (#[trigger] parsed_unsigned(f[i], 255)) is Some
}

/// Accepts a dotted-quad IPv4 address.
pub fn validate_ip(ip: &str) -> (r: Result<&str, VmError>)
    ensures
        match r {
            Ok(a) => a@ == ip@ && is_ipv4_text(ip@),
            Err(e) => !is_ipv4_text(ip@) && e matches VmError::InvalidAddress,
        },
{
    let parts = split_dots(ip);
    assert(string_views(parts@).len() == parts@.len());
    if parts.len() != 4 {
        return Err(VmError::InvalidAddress);
    }
    let mut i: usize = 0;
    while i < 4
        invariant
            i <= 4,
            parts@.len() == 4,
            string_views(parts@) == dot_fields(ip@),
            forall|j: int| 0 <= j < i ==> (#[trigger] parsed_unsigned(dot_fields(ip@)[j], 255)) is Some,
        decreases 4 - i,
    {
        assert(string_views(parts@)[i as int] == parts@[i as int]@);
        if parse_unsigned(parts[i].as_str(), 255).is_none() {
            return Err(VmError::InvalidAddress);
        }
        i += 1;
    }
    Ok(ip)
}

} // verus!
