use vstd::prelude::*;
use vstd::string::*;

use crate::names::{fields_of, is_dec_digit, split_on, string_views};

verus! {

pub open spec fn is_ascii_letter(c: char) -> bool {
    ('a' <= c && c <= 'z') || ('A' <= c && c <= 'Z')
}

pub open spec fn is_csi_param(c: char) -> bool {
    is_dec_digit(c) || c == ';'
}

/// Where the run of escape parameters (digits and `;`) that starts at `j` ends.
pub open spec fn csi_params_end(s: Seq<char>, j: int) -> int
    decreases s.len() - j,
{
    if 0 <= j < s.len() && is_csi_param(s[j]) {
        csi_params_end(s, j + 1)
    } else {
        j
    }
}

/// The end of the escape sequence `ESC [ params letter` that starts at `i`, if one does.
pub open spec fn csi_end(s: Seq<char>, i: int) -> Option<int> {
    if 0 <= i && i + 1 < s.len() && s[i] == '\x1b' && s[i + 1] == '[' {
        let e = csi_params_end(s, i + 2);
        if 0 <= e < s.len() && is_ascii_letter(s[e]) {
            Some(e + 1)
        } else {
            None
        }
    } else {
        None
    }
}

/// `s` from position `i` on, without terminal escape sequences, carriage returns, and
/// escape characters that start no complete sequence.
pub open spec fn strip_from(s: Seq<char>, i: int) -> Seq<char>
    decreases s.len() - i,
{
    if i < 0 || i >= s.len() {
        seq![]
    } else {
        match csi_end(s, i) {
            Some(e) => if e > i {
                strip_from(s, e)
            } else {
                seq![]
            },
            None => if s[i] == '\r' || s[i] == '\x1b' {
                strip_from(s, i + 1)
            } else {
                seq![s[i]] + strip_from(s, i + 1)
            },
        }
    }
}

/// `n` occurs in `s` at position `i`.
pub open spec fn occurs_at(s: Seq<char>, n: Seq<char>, i: int) -> bool {
    0 <= i && i + n.len() <= s.len() && s.subrange(i, i + n.len()) == n
}

pub open spec fn has_sub(s: Seq<char>, n: Seq<char>) -> bool {
    exists|i: int| #[trigger] occurs_at(s, n, i)
}

/// The monitor's greeting (`QEMU <version> monitor - type 'help' ...`): `QEMU` at `i`
/// and, later on, `monitor` at `j`.
pub open spec fn monitor_banner_at(s: Seq<char>, i: int, j: int) -> bool {
    i + 4 <= j && occurs_at(s, "QEMU"@, i) && occurs_at(s, "monitor"@, j)
}

pub open spec fn is_monitor_banner(l: Seq<char>) -> bool {
    exists|i: int, j: int| #[trigger] monitor_banner_at(l, i, j)
}

/// A line of the hypervisor's prompt (`(qemu)`) or of its monitor greeting.
pub open spec fn is_banner(l: Seq<char>) -> bool {
    has_sub(l, "(qemu)"@) || is_monitor_banner(l)
}

pub open spec fn no_newline_in(s: Seq<char>, lo: int, hi: int) -> bool {
    forall|k: int| lo <= k < hi ==> s[k] != '\n'
}

/// No single line of `s` holds the monitor greeting: every `QEMU` ... `monitor` pair
/// spans a line break.
pub open spec fn greeting_free(s: Seq<char>) -> bool {
    forall|i: int, j: int|
        #[trigger] monitor_banner_at(s, i, j) ==> !no_newline_in(s, i, j + "monitor"@.len())
}

pub open spec fn keep_line(l: Seq<char>) -> bool {
    l.len() > 0 && !is_banner(l)
}

/// The lines of `ls` that carry output, joined by newlines.
pub open spec fn join_kept(ls: Seq<Seq<char>>) -> Seq<char>
    decreases ls.len(),
{
    if ls.len() == 0 {
        seq![]
    } else {
        let j = join_kept(ls.drop_last());
        let l = ls.last();
        if !keep_line(l) {
            j
        } else if j.len() == 0 {
            l
        } else {
            j + "\n"@ + l
        }
    }
}

/// What is left of a raw monitor response once escapes, carriage returns, empty lines and
/// banner lines are gone.
pub open spec fn cleaned_text(raw: Seq<char>) -> Seq<char> {
    join_kept(fields_of(strip_from(raw, 0), '\n'))
}

fn chars_of(s: &str) -> (r: Vec<char>)
    ensures
        r@ == s@,
{
    let n = s.unicode_len();
    let mut v: Vec<char> = Vec::new();
    let mut i: usize = 0;
    while i < n
        invariant
            i <= n,
            n == s@.len(),
            v@ == s@.subrange(0, i as int),
        decreases n - i,
    {
        v.push(s.get_char(i));
        assert(s@.subrange(0, i + 1) =~= s@.subrange(0, i as int).push(s@[i as int]));
        i += 1;
    }
    assert(s@.subrange(0, n as int) =~= s@);
    v
}

/// The first position at or after `from` where `n` occurs in `h`.
fn find_from(h: &Vec<char>, n: &Vec<char>, from: usize) -> (r: Option<usize>)
    ensures
        match r {
            Some(k) => from <= k && occurs_at(h@, n@, k as int) && forall|q: int|
                from <= q < k ==> !#[trigger] occurs_at(h@, n@, q),
            None => forall|q: int| from <= q ==> !#[trigger] occurs_at(h@, n@, q),
        },
{
    let hl = h.len();
    let nl = n.len();
    if nl > hl || from > hl - nl {
        return None;
    }
    let mut i: usize = from;
    while i <= hl - nl
        invariant
            hl == h@.len(),
            nl == n@.len(),
            nl <= hl,
            from <= i <= hl - nl + 1,
            forall|q: int| from <= q < i ==> !#[trigger] occurs_at(h@, n@, q),
        decreases hl - nl + 1 - i,
    {
        let mut j: usize = 0;
        while j < nl && h[i + j] == n[j]
            invariant
                j <= nl,
                i + nl <= hl,
                hl == h@.len(),
                nl == n@.len(),
                forall|q: int| 0 <= q < j ==> h@[i + q] == n@[q],
            decreases nl - j,
        {
            j += 1;
        }
        if j == nl {
            assert(h@.subrange(i as int, i + nl) =~= n@);
            return Some(i);
        }
        assert(h@.subrange(i as int, i + nl)[j as int] != n@[j as int]);
        i += 1;
    }
    None
}

fn has_substring(h: &Vec<char>, n: &Vec<char>) -> (r: bool)
    ensures
        r == has_sub(h@, n@),
{
    match find_from(h, n, 0) {
        Some(_) => true,
        None => false,
    }
}

/// Whether a line holds the monitor greeting.
fn is_greeting_line(line: &Vec<char>, qemu: &Vec<char>, monitor: &Vec<char>) -> (r: bool)
    requires
        qemu@ == "QEMU"@,
        monitor@ == "monitor"@,
    ensures
        r == is_monitor_banner(line@),
{
    proof {
        reveal_strlit("QEMU");
    }
    match find_from(line, qemu, 0) {
        None => {
            assert(!is_monitor_banner(line@));
            false
        },
        Some(i0) => {
            if line.len() - i0 < 4 {
                return false;
            }
            match find_from(line, monitor, i0 + 4) {
                Some(j) => {
                    assert(monitor_banner_at(line@, i0 as int, j as int));
                    true
                },
                None => {
                    assert forall|i: int, j: int| !#[trigger] monitor_banner_at(line@, i, j) by {
                        if monitor_banner_at(line@, i, j) {
                            assert(!(i < i0));
                            assert(occurs_at(line@, monitor@, j));
                        }
                    }
                    false
                },
            }
        },
    }
}

fn csi_at(s: &Vec<char>, i: usize) -> (r: Option<usize>)
    requires
        i < s@.len(),
    ensures
        match csi_end(s@, i as int) {
            Some(e) => r == Some(e as usize) && e > i,
            None => r is None,
        },
{
    if s.len() - i > 1 && s[i] == '\x1b' && s[i + 1] == '[' {
        let mut j: usize = i + 2;
        while j < s.len() && (('0' <= s[j] && s[j] <= '9') || s[j] == ';')
            invariant
                i + 2 <= j <= s@.len(),
                csi_params_end(s@, i + 2) == csi_params_end(s@, j as int),
            decreases s@.len() - j,
        {
            j += 1;
        }
        if j < s.len() && (('a' <= s[j] && s[j] <= 'z') || ('A' <= s[j] && s[j] <= 'Z')) {
            Some(j + 1)
        } else {
            None
        }
    } else {
        None
    }
}

/// Removes terminal escape sequences, stray escape characters and carriage returns.
fn strip_controls(src: &str) -> (r: String)
    ensures
        r@ == strip_from(src@, 0),
{
    let s = chars_of(src);
    let n = s.len();
    let mut out = String::new();
    let mut i: usize = 0;
    while i < n
        invariant
            i <= n,
            n == s@.len(),
            s@ == src@,
            strip_from(s@, 0) == out@ + strip_from(s@, i as int),
        decreases n - i,
    {
        match csi_at(&s, i) {
            Some(e) => {
                i = e;
            },
            None => {
                if s[i] != '\r' && s[i] != '\x1b' {
                    out.append(src.substring_char(i, i + 1));
                    assert(src@.subrange(i as int, i + 1) =~= seq![s@[i as int]]);
                }
                i += 1;
            },
        }
    }
    assert(strip_from(s@, i as int) == Seq::<char>::empty());
    assert(out@ =~= out@ + Seq::<char>::empty());
    out
}

/// Cleans a raw monitor response: drops terminal escape sequences, carriage returns, empty
/// lines and the hypervisor's banner and prompt lines, and joins what is left by newlines.
pub fn clean_monitor_output(raw: &str) -> (r: String)
    ensures
        r@ == cleaned_text(raw@),
{
    let stripped = strip_controls(raw);
    let lines = split_on(stripped.as_str(), '\n');
    let ghost ls = string_views(lines@);
    assert(ls.len() == lines@.len());
    let prompt = chars_of("(qemu)");
    let qemu = chars_of("QEMU");
    let monitor = chars_of("monitor");
    let mut out = String::new();
    let mut i: usize = 0;
    assert(ls.take(0) =~= Seq::<Seq<char>>::empty());
    while i < lines.len()
        invariant
            i <= lines@.len(),
            ls == string_views(lines@),
            ls.len() == lines@.len(),
            prompt@ == "(qemu)"@,
            qemu@ == "QEMU"@,
            monitor@ == "monitor"@,
            out@ == join_kept(ls.take(i as int)),
        decreases lines@.len() - i,
    {
        let line = chars_of(lines[i].as_str());
        assert(ls[i as int] == lines@[i as int]@);
        assert(ls.take(i + 1).drop_last() =~= ls.take(i as int));
        let keep = line.len() > 0 && !has_substring(&line, &prompt) && !is_greeting_line(
            &line,
            &qemu,
            &monitor,
        );
        if keep {
            if out.as_str().unicode_len() > 0 {
                out.append("\n");
            }
            out.append(lines[i].as_str());
        }
        i += 1;
    }
    assert(ls.take(i as int) =~= ls);
    out
}

proof fn lemma_no_sub_across_newline(a: Seq<char>, b: Seq<char>, n: Seq<char>)
    requires
        !has_sub(a, n),
        !has_sub(b, n),
        n.len() > 0,
        forall|k: int| 0 <= k < n.len() ==> n[k] != '\n',
    ensures
        !has_sub(a + seq!['\n'] + b, n),
{
    let c = a + seq!['\n'] + b;
    let m = n.len();
    if has_sub(c, n) {
        let i = choose|i: int| #[trigger] occurs_at(c, n, i);
        if i + m <= a.len() {
            assert(a.subrange(i, i + m) =~= c.subrange(i, i + m));
            assert(occurs_at(a, n, i));
        } else if i >= a.len() + 1 {
            let i2 = i - a.len() - 1;
            assert(b.subrange(i2, i2 + m) =~= c.subrange(i, i + m));
            assert(occurs_at(b, n, i2));
        } else {
            assert(c.subrange(i, i + m)[a.len() - i] == c[a.len() as int]);
        }
    }
}

proof fn lemma_greeting_free_across_newline(a: Seq<char>, b: Seq<char>)
    requires
        greeting_free(a),
        greeting_free(b),
    ensures
        greeting_free(a + seq!['\n'] + b),
{
    reveal_strlit("QEMU");
    reveal_strlit("monitor");
    let c = a + seq!['\n'] + b;
    assert forall|i: int, j: int| #[trigger] monitor_banner_at(c, i, j) implies !no_newline_in(
        c,
        i,
        j + "monitor"@.len(),
    ) by {
        let e = j + 7;
        if no_newline_in(c, i, e) {
            if e <= a.len() {
                assert(a.subrange(i, i + 4) =~= c.subrange(i, i + 4));
                assert(a.subrange(j, j + 7) =~= c.subrange(j, j + 7));
                assert(monitor_banner_at(a, i, j));
                assert(no_newline_in(a, i, e)) by {
                    assert forall|k: int| i <= k < e implies a[k] != '\n' by {
                        assert(c[k] == a[k]);
                    }
                }
            } else if i >= a.len() + 1 {
                let d = a.len() + 1;
                assert(b.subrange(i - d, i - d + 4) =~= c.subrange(i, i + 4));
                assert(b.subrange(j - d, j - d + 7) =~= c.subrange(j, j + 7));
                assert(monitor_banner_at(b, i - d, j - d));
                assert(no_newline_in(b, i - d, e - d)) by {
                    assert forall|k: int| i - d <= k < e - d implies b[k] != '\n' by {
                        assert(c[k + d] == b[k]);
                    }
                }
            } else {
                assert(c[a.len() as int] == '\n');
            }
        }
    }
}

proof fn lemma_line_greeting_free(l: Seq<char>)
    requires
        !is_monitor_banner(l),
    ensures
        greeting_free(l),
{
}

proof fn lemma_join_kept_banner_free(ls: Seq<Seq<char>>)
    ensures
        !has_sub(join_kept(ls), "(qemu)"@),
        greeting_free(join_kept(ls)),
    decreases ls.len(),
{
    reveal_strlit("\n");
    reveal_strlit("(qemu)");
    if ls.len() > 0 {
        lemma_join_kept_banner_free(ls.drop_last());
        let j = join_kept(ls.drop_last());
        let l = ls.last();
        if keep_line(l) {
            lemma_line_greeting_free(l);
            if j.len() > 0 {
                assert("\n"@ =~= seq!['\n']);
                lemma_no_sub_across_newline(j, l, "(qemu)"@);
                lemma_greeting_free_across_newline(j, l);
            }
        }
    } else {
        assert(!has_sub(Seq::<char>::empty(), "(qemu)"@));
    }
}

pub open spec fn lacks(s: Seq<char>, c: char) -> bool {
    forall|k: int| 0 <= k < s.len() ==> s[k] != c
}

proof fn lemma_strip_lacks_controls(s: Seq<char>, i: int)
    ensures
        lacks(strip_from(s, i), '\r'),
        lacks(strip_from(s, i), '\x1b'),
    decreases s.len() - i,
{
    if 0 <= i < s.len() {
        match csi_end(s, i) {
            Some(e) => if e > i {
                lemma_strip_lacks_controls(s, e);
            },
            None => {
                lemma_strip_lacks_controls(s, i + 1);
                if !(s[i] == '\r' || s[i] == '\x1b') {
                    let rest = strip_from(s, i + 1);
                    assert forall|k: int| 0 <= k < (seq![s[i]] + rest).len() implies (seq![s[i]]
                        + rest)[k] != '\r' && (seq![s[i]] + rest)[k] != '\x1b' by {
                        if k > 0 {
                            assert((seq![s[i]] + rest)[k] == rest[k - 1]);
                        }
                    }
                }
            },
        }
    }
}

proof fn lemma_fields_lack(s: Seq<char>, sep: char, c: char)
    requires
        c != sep,
        lacks(s, c),
    ensures
        forall|k: int| 0 <= k < fields_of(s, sep).len() ==> lacks(#[trigger] fields_of(s, sep)[k], c),
    decreases s.len(),
{
    if s.len() > 0 {
        assert(lacks(s.drop_last(), c));
        lemma_fields_lack(s.drop_last(), sep, c);
        crate::names::lemma_fields_nonempty(s.drop_last(), sep);
        let f = fields_of(s.drop_last(), sep);
        if s.last() != sep {
            let l = f.last().push(s.last());
            assert(lacks(f[f.len() - 1], c));
            assert(lacks(l, c)) by {
                assert forall|q: int| 0 <= q < l.len() implies l[q] != c by {
                    if q < l.len() - 1 {
                        assert(l[q] == f.last()[q]);
                    }
                }
            }
            assert forall|k: int| 0 <= k < fields_of(s, sep).len() implies lacks(
                #[trigger] fields_of(s, sep)[k],
                c,
            ) by {
                if k < f.len() - 1 {
                    assert(fields_of(s, sep)[k] == f[k]);
                }
            }
        } else {
            assert forall|k: int| 0 <= k < fields_of(s, sep).len() implies lacks(
                #[trigger] fields_of(s, sep)[k],
                c,
            ) by {
                if k < f.len() {
                    assert(fields_of(s, sep)[k] == f[k]);
                }
            }
        }
    }
}

proof fn lemma_join_kept_lacks(ls: Seq<Seq<char>>, c: char)
    requires
        c != '\n',
        forall|k: int| 0 <= k < ls.len() ==> lacks(#[trigger] ls[k], c),
    ensures
        lacks(join_kept(ls), c),
    decreases ls.len(),
{
    reveal_strlit("\n");
    if ls.len() > 0 {
        assert forall|k: int| 0 <= k < ls.drop_last().len() implies lacks(#[trigger] ls.drop_last()[k], c) by {
            assert(ls.drop_last()[k] == ls[k]);
        }
        lemma_join_kept_lacks(ls.drop_last(), c);
        let j = join_kept(ls.drop_last());
        let l = ls.last();
        assert(lacks(l, c));
        if keep_line(l) && j.len() > 0 {
            let r = j + "\n"@ + l;
            assert forall|q: int| 0 <= q < r.len() implies r[q] != c by {
                if q < j.len() {
                    assert(r[q] == j[q]);
                } else if q == j.len() {
                    assert(r[q] == '\n');
                } else {
                    assert(r[q] == l[q - j.len() - 1]);
                }
            }
        }
    }
}

/// After cleaning, a monitor response holds no prompt `(qemu)`, no line of the monitor
/// greeting (`QEMU` ... `monitor` within one line), no carriage return and no escape
/// character (so no escape sequence), whatever real output they were mixed with.
pub proof fn lemma_cleaned_output_has_no_banner(raw: Seq<char>)
    ensures
        !has_sub(cleaned_text(raw), "(qemu)"@),
        greeting_free(cleaned_text(raw)),
        lacks(cleaned_text(raw), '\r'),
        lacks(cleaned_text(raw), '\x1b'),
        forall|i: int| #[trigger] csi_end(cleaned_text(raw), i) is None,
{
    let stripped = strip_from(raw, 0);
    let ls = fields_of(stripped, '\n');
    lemma_join_kept_banner_free(ls);
    lemma_strip_lacks_controls(raw, 0);
    lemma_fields_lack(stripped, '\n', '\r');
    lemma_fields_lack(stripped, '\n', '\x1b');
    lemma_join_kept_lacks(ls, '\r');
    lemma_join_kept_lacks(ls, '\x1b');
}

} // verus!
