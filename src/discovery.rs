//! Discovery of PHP installations: the grammar of `php --version`, and the
//! registry of versions built from probed executables.
use vstd::prelude::*;
use vstd::string::*;
use crate::text::{views, copy_range, chars_of, digits_end, find_char, is_digit, lead_digits, occurs_at, occurs_in, span_until};
use crate::php::{sapi_of, valid_version, HostFamily, PhpServerSapi, PhpVersion};

verus! {

/// The version text and SAPI name in the first line of `php --version`:
/// `PHP <d>.<digits>.<digits><suffix> (<sapi>)`, where the suffix holds no
/// space and the SAPI name no closing parenthesis.
pub open spec fn probe_fields(o: Seq<char>) -> Option<(Seq<char>, Seq<char>)> {
    if !(occurs_at(o, 0, "PHP "@) && o.len() > 6 && is_digit(o[4]) && o[5] == '.') {
        None
    } else {
        let p1: int = 6 + lead_digits(o.skip(6)) as int;
        if p1 == 6 || p1 >= o.len() || o[p1] != '.' {
            None
        } else {
            let ve: int = p1 + 1 + lead_digits(o.skip(p1 + 1)) as int;
            let sp: int = ve + span_until(o.skip(ve), ' ') as int;
            if ve == p1 + 1 || sp + 1 >= o.len() || o[sp + 1] != '(' {
                None
            } else {
                let close: int = sp + 2 + span_until(o.skip(sp + 2), ')') as int;
                if close == sp + 2 || close >= o.len() {
                    None
                } else {
                    Some((o.subrange(4, ve), o.subrange(sp + 2, close)))
                }
            }
        }
    }
}

/// The version and SAPI that the output `o` of `php --version` reports, when
/// it follows the grammar and the version is valid.
pub open spec fn metadata_spec(o: Seq<char>) -> Option<(Seq<char>, PhpServerSapi)> {
    match probe_fields(o) {
        Some((v, n)) => if valid_version(v) {
            Some((v, sapi_of(n)))
        } else {
            None
        },
        None => None,
    }
}

/// Reads the version and SAPI from the output of `php --version`; `None`
/// when the output is not that of a PHP executable.
pub fn binary_metadata(output: &str) -> (r: Option<(PhpVersion, PhpServerSapi)>)
    ensures
        r is None <==> metadata_spec(output@) is None,
        r matches Some((v, s)) ==> metadata_spec(output@) == Some((v@, s)) && v.wf(),
{
    let ghost o = output@;
    let v = chars_of(output);
    proof {
        reveal_strlit("PHP ");
    }
    if !(occurs_in(&v, 0, "PHP ") && v.len() > 6 && '0' <= v[4] && v[4] <= '9' && v[5] == '.') {
        return None;
    }
    let p1 = digits_end(&v, 6);
    if p1 == 6 || p1 >= v.len() || v[p1] != '.' {
        return None;
    }
    let ve = digits_end(&v, p1 + 1);
    let sp = find_char(&v, ve, ' ');
    if ve == p1 + 1 || sp >= v.len() || v.len() - sp <= 1 || v[sp + 1] != '(' {
        return None;
    }
    let close = find_char(&v, sp + 2, ')');
    if close == sp + 2 || close >= v.len() {
        return None;
    }
    let version = output.substring_char(4, ve);
    let name = output.substring_char(sp + 2, close);
    if !PhpVersion::is_valid(version) {
        return None;
    }
    Some((PhpVersion::from_str(version), PhpServerSapi::from_str(name)))
}

/// Whether `c` may stand in a version suffix: a digit or a dot.
pub open spec fn is_vchar(c: char) -> bool {
    is_digit(c) || c == '.'
}

/// Whether `t` is digits separated by single dots (`7`, `7.4`, `74.1.2`).
pub open spec fn version_suffix(t: Seq<char>) -> bool {
    &&& t.len() > 0
    &&& is_digit(t[0])
    &&& is_digit(t.last())
    &&& forall|i: int| 0 <= i < t.len() ==> is_vchar(#[trigger] t[i])
    &&& forall|i: int| 0 <= i < t.len() - 1 ==> !(#[trigger] t[i] == '.' && t[i + 1] == '.')
}

/// An optional version suffix.
pub open spec fn opt_version(t: Seq<char>) -> bool {
    t.len() == 0 || version_suffix(t)
}

/// The SAPI markers that may follow `php` in a Unix executable name.
pub open spec fn unix_markers() -> Seq<Seq<char>> {
    seq!["fpm"@, "cgi"@, "_fpm"@, "-fpm"@, "_cgi"@, "-cgi"@]
}

/// The extensions of Windows executables and scripts.
pub open spec fn windows_extensions() -> Seq<Seq<char>> {
    seq![".exe"@, ".bat"@, ".cmd"@]
}

/// Number of leading version characters of `t`.
pub open spec fn lead_vchars(t: Seq<char>) -> nat
    decreases t.len(),
{
    if t.len() > 0 && is_vchar(t[0]) {
        1 + lead_vchars(t.drop_first())
    } else {
        0
    }
}

/// What may follow `php` up to the end of a Unix executable name: an
/// optional version, an optional SAPI marker, and an optional version.
pub open spec fn unix_tail(t: Seq<char>) -> bool {
    let k = lead_vchars(t) as int;
    let r = t.skip(k);
    &&& opt_version(t.take(k))
    &&& (r.len() == 0 || exists|w: int| 0 <= w < 6 && occurs_at(r, 0, unix_markers()[w])
        && opt_version(r.skip(unix_markers()[w].len() as int)))
}

/// What may follow `php` up to the end of a Windows executable name: an
/// optional version, an optional `-cgi`, and an executable extension.
pub open spec fn windows_tail(t: Seq<char>) -> bool {
    &&& t.len() >= 4
    &&& exists|w: int| 0 <= w < 3 && t.skip(t.len() - 4) == windows_extensions()[w]
    &&& {
        let u = t.take(t.len() - 4);
        if u.len() >= 4 && u.skip(u.len() - 4) == "-cgi"@ {
            opt_version(u.take(u.len() - 4))
        } else {
            opt_version(u)
        }
    }
}

/// Whether the path names a PHP executable for the host: `php` somewhere in
/// it, followed up to the end by what the host's pattern allows (`php`,
/// `php7.4`, `php-fpm74`, `php7.4-cgi` on Unix; `php.exe`, `php-cgi.bat` on
/// Windows).
pub open spec fn binary_name_spec(path: Seq<char>, host: HostFamily) -> bool {
    exists|i: int| occurs_at(path, i, "php"@) && match host {
        HostFamily::Unix => unix_tail(path.skip(i + 3)),
        HostFamily::Windows => windows_tail(path.skip(i + 3)),
    }
}

proof fn lemma_lead_vchars(s: Seq<char>, k: int)
    requires
        0 <= k <= s.len(),
        forall|i: int| 0 <= i < k ==> is_vchar(s[i]),
        k == s.len() || !is_vchar(s[k]),
    ensures
        lead_vchars(s) == k,
    decreases k,
{
    if k > 0 {
        lemma_lead_vchars(s.drop_first(), k - 1);
    }
}

fn is_vchar_exec(c: char) -> (r: bool)
    ensures
        r == is_vchar(c),
{
    ('0' <= c && c <= '9') || c == '.'
}

fn opt_version_vec(t: &Vec<char>) -> (r: bool)
    ensures
        r == opt_version(t@),
{
    let n = t.len();
    if n == 0 {
        return true;
    }
    if !('0' <= t[0] && t[0] <= '9') || !('0' <= t[n - 1] && t[n - 1] <= '9') {
        return false;
    }
    let mut i: usize = 0;
    while i < n
        invariant
            n == t@.len(),
            n > 0,
            i <= n,
            forall|j: int| 0 <= j < i ==> is_vchar(#[trigger] t@[j]),
            forall|j: int| 0 <= j < i && j < n - 1 ==> !(#[trigger] t@[j] == '.' && t@[j + 1] == '.'),
        decreases n - i,
    {
        if !is_vchar_exec(t[i]) {
            assert(!is_vchar(t@[i as int]));
            return false;
        }
        if i + 1 < n && t[i] == '.' && t[i + 1] == '.' {
            assert(t@[i as int] == '.' && t@[i + 1] == '.');
            return false;
        }
        i = i + 1;
    }
    true
}

fn marker_then_version(r: &Vec<char>, w: &str) -> (b: bool)
    ensures
        b == (occurs_at(r@, 0, w@) && opt_version(r@.skip(w@.len() as int))),
{
    if !occurs_in(r, 0, w) {
        return false;
    }
    let m = w.unicode_len();
    let rest = copy_range(r, m, r.len());
    assert(rest@ =~= r@.skip(m as int));
    opt_version_vec(&rest)
}

fn unix_tail_ok(t: &Vec<char>) -> (b: bool)
    ensures
        b == unix_tail(t@),
{
    let mut k: usize = 0;
    while k < t.len() && is_vchar_exec(t[k])
        invariant
            k <= t.len(),
            forall|i: int| 0 <= i < k ==> is_vchar(t@[i]),
        decreases t.len() - k,
    {
        k = k + 1;
    }
    proof {
        lemma_lead_vchars(t@, k as int);
    }
    let a = copy_range(t, 0, k);
    assert(a@ =~= t@.take(k as int));
    let r = copy_range(t, k, t.len());
    assert(r@ =~= t@.skip(k as int));
    if !opt_version_vec(&a) {
        return false;
    }
    if r.len() == 0 {
        return true;
    }
    let m0 = marker_then_version(&r, "fpm");
    let m1 = marker_then_version(&r, "cgi");
    let m2 = marker_then_version(&r, "_fpm");
    let m3 = marker_then_version(&r, "-fpm");
    let m4 = marker_then_version(&r, "_cgi");
    let m5 = marker_then_version(&r, "-cgi");
    let ghost ms = unix_markers();
    assert(ms[0] == "fpm"@ && ms[1] == "cgi"@ && ms[2] == "_fpm"@ && ms[3] == "-fpm"@ && ms[4] == "_cgi"@
        && ms[5] == "-cgi"@);
    let found = m0 || m1 || m2 || m3 || m4 || m5;
    proof {
        let r2 = r@;
        if found {
            if m0 { assert(occurs_at(r2, 0, ms[0]) && opt_version(r2.skip(ms[0].len() as int))); }
            else if m1 { assert(occurs_at(r2, 0, ms[1]) && opt_version(r2.skip(ms[1].len() as int))); }
            else if m2 { assert(occurs_at(r2, 0, ms[2]) && opt_version(r2.skip(ms[2].len() as int))); }
            else if m3 { assert(occurs_at(r2, 0, ms[3]) && opt_version(r2.skip(ms[3].len() as int))); }
            else if m4 { assert(occurs_at(r2, 0, ms[4]) && opt_version(r2.skip(ms[4].len() as int))); }
            else { assert(occurs_at(r2, 0, ms[5]) && opt_version(r2.skip(ms[5].len() as int))); }
        } else {
            assert forall|w: int| 0 <= w < 6 implies !(occurs_at(r2, 0, ms[w]) && opt_version(r2.skip(ms[w].len() as int))) by {
                if w == 0 {} else if w == 1 {} else if w == 2 {} else if w == 3 {} else if w == 4 {} else {}
            }
        }
    }
    found
}

fn windows_tail_ok(t: &Vec<char>) -> (b: bool)
    ensures
        b == windows_tail(t@),
{
    let n = t.len();
    if n < 4 {
        return false;
    }
    let ext = copy_range(t, n - 4, n);
    assert(ext@ =~= t@.skip(n - 4));
    let e0 = occurs_in(&ext, 0, ".exe");
    let e1 = occurs_in(&ext, 0, ".bat");
    let e2 = occurs_in(&ext, 0, ".cmd");
    let ghost es = windows_extensions();
    proof {
        reveal_strlit(".exe");
        reveal_strlit(".bat");
        reveal_strlit(".cmd");
        assert(es[0] == ".exe"@ && es[1] == ".bat"@ && es[2] == ".cmd"@);
        assert(ext@.subrange(0, 4) =~= ext@);
    }
    if !(e0 || e1 || e2) {
        assert forall|w: int| 0 <= w < 3 implies t@.skip(n - 4) != es[w] by {
            if w == 0 {} else if w == 1 {} else {}
        }
        return false;
    }
    let u = copy_range(t, 0, n - 4);
    assert(u@ =~= t@.take(n - 4));
    let m = u.len();
    proof {
        reveal_strlit("-cgi");
    }
    if m >= 4 && occurs_in(&u, m - 4, "-cgi") {
        assert(u@.subrange(m - 4, m as int) =~= u@.skip(m - 4));
        let v = copy_range(&u, 0, m - 4);
        assert(v@ =~= u@.take(m - 4));
        opt_version_vec(&v)
    } else {
        proof {
            if m >= 4 {
                assert(u@.subrange(m - 4, m as int) =~= u@.skip(m - 4));
            }
        }
        opt_version_vec(&u)
    }
}

/// Whether `path` names a PHP executable for the host.
pub fn binary_name_matches(path: &str, host: HostFamily) -> (r: bool)
    ensures
        r == binary_name_spec(path@, host),
{
    let v = chars_of(path);
    let mut i: usize = 0;
    while i < v.len()
        invariant
            v@ == path@,
            i <= v.len(),
            forall|j: int| 0 <= j < i ==> !(occurs_at(v@, j, "php"@) && match host {
                HostFamily::Unix => unix_tail(v@.skip(j + 3)),
                HostFamily::Windows => windows_tail(v@.skip(j + 3)),
            }),
        decreases v.len() - i,
    {
        proof {
            reveal_strlit("php");
        }
        if occurs_in(&v, i, "php") {
            let t = copy_range(&v, i + 3, v.len());
            assert(t@ =~= v@.skip(i + 3));
            let ok = match host {
                HostFamily::Unix => unix_tail_ok(&t),
                HostFamily::Windows => windows_tail_ok(&t),
            };
            if ok {
                return true;
            }
        }
        i = i + 1;
    }
    assert forall|j: int| !(occurs_at(v@, j, "php"@) && match host {
        HostFamily::Unix => unix_tail(v@.skip(j + 3)),
        HostFamily::Windows => windows_tail(v@.skip(j + 3)),
    }) by {
        reveal_strlit("php");
        if j >= v.len() {
            assert(!occurs_at(v@, j, "php"@));
        }
    }
    false
}

proof fn lemma_push_contains(s: Seq<Seq<char>>, a: Seq<char>)
    ensures
        forall|x: Seq<char>| s.push(a).contains(x) <==> (s.contains(x) || x == a),
{
    assert forall|x: Seq<char>| s.push(a).contains(x) <==> (s.contains(x) || x == a) by {
        if s.contains(x) {
            let j = choose|j: int| 0 <= j < s.len() && s[j] == x;
            assert(s.push(a)[j] == x);
        }
        if x == a {
            assert(s.push(a)[s.len() as int] == x);
        }
        if s.push(a).contains(x) {
            let j = choose|j: int| 0 <= j < s.push(a).len() && s.push(a)[j] == x;
            if j < s.len() {
                assert(s[j] == x);
            }
        }
    }
}

/// The paths without repetitions: each path of `paths` appears exactly once.
pub fn dedup_paths(paths: &Vec<String>) -> (r: Vec<String>)
    ensures
        views(r@).no_duplicates(),
        forall|x: Seq<char>| views(r@).contains(x) <==> views(paths@).contains(x),
{
    let ghost pv = views(paths@);
    let mut r: Vec<String> = Vec::new();
    let mut k: usize = 0;
    assert(views(r@) =~= Seq::<Seq<char>>::empty());
    while k < paths.len()
        invariant
            pv == views(paths@),
            k <= paths.len(),
            views(r@).no_duplicates(),
            forall|x: Seq<char>| views(r@).contains(x) <==> pv.take(k as int).contains(x),
        decreases paths.len() - k,
    {
        let ghost vr = views(r@);
        let mut seen = false;
        let mut i: usize = 0;
        while i < r.len()
            invariant
                vr == views(r@),
                i <= r.len(),
                k < paths.len(),
                pv == views(paths@),
                seen ==> vr.contains(pv[k as int]),
                !seen ==> forall|x: int| 0 <= x < i ==> vr[x] != pv[k as int],
            decreases r.len() - i,
        {
            if r[i] == paths[k] {
                assert(vr[i as int] == pv[k as int]);
                seen = true;
            }
            i = i + 1;
        }
        assert(pv.take(k + 1) =~= pv.take(k as int).push(pv[k as int]));
        let ghost p = pv[k as int];
        let ghost old_take = pv.take(k as int);
        proof {
            lemma_push_contains(old_take, p);
        }
        if !seen {
            r.push(paths[k].clone());
            assert(views(r@) =~= vr.push(p));
            proof {
                lemma_push_contains(vr, p);
                assert(!vr.contains(p));
            }
            assert forall|x: Seq<char>| views(r@).contains(x) <==> pv.take(k + 1).contains(x) by {
                assert(views(r@).contains(x) <==> (vr.contains(x) || x == p));
                assert(pv.take(k + 1).contains(x) <==> (old_take.contains(x) || x == p));
            }
        } else {
            assert forall|x: Seq<char>| views(r@).contains(x) <==> pv.take(k + 1).contains(x) by {
                assert(pv.take(k + 1).contains(x) <==> (old_take.contains(x) || x == p));
            }
        }
        k = k + 1;
    }
    assert(pv.take(k as int) =~= pv);
    r
}

} // verus!
