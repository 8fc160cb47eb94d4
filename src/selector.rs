//! Selection of the PHP executable to launch for a project, from the
//! registry and the project's optional version pin.
use vstd::prelude::*;
use vstd::string::*;
use crate::text::{chars_of, copy_range, digits_value};
use crate::numeric::{compare_digits, digits_only};
use crate::php::{has_any_sapi, preferred_path, valid_version, BinaryModel, PhpBinary, PhpVersion};
use crate::registry::models;

verus! {

/// Where the minor number of a valid version text ends.
pub open spec fn minor_end(s: Seq<char>) -> int {
    if s[3] == '.' { 3 } else { 4 }
}

/// The numbers `(major, minor, patch)` of a valid version text.
pub open spec fn version_key(s: Seq<char>) -> (nat, nat, nat) {
    (
        digits_value(s.take(1)),
        digits_value(s.subrange(2, minor_end(s))),
        digits_value(s.skip(minor_end(s) + 1)),
    )
}

/// Whether version `a` is older than version `b`, by major, then minor,
/// then patch number.
pub open spec fn version_less(a: Seq<char>, b: Seq<char>) -> bool {
    let ka = version_key(a);
    let kb = version_key(b);
    ka.0 < kb.0 || (ka.0 == kb.0 && (ka.1 < kb.1 || (ka.1 == kb.1 && ka.2 < kb.2)))
}

fn version_parts(v: &PhpVersion) -> (r: (Vec<char>, Vec<char>, Vec<char>))
    requires
        valid_version(v@),
    ensures
        r.0@ == v@.take(1),
        r.1@ == v@.subrange(2, minor_end(v@)),
        r.2@ == v@.skip(minor_end(v@) + 1),
        digits_only(r.0@),
        digits_only(r.1@),
        digits_only(r.2@),
{
    let c = chars_of(v.version());
    let m: usize = if c[3] == '.' { 3 } else { 4 };
    let major = copy_range(&c, 0, 1);
    let minor = copy_range(&c, 2, m);
    let patch = copy_range(&c, m + 1, c.len());
    assert(patch@ =~= v@.skip(m + 1));
    (major, minor, patch)
}

/// Compares two valid versions: negative, zero or positive as `a` is older
/// than, as new as, or newer than `b`.
pub fn compare_versions(a: &PhpVersion, b: &PhpVersion) -> (r: i8)
    requires
        valid_version(a@),
        valid_version(b@),
    ensures
        r < 0 <==> version_less(a@, b@),
        r > 0 <==> version_less(b@, a@),
{
    let (a0, a1, a2) = version_parts(a);
    let (b0, b1, b2) = version_parts(b);
    let c0 = compare_digits(&a0, &b0);
    if c0 != 0 {
        return c0;
    }
    let c1 = compare_digits(&a1, &b1);
    if c1 != 0 {
        return c1;
    }
    compare_digits(&a2, &b2)
}

/// Whether version `v` starts with the (non-empty) pin.
pub open spec fn pin_matches(v: Seq<char>, pin: Seq<char>) -> bool {
    pin.len() > 0 && pin.len() <= v.len() && v.take(pin.len() as int) == pin
}

/// Whether version `v` can be chosen for the pin: it is valid and starts
/// with the pin.
pub open spec fn eligible(v: Seq<char>, pin: Seq<char>) -> bool {
    valid_version(v) && pin_matches(v, pin)
}

/// Whether entry `i` is the first of the newest versions that match the pin.
pub open spec fn is_best(reg: Seq<BinaryModel>, pin: Seq<char>, i: int) -> bool {
    &&& 0 <= i < reg.len()
    &&& eligible(reg[i].version, pin)
    &&& forall|j: int| 0 <= j < reg.len() && eligible(reg[j].version, pin) ==> !version_less(reg[i].version, reg[j].version)
    &&& forall|j: int| 0 <= j < i && eligible(reg[j].version, pin) ==> version_less(reg[j].version, reg[i].version)
}

/// The entry that the pin selects, if any.
pub open spec fn best_index(reg: Seq<BinaryModel>, pin: Seq<char>) -> Option<int> {
    if exists|i: int| is_best(reg, pin, i) {
        Some(choose|i: int| is_best(reg, pin, i))
    } else {
        None
    }
}

/// Whether entry `i` is the first one flagged as the system's PHP.
pub open spec fn is_first_system(reg: Seq<BinaryModel>, i: int) -> bool {
    &&& 0 <= i < reg.len()
    &&& reg[i].system
    &&& forall|j: int| 0 <= j < i ==> !reg[j].system
}

/// The first entry flagged as the system's PHP, if any.
pub open spec fn system_index(reg: Seq<BinaryModel>) -> Option<int> {
    if exists|i: int| is_first_system(reg, i) {
        Some(choose|i: int| is_first_system(reg, i))
    } else {
        None
    }
}

/// The entry to launch: the one the pin selects, else the system's PHP.
pub open spec fn chosen_index(reg: Seq<BinaryModel>, pin: Seq<char>) -> Option<int> {
    if best_index(reg, pin) is Some {
        best_index(reg, pin)
    } else {
        system_index(reg)
    }
}

proof fn lemma_best_unique(reg: Seq<BinaryModel>, pin: Seq<char>, i: int)
    requires
        is_best(reg, pin, i),
    ensures
        best_index(reg, pin) == Some(i),
{
    let k = choose|k: int| is_best(reg, pin, k);
    assert(is_best(reg, pin, k));
    if k < i {
        assert(version_less(reg[k].version, reg[i].version));
    } else if i < k {
        assert(version_less(reg[i].version, reg[k].version));
    }
}

proof fn lemma_system_unique(reg: Seq<BinaryModel>, i: int)
    requires
        is_first_system(reg, i),
    ensures
        system_index(reg) == Some(i),
{
    let k = choose|k: int| is_first_system(reg, k);
    assert(is_first_system(reg, k));
}

fn pin_matches_exec(v: &PhpVersion, pin: &str) -> (r: bool)
    ensures
        r == pin_matches(v@, pin@),
{
    let n = pin.unicode_len();
    let s = v.version();
    let m = s.unicode_len();
    if n == 0 || n > m {
        return false;
    }
    let mut i: usize = 0;
    while i < n
        invariant
            n == pin@.len(),
            m == s@.len(),
            s@ == v@,
            n <= m,
            i <= n,
            forall|j: int| 0 <= j < i ==> s@[j] == pin@[j],
        decreases n - i,
    {
        if s.get_char(i) != pin.get_char(i) {
            assert(s@.take(n as int)[i as int] != pin@[i as int]);
            return false;
        }
        i = i + 1;
    }
    assert(s@.take(n as int) =~= pin@);
    true
}

/// The entry that `pin` selects: among the valid versions that start with
/// the pin, the first of the newest.
pub fn best_match(reg: &Vec<PhpBinary>, pin: &str) -> (r: Option<usize>)
    ensures
        r is None <==> best_index(models(reg@), pin@) is None,
        r matches Some(i) ==> best_index(models(reg@), pin@) == Some(i as int),
{
    let ghost m = models(reg@);
    let mut best: Option<usize> = None;
    let mut i: usize = 0;
    while i < reg.len()
        invariant
            m == models(reg@),
            i <= reg.len(),
            best is None ==> forall|j: int| 0 <= j < i ==> !eligible(m[j].version, pin@),
            best matches Some(b) ==> b < i && eligible(m[b as int].version, pin@)
                && (forall|j: int| 0 <= j < i && eligible(m[j].version, pin@) ==> !version_less(m[b as int].version, m[j].version))
                && (forall|j: int| 0 <= j < b && eligible(m[j].version, pin@) ==> version_less(m[j].version, m[b as int].version)),
        decreases reg.len() - i,
    {
        let v = reg[i].version();
        if PhpVersion::is_valid(v.version()) && pin_matches_exec(v, pin) {
            match best {
                None => {
                    best = Some(i);
                },
                Some(b) => {
                    if compare_versions(reg[b].version(), v) < 0 {
                        best = Some(i);
                    }
                },
            }
        }
        i = i + 1;
    }
    match best {
        Some(b) => {
            proof {
                lemma_best_unique(m, pin@, b as int);
            }
        },
        None => {
            assert(!exists|k: int| is_best(m, pin@, k));
        },
    }
    best
}

/// The first entry flagged as the system's PHP.
pub fn system_binary(reg: &Vec<PhpBinary>) -> (r: Option<usize>)
    ensures
        r is None <==> system_index(models(reg@)) is None,
        r matches Some(i) ==> system_index(models(reg@)) == Some(i as int),
{
    let ghost m = models(reg@);
    let mut i: usize = 0;
    while i < reg.len()
        invariant
            m == models(reg@),
            i <= reg.len(),
            forall|j: int| 0 <= j < i ==> !m[j].system,
        decreases reg.len() - i,
    {
        if reg[i].system() {
            proof {
                lemma_system_unique(m, i as int);
            }
            return Some(i);
        }
        i = i + 1;
    }
    assert(!exists|k: int| is_first_system(m, k));
    None
}

/// Why no PHP executable could be chosen.
#[derive(PartialEq, Eq, Structural, Debug, Clone, Copy)]
pub enum SelectError {
    /// The chosen version offers no executable; the registry cache should be
    /// refreshed.
    NoUsableSapi,
}

/// The PHP executable to launch for a project whose pin is `pin` (empty when
/// there is none): the preferred executable (FPM, else CGI, else CLI) of the
/// newest valid version that starts with the pin, else of the system's PHP,
/// else the bare command `php`, resolved through the search path.
pub fn get_project_version(reg: &Vec<PhpBinary>, pin: &str) -> (r: Result<String, SelectError>)
    ensures
        chosen_index(models(reg@), pin@) is None ==> (r matches Ok(s) && s@ == "php"@),
        chosen_index(models(reg@), pin@) matches Some(i) ==> {
            let b = models(reg@)[i];
            &&& has_any_sapi(b) ==> (r matches Ok(s) && s@ == preferred_path(b))
            &&& !has_any_sapi(b) ==> r == Err::<String, SelectError>(SelectError::NoUsableSapi)
        },
{
    let chosen = match best_match(reg, pin) {
        Some(i) => Some(i),
        None => system_binary(reg),
    };
    match chosen {
        None => Ok(String::from_str("php")),
        Some(i) => {
            let b = &reg[i];
            if b.has_sapi(&crate::php::PhpServerSapi::FPM) || b.has_sapi(&crate::php::PhpServerSapi::CGI)
                || b.has_sapi(&crate::php::PhpServerSapi::CLI) {
                Ok(b.preferred_sapi())
            } else {
                Err(SelectError::NoUsableSapi)
            }
        },
    }
}

/// Whether `c` has the Unicode White_Space property, the whitespace that
/// `str::trim` removes.
pub open spec fn is_white(c: char) -> bool {
    let u = c as u32;
    (9 <= u <= 13) || u == 0x20 || u == 0x85 || u == 0xA0 || u == 0x1680 || (0x2000 <= u <= 0x200A)
        || u == 0x2028 || u == 0x2029 || u == 0x202F || u == 0x205F || u == 0x3000
}

/// Number of leading White_Space characters of `s`.
pub open spec fn lead_white(s: Seq<char>) -> nat
    decreases s.len(),
{
    if s.len() > 0 && is_white(s[0]) {
        1 + lead_white(s.drop_first())
    } else {
        0
    }
}

/// Number of trailing White_Space characters of `s`.
pub open spec fn trail_white(s: Seq<char>) -> nat
    decreases s.len(),
{
    if s.len() > 0 && is_white(s.last()) {
        1 + trail_white(s.drop_last())
    } else {
        0
    }
}

/// `s` without its leading and trailing White_Space characters.
pub open spec fn trimmed(s: Seq<char>) -> Seq<char> {
    let rest = s.skip(lead_white(s) as int);
    rest.take(rest.len() - trail_white(rest))
}

proof fn lemma_lead_white(s: Seq<char>, k: int)
    requires
        0 <= k <= s.len(),
        forall|i: int| 0 <= i < k ==> is_white(s[i]),
        k == s.len() || !is_white(s[k]),
    ensures
        lead_white(s) == k,
    decreases k,
{
    if k > 0 {
        lemma_lead_white(s.drop_first(), k - 1);
    }
}

proof fn lemma_trail_white(s: Seq<char>, k: int)
    requires
        0 <= k <= s.len(),
        forall|i: int| s.len() - k <= i < s.len() ==> is_white(s[i]),
        k == s.len() || !is_white(s[s.len() - k - 1]),
    ensures
        trail_white(s) == k,
    decreases k,
{
    if k > 0 {
        lemma_trail_white(s.drop_last(), k - 1);
    }
}

fn is_white_exec(c: char) -> (r: bool)
    ensures
        r == is_white(c),
{
    let u = c as u32;
    (9 <= u && u <= 13) || u == 0x20 || u == 0x85 || u == 0xA0 || u == 0x1680 || (0x2000 <= u && u <= 0x200A)
        || u == 0x2028 || u == 0x2029 || u == 0x202F || u == 0x205F || u == 0x3000
}

/// Removes leading and trailing White_Space characters, as `str::trim` does.
pub fn trim_text(s: &str) -> (r: String)
    ensures
        r@ == trimmed(s@),
{
    let v = chars_of(s);
    let n = v.len();
    let mut i: usize = 0;
    while i < n && is_white_exec(v[i])
        invariant
            n == v@.len(),
            i <= n,
            forall|k: int| 0 <= k < i ==> is_white(v@[k]),
        decreases n - i,
    {
        i = i + 1;
    }
    proof {
        lemma_lead_white(v@, i as int);
    }
    let ghost rest = v@.skip(i as int);
    let mut j: usize = n;
    while j > i && is_white_exec(v[j - 1])
        invariant
            n == v@.len(),
            i <= j <= n,
            forall|k: int| j <= k < n ==> is_white(v@[k]),
        decreases j,
    {
        j = j - 1;
    }
    proof {
        lemma_trail_white(rest, (n - j) as int);
    }
    assert(rest.take(rest.len() - (n - j)) =~= s@.subrange(i as int, j as int));
    String::from_str(s.substring_char(i, j))
}

/// The version pin of a project, from the contents of its pin file: the
/// trimmed contents, or empty when there is no file.
pub fn project_pin(contents: &Option<String>) -> (r: String)
    ensures
        contents is None ==> r@.len() == 0,
        contents is Some ==> r@ == trimmed(contents->0@),
{
    match contents {
        None => String::new(),
        Some(c) => trim_text(c.as_str()),
    }
}

} // verus!
