//! The PHP data model: execution modes (SAPIs), validated versions, and one
//! installation's executables with their merge rule.
use vstd::prelude::*;
use vstd::string::*;
use crate::text::{is_digit, occurs_at, occurs_in};

verus! {

/// How a PHP executable accepts and runs requests.
#[derive(PartialEq, Eq, Structural, Clone, Copy, Debug)]
pub enum PhpServerSapi {
    FPM,
    CGI,
    CLI,
    Unknown,
}

/// The operating-system family the orchestrator runs on.
#[derive(PartialEq, Eq, Structural, Clone, Copy, Debug)]
pub enum HostFamily {
    Unix,
    Windows,
}

/// `c` in lower case, for ASCII letters; any other character stays.
pub open spec fn ascii_lower(c: char) -> char {
    if 'A' <= c && c <= 'Z' {
        (((c as u32) + 32) as u8) as char
    } else {
        c
    }
}

/// Whether `s` equals the lower-case text `t` when ASCII letters are compared
/// without regard to case.
pub open spec fn equals_folded(s: Seq<char>, t: Seq<char>) -> bool {
    s.len() == t.len() && forall|i: int| 0 <= i < s.len() ==> ascii_lower(s[i]) == t[i]
}

/// The SAPI that a name reported by `php --version` stands for.
pub open spec fn sapi_of(name: Seq<char>) -> PhpServerSapi {
    if equals_folded(name, "fpm"@) || equals_folded(name, "fpm-fcgi"@) {
        PhpServerSapi::FPM
    } else if equals_folded(name, "cli"@) {
        PhpServerSapi::CLI
    } else if equals_folded(name, "cgi"@) || equals_folded(name, "cgi-fcgi"@) {
        PhpServerSapi::CGI
    } else {
        PhpServerSapi::Unknown
    }
}

fn fold_char(c: char) -> (r: char)
    ensures
        r == ascii_lower(c),
{
    if 'A' <= c && c <= 'Z' {
        (((c as u32) + 32) as u8) as char
    } else {
        c
    }
}

fn folded_equal(s: &str, t: &str) -> (r: bool)
    ensures
        r == equals_folded(s@, t@),
{
    let n = s.unicode_len();
    if n != t.unicode_len() {
        return false;
    }
    let mut i: usize = 0;
    while i < n
        invariant
            n == s@.len(),
            n == t@.len(),
            i <= n,
            forall|j: int| 0 <= j < i ==> ascii_lower(s@[j]) == t@[j],
        decreases n - i,
    {
        if fold_char(s.get_char(i)) != t.get_char(i) {
            return false;
        }
        i = i + 1;
    }
    true
}

impl PhpServerSapi {
    /// Reads a SAPI name, ignoring the case of ASCII letters: `fpm` and
    /// `fpm-fcgi` are FPM, `cli` is CLI, `cgi` and `cgi-fcgi` are CGI, any
    /// other name is Unknown. (No non-ASCII character lowercases to a letter
    /// of these names, so this is also what full Unicode folding gives.)
    pub fn from_str(str: &str) -> (r: PhpServerSapi)
        ensures
            r == sapi_of(str@),
    {
        if folded_equal(str, "fpm") || folded_equal(str, "fpm-fcgi") {
            PhpServerSapi::FPM
        } else if folded_equal(str, "cli") {
            PhpServerSapi::CLI
        } else if folded_equal(str, "cgi") || folded_equal(str, "cgi-fcgi") {
            PhpServerSapi::CGI
        } else {
            PhpServerSapi::Unknown
        }
    }

    /// The known SAPIs, in the order in which a merge visits them.
    pub fn all() -> (r: Vec<PhpServerSapi>)
        ensures
            r@ == seq![PhpServerSapi::FPM, PhpServerSapi::CLI, PhpServerSapi::CGI],
    {
        let r = vec![PhpServerSapi::FPM, PhpServerSapi::CLI, PhpServerSapi::CGI];
        assert(r@ =~= seq![PhpServerSapi::FPM, PhpServerSapi::CLI, PhpServerSapi::CGI]);
        r
    }

    /// The display name: `FPM`, `CLI`, `CGI` or `unknown`.
    pub fn name(&self) -> (r: String)
        ensures
            r@ == match *self {
                PhpServerSapi::FPM => "FPM"@,
                PhpServerSapi::CLI => "CLI"@,
                PhpServerSapi::CGI => "CGI"@,
                PhpServerSapi::Unknown => "unknown"@,
            },
    {
        match self {
            PhpServerSapi::FPM => String::from_str("FPM"),
            PhpServerSapi::CLI => String::from_str("CLI"),
            PhpServerSapi::CGI => String::from_str("CGI"),
            PhpServerSapi::Unknown => String::from_str("unknown"),
        }
    }
}

/// Whether a host of the given family can run the SAPI at all: the process
/// manager does not exist on Windows, CGI and CLI exist everywhere.
pub open spec fn sapi_available_spec(host: HostFamily, sapi: PhpServerSapi) -> bool {
    match sapi {
        PhpServerSapi::FPM => host == HostFamily::Unix,
        PhpServerSapi::CGI => true,
        PhpServerSapi::CLI => true,
        PhpServerSapi::Unknown => false,
    }
}

/// The capability table of SAPIs per host family.
pub fn sapi_available(host: HostFamily, sapi: PhpServerSapi) -> (r: bool)
    ensures
        r == sapi_available_spec(host, sapi),
{
    match sapi {
        PhpServerSapi::FPM => host == HostFamily::Unix,
        PhpServerSapi::CGI => true,
        PhpServerSapi::CLI => true,
        PhpServerSapi::Unknown => false,
    }
}

/// Whether `t` occurs somewhere in `s`.
pub open spec fn contains_spec(s: Seq<char>, t: Seq<char>) -> bool {
    exists|i: int| occurs_at(s, i, t)
}

/// Whether `t` occurs somewhere in the characters `v`.
pub fn contains_text(v: &Vec<char>, t: &str) -> (r: bool)
    ensures
        r == contains_spec(v@, t@),
{
    if t.unicode_len() == 0 {
        assert(occurs_at(v@, 0, t@)) by {
            assert(v@.subrange(0, 0) =~= t@);
        }
        return true;
    }
    let mut i: usize = 0;
    while i < v.len()
        invariant
            t@.len() > 0,
            forall|j: int| 0 <= j < i ==> !occurs_at(v@, j, t@),
        decreases v.len() - i,
    {
        if occurs_in(v, i, t) {
            return true;
        }
        i = i + 1;
    }
    assert forall|j: int| !occurs_at(v@, j, t@) by {
        if j >= v.len() {
            assert(!(j + t@.len() <= v@.len()));
        }
    }
    false
}

/// The SAPI that serves requests with the executable at `path`: the process
/// manager when its name holds `-fpm` and the host has it, else CGI when the
/// name holds `-cgi`; `None` when neither applies.
pub open spec fn server_sapi_spec(path: Seq<char>, host: HostFamily) -> Option<PhpServerSapi> {
    if contains_spec(path, "-fpm"@) && host == HostFamily::Unix {
        Some(PhpServerSapi::FPM)
    } else if contains_spec(path, "-cgi"@) {
        Some(PhpServerSapi::CGI)
    } else {
        None
    }
}

/// Decides how to launch the PHP executable at `path` as a request server.
pub fn server_sapi_for(path: &str, host: HostFamily) -> (r: Option<PhpServerSapi>)
    ensures
        r == server_sapi_spec(path@, host),
{
    let v = crate::text::chars_of(path);
    if contains_text(&v, "-fpm") && host == HostFamily::Unix {
        Some(PhpServerSapi::FPM)
    } else if contains_text(&v, "-cgi") {
        Some(PhpServerSapi::CGI)
    } else {
        None
    }
}

/// Whether every character of `s` is a digit, and there is at least one.
pub open spec fn all_digits(s: Seq<char>) -> bool {
    s.len() > 0 && forall|i: int| 0 <= i < s.len() ==> is_digit(s[i])
}

/// Whether `s` is a PHP version `major.minor.patch`: a major of 5, 7 or 8, a
/// minor of one or two digits, and a patch of one or more digits.
pub open spec fn valid_version(s: Seq<char>) -> bool {
    &&& s.len() >= 5
    &&& (s[0] == '5' || s[0] == '7' || s[0] == '8')
    &&& s[1] == '.'
    &&& is_digit(s[2])
    &&& ((s[3] == '.' && all_digits(s.skip(4))) || (is_digit(s[3]) && s.len() >= 6 && s[4] == '.'
        && all_digits(s.skip(5))))
}

fn digits_from(v: &Vec<char>, from: usize) -> (r: bool)
    requires
        from <= v.len(),
    ensures
        r == all_digits(v@.skip(from as int)),
{
    if from == v.len() {
        return false;
    }
    let mut i = from;
    while i < v.len()
        invariant
            from <= i <= v.len(),
            forall|j: int| from <= j < i ==> is_digit(v@[j]),
        decreases v.len() - i,
    {
        if !('0' <= v[i] && v[i] <= '9') {
            assert(!is_digit(v@.skip(from as int)[i - from]));
            return false;
        }
        i = i + 1;
    }
    true
}

/// A PHP version, kept as its text `major.minor.patch`.
#[derive(Debug)]
pub struct PhpVersion {
    version: String,
}

impl View for PhpVersion {
    type V = Seq<char>;

    closed spec fn view(&self) -> Seq<char> {
        self.version@
    }
}

impl PartialEq for PhpVersion {
    fn eq(&self, other: &PhpVersion) -> (r: bool)
        ensures
            r == (self@ == other@),
    {
        self.version == other.version
    }
}

impl vstd::std_specs::cmp::PartialEqSpecImpl for PhpVersion {
    open spec fn obeys_eq_spec() -> bool {
        true
    }

    open spec fn eq_spec(&self, other: &PhpVersion) -> bool {
        self@ == other@
    }
}

impl PhpVersion {
    /// A version is well formed when it is valid, or empty (the placeholder
    /// that `new` makes).
    pub open spec fn wf(&self) -> bool {
        self@.len() == 0 || valid_version(self@)
    }

    /// Whether `version` is a valid PHP version text.
    pub fn is_valid(version: &str) -> (r: bool)
        ensures
            r == valid_version(version@),
    {
        let v = crate::text::chars_of(version);
        if v.len() < 5 {
            return false;
        }
        if !(v[0] == '5' || v[0] == '7' || v[0] == '8') || v[1] != '.' || !('0' <= v[2] && v[2] <= '9') {
            return false;
        }
        if v[3] == '.' {
            digits_from(&v, 4)
        } else if '0' <= v[3] && v[3] <= '9' && v.len() >= 6 && v[4] == '.' {
            digits_from(&v, 5)
        } else {
            false
        }
    }

    /// A copy of this version.
    pub fn clone(&self) -> (r: PhpVersion)
        ensures
            r@ == self@,
    {
        PhpVersion { version: self.version.clone() }
    }

    /// The empty placeholder version.
    pub fn new() -> (r: PhpVersion)
        ensures
            r@.len() == 0,
            r.wf(),
    {
        PhpVersion { version: String::new() }
    }

    /// The version written as `version`, which must be valid.
    pub fn from_str(version: &str) -> (r: PhpVersion)
        requires
            valid_version(version@),
        ensures
            r@ == version@,
            r.wf(),
    {
        PhpVersion { version: String::from_str(version) }
    }

    /// The version held in `version`, which must be valid.
    pub fn from_string(version: String) -> (r: PhpVersion)
        requires
            valid_version(version@),
        ensures
            r@ == version@,
            r.wf(),
    {
        PhpVersion { version }
    }

    /// The version's text.
    pub fn version(&self) -> (r: &str)
        ensures
            r@ == self@,
    {
        self.version.as_str()
    }
}

/// What a `PhpBinary` holds: its version, one path per SAPI (empty when the
/// SAPI is absent) and whether it is the system's default PHP.
pub struct BinaryModel {
    pub version: Seq<char>,
    pub cli: Seq<char>,
    pub fpm: Seq<char>,
    pub cgi: Seq<char>,
    pub system: bool,
}

/// The path that `b` holds for `sapi`; empty for Unknown.
pub open spec fn slot(b: BinaryModel, sapi: PhpServerSapi) -> Seq<char> {
    match sapi {
        PhpServerSapi::FPM => b.fpm,
        PhpServerSapi::CLI => b.cli,
        PhpServerSapi::CGI => b.cgi,
        PhpServerSapi::Unknown => Seq::empty(),
    }
}

/// `b` with `path` for `sapi`, which is a known SAPI.
pub open spec fn with_slot(b: BinaryModel, sapi: PhpServerSapi, path: Seq<char>) -> BinaryModel {
    match sapi {
        PhpServerSapi::FPM => BinaryModel { fpm: path, ..b },
        PhpServerSapi::CLI => BinaryModel { cli: path, ..b },
        PhpServerSapi::CGI => BinaryModel { cgi: path, ..b },
        PhpServerSapi::Unknown => b,
    }
}

/// A binary of version `v` with no executable yet.
pub open spec fn empty_binary(v: Seq<char>) -> BinaryModel {
    BinaryModel { version: v, cli: Seq::empty(), fpm: Seq::empty(), cgi: Seq::empty(), system: false }
}

/// The path that `a` keeps, or else the one of `b`.
pub open spec fn keep_or(a: Seq<char>, b: Seq<char>) -> Seq<char> {
    if a.len() == 0 { b } else { a }
}

/// `a` merged with `b`: for the same version, each SAPI that `a` lacks is
/// taken from `b`; for another version `a` is unchanged. `a`'s system flag
/// stays.
pub open spec fn merged(a: BinaryModel, b: BinaryModel) -> BinaryModel {
    if a.version != b.version {
        a
    } else {
        BinaryModel {
            cli: keep_or(a.cli, b.cli),
            fpm: keep_or(a.fpm, b.fpm),
            cgi: keep_or(a.cgi, b.cgi),
            ..a
        }
    }
}

/// Whether two binaries hold no SAPI in common.
pub open spec fn disjoint_sapis(a: BinaryModel, b: BinaryModel) -> bool {
    &&& (a.cli.len() == 0 || b.cli.len() == 0)
    &&& (a.fpm.len() == 0 || b.fpm.len() == 0)
    &&& (a.cgi.len() == 0 || b.cgi.len() == 0)
}

/// Merging two binaries of one version with disjoint SAPIs (and the same
/// system flag) does not depend on their order, and merging a binary with
/// itself gives it back.
pub proof fn lemma_merge_laws(a: BinaryModel, b: BinaryModel)
    requires
        a.version == b.version,
        a.system == b.system,
        disjoint_sapis(a, b),
    ensures
        merged(a, b) == merged(b, a),
        merged(a, a) == a,
{
    if a.cli.len() == 0 && b.cli.len() == 0 {
        assert(a.cli =~= b.cli);
    }
    if a.fpm.len() == 0 && b.fpm.len() == 0 {
        assert(a.fpm =~= b.fpm);
    }
    if a.cgi.len() == 0 && b.cgi.len() == 0 {
        assert(a.cgi =~= b.cgi);
    }
}

/// One PHP installation: a version and up to one executable per SAPI.
#[derive(Debug)]
pub struct PhpBinary {
    cli: String,
    fpm: String,
    cgi: String,
    system: bool,
    version: PhpVersion,
}

impl View for PhpBinary {
    type V = BinaryModel;

    closed spec fn view(&self) -> BinaryModel {
        BinaryModel {
            version: self.version@,
            cli: self.cli@,
            fpm: self.fpm@,
            cgi: self.cgi@,
            system: self.system,
        }
    }
}

impl PhpBinary {
    /// A binary of `version` with no executable, not the system one.
    pub fn from_version(version: PhpVersion) -> (r: PhpBinary)
        ensures
            r@ == empty_binary(version@),
    {
        PhpBinary {
            version,
            cli: String::new(),
            fpm: String::new(),
            cgi: String::new(),
            system: false,
        }
    }

    /// A binary from all its parts.
    pub fn from_parts(version: PhpVersion, cli: String, fpm: String, cgi: String, system: bool) -> (r: PhpBinary)
        ensures
            r@ == (BinaryModel { version: version@, cli: cli@, fpm: fpm@, cgi: cgi@, system }),
    {
        PhpBinary { version, cli, fpm, cgi, system }
    }

    /// Takes from `from`, when it has the same version, each SAPI that this
    /// binary lacks.
    pub fn merge_with(&mut self, from: PhpBinary)
        ensures
            final(self)@ == merged(old(self)@, from@),
    {
        if !(self.version == from.version) {
            return;
        }
        if self.fpm.unicode_len() == 0 {
            self.fpm = from.fpm;
        }
        if self.cli.unicode_len() == 0 {
            self.cli = from.cli;
        }
        if self.cgi.unicode_len() == 0 {
            self.cgi = from.cgi;
        }
    }

    /// The CLI executable, or an empty path.
    pub fn cli(&self) -> (r: &String)
        ensures
            r@ == self@.cli,
    {
        &self.cli
    }

    /// The process manager executable, or an empty path.
    pub fn fpm(&self) -> (r: &String)
        ensures
            r@ == self@.fpm,
    {
        &self.fpm
    }

    /// The CGI executable, or an empty path.
    pub fn cgi(&self) -> (r: &String)
        ensures
            r@ == self@.cgi,
    {
        &self.cgi
    }

    /// The version.
    pub fn version(&self) -> (r: &PhpVersion)
        ensures
            r@ == self@.version,
    {
        &self.version
    }

    /// Whether an executable is known for `sapi`.
    pub fn has_sapi(&self, sapi: &PhpServerSapi) -> (r: bool)
        ensures
            r == (slot(self@, *sapi).len() > 0),
    {
        match sapi {
            PhpServerSapi::FPM => self.fpm.unicode_len() > 0,
            PhpServerSapi::CLI => self.cli.unicode_len() > 0,
            PhpServerSapi::CGI => self.cgi.unicode_len() > 0,
            PhpServerSapi::Unknown => false,
        }
    }

    /// Whether this is the system's default PHP.
    pub fn system(&self) -> (r: bool)
        ensures
            r == self@.system,
    {
        self.system
    }

    /// Marks or unmarks this binary as the system's default PHP.
    pub fn set_system(&mut self, is_system: bool)
        ensures
            final(self)@ == (BinaryModel { system: is_system, ..old(self)@ }),
    {
        self.system = is_system;
    }

    /// The executable to launch: the process manager, else CGI, else CLI.
    pub fn preferred_sapi(&self) -> (r: String)
        requires
            has_any_sapi(self@),
        ensures
            r@ == preferred_path(self@),
    {
        if self.fpm.unicode_len() > 0 {
            self.fpm.clone()
        } else if self.cgi.unicode_len() > 0 {
            self.cgi.clone()
        } else {
            self.cli.clone()
        }
    }

    /// Records `path` as the executable for `sapi`, a known SAPI.
    pub fn add_sapi(&mut self, sapi: &PhpServerSapi, path: &String)
        requires
            *sapi != PhpServerSapi::Unknown,
        ensures
            final(self)@ == with_slot(old(self)@, *sapi, path@),
    {
        match sapi {
            PhpServerSapi::FPM => {
                self.fpm = path.clone();
            },
            PhpServerSapi::CLI => {
                self.cli = path.clone();
            },
            PhpServerSapi::CGI => {
                self.cgi = path.clone();
            },
            PhpServerSapi::Unknown => {},
        }
        assert(self@ =~= with_slot(old(self)@, *sapi, path@));
    }

    /// The executable for `sapi`, or an empty path.
    pub fn sapi_path(&self, sapi: &PhpServerSapi) -> (r: String)
        ensures
            r@ == slot(self@, *sapi),
    {
        match sapi {
            PhpServerSapi::FPM => self.fpm.clone(),
            PhpServerSapi::CLI => self.cli.clone(),
            PhpServerSapi::CGI => self.cgi.clone(),
            PhpServerSapi::Unknown => String::new(),
        }
    }
}

/// Whether `b` offers any executable.
pub open spec fn has_any_sapi(b: BinaryModel) -> bool {
    b.fpm.len() > 0 || b.cgi.len() > 0 || b.cli.len() > 0
}

/// The executable to launch from `b`, by priority FPM, CGI, CLI.
pub open spec fn preferred_path(b: BinaryModel) -> Seq<char> {
    if b.fpm.len() > 0 {
        b.fpm
    } else if b.cgi.len() > 0 {
        b.cgi
    } else {
        b.cli
    }
}

} // verus!
