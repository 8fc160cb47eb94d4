//! The per-project runtime directory and the files inside it, all pure
//! functions of the user's home and the project directory.
use vstd::prelude::*;
use vstd::string::*;
use sha2::Digest;
use crate::php::HostFamily;

verus! {

/// `dir` joined with the relative `name`, with one `/` between them.
pub open spec fn join_spec(dir: Seq<char>, name: Seq<char>) -> Seq<char> {
    if dir.len() == 0 {
        name
    } else if dir.last() == '/' {
        dir + name
    } else {
        dir + seq!['/'] + name
    }
}

/// Joins the relative path `name` to `dir`.
pub fn join_path(dir: &str, name: &str) -> (r: String)
    ensures
        r@ == join_spec(dir@, name@),
{
    let n = dir.unicode_len();
    if n == 0 {
        String::from_str(name)
    } else if dir.get_char(n - 1) == '/' {
        String::from_str(dir).concat(name)
    } else {
        proof {
            reveal_strlit("/");
        }
        String::from_str(dir).concat("/").concat(name)
    }
}

/// Whether `c` is an ASCII letter, as a Windows drive letter must be.
pub open spec fn is_ascii_letter(c: char) -> bool {
    ('a' <= c && c <= 'z') || ('A' <= c && c <= 'Z')
}

/// Whether `c` separates Windows path components.
pub open spec fn is_windows_sep(c: char) -> bool {
    c == '\\' || c == '/'
}

/// Whether `p` starts with a drive prefix such as `C:`.
pub open spec fn has_drive(p: Seq<char>) -> bool {
    p.len() >= 2 && is_ascii_letter(p[0]) && p[1] == ':'
}

/// Whether `p` is an absolute path on the host: rooted at `/` on Unix; on
/// Windows a drive prefix followed by a separator, or a `\\` network or
/// verbatim prefix.
pub open spec fn is_absolute_spec(p: Seq<char>, host: HostFamily) -> bool {
    match host {
        HostFamily::Unix => p.len() > 0 && p[0] == '/',
        HostFamily::Windows => (has_drive(p) && p.len() >= 3 && is_windows_sep(p[2])) || (p.len() >= 2
            && p[0] == '\\' && p[1] == '\\'),
    }
}

/// `dir` joined with `name` as the host's paths join: an absolute `name`
/// replaces `dir`. On Unix one `/` is put between them unless `dir` is empty
/// or already ends with `/`. On Windows a `name` with a drive prefix replaces
/// `dir`; a `name` that starts with a separator keeps only `dir`'s drive
/// prefix (network prefixes of `dir` are not kept); otherwise one `\` is
/// put between them unless `dir` is empty, is a bare drive such as `C:`, or
/// already ends with `\` or `/`.
pub open spec fn host_join_spec(dir: Seq<char>, name: Seq<char>, host: HostFamily) -> Seq<char> {
    if is_absolute_spec(name, host) {
        name
    } else {
        match host {
            HostFamily::Unix => join_spec(dir, name),
            HostFamily::Windows => if has_drive(name) {
                name
            } else if name.len() > 0 && is_windows_sep(name[0]) {
                if has_drive(dir) {
                    dir.take(2) + name
                } else {
                    name
                }
            } else if dir.len() == 0 || is_windows_sep(dir.last()) || (dir.len() == 2 && has_drive(dir)) {
                dir + name
            } else {
                dir + seq!['\\'] + name
            },
        }
    }
}

fn is_ascii_letter_exec(c: char) -> (r: bool)
    ensures
        r == is_ascii_letter(c),
{
    ('a' <= c && c <= 'z') || ('A' <= c && c <= 'Z')
}

fn has_drive_exec(p: &str) -> (r: bool)
    ensures
        r == has_drive(p@),
{
    p.unicode_len() >= 2 && is_ascii_letter_exec(p.get_char(0)) && p.get_char(1) == ':'
}

/// Whether `p` is an absolute path on the host.
pub fn is_absolute(p: &str, host: HostFamily) -> (r: bool)
    ensures
        r == is_absolute_spec(p@, host),
{
    let n = p.unicode_len();
    match host {
        HostFamily::Unix => n > 0 && p.get_char(0) == '/',
        HostFamily::Windows => (has_drive_exec(p) && n >= 3 && (p.get_char(2) == '\\' || p.get_char(2) == '/'))
            || (n >= 2 && p.get_char(0) == '\\' && p.get_char(1) == '\\'),
    }
}

/// Joins `name` to `dir` as the host's paths join.
pub fn join_on_host(dir: &str, name: &str, host: HostFamily) -> (r: String)
    ensures
        r@ == host_join_spec(dir@, name@, host),
{
    if is_absolute(name, host) {
        return String::from_str(name);
    }
    match host {
        HostFamily::Unix => join_path(dir, name),
        HostFamily::Windows => {
            let n = dir.unicode_len();
            if has_drive_exec(name) {
                String::from_str(name)
            } else if name.unicode_len() > 0 && (name.get_char(0) == '\\' || name.get_char(0) == '/') {
                if has_drive_exec(dir) {
                    String::from_str(dir.substring_char(0, 2)).concat(name)
                } else {
                    String::from_str(name)
                }
            } else if n == 0 || dir.get_char(n - 1) == '\\' || dir.get_char(n - 1) == '/' || (n == 2
                && has_drive_exec(dir)) {
                String::from_str(dir).concat(name)
            } else {
                proof {
                    reveal_strlit("\\");
                }
                String::from_str(dir).concat("\\").concat(name)
            }
        },
    }
}

/// The SHA-256 digest of a byte sequence.
pub uninterp spec fn sha256_of(b: Seq<u8>) -> Seq<u8>;

/// Relies on `sha2::Sha256::digest`: the SHA-256 digest of the bytes, 32
/// bytes long.
#[verifier::external_body]
fn sha256(b: &[u8]) -> (r: Vec<u8>)
    ensures
        r@ == sha256_of(b@),
        r@.len() == 32,
{
    sha2::Sha256::digest(b).to_vec()
}

/// The lower-case hexadecimal digit for `d`, which is below sixteen.
pub open spec fn hex_char(d: nat) -> char {
    if d < 10 {
        crate::text::digit_char(d)
    } else if d == 10 {
        'a'
    } else if d == 11 {
        'b'
    } else if d == 12 {
        'c'
    } else if d == 13 {
        'd'
    } else if d == 14 {
        'e'
    } else {
        'f'
    }
}

/// Two lower-case hexadecimal digits per byte.
pub open spec fn hex_spec(b: Seq<u8>) -> Seq<char>
    decreases b.len(),
{
    if b.len() == 0 {
        Seq::empty()
    } else {
        hex_spec(b.drop_last()) + seq![hex_char(b.last() as nat / 16), hex_char(b.last() as nat % 16)]
    }
}

fn hex_digit(d: u8) -> (r: String)
    requires
        d < 16,
    ensures
        r@ == seq![hex_char(d as nat)],
{
    proof {
        reveal_strlit("0123456789abcdef");
    }
    String::from_str("0123456789abcdef".substring_char(d as usize, d as usize + 1))
}

/// Writes bytes in lower-case hexadecimal.
pub fn hex_lower(b: &Vec<u8>) -> (r: String)
    ensures
        r@ == hex_spec(b@),
{
    let mut r = String::new();
    let mut i: usize = 0;
    assert(b@.take(0) =~= Seq::<u8>::empty());
    while i < b.len()
        invariant
            i <= b.len(),
            r@ == hex_spec(b@.take(i as int)),
        decreases b.len() - i,
    {
        let x = b[i];
        let hi = hex_digit(x / 16);
        let lo = hex_digit(x % 16);
        r = r.concat(hi.as_str()).concat(lo.as_str());
        assert(b@.take(i + 1).drop_last() =~= b@.take(i as int));
        i = i + 1;
    }
    assert(b@.take(i as int) =~= b@);
    r
}

/// The runtime directory of the project at `cwd`:
/// `<home>/.rymfony/<hex of the SHA-256 of cwd's UTF-8 bytes>`; `None` when
/// the home directory is unknown (empty).
pub open spec fn project_directory_spec(home: Seq<char>, cwd: &str) -> Option<Seq<char>> {
    if home.len() == 0 {
        None
    } else {
        Some(join_spec(join_spec(home, ".rymfony"@), hex_spec(sha256_of(cwd.spec_bytes()))))
    }
}

/// Computes the runtime directory of the project at `cwd`.
pub fn get_rymfony_project_directory(home: &str, cwd: &str) -> (r: Option<String>)
    ensures
        r is None <==> project_directory_spec(home@, cwd) is None,
        r is Some ==> project_directory_spec(home@, cwd) == Some(r->0@),
{
    if home.unicode_len() == 0 {
        return None;
    }
    let digest = sha256(cwd.as_bytes());
    let name = hex_lower(&digest);
    let root = join_path(home, ".rymfony");
    Some(join_path(root.as_str(), name.as_str()))
}

/// The log directory inside a project's runtime directory.
pub fn get_log_directory(project_dir: &str) -> (r: String)
    ensures
        r@ == join_spec(project_dir@, "log"@),
{
    join_path(project_dir, "log")
}

/// The orchestrator's PID file, whose presence means a session runs.
pub fn rymfony_pid_file(project_dir: &str) -> (r: String)
    ensures
        r@ == join_spec(project_dir@, ".rymfony.pid"@),
{
    join_path(project_dir, ".rymfony.pid")
}

/// The proxy's PID file.
pub fn get_caddy_pid_file(project_dir: &str) -> (r: String)
    ensures
        r@ == join_spec(project_dir@, ".caddy.pid"@),
{
    join_path(project_dir, ".caddy.pid")
}

/// The PHP backend's PID file.
pub fn php_server_pid_file(project_dir: &str) -> (r: String)
    ensures
        r@ == join_spec(project_dir@, ".php_server.pid"@),
{
    join_path(project_dir, ".php_server.pid")
}

/// The pool configuration of the process manager.
pub fn php_fpm_conf_ini_file(project_dir: &str) -> (r: String)
    ensures
        r@ == join_spec(project_dir@, "fpm-conf.ini"@),
{
    join_path(project_dir, "fpm-conf.ini")
}

/// The user-editable proxy template.
pub fn get_caddy_config_file(project_dir: &str) -> (r: String)
    ensures
        r@ == join_spec(project_dir@, "Caddyfile"@),
{
    join_path(project_dir, "Caddyfile")
}

/// The proxy configuration regenerated on every run.
pub fn get_caddy_runtime_config_file(project_dir: &str) -> (r: String)
    ensures
        r@ == join_spec(project_dir@, "Caddyfile.runtime"@),
{
    join_path(project_dir, "Caddyfile.runtime")
}

/// Standard output of a background orchestrator.
pub fn get_rymfony_process_log_file(project_dir: &str) -> (r: String)
    ensures
        r@ == join_spec(join_spec(project_dir@, "log"@), "process.rymfony.log"@),
{
    let dir = get_log_directory(project_dir);
    join_path(dir.as_str(), "process.rymfony.log")
}

/// Standard error of a background orchestrator.
pub fn get_rymfony_process_err_file(project_dir: &str) -> (r: String)
    ensures
        r@ == join_spec(join_spec(project_dir@, "log"@), "process.rymfony.err"@),
{
    let dir = get_log_directory(project_dir);
    join_path(dir.as_str(), "process.rymfony.err")
}

/// Standard output of the PHP backend.
pub fn get_php_process_log_file(project_dir: &str) -> (r: String)
    ensures
        r@ == join_spec(join_spec(project_dir@, "log"@), "process.fpm.log"@),
{
    let dir = get_log_directory(project_dir);
    join_path(dir.as_str(), "process.fpm.log")
}

/// Standard error of the PHP backend.
pub fn get_php_process_err_file(project_dir: &str) -> (r: String)
    ensures
        r@ == join_spec(join_spec(project_dir@, "log"@), "process.fpm.err"@),
{
    let dir = get_log_directory(project_dir);
    join_path(dir.as_str(), "process.fpm.err")
}

/// The PHP server's log.
pub fn get_php_server_log_file(project_dir: &str) -> (r: String)
    ensures
        r@ == join_spec(join_spec(project_dir@, "log"@), "server.php.log"@),
{
    let dir = get_log_directory(project_dir);
    join_path(dir.as_str(), "server.php.log")
}

/// The PHP server's error log.
pub fn get_php_server_error_file(project_dir: &str) -> (r: String)
    ensures
        r@ == join_spec(join_spec(project_dir@, "log"@), "server.php.err"@),
{
    let dir = get_log_directory(project_dir);
    join_path(dir.as_str(), "server.php.err")
}

/// The proxy's own log.
pub fn get_http_server_log_file(project_dir: &str) -> (r: String)
    ensures
        r@ == join_spec(join_spec(project_dir@, "log"@), "http.server.log"@),
{
    let dir = get_log_directory(project_dir);
    join_path(dir.as_str(), "http.server.log")
}

/// The log of the served site.
pub fn get_http_vhost_log_file(project_dir: &str) -> (r: String)
    ensures
        r@ == join_spec(join_spec(project_dir@, "log"@), "http.vhost.log"@),
{
    let dir = get_log_directory(project_dir);
    join_path(dir.as_str(), "http.vhost.log")
}

/// Standard output of the proxy.
pub fn get_http_process_stdout_file(project_dir: &str) -> (r: String)
    ensures
        r@ == join_spec(join_spec(project_dir@, "log"@), "process.http.stdout"@),
{
    let dir = get_log_directory(project_dir);
    join_path(dir.as_str(), "process.http.stdout")
}

/// Standard error of the proxy.
pub fn get_http_process_stderr_file(project_dir: &str) -> (r: String)
    ensures
        r@ == join_spec(join_spec(project_dir@, "log"@), "process.http.stderr"@),
{
    let dir = get_log_directory(project_dir);
    join_path(dir.as_str(), "process.http.stderr")
}

/// The error log of a CGI backend.
pub fn get_php_cgi_log_file(project_dir: &str) -> (r: String)
    ensures
        r@ == join_spec(join_spec(project_dir@, "log"@), "php-cgi.log"@),
{
    let dir = get_log_directory(project_dir);
    join_path(dir.as_str(), "php-cgi.log")
}

/// The three PID files of a session: orchestrator, backend and proxy.
pub fn runtime_pid_files(project_dir: &str) -> (r: Vec<String>)
    ensures
        crate::text::views(r@) == seq![
            join_spec(project_dir@, ".rymfony.pid"@),
            join_spec(project_dir@, ".php_server.pid"@),
            join_spec(project_dir@, ".caddy.pid"@),
        ],
{
    let mut r: Vec<String> = Vec::new();
    r.push(rymfony_pid_file(project_dir));
    r.push(php_server_pid_file(project_dir));
    r.push(get_caddy_pid_file(project_dir));
    assert(crate::text::views(r@) =~= seq![
        join_spec(project_dir@, ".rymfony.pid"@),
        join_spec(project_dir@, ".php_server.pid"@),
        join_spec(project_dir@, ".caddy.pid"@),
    ]);
    r
}

} // verus!
