//! The decisions taken when a session starts: document root, entrypoint,
//! the guards that abort startup, and how the backend is launched.
use vstd::prelude::*;
use vstd::string::*;
use crate::paths::{host_join_spec, is_absolute_spec, join_on_host, join_path, join_spec};
use crate::php::{server_sapi_for, server_sapi_spec, HostFamily, PhpServerSapi};
use crate::templates::{cgi_command_args, fpm_command_args};
use crate::text::{decimal, decimal_spec, push_str, views};

verus! {

/// The document root: the explicit one when absolute or relative; when none
/// is given, `./public/` if it is a directory, else `./web/` if it is one,
/// else the project directory itself.
pub open spec fn document_root_spec(
    arg: Seq<char>,
    cwd: Seq<char>,
    public_is_dir: bool,
    web_is_dir: bool,
) -> Seq<char> {
    if arg.len() > 0 {
        arg
    } else if public_is_dir {
        join_spec(cwd, "public/"@)
    } else if web_is_dir {
        join_spec(cwd, "web/"@)
    } else {
        cwd
    }
}

/// Resolves the document root from the `--document-root` argument (empty
/// when absent) and what exists in the project directory `cwd`.
pub fn get_document_root(document_root_arg: &str, cwd: &str, public_is_dir: bool, web_is_dir: bool) -> (r: String)
    ensures
        r@ == document_root_spec(document_root_arg@, cwd@, public_is_dir, web_is_dir),
{
    if document_root_arg.unicode_len() > 0 {
        String::from_str(document_root_arg)
    } else if public_is_dir {
        join_path(cwd, "public/")
    } else if web_is_dir {
        join_path(cwd, "web/")
    } else {
        String::from_str(cwd)
    }
}

/// `s` without one trailing `c`, if it ends with one.
pub open spec fn drop_trailing(s: Seq<char>, c: char) -> Seq<char> {
    if s.len() > 0 && s.last() == c {
        s.drop_last()
    } else {
        s
    }
}

/// The separator of the host's paths.
pub open spec fn separator(host: HostFamily) -> Seq<char> {
    match host {
        HostFamily::Unix => "/"@,
        HostFamily::Windows => "\\"@,
    }
}

/// A document root that ends with exactly the host's separator: one trailing
/// `/`, then one trailing `\\`, is removed, and the separator appended.
pub open spec fn normalized_root_spec(root: Seq<char>, host: HostFamily) -> Seq<char> {
    drop_trailing(drop_trailing(root, '/'), '\\') + separator(host)
}

fn without_trailing(s: &str, c: char) -> (r: String)
    ensures
        r@ == drop_trailing(s@, c),
{
    let n = s.unicode_len();
    if n > 0 && s.get_char(n - 1) == c {
        String::from_str(s.substring_char(0, n - 1))
    } else {
        String::from_str(s)
    }
}

/// Makes the document root end with the host's separator.
pub fn normalize_document_root(root: &str, host: HostFamily) -> (r: String)
    ensures
        r@ == normalized_root_spec(root@, host),
{
    let a = without_trailing(root, '/');
    let b = without_trailing(a.as_str(), '\\');
    match host {
        HostFamily::Unix => b.concat("/"),
        HostFamily::Windows => b.concat("\\"),
    }
}

/// The script that receives every request, and whether resolving it
/// deserves a deprecation warning.
pub struct Entrypoint {
    pub script: String,
    pub deprecated: bool,
}

/// The entrypoint: the explicit one if given, else the first that exists of
/// `index.php`, `app_dev.php` (deprecated) and `app.php`, else `index.php`.
pub open spec fn entrypoint_spec(
    passthru: Option<Seq<char>>,
    index_exists: bool,
    app_dev_exists: bool,
    app_exists: bool,
) -> (Seq<char>, bool) {
    match passthru {
        Some(p) => (p, false),
        None => if index_exists {
            ("index.php"@, false)
        } else if app_dev_exists {
            ("app_dev.php"@, true)
        } else if app_exists {
            ("app.php"@, false)
        } else {
            ("index.php"@, false)
        },
    }
}

/// Resolves the entrypoint from the `--passthru` argument and which of the
/// usual scripts exist under the document root.
pub fn resolve_entrypoint(passthru: &Option<String>, index_exists: bool, app_dev_exists: bool, app_exists: bool) -> (r: Entrypoint)
    ensures
        (r.script@, r.deprecated) == entrypoint_spec(
            match passthru {
                Some(p) => Some(p@),
                None => None,
            },
            index_exists,
            app_dev_exists,
            app_exists,
        ),
{
    match passthru {
        Some(p) => Entrypoint { script: p.clone(), deprecated: false },
        None => {
            if index_exists {
                Entrypoint { script: String::from_str("index.php"), deprecated: false }
            } else if app_dev_exists {
                Entrypoint { script: String::from_str("app_dev.php"), deprecated: true }
            } else if app_exists {
                Entrypoint { script: String::from_str("app.php"), deprecated: false }
            } else {
                Entrypoint { script: String::from_str("index.php"), deprecated: false }
            }
        },
    }
}

/// Why a session does not start. Each makes the program exit with status 1
/// before any child process is spawned.
#[derive(PartialEq, Eq, Structural, Debug, Clone, Copy)]
pub enum StartupError {
    /// The orchestrator's PID file exists: a session already runs here.
    AlreadyRunning,
    /// The resolved entrypoint is not a file.
    MissingEntrypoint,
    /// The chosen PHP executable is neither a process manager nor CGI.
    UnresolvedSapi,
}

impl StartupError {
    /// The process exit status for this failure.
    pub fn exit_code(&self) -> (r: u8)
        ensures
            r == 1,
    {
        1
    }
}

/// The guards checked before anything is spawned: a running session first,
/// then a missing entrypoint.
pub fn startup_check(pid_file_exists: bool, entrypoint_exists: bool) -> (r: Result<(), StartupError>)
    ensures
        pid_file_exists ==> r == Err::<(), StartupError>(StartupError::AlreadyRunning),
        !pid_file_exists && !entrypoint_exists ==> r == Err::<(), StartupError>(StartupError::MissingEntrypoint),
        !pid_file_exists && entrypoint_exists ==> r is Ok,
{
    if pid_file_exists {
        Err(StartupError::AlreadyRunning)
    } else if !entrypoint_exists {
        Err(StartupError::MissingEntrypoint)
    } else {
        Ok(())
    }
}

/// How to launch the PHP backend: its SAPI and its arguments.
pub struct BackendLaunch {
    pub sapi: PhpServerSapi,
    pub args: Vec<String>,
}

/// Decides how to launch the PHP executable `php_bin` on `port`: as a process
/// manager with the pool configuration (where the host has it and the name
/// says `-fpm`), else as a CGI listener logging to `cgi_log` (where the name
/// says `-cgi`); any other executable cannot serve requests.
pub fn backend_launch(
    php_bin: &str,
    host: HostFamily,
    port: u16,
    fpm_config: &str,
    cgi_log: &str,
    is_root: bool,
) -> (r: Result<BackendLaunch, StartupError>)
    ensures
        server_sapi_spec(php_bin@, host) is None <==> r == Err::<BackendLaunch, StartupError>(StartupError::UnresolvedSapi),
        server_sapi_spec(php_bin@, host) == Some(PhpServerSapi::FPM) ==> (r matches Ok(l) && l.sapi
            == PhpServerSapi::FPM && views(l.args@) == seq!["--nodaemonize"@, "--fpm-config"@, fpm_config@]
            + (if is_root { seq!["--allow-to-run-as-root"@] } else { Seq::empty() })),
        server_sapi_spec(php_bin@, host) == Some(PhpServerSapi::CGI) ==> (r matches Ok(l) && l.sapi
            == PhpServerSapi::CGI && views(l.args@) == seq![
            "-b"@,
            "127.0.0.1:"@ + decimal_spec(port as nat),
            "-d"@,
            "error_log="@ + cgi_log@,
            "-e"@,
        ]),
{
    match server_sapi_for(php_bin, host) {
        Some(PhpServerSapi::FPM) => Ok(BackendLaunch { sapi: PhpServerSapi::FPM, args: fpm_command_args(fpm_config, is_root) }),
        Some(PhpServerSapi::CGI) => Ok(BackendLaunch { sapi: PhpServerSapi::CGI, args: cgi_command_args(port, cgi_log) }),
        _ => Err(StartupError::UnresolvedSapi),
    }
}

/// The script's full path: the script itself when absolute, else joined to
/// the document root as the host's paths join.
pub fn get_script_filename(document_root: &str, script_filename_arg: &str, host: HostFamily) -> (r: String)
    ensures
        is_absolute_spec(script_filename_arg@, host) ==> r@ == script_filename_arg@,
        r@ == host_join_spec(document_root@, script_filename_arg@, host),
{
    join_on_host(document_root, script_filename_arg, host)
}

/// The path info handed to the backend: a lone `/` becomes empty.
pub fn filter_pathinfo(path_info: String) -> (r: String)
    ensures
        path_info@ == "/"@ ==> r@.len() == 0,
        path_info@ != "/"@ ==> r == path_info,
{
    proof {
        reveal_strlit("/");
    }
    if path_info.unicode_len() == 1 && path_info.as_str().get_char(0) == '/' {
        assert(path_info@ =~= "/"@);
        String::new()
    } else {
        path_info
    }
}

/// The arguments with which a background orchestrator re-runs itself in the
/// foreground: the allocated port, the switches given, and the document
/// root and entrypoint when they are not empty.
pub fn background_args(port: u16, no_tls: bool, expose_server_header: bool, document_root: &str, passthru: &str) -> (r: Vec<String>)
    ensures
        views(r@) == seq!["serve"@, "--port"@, decimal_spec(port as nat)]
            + (if no_tls { seq!["--no-tls"@] } else { Seq::empty() })
            + (if expose_server_header { seq!["--expose-server-header"@] } else { Seq::empty() })
            + (if document_root@.len() > 0 { seq!["--document-root"@, document_root@] } else { Seq::empty() })
            + (if passthru@.len() > 0 { seq!["--passthru"@, passthru@] } else { Seq::empty() }),
{
    let mut r: Vec<String> = Vec::new();
    push_str(&mut r, "serve");
    push_str(&mut r, "--port");
    let p = decimal(port as u64);
    push_str(&mut r, p.as_str());
    let ghost a = views(r@);
    if no_tls {
        push_str(&mut r, "--no-tls");
    }
    let ghost b = views(r@);
    assert(b =~= a + (if no_tls { seq!["--no-tls"@] } else { Seq::empty() }));
    if expose_server_header {
        push_str(&mut r, "--expose-server-header");
    }
    let ghost c = views(r@);
    assert(c =~= b + (if expose_server_header { seq!["--expose-server-header"@] } else { Seq::empty() }));
    if document_root.unicode_len() > 0 {
        push_str(&mut r, "--document-root");
        push_str(&mut r, document_root);
    }
    let ghost d = views(r@);
    assert(d =~= c + (if document_root@.len() > 0 { seq!["--document-root"@, document_root@] } else { Seq::empty() }));
    if passthru.unicode_len() > 0 {
        push_str(&mut r, "--passthru");
        push_str(&mut r, passthru);
    }
    assert(views(r@) =~= d + (if passthru@.len() > 0 { seq!["--passthru"@, passthru@] } else { Seq::empty() }));
    r
}

} // verus!
