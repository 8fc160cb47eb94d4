//! Configuration templates for the two managed processes and the values
//! that fill their `{{ key }}` placeholders.
use vstd::prelude::*;
use vstd::string::*;
use crate::text::{
    chars_of, decimal, decimal_spec, digits_end, lead_digits, occurs_at, occurs_in, push_str,
    replace_all, replace_spec, views,
};
use crate::pool_config::{change_port, change_port_spec};

verus! {

/// The built-in pool configuration of the FastCGI process manager.
pub const FPM_DEFAULT_CONFIG: &'static str = "
[global]
pid = {{ pid_file }}

log_level = {{ log_level }}

error_log = {{ rymfony_project_dir }}/log/server.fpm.error_log

; This should be managed by Rymfony.
; This gives the advantage of keeping control over the process,
; and possibly retrieve logs too (since logs can be piped with fpm's stderr with current config)
daemonize = no
{{ systemd_enable }}systemd_interval = 0

[www]
; Don't touch this line unless you know what you are doing
listen = 127.0.0.1:{{ port }}
listen.allowed_clients = 127.0.0.1

access.log = {{ rymfony_project_dir }}/log/server.fpm.access_log

pm = dynamic
pm.max_children = 5
pm.start_servers = 2
pm.min_spare_servers = 1
pm.max_spare_servers = 3
pm.status_path = /_fpm-status

; Output to stderr
php_admin_flag[log_errors] = on

; Redirect stdout and stderr to main error log instead of /dev/null (default config for fastcgi)
catch_workers_output = yes

; This allows injecting custom env vars like with \"APP_ENV=dev rymfony serve\"
clear_env = no
";

/// Log level of the process manager: alert, error, warning, notice or debug.
pub const FPM_DEFAULT_LOG_LEVEL: &'static str = "notice";

/// The template from which the proxy's user-editable configuration starts.
pub const CADDYFILE: &'static str = "
# ⚠⚠⚠
# This file is a *template* created by Rymfony.
# The variables you see in brackets \"{{ … }}\" are
# replaced **at runtime** by Rymfony.
#
# Be warned that if you want to change it,
# it may have an impact on how your local project behaves.
#
# Change it at your own risk 💣

{
    {{ debug }}debug
    log {
        output file {{ log_file }}
        {{ debug }}level DEBUG
    }
    {{ use_tls }}local_certs
    {{ use_tls }}auto_https disable_redirects
}

{{ host }}:{{ http_port }} {
    root * {{ document_root }}

    encode gzip

    {{ with_server_sign }}header Server \"Rymfony\"
    {{ without_server_sign }}header -Server

    log {
        output file {{ vhost_log_file }}
        {{ debug }}level DEBUG
    }

    php_fastcgi 127.0.0.1:{{ php_port }} {
        env SERVER_SOFTWARE \"Rymfony/Caddy\"
        index {{ php_entrypoint_file }}
        resolve_root_symlink
    }

    file_server
}
";

/// The views of a list of placeholder keys and their values.
pub open spec fn pair_views(pairs: Seq<(String, String)>) -> Seq<(Seq<char>, Seq<char>)> {
    pairs.map_values(|p: (String, String)| (p.0@, p.1@))
}

/// `t` with the placeholders of `pairs` filled in, in the order of the list.
pub open spec fn fill_spec(t: Seq<char>, pairs: Seq<(Seq<char>, Seq<char>)>) -> Seq<char>
    decreases pairs.len(),
{
    if pairs.len() == 0 {
        t
    } else {
        fill_spec(replace_spec(t, pairs[0].0, pairs[0].1), pairs.skip(1))
    }
}

/// Fills the placeholders of `template` with the values of `pairs`, one key
/// after the other.
pub fn fill_placeholders(template: &str, pairs: &Vec<(String, String)>) -> (r: String)
    requires
        forall|i: int| 0 <= i < pairs@.len() ==> (#[trigger] pairs@[i]).0@.len() > 0,
    ensures
        r@ == fill_spec(template@, pair_views(pairs@)),
{
    let ghost all = pair_views(pairs@);
    let mut out = String::from_str(template);
    let mut i: usize = 0;
    assert(all.skip(0) =~= all);
    while i < pairs.len()
        invariant
            all == pair_views(pairs@),
            i <= pairs.len(),
            forall|j: int| 0 <= j < pairs@.len() ==> (#[trigger] pairs@[j]).0@.len() > 0,
            fill_spec(out@, all.skip(i as int)) == fill_spec(template@, all),
        decreases pairs.len() - i,
    {
        let ghost rest = all.skip(i as int);
        assert(rest[0] == (pairs@[i as int].0@, pairs@[i as int].1@));
        assert(rest.skip(1) =~= all.skip(i + 1));
        let next = replace_all(out.as_str(), pairs[i].0.as_str(), pairs[i].1.as_str());
        out = next;
        i = i + 1;
    }
    assert(all.skip(i as int) =~= Seq::<(Seq<char>, Seq<char>)>::empty());
    out
}

/// The placeholder values of the pool configuration.
pub open spec fn fpm_pairs_spec(
    port: nat,
    project_dir: Seq<char>,
    pid_file: Seq<char>,
    systemd: bool,
) -> Seq<(Seq<char>, Seq<char>)> {
    seq![
        ("{{ port }}"@, decimal_spec(port)),
        ("{{ log_level }}"@, FPM_DEFAULT_LOG_LEVEL@),
        ("{{ rymfony_project_dir }}"@, project_dir),
        ("{{ pid_file }}"@, pid_file),
        ("{{ systemd_enable }}"@, if systemd { ""@ } else { ";"@ }),
    ]
}

/// The pool configuration written on a project's first run.
pub open spec fn fpm_config_spec(
    port: nat,
    project_dir: Seq<char>,
    pid_file: Seq<char>,
    systemd: bool,
) -> Seq<char> {
    fill_spec(FPM_DEFAULT_CONFIG@, fpm_pairs_spec(port, project_dir, pid_file, systemd))
}

fn pair(k: &str, v: &str) -> (r: (String, String))
    ensures
        r.0@ == k@,
        r.1@ == v@,
{
    (String::from_str(k), String::from_str(v))
}

/// Renders the built-in pool configuration: the listen port, the log level,
/// the project's runtime directory for logs, the PID file, and systemd
/// notification switched on only where systemd runs.
pub fn render_fpm_config(port: u16, project_dir: &str, pid_file: &str, systemd: bool) -> (r: String)
    ensures
        r@ == fpm_config_spec(port as nat, project_dir@, pid_file@, systemd),
{
    let port_text = decimal(port as u64);
    let mut pairs: Vec<(String, String)> = Vec::new();
    pairs.push(pair("{{ port }}", port_text.as_str()));
    pairs.push(pair("{{ log_level }}", FPM_DEFAULT_LOG_LEVEL));
    pairs.push(pair("{{ rymfony_project_dir }}", project_dir));
    pairs.push(pair("{{ pid_file }}", pid_file));
    pairs.push(pair("{{ systemd_enable }}", if systemd { "" } else { ";" }));
    proof {
        reveal_strlit("{{ port }}");
        reveal_strlit("{{ log_level }}");
        reveal_strlit("{{ rymfony_project_dir }}");
        reveal_strlit("{{ pid_file }}");
        reveal_strlit("{{ systemd_enable }}");
        assert(pair_views(pairs@) =~= fpm_pairs_spec(port as nat, project_dir@, pid_file@, systemd));
    }
    fill_placeholders(FPM_DEFAULT_CONFIG, &pairs)
}

/// What to do with the pool configuration file at startup.
pub enum PoolConfigWrite {
    /// The file does not exist yet: write this text.
    Create(String),
    /// The file sets another port: replace it with this text.
    Rewrite(String),
    /// The file already listens on the port: leave it.
    Keep,
}

/// Decides the pool configuration file's fate: created from the built-in
/// template when absent; when present, kept if setting its listen port to
/// `port` would change nothing, else rewritten with its listen directives
/// patched (the first one carrying a port takes `port`, every other one is
/// commented out, and one is appended where none carries a port).
pub fn pool_config_plan(
    existing: &Option<String>,
    port: u16,
    project_dir: &str,
    pid_file: &str,
    systemd: bool,
) -> (r: PoolConfigWrite)
    ensures
        existing is None ==> (r matches PoolConfigWrite::Create(t) && t@ == fpm_config_spec(
            port as nat,
            project_dir@,
            pid_file@,
            systemd,
        )),
        existing is Some ==> (r is Keep <==> change_port_spec(existing->0@, port as nat) == existing->0@),
        existing is Some ==> (r is Keep || (r matches PoolConfigWrite::Rewrite(t) && t@ == change_port_spec(
            existing->0@,
            port as nat,
        ))),
{
    match existing {
        None => PoolConfigWrite::Create(render_fpm_config(port, project_dir, pid_file, systemd)),
        Some(c) => {
            let patched = change_port(c.as_str(), &port);
            if patched == *c {
                PoolConfigWrite::Keep
            } else {
                PoolConfigWrite::Rewrite(patched)
            }
        },
    }
}

/// The startup of the process manager on `port`: what becomes of the pool
/// configuration file at `config_path` (its current text is `existing`),
/// and the arguments to launch the manager with.
pub fn start(
    existing: &Option<String>,
    port: u16,
    project_dir: &str,
    pid_file: &str,
    config_path: &str,
    systemd: bool,
    is_root: bool,
) -> (r: (PoolConfigWrite, Vec<String>))
    ensures
        existing is None ==> (r.0 matches PoolConfigWrite::Create(t) && t@ == fpm_config_spec(
            port as nat,
            project_dir@,
            pid_file@,
            systemd,
        )),
        existing is Some ==> (r.0 is Keep <==> change_port_spec(existing->0@, port as nat) == existing->0@),
        existing is Some ==> (r.0 is Keep || (r.0 matches PoolConfigWrite::Rewrite(t) && t@ == change_port_spec(
            existing->0@,
            port as nat,
        ))),
        views(r.1@) == seq!["--nodaemonize"@, "--fpm-config"@, config_path@] + (if is_root {
            seq!["--allow-to-run-as-root"@]
        } else {
            Seq::empty()
        }),
{
    (pool_config_plan(existing, port, project_dir, pid_file, systemd), fpm_command_args(config_path, is_root))
}

/// Arguments of the FastCGI process manager: stay in the foreground with the
/// given pool configuration, and allow running as root when the user is root.
pub fn fpm_command_args(config_path: &str, is_root: bool) -> (r: Vec<String>)
    ensures
        views(r@) == seq!["--nodaemonize"@, "--fpm-config"@, config_path@] + (if is_root {
            seq!["--allow-to-run-as-root"@]
        } else {
            Seq::empty()
        }),
{
    let mut r: Vec<String> = Vec::new();
    push_str(&mut r, "--nodaemonize");
    push_str(&mut r, "--fpm-config");
    push_str(&mut r, config_path);
    if is_root {
        push_str(&mut r, "--allow-to-run-as-root");
    }
    assert(views(r@) =~= seq!["--nodaemonize"@, "--fpm-config"@, config_path@] + (if is_root {
        seq!["--allow-to-run-as-root"@]
    } else {
        Seq::empty()
    }));
    r
}

/// Arguments of a CGI backend: bind to the loopback port, log errors to the
/// given file, and keep extended debugger information.
pub fn cgi_command_args(port: u16, error_log: &str) -> (r: Vec<String>)
    ensures
        views(r@) == seq![
            "-b"@,
            "127.0.0.1:"@ + decimal_spec(port as nat),
            "-d"@,
            "error_log="@ + error_log@,
            "-e"@,
        ],
{
    let mut r: Vec<String> = Vec::new();
    push_str(&mut r, "-b");
    let address = String::from_str("127.0.0.1:").concat(decimal(port as u64).as_str());
    push_str(&mut r, address.as_str());
    push_str(&mut r, "-d");
    let log = String::from_str("error_log=").concat(error_log);
    push_str(&mut r, log.as_str());
    push_str(&mut r, "-e");
    assert(views(r@) =~= seq![
        "-b"@,
        "127.0.0.1:"@ + decimal_spec(port as nat),
        "-d"@,
        "error_log="@ + error_log@,
        "-e"@,
    ]);
    r
}

/// Arguments of the proxy: run and watch the given runtime configuration,
/// written in the Caddyfile language.
pub fn proxy_command_args(runtime_config: &str) -> (r: Vec<String>)
    ensures
        views(r@) == seq!["run"@, "--watch"@, "--adapter"@, "caddyfile"@, "--config"@, runtime_config@],
{
    let mut r: Vec<String> = Vec::new();
    push_str(&mut r, "run");
    push_str(&mut r, "--watch");
    push_str(&mut r, "--adapter");
    push_str(&mut r, "caddyfile");
    push_str(&mut r, "--config");
    push_str(&mut r, runtime_config);
    assert(views(r@) =~= seq!["run"@, "--watch"@, "--adapter"@, "caddyfile"@, "--config"@, runtime_config@]);
    r
}

/// The live values that the proxy's runtime configuration is made of.
pub struct ProxySettings {
    /// Whether the proxy serves HTTPS with locally issued certificates.
    pub use_tls: bool,
    /// The host name to listen on.
    pub host: String,
    /// The public port.
    pub http_port: u16,
    /// The backend's FastCGI port.
    pub php_port: u16,
    /// The directory served.
    pub document_root: String,
    /// The script that receives every request not served as a file.
    pub entrypoint: String,
    /// Whether responses carry a `Server` header.
    pub server_sign: bool,
    /// Whether the proxy logs at debug level.
    pub debug: bool,
    /// The proxy's own log file.
    pub log_file: String,
    /// The log file of the served site.
    pub vhost_log_file: String,
}

/// The placeholder values of the proxy configuration.
pub open spec fn proxy_pairs_spec(st: ProxySettings) -> Seq<(Seq<char>, Seq<char>)> {
    seq![
        ("{{ debug }}"@, if st.debug { ""@ } else { "#"@ }),
        ("{{ document_root }}"@, st.document_root@),
        ("{{ host }}"@, st.host@),
        ("{{ http_port }}"@, decimal_spec(st.http_port as nat)),
        ("{{ server_port }}"@, decimal_spec(st.http_port as nat)),
        ("{{ https_port }}"@, decimal_spec(st.http_port as nat)),
        ("{{ show_http_port }}"@, if st.use_tls { "#"@ } else { ""@ }),
        ("{{ log_file }}"@, st.log_file@),
        ("{{ log_level }}"@, if st.debug { "DEBUG"@ } else { "INFO"@ }),
        ("{{ php_entrypoint_file }}"@, st.entrypoint@),
        ("{{ php_port }}"@, decimal_spec(st.php_port as nat)),
        ("{{ protocol }}"@, if st.use_tls { ""@ } else { "http://"@ }),
        ("{{ use_tls }}"@, if st.use_tls { ""@ } else { "#"@ }),
        ("{{ vhost_log_file }}"@, st.vhost_log_file@),
        ("{{ with_server_sign }}"@, if st.server_sign { ""@ } else { "#"@ }),
        ("{{ without_server_sign }}"@, if st.server_sign { "#"@ } else { ""@ }),
    ]
}

/// Combines the proxy template with the live values into the runtime
/// configuration that is handed to the proxy.
pub fn render_proxy_config(template: &str, st: &ProxySettings) -> (r: String)
    ensures
        r@ == fill_spec(template@, proxy_pairs_spec(*st)),
{
    let http_port = decimal(st.http_port as u64);
    let php_port = decimal(st.php_port as u64);
    let mut pairs: Vec<(String, String)> = Vec::new();
    pairs.push(pair("{{ debug }}", if st.debug { "" } else { "#" }));
    pairs.push(pair("{{ document_root }}", st.document_root.as_str()));
    pairs.push(pair("{{ host }}", st.host.as_str()));
    pairs.push(pair("{{ http_port }}", http_port.as_str()));
    pairs.push(pair("{{ server_port }}", http_port.as_str()));
    pairs.push(pair("{{ https_port }}", http_port.as_str()));
    pairs.push(pair("{{ show_http_port }}", if st.use_tls { "#" } else { "" }));
    pairs.push(pair("{{ log_file }}", st.log_file.as_str()));
    pairs.push(pair("{{ log_level }}", if st.debug { "DEBUG" } else { "INFO" }));
    pairs.push(pair("{{ php_entrypoint_file }}", st.entrypoint.as_str()));
    pairs.push(pair("{{ php_port }}", php_port.as_str()));
    pairs.push(pair("{{ protocol }}", if st.use_tls { "" } else { "http://" }));
    pairs.push(pair("{{ use_tls }}", if st.use_tls { "" } else { "#" }));
    pairs.push(pair("{{ vhost_log_file }}", st.vhost_log_file.as_str()));
    pairs.push(pair("{{ with_server_sign }}", if st.server_sign { "" } else { "#" }));
    pairs.push(pair("{{ without_server_sign }}", if st.server_sign { "#" } else { "" }));
    proof {
        reveal_strlit("{{ debug }}");
        reveal_strlit("{{ document_root }}");
        reveal_strlit("{{ host }}");
        reveal_strlit("{{ http_port }}");
        reveal_strlit("{{ server_port }}");
        reveal_strlit("{{ https_port }}");
        reveal_strlit("{{ show_http_port }}");
        reveal_strlit("{{ log_file }}");
        reveal_strlit("{{ log_level }}");
        reveal_strlit("{{ php_entrypoint_file }}");
        reveal_strlit("{{ php_port }}");
        reveal_strlit("{{ protocol }}");
        reveal_strlit("{{ use_tls }}");
        reveal_strlit("{{ vhost_log_file }}");
        reveal_strlit("{{ with_server_sign }}");
        reveal_strlit("{{ without_server_sign }}");
        assert(pair_views(pairs@) =~= proxy_pairs_spec(*st));
    }
    fill_placeholders(template, &pairs)
}

/// The proxy template to render, and whether it must be written first: the
/// user-editable template is created from the built-in one only when absent,
/// and never touched afterwards.
pub fn proxy_template(existing: Option<String>) -> (r: (String, bool))
    ensures
        existing is None ==> r.0@ == CADDYFILE@ && r.1,
        existing is Some ==> r.0 == existing->0 && !r.1,
{
    match existing {
        None => (String::from_str(CADDYFILE), true),
        Some(t) => (t, false),
    }
}

/// Whether the output of `caddy version` names a release of major version
/// 2: `v2.<digits>.<digits>` followed by a space.
pub open spec fn proxy_version_ok_spec(o: Seq<char>) -> bool {
    &&& occurs_at(o, 0, "v2."@)
    &&& {
        let a = 3 + lead_digits(o.skip(3)) as int;
        &&& a > 3
        &&& a < o.len()
        &&& o[a] == '.'
        &&& {
            let b = a + 1 + lead_digits(o.skip(a + 1)) as int;
            &&& b > a + 1
            &&& b < o.len()
            &&& o[b] == ' '
        }
    }
}

/// Checks the output of `caddy version` before the proxy is used.
pub fn proxy_version_ok(output: &str) -> (r: bool)
    ensures
        r == proxy_version_ok_spec(output@),
{
    let v = chars_of(output);
    proof {
        reveal_strlit("v2.");
    }
    if !occurs_in(&v, 0, "v2.") {
        return false;
    }
    let a = digits_end(&v, 3);
    if a == 3 || a >= v.len() || v[a] != '.' {
        return false;
    }
    let b = digits_end(&v, a + 1);
    b > a + 1 && b < v.len() && v[b] == ' '
}

} // verus!
