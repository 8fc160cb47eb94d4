use rymfony::paths::{
    get_caddy_pid_file, get_caddy_runtime_config_file, get_http_vhost_log_file, get_rymfony_project_directory,
    hex_lower, join_path, php_fpm_conf_ini_file, php_server_pid_file, runtime_pid_files, rymfony_pid_file,
};
use rymfony::php::{sapi_available, server_sapi_for, HostFamily, PhpServerSapi};
use rymfony::ports::{find_available_port, parse_default_port, parse_port, DEFAULT_PORT, PHP_DEFAULT_PORT};
use rymfony::templates::{render_proxy_config, ProxySettings, CADDYFILE};
use rymfony::session::{
    background_args, backend_launch, filter_pathinfo, get_document_root, get_script_filename,
    normalize_document_root, resolve_entrypoint, startup_check, StartupError,
};

#[test]
fn project_directory_is_hash_of_cwd() {
    let dir = get_rymfony_project_directory("/home/dev", "/home/dev/project").unwrap();
    assert_eq!(
        dir,
        "/home/dev/.rymfony/1afbf223bb0b58ba08766ec87173ebd68e0507d66983531a95b52ff9b529c7db"
    );
    assert_eq!(get_rymfony_project_directory("/home/dev/", "/home/dev/project").unwrap(), dir);
    assert!(get_rymfony_project_directory("", "/x").is_none());
}

#[test]
fn project_directory_differs_per_project() {
    let a = get_rymfony_project_directory("/h", "/a").unwrap();
    let b = get_rymfony_project_directory("/h", "/b").unwrap();
    assert_ne!(a, b);
}

#[test]
fn hex_is_lower_case_two_digits_per_byte() {
    assert_eq!(hex_lower(&vec![0, 15, 16, 171, 255]), "000f10abff");
}

#[test]
fn runtime_file_paths() {
    let d = "/h/.rymfony/x";
    assert_eq!(rymfony_pid_file(d), "/h/.rymfony/x/.rymfony.pid");
    assert_eq!(php_server_pid_file(d), "/h/.rymfony/x/.php_server.pid");
    assert_eq!(get_caddy_pid_file(d), "/h/.rymfony/x/.caddy.pid");
    assert_eq!(php_fpm_conf_ini_file(d), "/h/.rymfony/x/fpm-conf.ini");
    assert_eq!(get_caddy_runtime_config_file(d), "/h/.rymfony/x/Caddyfile.runtime");
    assert_eq!(get_http_vhost_log_file(d), "/h/.rymfony/x/log/http.vhost.log");
    assert_eq!(
        runtime_pid_files(d),
        vec![rymfony_pid_file(d), php_server_pid_file(d), get_caddy_pid_file(d)]
    );
    assert_eq!(join_path("", "a"), "a");
}

#[test]
fn scenario_public_document_root() {
    let root = get_document_root("", "/work/app", true, false);
    assert_eq!(root, "/work/app/public/");
    assert_eq!(normalize_document_root(&root, HostFamily::Unix), "/work/app/public/");
    let entry = resolve_entrypoint(&None, true, false, false);
    assert_eq!(entry.script, "index.php");
    assert!(!entry.deprecated);
}

#[test]
fn scenario_web_document_root_with_app_dev() {
    let root = get_document_root("", "/work/legacy", false, true);
    assert_eq!(root, "/work/legacy/web/");
    let entry = resolve_entrypoint(&None, false, true, true);
    assert_eq!(entry.script, "app_dev.php");
    assert!(entry.deprecated);
}

#[test]
fn document_root_falls_back_to_project_directory() {
    assert_eq!(get_document_root("", "/work/x", false, false), "/work/x");
    assert_eq!(get_document_root("/srv/www", "/work/x", true, true), "/srv/www");
    assert_eq!(get_document_root("site", "/work/x", true, true), "site");
    assert_eq!(normalize_document_root("/work/x", HostFamily::Unix), "/work/x/");
    assert_eq!(normalize_document_root("C:\\site\\", HostFamily::Windows), "C:\\site\\");
}

#[test]
fn entrypoint_explicit_or_default() {
    let e = resolve_entrypoint(&Some("front.php".to_string()), true, true, true);
    assert_eq!(e.script, "front.php");
    let e = resolve_entrypoint(&None, false, false, true);
    assert_eq!(e.script, "app.php");
    let e = resolve_entrypoint(&None, false, false, false);
    assert_eq!(e.script, "index.php");
}

#[test]
fn scenario_second_session_is_refused() {
    let r = startup_check(true, true);
    assert_eq!(r, Err(StartupError::AlreadyRunning));
    assert_eq!(StartupError::AlreadyRunning.exit_code(), 1);
}

#[test]
fn missing_entrypoint_is_refused() {
    assert_eq!(startup_check(false, false), Err(StartupError::MissingEntrypoint));
    assert_eq!(startup_check(false, true), Ok(()));
}

#[test]
fn backend_launch_by_executable_name() {
    let fpm = backend_launch("/usr/sbin/php-fpm8.1", HostFamily::Unix, 60000, "/d/fpm-conf.ini", "/d/log/php-cgi.log", false).unwrap();
    assert_eq!(fpm.sapi, PhpServerSapi::FPM);
    assert_eq!(fpm.args, vec!["--nodaemonize", "--fpm-config", "/d/fpm-conf.ini"]);
    let root = backend_launch("/usr/sbin/php-fpm8.1", HostFamily::Unix, 60000, "/c", "/l", true).unwrap();
    assert_eq!(root.args, vec!["--nodaemonize", "--fpm-config", "/c", "--allow-to-run-as-root"]);
    let cgi = backend_launch("C:\\php\\php-cgi.exe", HostFamily::Windows, 60001, "/c", "C:\\log", false).unwrap();
    assert_eq!(cgi.sapi, PhpServerSapi::CGI);
    assert_eq!(cgi.args, vec!["-b", "127.0.0.1:60001", "-d", "error_log=C:\\log", "-e"]);
    assert!(matches!(
        backend_launch("/usr/bin/php", HostFamily::Unix, 1, "/c", "/l", false),
        Err(StartupError::UnresolvedSapi)
    ));
    assert!(matches!(
        backend_launch("php-fpm.exe", HostFamily::Windows, 1, "/c", "/l", false),
        Err(StartupError::UnresolvedSapi)
    ));
}

#[test]
fn sapi_capabilities_per_host() {
    assert!(sapi_available(HostFamily::Unix, PhpServerSapi::FPM));
    assert!(!sapi_available(HostFamily::Windows, PhpServerSapi::FPM));
    assert!(sapi_available(HostFamily::Windows, PhpServerSapi::CGI));
    assert!(!sapi_available(HostFamily::Unix, PhpServerSapi::Unknown));
    assert_eq!(server_sapi_for("/x/php-cgi", HostFamily::Unix), Some(PhpServerSapi::CGI));
}

#[test]
fn script_filename_and_pathinfo() {
    assert_eq!(get_script_filename("/srv/www/", "index.php", HostFamily::Unix), "/srv/www/index.php");
    assert_eq!(get_script_filename("/srv/www", "/abs/app.php", HostFamily::Unix), "/abs/app.php");
    assert_eq!(filter_pathinfo("/".to_string()), "");
    assert_eq!(filter_pathinfo("/a".to_string()), "/a");
}

#[test]
fn background_arguments() {
    assert_eq!(background_args(8001, true, false, "", "app.php"), vec!["serve", "--port", "8001", "--no-tls", "--passthru", "app.php"]);
    assert_eq!(background_args(80, false, true, "web", ""), vec!["serve", "--port", "80", "--expose-server-header", "--document-root", "web"]);
}

#[test]
fn port_search_never_goes_below_start() {
    assert_eq!(find_available_port(8000, |_p| true), Some(8000));
    assert_eq!(find_available_port(8000, |p| p >= 8003), Some(8003));
    assert_eq!(find_available_port(65535, |_p| false), None);
    assert_eq!(find_available_port(65535, |p| p == 65535), Some(65535));
}

#[test]
fn two_searches_with_different_starts_each_get_a_free_port() {
    let taken = [8000u16, 8001, 60000];
    let free = |p: u16| !taken.contains(&p);
    let http = find_available_port(DEFAULT_PORT, free).unwrap();
    let php = find_available_port(PHP_DEFAULT_PORT, free).unwrap();
    assert_eq!(http, 8002);
    assert_eq!(php, 60001);
    assert!(http >= DEFAULT_PORT && php >= PHP_DEFAULT_PORT);
}

#[test]
fn port_arguments() {
    assert_eq!(parse_port("8080"), Some(8080));
    assert_eq!(parse_port("+0080"), Some(80));
    assert_eq!(parse_port("65535"), Some(65535));
    assert_eq!(parse_port("65536"), None);
    assert_eq!(parse_port("99999999999999999999"), None);
    assert_eq!(parse_port(""), None);
    assert_eq!(parse_port("+"), None);
    assert_eq!(parse_port("-1"), None);
    assert_eq!(parse_port("80a"), None);
    assert_eq!(parse_default_port("abc", "8000"), 8000);
    assert_eq!(parse_default_port("9000", "8000"), 9000);
}

#[test]
fn scenario_public_runtime_config() {
    use_scenario("/work/app", true, false, (true, false, false), "/work/app/public/", "index.php", false);
}

#[test]
fn scenario_web_runtime_config() {
    use_scenario("/work/legacy", false, true, (false, true, true), "/work/legacy/web/", "app_dev.php", true);
}

fn use_scenario(cwd: &str, public: bool, web: bool, files: (bool, bool, bool), root: &str, script: &str, deprecated: bool) {
    let document_root = normalize_document_root(&get_document_root("", cwd, public, web), HostFamily::Unix);
    assert_eq!(document_root, root);
    let entry = resolve_entrypoint(&None, files.0, files.1, files.2);
    assert_eq!(entry.script, script);
    assert_eq!(entry.deprecated, deprecated);
    assert_eq!(startup_check(false, true), Ok(()));
    let settings = ProxySettings {
        use_tls: true,
        host: "127.0.0.1".to_string(),
        http_port: 8000,
        php_port: 60000,
        document_root: document_root.clone(),
        entrypoint: entry.script.clone(),
        server_sign: false,
        debug: false,
        log_file: "/d/log/http.server.log".to_string(),
        vhost_log_file: "/d/log/http.vhost.log".to_string(),
    };
    let config = render_proxy_config(CADDYFILE, &settings);
    assert!(config.contains(&format!("root * {}\n", root)));
    assert!(config.contains(&format!("index {}\n", script)));
}

#[test]
fn script_filename_on_windows() {
    assert_eq!(get_script_filename("C:\\app", "index.php", HostFamily::Windows), "C:\\app\\index.php");
    assert_eq!(get_script_filename("C:\\app\\", "index.php", HostFamily::Windows), "C:\\app\\index.php");
    assert_eq!(get_script_filename("C:/app/", "index.php", HostFamily::Windows), "C:/app/index.php");
    assert_eq!(get_script_filename("C:", "index.php", HostFamily::Windows), "C:index.php");
    assert_eq!(get_script_filename("C:\\app", "D:\\x\\a.php", HostFamily::Windows), "D:\\x\\a.php");
    assert_eq!(get_script_filename("C:\\app", "\\x\\a.php", HostFamily::Windows), "C:\\x\\a.php");
    assert_eq!(get_script_filename("C:\\app", "1:\\a.php", HostFamily::Windows), "C:\\app\\1:\\a.php");
    assert_eq!(get_script_filename("/srv/app/public", "index.php", HostFamily::Unix), "/srv/app/public/index.php");
}
