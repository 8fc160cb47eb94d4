use rymfony::pool_config::{change_port, read_port, ReadPortError};
use rymfony::templates::{pool_config_plan, render_fpm_config, start, PoolConfigWrite};

#[test]
fn change_port_one_line() {
    let str = "listen=1245";
    let port = 2316;
    let result = change_port(&str, &port);
    assert_eq!(result.as_str(), "listen=2316");
}

#[test]
fn change_port_multiple_line() {
    let str = "
        listen = 127.0.0.1:1245
        ";
    let port = 2316;
    let result = change_port(&str, &port);
    assert_eq!(
        result.as_str(),
        "
        listen = 127.0.0.1:2316
        "
    );
}

#[test]
fn change_port_multiple_listen() {
    let str = "
listen = 127.0.0.1:1245
listen = 127.0.0.1:158
listen =localhost:18
        ";
    let port = 2316;
    let result = change_port(&str, &port);
    assert_eq!(
        result.as_str(),
        "
listen = 127.0.0.1:2316
;listen = 127.0.0.1:158
;listen =localhost:18
        "
    );
}

#[test]
fn change_port_listen_socket() {
    let str = "
listen = /path/to/socket
        ";
    let port = 2316;
    let result = change_port(&str, &port);
    assert_eq!(
        result.as_str(),
        "
;listen = /path/to/socket
        \nlisten = 127.0.0.1:2316"
    );
}

fn active_listen_lines(text: &str) -> Vec<String> {
    text.lines()
        .filter(|l| {
            let t = l.trim_start_matches(' ');
            t.starts_with("listen=") || t.starts_with("listen =")
        })
        .map(|l| l.to_string())
        .collect()
}

#[test]
fn patching_twice_equals_patching_once() {
    let inputs = [
        "",
        "listen=1245",
        "[www]\nlisten = /run/php.sock\npm = dynamic",
        "listen = 127.0.0.1:1\nlisten = localhost:2\nlisten = 3\n",
    ];
    for input in inputs.iter() {
        let once = change_port(input, &9000);
        let twice = change_port(once.as_str(), &9000);
        assert_eq!(once, twice);
    }
}

#[test]
fn one_active_listen_line_after_patch_with_none_existing() {
    let out = change_port("[www]\npm = dynamic", &9000);
    assert_eq!(active_listen_lines(&out), vec!["listen = 127.0.0.1:9000".to_string()]);
}

#[test]
fn one_active_listen_line_after_patch_with_one_existing() {
    let out = change_port("[www]\nlisten = 127.0.0.1:80\npm = dynamic", &9000);
    assert_eq!(active_listen_lines(&out), vec!["listen = 127.0.0.1:9000".to_string()]);
}

#[test]
fn one_active_listen_line_after_patch_with_three_existing() {
    let out = change_port("listen = 1\nlisten = localhost:2\nlisten = 127.0.0.1:3", &9000);
    assert_eq!(active_listen_lines(&out), vec!["listen = 9000".to_string()]);
    assert_eq!(out, "listen = 9000\n;listen = localhost:2\n;listen = 127.0.0.1:3");
}

#[test]
fn duplicate_listen_lines_leave_one_active() {
    let out = change_port("listen=1245\nlisten=1245", &80);
    assert_eq!(out, "listen=80\n;listen=1245");
}

#[test]
fn listen_address_is_kept_and_rest_of_line_dropped() {
    let out = change_port("listen = localhost:8000 ; old", &61234);
    assert_eq!(out, "listen = localhost:61234");
}

#[test]
fn other_listen_settings_are_not_directives() {
    let out = change_port("listen.allowed_clients = 127.0.0.1\nlisten = 1", &2);
    assert_eq!(out, "listen.allowed_clients = 127.0.0.1\nlisten = 2");
}

#[test]
fn read_port_finds_first_port_line() {
    assert_eq!(read_port("listen = /sock\nlisten = 127.0.0.1:60001\nlisten = 5"), Ok(60001));
}

#[test]
fn read_port_without_port_line() {
    assert_eq!(read_port("[www]\nlisten = /sock"), Err(ReadPortError::NotFound));
}

#[test]
fn read_port_out_of_range() {
    assert_eq!(read_port("listen = 99999"), Err(ReadPortError::OutOfRange));
}

#[test]
fn read_port_takes_at_most_five_digits() {
    assert_eq!(read_port("listen = 1234567"), Ok(12345));
}

#[test]
fn rendered_pool_config_fills_placeholders() {
    let text = render_fpm_config(60000, "/home/u/.rymfony/abc", "/home/u/.rymfony/abc/.php_server.pid", false);
    assert!(text.contains("listen = 127.0.0.1:60000\n"));
    assert!(text.contains("pid = /home/u/.rymfony/abc/.php_server.pid\n"));
    assert!(text.contains("log_level = notice\n"));
    assert!(text.contains("error_log = /home/u/.rymfony/abc/log/server.fpm.error_log\n"));
    assert!(text.contains("\n;systemd_interval = 0\n"));
    assert!(!text.contains("{{"));
    let with_systemd = render_fpm_config(1, "/d", "/p", true);
    assert!(with_systemd.contains("\nsystemd_interval = 0\n"));
}

#[test]
fn pool_config_is_created_when_absent() {
    match pool_config_plan(&None, 60000, "/d", "/d/.php_server.pid", true) {
        PoolConfigWrite::Create(text) => assert_eq!(text, render_fpm_config(60000, "/d", "/d/.php_server.pid", true)),
        _ => panic!("expected a new file"),
    }
}

#[test]
fn pool_config_is_kept_on_same_port() {
    let existing = Some("; edited by hand\nlisten = 127.0.0.1:60000\n".to_string());
    assert!(matches!(pool_config_plan(&existing, 60000, "/d", "/p", true), PoolConfigWrite::Keep));
}

#[test]
fn pool_config_is_patched_on_other_port() {
    let existing = Some("; edited by hand\nlisten = 127.0.0.1:60000\n".to_string());
    match pool_config_plan(&existing, 60001, "/d", "/p", true) {
        PoolConfigWrite::Rewrite(text) => assert_eq!(text, "; edited by hand\nlisten = 127.0.0.1:60001\n"),
        _ => panic!("expected a rewrite"),
    }
}

#[test]
fn pool_config_with_extra_listen_lines_is_patched_on_same_port() {
    let existing = Some("listen = 127.0.0.1:9000\nlisten = /run/php.sock".to_string());
    match pool_config_plan(&existing, 9000, "/d", "/p", true) {
        PoolConfigWrite::Rewrite(text) => assert_eq!(text, "listen = 127.0.0.1:9000\n;listen = /run/php.sock"),
        _ => panic!("expected a rewrite"),
    }
    let patched = Some("listen = 127.0.0.1:9000\n;listen = /run/php.sock".to_string());
    assert!(matches!(pool_config_plan(&patched, 9000, "/d", "/p", true), PoolConfigWrite::Keep));
}

#[test]
fn pool_config_without_port_line_gets_one() {
    let existing = Some("[www]\nlisten = /run/php.sock".to_string());
    match pool_config_plan(&existing, 60000, "/d", "/p", false) {
        PoolConfigWrite::Rewrite(text) => assert_eq!(text, "[www]\n;listen = /run/php.sock\nlisten = 127.0.0.1:60000"),
        _ => panic!("expected a rewrite"),
    }
}

#[test]
fn fpm_start_plans_file_and_arguments() {
    let (file, args) = start(&None, 60000, "/d", "/d/.php_server.pid", "/d/fpm-conf.ini", false, true);
    match file {
        PoolConfigWrite::Create(text) => assert!(text.contains("listen = 127.0.0.1:60000\n")),
        _ => panic!("expected a new file"),
    }
    assert_eq!(args, vec!["--nodaemonize", "--fpm-config", "/d/fpm-conf.ini", "--allow-to-run-as-root"]);
}
