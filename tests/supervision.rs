use rymfony::info::{LoggerConfig, ServerInfo};
use rymfony::supervisor::{ChildState, ManagedChild, PollResult, SupervisorAction};
use rymfony::templates::{proxy_version_ok, proxy_command_args, proxy_template, render_proxy_config, ProxySettings, CADDYFILE};

fn running_child(pid: u32) -> ManagedChild {
    let mut c = ManagedChild::new("/usr/sbin/php-fpm".to_string(), vec!["--nodaemonize".to_string()]);
    c.start();
    c.record_spawn(pid);
    c
}

#[test]
fn exited_child_gets_a_new_pid_after_one_check() {
    let mut c = running_child(4242);
    let before = c.pid_file_text();
    assert_eq!(c.health_check(PollResult::Exited(1)), SupervisorAction::Respawn);
    assert_eq!(c.state, ChildState::Exited);
    c.begin_restart();
    assert_eq!(c.state, ChildState::Restarting);
    c.record_spawn(4243);
    assert_eq!(c.state, ChildState::Running);
    assert_eq!(c.pid_file_text(), "4243");
    assert_ne!(c.pid_file_text(), before);
    assert_eq!(c.restarts, 1);
}

#[test]
fn crashing_child_is_restarted_every_time() {
    let mut c = running_child(10);
    for i in 0..5u32 {
        assert_eq!(c.health_check(PollResult::Exited(255)), SupervisorAction::Respawn);
        c.begin_restart();
        c.record_spawn(11 + i);
    }
    assert_eq!(c.restarts, 5);
}

#[test]
fn running_child_is_left_alone_and_poll_failure_is_fatal() {
    let mut c = running_child(7);
    assert_eq!(c.health_check(PollResult::StillRunning), SupervisorAction::Nothing);
    assert_eq!(c.health_check(PollResult::PollFailed), SupervisorAction::Fatal);
    assert_eq!(c.pid, 7);
}

#[test]
fn stop_terminates_once() {
    let mut c = running_child(99);
    assert_eq!(c.stop(), Some(99));
    assert_eq!(c.stop(), None);
    assert_eq!(c.health_check(PollResult::Exited(0)), SupervisorAction::Nothing);
    let mut never = ManagedChild::new("x".to_string(), vec![]);
    assert_eq!(never.stop(), None);
}

fn settings(use_tls: bool) -> ProxySettings {
    ProxySettings {
        use_tls,
        host: "127.0.0.1".to_string(),
        http_port: 8000,
        php_port: 60000,
        document_root: "/srv/app/public/".to_string(),
        entrypoint: "index.php".to_string(),
        server_sign: false,
        debug: false,
        log_file: "/d/log/http.server.log".to_string(),
        vhost_log_file: "/d/log/http.vhost.log".to_string(),
    }
}

#[test]
fn proxy_config_is_regenerated_from_template() {
    let out = render_proxy_config(CADDYFILE, &settings(true));
    assert!(out.contains("127.0.0.1:8000 {"));
    assert!(out.contains("root * /srv/app/public/"));
    assert!(out.contains("php_fastcgi 127.0.0.1:60000 {"));
    assert!(out.contains("index index.php"));
    assert!(out.contains("    #header Server \"Rymfony\""));
    assert!(out.contains("    header -Server"));
    assert!(out.contains("    local_certs"));
    assert!(out.contains("    #debug"));
    assert!(out.contains("output file /d/log/http.vhost.log"));
    let plain = render_proxy_config(CADDYFILE, &settings(false));
    assert!(plain.contains("    #local_certs"));
}

#[test]
fn proxy_template_is_written_only_once() {
    let (t, write) = proxy_template(None);
    assert_eq!(t, CADDYFILE);
    assert!(write);
    let (t, write) = proxy_template(Some("{{ host }}:{{ http_port }}".to_string()));
    assert_eq!(t, "{{ host }}:{{ http_port }}");
    assert!(!write);
    assert_eq!(render_proxy_config(&t, &settings(true)), "127.0.0.1:8000");
    assert_eq!(proxy_command_args("/d/Caddyfile.runtime"), vec!["run", "--watch", "--adapter", "caddyfile", "--config", "/d/Caddyfile.runtime"]);
}

#[test]
fn server_info_keeps_its_fields() {
    let s = ServerInfo::new(12, 8000, "https".to_string(), "caddy".to_string(), "caddy".to_string(), vec!["run".to_string()]);
    assert_eq!((s.pid(), s.port(), s.scheme()), (12, 8000, "https".to_string()));
    assert_eq!((s.name(), s.command()), ("caddy".to_string(), "caddy".to_string()));
    assert_eq!(s.args(), &vec!["run".to_string()]);
}

#[test]
fn logger_width_only_grows() {
    let mut l = LoggerConfig::new(3, false);
    assert_eq!(l.max_target_width(10), 10);
    assert_eq!(l.max_target_width(4), 10);
    assert_eq!(l.max_target_width(12), 12);
    assert!(l.shows_targets());
    assert_eq!(l.level("INFO"), "TRACE");
    assert_eq!(LoggerConfig::new(0, true).level("INFO"), "OFF");
    assert_eq!(LoggerConfig::new(1, false).level("INFO"), "DEBUG");
    assert_eq!(LoggerConfig::new(0, false).level("WARN"), "WARN");
}

#[test]
fn proxy_version_output() {
    assert!(proxy_version_ok("v2.7.6 h1:abc=\n"));
    assert!(!proxy_version_ok("v1.0.4 h1:abc"));
    assert!(!proxy_version_ok("v2.7 h1:abc"));
    assert!(!proxy_version_ok("v2.7.6"));
}
