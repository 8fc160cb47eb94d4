use rymfony::discovery::{binary_metadata, binary_name_matches, dedup_paths};
use rymfony::php::{HostFamily, PhpBinary, PhpServerSapi, PhpVersion};
use rymfony::registry::{get_all, group_probes, merge_binaries};
use rymfony::selector::{get_project_version, project_pin, SelectError};

fn probe(path: &str, output: &str) -> (String, String) {
    (path.to_string(), output.to_string())
}

fn binary(version: &str, cli: &str, fpm: &str, cgi: &str, system: bool) -> PhpBinary {
    PhpBinary::from_parts(PhpVersion::from_str(version), cli.to_string(), fpm.to_string(), cgi.to_string(), system)
}

#[test]
fn metadata_of_php_output() {
    let (v, s) = binary_metadata("PHP 8.1.2-1ubuntu2.14 (fpm-fcgi) (built: Aug 18 2023)\nCopyright").unwrap();
    assert_eq!(v.version(), "8.1.2");
    assert_eq!(s, PhpServerSapi::FPM);
    let (v, s) = binary_metadata("PHP 7.4.33 (cli) (built: ...)").unwrap();
    assert_eq!(v.version(), "7.4.33");
    assert_eq!(s, PhpServerSapi::CLI);
}

#[test]
fn metadata_rejects_other_outputs() {
    assert!(binary_metadata("").is_none());
    assert!(binary_metadata("phpize version 1").is_none());
    assert!(binary_metadata("PHP 8.1.2").is_none());
    assert!(binary_metadata("PHP 8.1.2 ()").is_none());
    assert!(binary_metadata("PHP 8.1.2 (cli").is_none());
    assert!(binary_metadata("PHP 9.0.0 (cli)").is_none());
    assert!(binary_metadata("PHP 8.100.0 (cli)").is_none());
}

#[test]
fn sapi_names() {
    assert_eq!(PhpServerSapi::from_str("FPM-FCGI"), PhpServerSapi::FPM);
    assert_eq!(PhpServerSapi::from_str("cgi-fcgi"), PhpServerSapi::CGI);
    assert_eq!(PhpServerSapi::from_str("Cli"), PhpServerSapi::CLI);
    assert_eq!(PhpServerSapi::from_str("phpdbg"), PhpServerSapi::Unknown);
    assert_eq!(PhpServerSapi::Unknown.name(), "unknown");
}

#[test]
fn registry_excludes_non_php_outputs() {
    let probes = vec![
        probe("/usr/bin/php8.1", "PHP 8.1.2 (cli) (built)"),
        probe("/usr/bin/php-config", "Usage: php-config [OPTION]"),
        probe("/usr/sbin/php-fpm8.1", "PHP 8.1.2 (fpm-fcgi) (built)"),
        probe("/usr/bin/phpdbg", "PHP 8.1.2 (phpdbg) (built)"),
    ];
    let reg = group_probes(&probes);
    assert_eq!(reg.len(), 1);
    assert_eq!(reg[0].version().version(), "8.1.2");
    assert_eq!(reg[0].cli(), "/usr/bin/php8.1");
    assert_eq!(reg[0].fpm(), "/usr/sbin/php-fpm8.1");
    assert_eq!(reg[0].cgi(), "");
    for b in reg.iter() {
        for s in PhpServerSapi::all() {
            assert_ne!(b.sapi_path(&s), "/usr/bin/php-config");
        }
    }
}

#[test]
fn registry_keeps_first_path_per_sapi() {
    let probes = vec![
        probe("/a/php", "PHP 7.4.3 (cli) x"),
        probe("/b/php", "PHP 7.4.3 (cli) x"),
        probe("/c/php", "PHP 8.0.1 (cgi-fcgi) x"),
    ];
    let reg = group_probes(&probes);
    assert_eq!(reg.len(), 2);
    assert_eq!(reg[0].cli(), "/a/php");
    assert_eq!(reg[1].cgi(), "/c/php");
}

#[test]
fn merge_is_commutative_for_disjoint_sapis() {
    let mut a = binary("8.1.2", "/cli", "", "", false);
    a.merge_with(binary("8.1.2", "", "/fpm", "", false));
    let mut b = binary("8.1.2", "", "/fpm", "", false);
    b.merge_with(binary("8.1.2", "/cli", "", "", false));
    assert_eq!((a.cli(), a.fpm(), a.cgi(), a.system()), (b.cli(), b.fpm(), b.cgi(), b.system()));
    assert_eq!(a.cli(), "/cli");
    assert_eq!(a.fpm(), "/fpm");
}

#[test]
fn merge_with_itself_changes_nothing() {
    let mut a = binary("8.1.2", "/cli", "/fpm", "", true);
    a.merge_with(binary("8.1.2", "/cli", "/fpm", "", true));
    assert_eq!((a.cli().as_str(), a.fpm().as_str(), a.cgi().as_str(), a.system()), ("/cli", "/fpm", "", true));
}

#[test]
fn merge_keeps_known_sapi_and_ignores_other_versions() {
    let mut a = binary("8.1.2", "/cli", "", "", false);
    a.merge_with(binary("8.1.2", "/other-cli", "", "/cgi", false));
    assert_eq!(a.cli(), "/cli");
    assert_eq!(a.cgi(), "/cgi");
    a.merge_with(binary("8.0.1", "", "/fpm80", "", false));
    assert_eq!(a.fpm(), "");
}

#[test]
fn first_merged_version_is_the_system_one() {
    let mut reg: Vec<PhpBinary> = Vec::new();
    merge_binaries(&mut reg, vec![binary("8.1.2", "/usr/bin/php", "", "", false)]);
    merge_binaries(&mut reg, vec![binary("8.1.2", "", "/usr/sbin/php-fpm", "", false), binary("7.4.3", "/opt/php74", "", "", true)]);
    assert_eq!(reg.len(), 2);
    assert!(reg[0].system());
    assert_eq!(reg[0].fpm(), "/usr/sbin/php-fpm");
    assert!(!reg[1].system());
}

#[test]
fn get_all_merges_directories_in_order() {
    let reg = get_all(vec![
        vec![],
        vec![binary("7.4.3", "/a/php", "", "", false)],
        vec![binary("7.4.3", "/b/php", "", "/b/php-cgi", false)],
    ]);
    assert_eq!(reg.len(), 1);
    assert_eq!(reg[0].cli(), "/a/php");
    assert_eq!(reg[0].cgi(), "/b/php-cgi");
    assert!(reg[0].system());
}

#[test]
fn pin_selects_matching_version_over_system() {
    let reg = vec![
        binary("8.1.2", "/usr/bin/php8.1", "/usr/sbin/php-fpm8.1", "", false),
        binary("8.0.9", "/usr/bin/php8.0", "/usr/sbin/php-fpm8.0", "", true),
    ];
    assert_eq!(get_project_version(&reg, "8.1"), Ok("/usr/sbin/php-fpm8.1".to_string()));
}

#[test]
fn pin_selects_newest_numerically() {
    let reg = vec![
        binary("8.1.9", "", "", "/php819-cgi", false),
        binary("8.1.10", "", "", "/php8110-cgi", false),
        binary("8.10.0", "", "", "/php8100-cgi", false),
    ];
    assert_eq!(get_project_version(&reg, "8.1."), Ok("/php8110-cgi".to_string()));
    assert_eq!(get_project_version(&reg, "8.1"), Ok("/php8100-cgi".to_string()));
}

#[test]
fn without_pin_the_system_binary_is_chosen() {
    let reg = vec![
        binary("8.1.2", "/usr/bin/php8.1", "", "", false),
        binary("8.0.9", "/usr/bin/php8.0", "", "/usr/bin/php-cgi8.0", true),
    ];
    assert_eq!(get_project_version(&reg, ""), Ok("/usr/bin/php-cgi8.0".to_string()));
    assert_eq!(get_project_version(&reg, "7"), Ok("/usr/bin/php-cgi8.0".to_string()));
}

#[test]
fn bare_php_when_nothing_is_known() {
    let reg: Vec<PhpBinary> = vec![binary("8.1.2", "/usr/bin/php8.1", "", "", false)];
    assert_eq!(get_project_version(&reg, ""), Ok("php".to_string()));
}

#[test]
fn chosen_binary_without_sapi_fails() {
    let reg = vec![binary("8.1.2", "", "", "", true)];
    assert_eq!(get_project_version(&reg, ""), Err(SelectError::NoUsableSapi));
}

#[test]
fn pin_file_is_trimmed() {
    assert_eq!(project_pin(&Some("  8.1\n".to_string())), "8.1");
    assert_eq!(project_pin(&None), "");
}

#[test]
fn unix_executable_names() {
    for ok in ["/usr/bin/php", "/usr/bin/php74", "/usr/bin/php7.4", "/usr/sbin/php-fpm", "/usr/bin/php7.4-cgi", "/usr/sbin/php-fpm74", "/opt/php_fpm8.1"].iter() {
        assert!(binary_name_matches(ok, HostFamily::Unix), "{}", ok);
    }
    for bad in ["/usr/bin/phpize", "/usr/bin/php-config", "/usr/bin/php7..4", "/usr/bin/php7.", "/usr/bin/python"].iter() {
        assert!(!binary_name_matches(bad, HostFamily::Unix), "{}", bad);
    }
}

#[test]
fn windows_executable_names() {
    for ok in ["c:\\php\\php.exe", "c:\\php\\php-cgi.exe", "c:\\php\\php8.1.bat", "c:\\php\\php7-cgi.cmd"].iter() {
        assert!(binary_name_matches(ok, HostFamily::Windows), "{}", ok);
    }
    for bad in ["c:\\php\\php.dll", "c:\\php\\php-fpm.exe", "c:\\php\\phpx.exe"].iter() {
        assert!(!binary_name_matches(bad, HostFamily::Windows), "{}", bad);
    }
}

#[test]
fn duplicate_paths_are_dropped() {
    let paths = vec!["/a".to_string(), "/b".to_string(), "/a".to_string(), "/c".to_string(), "/b".to_string()];
    assert_eq!(dedup_paths(&paths), vec!["/a", "/b", "/c"]);
}

#[test]
fn version_validity() {
    assert!(PhpVersion::is_valid("8.1.2"));
    assert!(PhpVersion::is_valid("5.6.40"));
    assert!(PhpVersion::is_valid("7.10.0"));
    assert!(!PhpVersion::is_valid("6.0.0"));
    assert!(!PhpVersion::is_valid("8.123.0"));
    assert!(!PhpVersion::is_valid("8.1"));
    assert!(!PhpVersion::is_valid("8.1.2-dev"));
    assert_eq!(PhpVersion::from_string("8.2.0".to_string()), PhpVersion::from_str("8.2.0"));
    assert_eq!(PhpVersion::new().version(), "");
}

#[test]
fn invalid_versions_are_never_chosen_by_pin() {
    let reg = vec![
        PhpBinary::from_parts(PhpVersion::new(), "/x/php".to_string(), String::new(), String::new(), false),
        binary("8.0.1", "/usr/bin/php8.0", "", "", false),
    ];
    assert_eq!(get_project_version(&reg, "8"), Ok("/usr/bin/php8.0".to_string()));
}

#[test]
fn pin_file_with_newline_selects_its_version() {
    let reg = vec![
        binary("8.0.9", "/usr/bin/php8.0", "/usr/sbin/php-fpm8.0", "", true),
        binary("8.1.2", "/usr/bin/php8.1", "/usr/sbin/php-fpm8.1", "", false),
    ];
    let pin = project_pin(&Some("8.1\n".to_string()));
    assert_eq!(get_project_version(&reg, &pin), Ok("/usr/sbin/php-fpm8.1".to_string()));
}

#[test]
fn trim_removes_unicode_white_space_only() {
    assert_eq!(project_pin(&Some("\u{3000}\t8.1\u{a0}\r\n".to_string())), "8.1");
    assert_eq!(project_pin(&Some("\u{200b}8.1".to_string())), "\u{200b}8.1");
    assert_eq!(project_pin(&Some(" \n ".to_string())), "");
}

#[test]
fn registry_versions_stay_unique_across_directories() {
    let a = group_probes(&vec![probe("/a/php", "PHP 8.1.2 (cli) x"), probe("/a/php-cgi", "PHP 8.1.2 (cgi-fcgi) x")]);
    let b = group_probes(&vec![probe("/b/php-fpm", "PHP 8.1.2 (fpm-fcgi) x"), probe("/b/tool", "not php")]);
    assert_eq!(a.len(), 1);
    let reg = get_all(vec![a, b]);
    assert_eq!(reg.len(), 1);
    assert_eq!((reg[0].cli().as_str(), reg[0].cgi().as_str(), reg[0].fpm().as_str()), ("/a/php", "/a/php-cgi", "/b/php-fpm"));
    for s in PhpServerSapi::all() {
        assert_ne!(reg[0].sapi_path(&s), "/b/tool");
    }
}
