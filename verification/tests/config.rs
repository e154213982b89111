//! The configuration snapshot and the reading of its arguments.

use mchttp::config::{classify_arg, ArgKind, Config};

#[test]
fn default_config() {
    let c = Config::default();
    assert!(!c.verbose);
    assert_eq!(c.bind_addr, "0.0.0.0:8080");
    assert!(c.data_dir.is_none());
    assert!(c.tls.is_none());
    assert_eq!(c.files.get("/"), None);
}

#[test]
fn flags_are_classified() {
    assert_eq!(classify_arg("-v"), ArgKind::Verbose);
    assert_eq!(classify_arg("-l"), ArgKind::BindAddr);
    assert_eq!(classify_arg("-t"), ArgKind::TlsPath);
    assert_eq!(classify_arg("-d"), ArgKind::DataDir);
    assert_eq!(classify_arg("-r"), ArgKind::RootFile);
    assert_eq!(classify_arg("-h"), ArgKind::Help);
    assert_eq!(classify_arg("-?"), ArgKind::Help);
    assert_eq!(classify_arg("site/index.html"), ArgKind::FilePath);
}

#[test]
fn setters_take_their_values() {
    let mut c = Config::default();
    c.set_verbose();
    c.set_bind_addr("127.0.0.1:8443".to_string());
    c.set_tls("/etc/letsencrypt/live".to_string());
    c.set_data_dir("/data".to_string());
    assert!(c.verbose);
    assert_eq!(c.bind_addr, "127.0.0.1:8443");
    assert_eq!(c.tls, Some("/etc/letsencrypt/live".to_string()));
    assert_eq!(c.data_dir, Some("/data".to_string()));
}

#[test]
fn root_file_is_served_for_the_root_path() {
    let mut c = Config::default();
    c.add_root_file("/srv/landing.html".to_string());
    assert_eq!(c.files.get("/"), Some(&"/srv/landing.html".to_string()));
}

#[test]
fn relative_file_argument_gains_a_slash() {
    let mut c = Config::default();
    c.add_file("notes.txt".to_string(), "/cwd/notes.txt".to_string());
    assert_eq!(c.files.get("/notes.txt"), Some(&"/cwd/notes.txt".to_string()));
}

#[test]
fn absolute_file_argument_keeps_its_path() {
    let mut c = Config::default();
    c.add_file("/abs/notes.txt".to_string(), "/abs/notes.txt".to_string());
    assert_eq!(c.files.get("/abs/notes.txt"), Some(&"/abs/notes.txt".to_string()));
}
