use zxzedesk::tunnel::{bore_file_name, bundled_folder_name, BoreLocation, TunnelLine, TunnelManager};

#[test]
fn bore_is_started_for_the_local_port() {
    let m = TunnelManager::new();
    assert_eq!(m.command_args(4000), vec!["local", "4000", "--to", "bore.pub"]);
    assert_eq!(m.command_args(0), vec!["local", "0", "--to", "bore.pub"]);
}

#[test]
fn port_announcement_opens_the_tunnel() {
    let m = TunnelManager::new();
    match m.scan_line("2024-01-01 INFO listening at bore.pub:41234") {
        TunnelLine::Ready(h, p) => {
            assert_eq!(h, "bore.pub");
            assert_eq!(p, 41234);
        }
        other => panic!("unexpected {:?}", other),
    }
}

#[test]
fn out_of_range_port_is_passed_over() {
    let m = TunnelManager::new();
    assert!(matches!(m.scan_line("bore.pub:99999 error"), TunnelLine::Pending));
}

#[test]
fn error_lines_fail_in_any_case() {
    let m = TunnelManager::new();
    match m.scan_line("ERROR: could not connect") {
        TunnelLine::Failed(l) => assert_eq!(l, "ERROR: could not connect"),
        other => panic!("unexpected {:?}", other),
    }
    assert!(matches!(m.scan_line("bore.pub: Error here"), TunnelLine::Failed(_)));
}

#[test]
fn pipe_closed_is_not_an_error() {
    let m = TunnelManager::new();
    assert!(matches!(m.scan_line("Error: Pipe Closed"), TunnelLine::Pending));
}

#[test]
fn other_lines_are_passed_over() {
    let m = TunnelManager::new();
    assert!(matches!(m.scan_line("connected to server"), TunnelLine::Pending));
    assert!(matches!(m.scan_line(""), TunnelLine::Pending));
    assert!(matches!(m.scan_line("bore_pub:123"), TunnelLine::Pending));
}

#[test]
fn classify_on_plain_values() {
    let m = TunnelManager::new();
    assert!(matches!(m.classify_line("x", "x", Some("0")), TunnelLine::Ready(_, 0)));
    assert!(matches!(m.classify_line("x", "x", Some("65536")), TunnelLine::Pending));
    assert!(matches!(m.classify_line("X", "an error", None), TunnelLine::Failed(_)));
    assert!(matches!(m.classify_line("X", "an error: pipe closed", None), TunnelLine::Pending));
    assert!(matches!(m.classify_line("X", "an error", Some("12")), TunnelLine::Ready(_, 12)));
}

#[test]
fn bore_is_sought_beside_the_executable_then_in_bundled_folders() {
    let m = TunnelManager::new();
    assert_eq!(
        m.search_order(3),
        vec![
            BoreLocation::BesideExecutable,
            BoreLocation::InBundledFolder(0),
            BoreLocation::InBundledFolder(1),
            BoreLocation::InBundledFolder(2),
        ]
    );
    assert_eq!(m.search_order(0), vec![BoreLocation::BesideExecutable]);
    assert_eq!(bore_file_name(), "bore.exe");
    assert_eq!(bundled_folder_name(), "ZxZeDesk Python Version");
}
