use dualpane::connect::{connect_route, parse_port, submit_connection, ConnectRoute};
use dualpane::domain::Protocol;
use dualpane::state::AppState;

#[test]
fn parse_port_follows_std() {
    for s in ["22", "+22", "", "+", "-1", "0", "0022", "65535", "65536", "99999999999", " 22", "22 ", "2a", "++1", "٣"] {
        assert_eq!(parse_port(s), s.parse::<u16>().ok(), "text {:?}", s);
    }
}

#[test]
fn port_text_round_trip() {
    for n in [0u16, 1, 21, 22, 990, 8080, 65535] {
        assert_eq!(parse_port(&n.to_string()), Some(n));
        assert_eq!(parse_port(&format!("+{}", n)), Some(n));
    }
}

fn form(protocol: usize, label: &str, port: &str, pass: &str, key: &str) -> AppState {
    let mut s = AppState::new("/home".to_string());
    s.connect_protocol = protocol;
    s.connect_label = label.to_string();
    s.connect_host = "example.org".to_string();
    s.connect_port = port.to_string();
    s.connect_user = "me".to_string();
    s.connect_pass = pass.to_string();
    s.connect_key_path = key.to_string();
    s.connect_error = "old error".to_string();
    s
}

#[test]
fn submit_uses_defaults_for_empty_fields() {
    let mut s = form(0, "", "", "", "");
    let p = submit_connection(&mut s);
    assert_eq!(p.protocol, Protocol::Sftp);
    assert_eq!(p.port, 22);
    assert_eq!(p.label, "example.org");
    assert_eq!(p.host, "example.org");
    assert_eq!(p.username, "me");
    assert_eq!(p.password, None);
    assert_eq!(p.key_path, None);
    assert_eq!(p.id.len(), 36);
    assert_eq!(&p.id[14..15], "4");
    assert!(s.connect_loading);
    assert_eq!(s.connect_error, "");
}

#[test]
fn submit_reads_the_fields() {
    let mut s = form(1, "work", "2121", "secret", "/k");
    let p = submit_connection(&mut s);
    assert_eq!(p.protocol, Protocol::Ftp);
    assert_eq!(p.port, 2121);
    assert_eq!(p.label, "work");
    assert_eq!(p.password.as_deref(), Some("secret"));
    assert_eq!(p.key_path.as_deref(), Some("/k"));
}

#[test]
fn submit_default_ports_per_protocol() {
    assert_eq!(submit_connection(&mut form(1, "", "x", "", "")).port, 21);
    let mut s = form(7, "", "", "", "");
    let p = submit_connection(&mut s);
    assert_eq!(p.protocol, Protocol::Ftps);
    assert_eq!(p.port, 990);
}

#[test]
fn fresh_ids_differ() {
    let a = submit_connection(&mut form(0, "", "", "", "")).id;
    let b = submit_connection(&mut form(0, "", "", "", "")).id;
    assert_ne!(a, b);
    for (i, c) in a.chars().enumerate() {
        if [8, 13, 18, 23].contains(&i) {
            assert_eq!(c, '-');
        } else {
            assert!(c.is_ascii_hexdigit() && !c.is_ascii_uppercase());
        }
    }
}

#[test]
fn routes_per_protocol() {
    let mut s = form(0, "", "", "", "/keys/id");
    let p = submit_connection(&mut s);
    match connect_route(&p) {
        ConnectRoute::SftpKey(k) => assert_eq!(k, "/keys/id"),
        _ => panic!("expected key authentication"),
    }
    let p = submit_connection(&mut form(0, "", "", "pw", ""));
    assert!(matches!(connect_route(&p), ConnectRoute::SftpPassword));
    let p = submit_connection(&mut form(1, "", "", "", ""));
    assert!(matches!(connect_route(&p), ConnectRoute::Ftp));
    let p = submit_connection(&mut form(2, "", "", "", ""));
    match connect_route(&p) {
        ConnectRoute::Unsupported(m) => assert_eq!(m, "FTPS not yet implemented"),
        _ => panic!("expected a refusal"),
    }
}
