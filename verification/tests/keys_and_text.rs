use khm::keys::{
    find_invalid_key, is_valid_ssh_key, key_preview, key_type_name, known_hosts_line,
    known_hosts_text, parse_known_hosts, parse_known_hosts_line, parse_known_hosts_text, SshKey,
};
use khm::text::{format_u64, parse_u32_chars, parse_usize_chars, push_padded};

fn key(server: &str, public_key: &str, deprecated: bool) -> SshKey {
    SshKey { server: server.to_string(), public_key: public_key.to_string(), deprecated }
}

const RSA: &str = "ssh-rsa AAAAB3NzaC1yc2EAAAADAQABAAABAQC7 user@host";
const ED: &str = "ssh-ed25519 AAAAC3NzaC1lZDI1NTE5AAAAIOMq";

#[test]
fn parses_a_known_hosts_line() {
    let k = parse_known_hosts_line("example.com ssh-ed25519 AAAAC3Nz comment").unwrap();
    assert_eq!(k.server, "example.com");
    assert_eq!(k.public_key, "ssh-ed25519 AAAAC3Nz comment");
    assert!(!k.deprecated);
}

#[test]
fn collapses_whitespace_inside_the_key() {
    let k = parse_known_hosts_line("  host\tssh-rsa   AAAA  x  ").unwrap();
    assert_eq!(k.server, "host");
    assert_eq!(k.public_key, "ssh-rsa AAAA x");
}

#[test]
fn a_line_with_one_field_describes_nothing() {
    assert!(parse_known_hosts_line("lonely").is_none());
    assert!(parse_known_hosts_line("   ").is_none());
    assert!(parse_known_hosts_line("").is_none());
}

#[test]
fn parsing_a_file_keeps_key_lines_in_order() {
    let lines = vec![
        "a.example ssh-rsa AAAA1".to_string(),
        "".to_string(),
        "broken".to_string(),
        "b.example ssh-ed25519 AAAA2".to_string(),
    ];
    let keys = parse_known_hosts(&lines);
    assert_eq!(keys.len(), 2);
    assert_eq!(keys[0].server, "a.example");
    assert_eq!(keys[1].public_key, "ssh-ed25519 AAAA2");
}

#[test]
fn writes_one_line_per_key() {
    let keys = vec![key("a", "ssh-rsa AAAA1", false), key("b", "ssh-ed25519 AAAA2", true)];
    assert_eq!(known_hosts_line(&keys[0]), "a ssh-rsa AAAA1");
    assert_eq!(known_hosts_text(&keys), "a ssh-rsa AAAA1\nb ssh-ed25519 AAAA2\n");
    assert_eq!(known_hosts_text(&Vec::new()), "");
}

#[test]
fn writing_then_reading_gives_the_keys_back() {
    let keys = vec![key("a.example", RSA, false), key("b.example", ED, false)];
    let text = known_hosts_text(&keys);
    let lines: Vec<String> = text.split('\n').map(|l| l.to_string()).collect();
    let back = parse_known_hosts(&lines);
    assert_eq!(back, keys);
}

#[test]
fn accepts_keys_in_the_known_formats() {
    assert!(is_valid_ssh_key(RSA));
    assert!(is_valid_ssh_key(ED));
    assert!(is_valid_ssh_key("ssh-dss AAAAB3NzaC1kc3M="));
    assert!(is_valid_ssh_key("ecdsa-sha2-nistp256 AAAAE2VjZHNh"));
}

#[test]
fn refuses_keys_in_other_formats() {
    assert!(!is_valid_ssh_key("ssh-rsa BBBB"));
    assert!(!is_valid_ssh_key("ecdsa-sha2-nistp999 AAAAE2VjZHNh"));
    assert!(!is_valid_ssh_key("not a key"));
    assert!(!is_valid_ssh_key(""));
}

#[test]
fn finds_the_first_invalid_key() {
    let keys = vec![key("a", RSA, false), key("b", "junk", false), key("c", "more junk", false)];
    assert_eq!(find_invalid_key(&keys), Some(1));
    let good = vec![key("a", RSA, false), key("b", ED, false)];
    assert_eq!(find_invalid_key(&good), None);
}

#[test]
fn names_the_key_type() {
    assert_eq!(key_type_name("ssh-rsa AAAA"), "RSA");
    assert_eq!(key_type_name("ssh-ed25519 AAAA"), "ED25519");
    assert_eq!(key_type_name("ecdsa-sha2-nistp384 AAAA"), "ECDSA");
    assert_eq!(key_type_name("ssh-dss AAAA"), "DSA");
    assert_eq!(key_type_name("x509 AAAA"), "Unknown");
}

#[test]
fn previews_the_key_field() {
    assert_eq!(key_preview("ssh-rsa AAAAB3NzaC1yc2EAAAADAQAB", 12), "AAAAB3NzaC1y...");
    assert_eq!(key_preview("ssh-rsa AAAAB3NzaC1yc2EAAAADAQAB", 16), "AAAAB3NzaC1yc2EA...");
    assert_eq!(key_preview("ssh-rsa AAAA", 12), "AAAA");
    assert_eq!(key_preview("onlyonefieldhere", 12), "onlyonefield...");
    assert_eq!(key_preview("short", 12), "short...");
}

#[test]
fn previews_count_characters() {
    assert_eq!(key_preview("ssh-rsa ééééééééééééé", 12), "éééééééééééé...");
    assert_eq!(key_preview("ssh-rsa aéééééééé", 12), "aéééééééé");
    assert_eq!(key_preview("ééééééééééééééé", 12), "éééééééééééé...");
}

#[test]
fn formats_and_reads_numbers() {
    assert_eq!(format_u64(0), "0");
    assert_eq!(format_u64(1234567), "1234567");
    let mut s = String::new();
    push_padded(&mut s, 7, 3);
    assert_eq!(s, "007");
    let digits: Vec<char> = "+42".chars().collect();
    assert_eq!(parse_usize_chars(&digits), Some(42));
    let bad: Vec<char> = "4a".chars().collect();
    assert_eq!(parse_usize_chars(&bad), None);
    let big: Vec<char> = "4294967296".chars().collect();
    assert_eq!(parse_u32_chars(&big), None);
    let max: Vec<char> = "4294967295".chars().collect();
    assert_eq!(parse_u32_chars(&max), Some(u32::MAX));
}

#[test]
fn whole_text_parses_line_by_line() {
    let text = "a.example ssh-rsa AAAA1\r\n\nbroken\nb.example ssh-ed25519 AAAA2 note";
    let keys = parse_known_hosts_text(text);
    assert_eq!(keys.len(), 2);
    assert_eq!(keys[0].server, "a.example");
    assert_eq!(keys[0].public_key, "ssh-rsa AAAA1");
    assert_eq!(keys[1].server, "b.example");
    assert_eq!(keys[1].public_key, "ssh-ed25519 AAAA2 note");
    assert!(parse_known_hosts_text("").is_empty());
}

#[test]
fn written_text_reads_back() {
    let keys = vec![
        SshKey { server: "h1".to_string(), public_key: "ssh-rsa AAAA1".to_string(), deprecated: false },
        SshKey { server: "h2".to_string(), public_key: "ssh-ed25519 BBBB c".to_string(), deprecated: false },
    ];
    let back = parse_known_hosts_text(&known_hosts_text(&keys));
    assert_eq!(back, keys);
}
