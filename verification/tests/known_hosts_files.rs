use easy_ssh_tui::known_hosts::{delete_known_host, parse_known_hosts, KnownHostEntry};

fn row(e: &KnownHostEntry) -> (String, String, String) {
    (e.hostname.clone(), e.key_type.clone(), e.fingerprint.clone())
}

#[test]
fn lists_hosts_with_shortened_keys() {
    let text = "github.com ssh-ed25519 AAAAC3NzaC1lZDI1NTE5AAAAIOMqqnkVzrm0SdG6UOoqKLsabgH5C9okWi0dh2l9GKJl\n# comment\n\nexample.org ssh-rsa AAAA\nlonely\nbare-host key-only\n";
    let hs = parse_known_hosts(text);
    let rows: Vec<_> = hs.iter().map(row).collect();
    assert_eq!(
        rows,
        vec![
            ("github.com".to_string(), "ssh-ed25519".to_string(), "AAAAC3NzaC1lZDI1NTE5AAAAIOMqqn...".to_string()),
            ("example.org".to_string(), "ssh-rsa".to_string(), "AAAA".to_string()),
            ("bare-host".to_string(), "key-only".to_string(), "".to_string()),
        ]
    );
}

#[test]
fn thirty_character_keys_are_kept_whole() {
    let key30 = "A".repeat(30);
    let hs = parse_known_hosts(&format!("h t {}\n", key30));
    assert_eq!(hs[0].fingerprint, key30);
    let key31 = "B".repeat(31);
    let hs = parse_known_hosts(&format!("h t {}\n", key31));
    assert_eq!(hs[0].fingerprint, format!("{}...", "B".repeat(30)));
}

#[test]
fn only_spaces_split_and_the_rest_is_the_key() {
    let hs = parse_known_hosts("  a  b c d  \n");
    assert_eq!(row(&hs[0]), ("a".to_string(), "".to_string(), "b c d".to_string()));
    let hs = parse_known_hosts("x\ty z\n");
    assert_eq!(row(&hs[0]), ("x\ty".to_string(), "z".to_string(), "".to_string()));
}

#[test]
fn keys_are_cut_by_characters_not_bytes() {
    let euros = "€".repeat(11);
    let hs = parse_known_hosts(&format!("h t {}\n", euros));
    assert_eq!(hs[0].fingerprint, euros);
    let long = format!("{}é", "a".repeat(30));
    let hs = parse_known_hosts(&format!("h t {}\n", long));
    assert_eq!(hs[0].fingerprint, format!("{}...", "a".repeat(30)));
    let hs = parse_known_hosts(&format!("h t {}é\n", "a".repeat(29)));
    assert_eq!(hs[0].fingerprint, format!("{}é", "a".repeat(29)));
}

#[test]
fn deletes_the_listed_host() {
    let text = "# c\nh1 t k1\n\nh2 t k2\nh3 t k3";
    assert_eq!(delete_known_host(text, 1), Some("# c\nh1 t k1\n\nh3 t k3\n".to_string()));
    assert_eq!(delete_known_host(text, 0), Some("# c\n\nh2 t k2\nh3 t k3\n".to_string()));
    assert_eq!(delete_known_host(text, 3), None);
}

#[test]
fn deleting_the_only_line_leaves_a_line_break() {
    assert_eq!(delete_known_host("h t k\n", 0), Some("\n".to_string()));
    assert_eq!(delete_known_host("", 0), None);
}

#[test]
fn deleting_drops_carriage_returns() {
    assert_eq!(delete_known_host("a t k\r\nb t k\r\n", 0), Some("b t k\n".to_string()));
}

#[test]
fn after_deleting_the_listing_lacks_that_entry() {
    let text = "h1 t k1\nh2 t k2\nh3 t k3\n";
    let before = parse_known_hosts(text);
    let after = parse_known_hosts(&delete_known_host(text, 1).unwrap());
    let mut expected: Vec<_> = before.iter().map(row).collect();
    expected.remove(1);
    assert_eq!(after.iter().map(row).collect::<Vec<_>>(), expected);
}

#[test]
fn a_line_without_a_space_is_kept_and_the_selected_entry_deleted() {
    let text = "garbage\nh1 t k\n";
    assert_eq!(parse_known_hosts(text).len(), 1);
    assert_eq!(delete_known_host(text, 0), Some("garbage\n".to_string()));
    assert_eq!(delete_known_host("a\nb c\n", 0), Some("a\n".to_string()));
    assert_eq!(delete_known_host("a\nb c\n", 1), None);
}
