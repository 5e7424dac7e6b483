use easy_ssh_tui::config::{
    add_ssh_config_entry, apply_config_save, parse_ssh_config, remove_ssh_config_entry,
    render_ssh_config, replace_ssh_config_entry, ConfigSave, SshConfigEntry,
};

fn entry(host: &str, hostname: &str, user: &str, port: &str, identity_file: &str) -> SshConfigEntry {
    SshConfigEntry {
        host: host.to_string(),
        hostname: hostname.to_string(),
        user: user.to_string(),
        port: port.to_string(),
        identity_file: identity_file.to_string(),
    }
}

fn fields(e: &SshConfigEntry) -> (String, String, String, String, String) {
    (e.host.clone(), e.hostname.clone(), e.user.clone(), e.port.clone(), e.identity_file.clone())
}

#[test]
fn new_entry_has_default_port() {
    let e = SshConfigEntry::new();
    assert_eq!(fields(&e), (String::new(), String::new(), String::new(), "22".to_string(), String::new()));
}

#[test]
fn parses_hosts_and_fields() {
    let text = "# my hosts\nHost github\n    HostName github.com\n    User git\n    IdentityFile ~/.ssh/id_gh\n\nHost box\n  port 2222\n";
    let es = parse_ssh_config(text);
    assert_eq!(es.len(), 2);
    assert_eq!(fields(&es[0]), ("github".into(), "github.com".into(), "git".into(), "22".into(), "~/.ssh/id_gh".into()));
    assert_eq!(fields(&es[1]), ("box".into(), "".into(), "".into(), "2222".into(), "".into()));
}

#[test]
fn keywords_ignore_case_and_values_are_trimmed() {
    let text = "HOST  alpha  \n\tHOSTNAME\t10.0.0.1 \nuSeR root\nIdentityFILE  a b \n";
    let es = parse_ssh_config(text);
    assert_eq!(es.len(), 1);
    assert_eq!(fields(&es[0]), ("alpha".into(), "10.0.0.1".into(), "root".into(), "22".into(), "a b".into()));
}

#[test]
fn lines_before_a_host_and_unknown_keys_are_ignored() {
    let text = "User nobody\nForwardAgent yes\nHost a\nForwardAgent yes\nProxyJump j\nHostname\n";
    let es = parse_ssh_config(text);
    assert_eq!(es.len(), 1);
    assert_eq!(fields(&es[0]), ("a".into(), "".into(), "".into(), "22".into(), "".into()));
}

#[test]
fn crlf_lines_parse() {
    let es = parse_ssh_config("Host a\r\n  HostName b\r\n");
    assert_eq!(es.len(), 1);
    assert_eq!(es[0].hostname, "b");
}

#[test]
fn empty_text_has_no_entries() {
    assert_eq!(parse_ssh_config("").len(), 0);
    assert_eq!(parse_ssh_config("\n\n# only a comment\n").len(), 0);
}

#[test]
fn renders_entries() {
    let es = vec![entry("a", "a.example", "me", "22", ""), entry("b", "", "", "2200", "~/.ssh/k")];
    assert_eq!(
        render_ssh_config(&es),
        "Host a\n    HostName a.example\n    User me\n\nHost b\n    Port 2200\n    IdentityFile ~/.ssh/k\n\n"
    );
    assert_eq!(render_ssh_config(&vec![]), "");
}

#[test]
fn render_then_parse_gives_the_entries_back() {
    let es = vec![
        entry("a", "a.example", "me", "22", ""),
        entry("b", "", "", "2200", "~/.ssh/k"),
        entry("c d", "10.1.2.3", "x y", "22", "/tmp/id"),
    ];
    let back = parse_ssh_config(&render_ssh_config(&es));
    assert_eq!(back.iter().map(fields).collect::<Vec<_>>(), es.iter().map(fields).collect::<Vec<_>>());
}

#[test]
fn an_empty_port_does_not_survive_saving() {
    let es = vec![entry("a", "", "", "", "")];
    let back = parse_ssh_config(&render_ssh_config(&es));
    assert_eq!(back[0].port, "22");
}

#[test]
fn adds_an_entry() {
    let text = "Host a\n    HostName x\n";
    let out = add_ssh_config_entry(text, &entry("b", "y", "", "22", ""));
    assert_eq!(out, "Host a\n    HostName x\n\nHost b\n    HostName y\n\n");
    assert_eq!(add_ssh_config_entry("", &entry("z", "", "", "22", "")), "Host z\n\n");
}

#[test]
fn removes_an_entry() {
    let text = "Host a\nHost b\n  User u\nHost c\n";
    assert_eq!(remove_ssh_config_entry(text, 1), Some("Host a\n\nHost c\n\n".to_string()));
    assert_eq!(remove_ssh_config_entry(text, 3), None);
    assert_eq!(remove_ssh_config_entry("", 0), None);
}

#[test]
fn replaces_an_entry() {
    let text = "Host a\nHost b\n";
    assert_eq!(
        replace_ssh_config_entry(text, 0, &entry("q", "", "r", "23", "")),
        Some("Host q\n    User r\n    Port 23\n\nHost b\n\n".to_string())
    );
    assert_eq!(replace_ssh_config_entry(text, 2, &entry("q", "", "", "22", "")), None);
}

#[test]
fn applies_a_save() {
    let text = "Host a\n";
    assert_eq!(apply_config_save(text, &ConfigSave::Add(entry("b", "", "", "22", ""))), Some("Host a\n\nHost b\n\n".to_string()));
    assert_eq!(apply_config_save(text, &ConfigSave::Replace(0, entry("b", "", "", "22", ""))), Some("Host b\n\n".to_string()));
    assert_eq!(apply_config_save(text, &ConfigSave::Replace(5, entry("b", "", "", "22", ""))), None);
}

#[test]
fn removing_keeps_the_other_entries() {
    let text = "Host a\n  HostName ha\nHost b\n  HostName hb\n  Port 99\nHost c\n";
    let out = remove_ssh_config_entry(text, 0).unwrap();
    let es = parse_ssh_config(&out);
    assert_eq!(es.len(), 2);
    assert_eq!(fields(&es[0]), ("b".into(), "hb".into(), "".into(), "99".into(), "".into()));
    assert_eq!(es[1].host, "c");
}

#[test]
fn duplicate_copies_every_field() {
    let e = entry("h", "n", "u", "1", "i");
    assert_eq!(fields(&e.duplicate()), fields(&e));
    assert_eq!(fields(&e.clone()), fields(&e));
}
