use easy_ssh_tui::commands::{askpass_script, keygen_args, passphrase_probe_args};
use easy_ssh_tui::app::ActiveTab;
use easy_ssh_tui::display::{
    config_entry_summary, config_form_title, cursor_column, mask_password, or_dash, pad_right,
    tab_hints,
};
use easy_ssh_tui::config::SshConfigEntry;
use easy_ssh_tui::export::{
    export_key_to_github, export_key_to_gitlab, export_request, export_request_body,
    export_response, ExportPlatformChoice, HttpReply,
};
use easy_ssh_tui::keys::{collect_ssh_keys, KeyFiles, SshKey};
use easy_ssh_tui::order::sort_by_key;

fn files(p: &str, private: &str, public: &str) -> KeyFiles {
    KeyFiles {
        private_path: p.to_string(),
        public_path: format!("{}.pub", p),
        private_content: private.to_string(),
        public_content: public.to_string(),
    }
}

#[test]
fn a_key_is_named_after_its_private_file() {
    let k = SshKey::new("/home/u/.ssh/id_work".into(), "/home/u/.ssh/id_work.pub".into(), "PRIV".into(), "PUB".into()).unwrap();
    assert_eq!(k.name, "id_work");
    assert_eq!(k.public_content, "PUB");
    assert_eq!(k.private_path, "/home/u/.ssh/id_work");
}

#[test]
fn a_key_without_a_file_name_is_unknown() {
    let k = SshKey::new("/".into(), "/.pub".into(), "".into(), "PUB".into()).unwrap();
    assert_eq!(k.name, "Unknown");
}

#[test]
fn two_empty_files_give_no_key() {
    assert!(SshKey::new("/a/b".into(), "/a/b.pub".into(), "".into(), "".into()).is_none());
    assert!(SshKey::new("/a/b".into(), "/a/b.pub".into(), "x".into(), "".into()).is_some());
}

#[test]
fn keys_are_sorted_by_name() {
    let ks = collect_ssh_keys(vec![
        files("/h/.ssh/zeta", "z", "z"),
        files("/h/.ssh/alpha", "a", "a"),
        files("/h/.ssh/empty", "", ""),
        files("/h/.ssh/Beta", "b", "b"),
        files("/h/.ssh/alpha2", "a2", "a2"),
    ]);
    let names: Vec<_> = ks.iter().map(|k| k.name.clone()).collect();
    assert_eq!(names, vec!["Beta", "alpha", "alpha2", "zeta"]);
}

#[test]
fn sorting_is_stable_and_by_code_point() {
    let v = vec!["b".to_string(), "a".to_string(), "é".to_string(), "B".to_string(), "a".to_string(), "".to_string()];
    assert_eq!(sort_by_key(v), vec!["", "B", "a", "a", "b", "é"]);
}

#[test]
fn request_body_escapes_quotes_and_trims_the_key() {
    assert_eq!(
        export_request_body("my \"laptop\"", "  ssh-ed25519 AAA me@x \n"),
        "{\"title\":\"my \\\"laptop\\\"\",\"key\":\"ssh-ed25519 AAA me@x\"}"
    );
}

#[test]
fn request_body_escapes_backslashes_and_control_characters() {
    assert_eq!(export_request_body("a\\q", "k"), "{\"title\":\"a\\\\q\",\"key\":\"k\"}");
    assert_eq!(
        export_request_body("tab\there\u{1f}", "k"),
        "{\"title\":\"tab\\u0009here\\u001f\",\"key\":\"k\"}"
    );
    assert_eq!(export_request_body("€ \u{7f}", "k"), "{\"title\":\"€ \u{7f}\",\"key\":\"k\"}");
}

#[test]
fn github_request() {
    let r = export_key_to_github("tok", "t", "k");
    assert_eq!(r.url, "https://api.github.com/user/keys");
    assert_eq!(
        r.headers,
        vec![
            ("Authorization".to_string(), "Bearer tok".to_string()),
            ("Accept".to_string(), "application/vnd.github+json".to_string()),
            ("User-Agent".to_string(), "easy-ssh-tui".to_string()),
            ("Content-Type".to_string(), "application/json".to_string()),
        ]
    );
    assert_eq!(r.body, "{\"title\":\"t\",\"key\":\"k\"}");
}

#[test]
fn gitlab_request() {
    let r = export_key_to_gitlab("tok", "t", "k");
    assert_eq!(r.url, "https://gitlab.com/api/v4/user/keys");
    assert_eq!(
        r.headers,
        vec![("PRIVATE-TOKEN".to_string(), "tok".to_string()), ("Content-Type".to_string(), "application/json".to_string())]
    );
    assert_eq!(export_request(ExportPlatformChoice::GitLab, "tok", "t", "k").url, r.url);
}

#[test]
fn answers_to_an_upload() {
    let created = HttpReply { status: 201, status_text: "201 Created".into(), body: "{}".into() };
    assert_eq!(export_response(ExportPlatformChoice::GitHub, Ok(created)), Ok("Key successfully added to GitHub!".to_string()));
    let refused = HttpReply { status: 422, status_text: "422 Unprocessable Entity".into(), body: "key is already in use".into() };
    assert_eq!(
        export_response(ExportPlatformChoice::GitLab, Ok(refused)),
        Err("GitLab API error (422 Unprocessable Entity): key is already in use".to_string())
    );
    assert_eq!(
        export_response(ExportPlatformChoice::GitHub, Err("dns error".into())),
        Err("Request failed: dns error".to_string())
    );
}

#[test]
fn config_summaries() {
    let mut e = SshConfigEntry::new();
    e.host = "box".into();
    assert_eq!(config_entry_summary(&e), "box");
    e.hostname = "10.0.0.2".into();
    assert_eq!(config_entry_summary(&e), "box → *@10.0.0.2:22");
    e.user = "me".into();
    assert_eq!(config_entry_summary(&e), "box → me@10.0.0.2:22");
    assert_eq!(or_dash(&String::new()), "-");
    assert_eq!(or_dash(&"x".to_string()), "x");
}

#[test]
fn masks_and_pads() {
    assert_eq!(mask_password(&"pä55".to_string()), "****");
    assert_eq!(mask_password(&String::new()), "");
    assert_eq!(pad_right(&"ab".to_string(), 5), "ab   ");
    assert_eq!(pad_right(&"abcdef".to_string(), 3), "abcdef");
    assert_eq!(pad_right(&"é".to_string(), 3), format!("{:<3}", "é"));
}

#[test]
fn command_lines() {
    assert_eq!(keygen_args("me@x", "/h/.ssh/k"), vec!["-t", "ed25519", "-C", "me@x", "-f", "/h/.ssh/k", "-N", ""]);
    assert_eq!(passphrase_probe_args("/k"), vec!["-y", "-P", "", "-f", "/k"]);
    assert_eq!(askpass_script("se\"cret"), "#!/bin/sh\nprintf '%s\\n' 'se\"cret'\n");
    assert_eq!(askpass_script("pa$$word"), "#!/bin/sh\nprintf '%s\\n' 'pa$$word'\n");
    assert_eq!(askpass_script("it's"), "#!/bin/sh\nprintf '%s\\n' 'it'\\''s'\n");
}

#[test]
fn key_names_follow_the_last_path_component() {
    let name = |p: &str| SshKey::new(p.into(), format!("{}.pub", p), "PRIV".into(), "".into()).unwrap().name;
    assert_eq!(name("/h/.ssh/k/"), "k");
    assert_eq!(name("/h/.ssh/k/."), "k");
    assert_eq!(name("./k"), "k");
    assert_eq!(name("k"), "k");
    assert_eq!(name("/h/.."), "Unknown");
    assert_eq!(name("."), "Unknown");
    assert_eq!(name(""), "Unknown");
}

#[test]
fn header_hints_and_form_titles() {
    let keys: Vec<String> = tab_hints(ActiveTab::Keys).into_iter().map(|h| h.0 + &h.1).collect();
    assert_eq!(keys, vec!["n:new ", "i:import ", "c:copy ", "e:export ", "/:search "]);
    assert_eq!(tab_hints(ActiveTab::KnownHosts), vec![("d".to_string(), ":delete ".to_string())]);
    assert_eq!(tab_hints(ActiveTab::SshConfig).len(), 3);
    assert_eq!(config_form_title(true), " Edit SSH Config Entry ");
    assert_eq!(config_form_title(false), " Add SSH Config Entry ");
}

#[test]
fn the_cursor_follows_the_characters_typed() {
    assert_eq!(cursor_column(10, 3, &"ab".to_string()), 15);
    assert_eq!(cursor_column(10, 3, &"€é".to_string()), 15);
    assert_eq!(cursor_column(65534, 3, &"x".to_string()), 65535);
}
