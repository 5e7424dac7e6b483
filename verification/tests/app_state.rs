use easy_ssh_tui::app::{
    ActiveTab, App, ConfigEditField, ImportOutcome, InputField, InputMode,
};
use easy_ssh_tui::config::{ConfigSave, SshConfigEntry};
use easy_ssh_tui::export::{ExportPlatformChoice, HttpReply};
use easy_ssh_tui::keymap::{key_command, Command, KeyInput};
use easy_ssh_tui::keys::SshKey;
use easy_ssh_tui::known_hosts::KnownHostEntry;

fn key(name: &str) -> SshKey {
    SshKey {
        name: name.to_string(),
        private_path: format!("/home/u/.ssh/{}", name),
        public_path: format!("/home/u/.ssh/{}.pub", name),
        private_content: format!("PRIVATE {}", name),
        public_content: format!("ssh-ed25519 AAAA {}", name),
    }
}

fn entry(host: &str) -> SshConfigEntry {
    let mut e = SshConfigEntry::new();
    e.host = host.to_string();
    e
}

fn host(name: &str) -> KnownHostEntry {
    KnownHostEntry {
        hostname: name.to_string(),
        key_type: "ssh-ed25519".to_string(),
        fingerprint: "AAAA".to_string(),
    }
}

fn app_with(keys: &[&str]) -> App {
    App::new(
        keys.iter().map(|n| key(n)).collect(),
        "/home/u".to_string(),
        vec![entry("a"), entry("b")],
        vec![host("h1"), host("h2"), host("h3")],
    )
}

fn msg(app: &App) -> Option<String> {
    app.clipboard_msg.as_ref().map(|m| m.0.clone())
}

#[test]
fn a_new_app_selects_the_first_row_of_each_nonempty_list() {
    let app = App::new(vec![key("a"), key("b")], "/home/u".to_string(), vec![], vec![host("h")]);
    assert_eq!(app.list_state, Some(0));
    assert_eq!(app.config_list_state, None);
    assert_eq!(app.known_hosts_list_state, Some(0));
    assert_eq!(app.input_mode, InputMode::Normal);
    assert_eq!(app.active_tab, ActiveTab::Keys);
    assert_eq!(app.current_dir, "/home/u");
    assert!(app.file_entries.is_empty());
    assert!(!app.search_active);
}

#[test]
fn moving_through_keys_wraps_at_both_ends() {
    let mut app = app_with(&["a", "b", "c"]);
    app.next();
    assert_eq!(app.list_state, Some(1));
    app.next();
    app.next();
    assert_eq!(app.list_state, Some(0));
    app.previous();
    assert_eq!(app.list_state, Some(2));
}

#[test]
fn moving_in_an_empty_key_list_selects_row_zero() {
    let mut app = app_with(&[]);
    assert_eq!(app.list_state, None);
    app.next();
    assert_eq!(app.list_state, Some(0));
    app.list_state = None;
    app.previous();
    assert_eq!(app.list_state, Some(0));
}

#[test]
fn config_and_host_moves_do_nothing_on_empty_lists() {
    let mut app = App::new(vec![], "/".to_string(), vec![], vec![]);
    app.config_next();
    app.kh_previous();
    assert_eq!(app.config_list_state, None);
    assert_eq!(app.known_hosts_list_state, None);
    let mut app = app_with(&["a"]);
    app.kh_previous();
    assert_eq!(app.known_hosts_list_state, Some(2));
    app.config_next();
    app.config_next();
    assert_eq!(app.config_list_state, Some(0));
}

#[test]
fn the_key_name_takes_only_letters_digits_underscore_and_dash() {
    let mut app = app_with(&[]);
    app.start_creation();
    for c in "a b!_-9é".chars() {
        app.handle_input(c);
    }
    assert_eq!(app.input_name, "ab_-9");
    app.switch_field();
    assert_eq!(app.input_field, InputField::Email);
    for c in "u@x y".chars() {
        app.handle_input(c);
    }
    assert_eq!(app.input_email, "u@x y");
    app.handle_backspace();
    assert_eq!(app.input_email, "u@x ");
    app.switch_field();
    app.handle_backspace();
    assert_eq!(app.input_name, "ab_-");
}

#[test]
fn an_empty_key_name_is_refused() {
    let mut app = app_with(&[]);
    app.start_creation();
    assert_eq!(app.confirm_creation(), None);
    assert_eq!(app.popup_msg.as_deref(), Some("Key name cannot be empty"));
}

#[test]
fn a_created_key_is_selected_and_announced() {
    let mut app = app_with(&["a", "c"]);
    app.start_creation();
    app.handle_input('b');
    app.switch_field();
    app.handle_input('e');
    assert_eq!(app.confirm_creation(), Some(("b".to_string(), "e".to_string())));
    app.finish_creation(Ok(vec![key("a"), key("b"), key("c")]));
    assert_eq!(app.list_state, Some(1));
    assert_eq!(app.input_mode, InputMode::Normal);
    assert_eq!(msg(&app).as_deref(), Some("Created SSH key 'b' successfully!"));
}

#[test]
fn a_failed_creation_shows_the_error() {
    let mut app = app_with(&["a"]);
    app.start_creation();
    app.handle_input('b');
    app.finish_creation(Err("ssh-keygen failed".to_string()));
    assert_eq!(app.popup_msg.as_deref(), Some("Error: ssh-keygen failed"));
    assert_eq!(app.input_mode, InputMode::Editing);
}

#[test]
fn the_import_action_is_move_or_copy() {
    let mut app = app_with(&[]);
    assert_eq!(app.handle_import_action('m'), None);
    app.selected_import_file = Some("/tmp/k.pem".to_string());
    assert_eq!(app.handle_import_action('m'), Some(("/tmp/k.pem".to_string(), true)));
    assert_eq!(app.handle_import_action('c'), Some(("/tmp/k.pem".to_string(), false)));
    assert_eq!(app.handle_import_action('x'), None);
}

#[test]
fn an_encrypted_import_asks_for_the_passphrase() {
    let mut app = app_with(&["a"]);
    app.selected_import_file = Some("/tmp/k.pem".to_string());
    app.input_mode = InputMode::ImportAction;
    app.finish_import(ImportOutcome::NeedsPassword("/home/u/.ssh/k.pem".to_string()));
    assert_eq!(app.input_mode, InputMode::PasswordPrompt);
    assert_eq!(app.selected_import_file.as_deref(), Some("/home/u/.ssh/k.pem"));
    app.handle_password_input('p');
    app.handle_password_input('w');
    app.handle_password_input('x');
    app.handle_password_backspace();
    assert_eq!(
        app.submit_password(),
        Some(("/home/u/.ssh/k.pem".to_string(), "pw".to_string()))
    );
    app.finish_password(Err("Failed to add key or incorrect password".to_string()));
    assert_eq!(app.popup_msg.as_deref(), Some("ssh-add error: Failed to add key or incorrect password"));
    assert_eq!(app.password_input, "");
    app.handle_password_input('q');
    app.finish_password(Ok(vec![key("a"), key("k.pem")]));
    assert_eq!(app.list_state, Some(1));
    assert_eq!(app.input_mode, InputMode::Normal);
    assert_eq!(app.selected_import_file, None);
    assert_eq!(app.password_input, "");
    assert_eq!(msg(&app).as_deref(), Some("Import and ssh-add successful!"));
}

#[test]
fn a_plain_import_selects_the_imported_key() {
    let mut app = app_with(&["a", "b"]);
    app.finish_import(ImportOutcome::Imported("/home/u/.ssh/b".to_string(), vec![key("a"), key("b")]));
    assert_eq!(app.list_state, Some(1));
    assert_eq!(app.input_mode, InputMode::Normal);
    assert_eq!(msg(&app).as_deref(), Some("Import successful!"));
    app.finish_import(ImportOutcome::Failed("Invalid file name".to_string()));
    assert_eq!(app.popup_msg.as_deref(), Some("Import error: Invalid file name"));
}

#[test]
fn a_new_config_entry_starts_on_port_22_and_the_port_takes_digits_only() {
    let mut app = app_with(&[]);
    app.start_add_config();
    assert_eq!(app.input_mode, InputMode::ConfigEditing);
    app.config_edit_input('w');
    for _ in 0..3 {
        app.config_edit_next_field();
    }
    assert_eq!(app.config_edit_field, ConfigEditField::Port);
    app.config_edit_input('x');
    app.config_edit_input('2');
    app.config_edit_backspace();
    app.config_edit_input('0');
    let e = app.editing_config.as_ref().unwrap();
    assert_eq!(e.host, "w");
    assert_eq!(e.port, "220");
    match app.confirm_config_edit() {
        Some(ConfigSave::Add(x)) => assert_eq!(x.host, "w"),
        _ => panic!("expected an added entry"),
    }
    assert!(app.editing_config.is_none());
}

#[test]
fn editing_an_entry_replaces_it_and_an_empty_host_is_refused() {
    let mut app = app_with(&[]);
    app.config_next();
    app.start_edit_config();
    assert_eq!(app.config_edit_index, Some(1));
    assert_eq!(app.editing_config.as_ref().unwrap().host, "b");
    app.config_edit_backspace();
    assert_eq!(app.confirm_config_edit().is_none(), true);
    assert_eq!(app.popup_msg.as_deref(), Some("Host name cannot be empty"));
    assert!(app.editing_config.is_some());
    app.config_edit_input('z');
    match app.confirm_config_edit() {
        Some(ConfigSave::Replace(i, x)) => {
            assert_eq!(i, 1);
            assert_eq!(x.host, "z");
        }
        _ => panic!("expected a replaced entry"),
    }
    app.finish_config_edit(Err("denied".to_string()));
    assert_eq!(app.popup_msg.as_deref(), Some("Error saving: denied"));
    app.config_edit_index = None;
    app.finish_config_edit(Err("denied".to_string()));
    assert_eq!(app.popup_msg.as_deref(), Some("Error adding: denied"));
    app.finish_config_edit(Ok(vec![entry("z")]));
    assert_eq!(app.config_entries.len(), 1);
    assert_eq!(app.input_mode, InputMode::Normal);
    assert_eq!(msg(&app).as_deref(), Some("SSH config saved!"));
}

#[test]
fn deleting_the_last_config_entry_moves_the_selection_up() {
    let mut app = app_with(&[]);
    app.config_previous();
    assert_eq!(app.delete_config_entry(), Some(1));
    app.finish_delete_config_entry(1, Ok(vec![entry("a")]));
    assert_eq!(app.config_list_state, Some(0));
    assert_eq!(msg(&app).as_deref(), Some("Config entry deleted!"));
    app.finish_delete_config_entry(0, Ok(vec![]));
    assert_eq!(app.config_list_state, None);
    assert_eq!(app.delete_config_entry(), None);
    app.finish_delete_config_entry(0, Err("gone".to_string()));
    assert_eq!(msg(&app).as_deref(), Some("Error: gone"));
}

#[test]
fn deleting_a_known_host_keeps_the_selection_in_the_list() {
    let mut app = app_with(&[]);
    app.kh_next();
    assert_eq!(app.delete_known_host(), Some(1));
    app.finish_delete_known_host(1, Ok(vec![host("h1"), host("h3")]));
    assert_eq!(app.known_hosts_list_state, Some(1));
    assert_eq!(msg(&app).as_deref(), Some("Known host removed!"));
    app.finish_delete_known_host(1, Ok(vec![host("h1")]));
    assert_eq!(app.known_hosts_list_state, Some(0));
}

#[test]
fn copying_needs_a_clipboard() {
    let mut app = app_with(&["a", "b"]);
    app.next();
    assert_eq!(app.copy_public_key(true).as_deref(), Some("ssh-ed25519 AAAA b"));
    app.finish_copy(true);
    assert_eq!(msg(&app).as_deref(), Some("Copied b public key to clipboard!"));
    app.finish_copy(false);
    assert_eq!(msg(&app).as_deref(), Some("Failed to copy to clipboard"));
    assert_eq!(app.copy_public_key(false), None);
    assert_eq!(msg(&app).as_deref(), Some("Clipboard not available"));
}

#[test]
fn the_message_line_expires_after_three_seconds() {
    let mut app = app_with(&["a"]);
    app.finish_copy(false);
    app.expire_clipboard_msg(3_000_000_000);
    assert!(app.clipboard_msg.is_some());
    app.expire_clipboard_msg(3_000_000_001);
    assert!(app.clipboard_msg.is_none());
    app.finish_copy(false);
    app.update_clipboard_msg_timeout();
    assert!(app.clipboard_msg.is_some());
}

#[test]
fn the_file_browser_lists_parent_then_directories_then_files_sorted() {
    let mut app = app_with(&[]);
    app.start_file_browser();
    app.load_directory(Some((
        vec!["/home/u/b".to_string(), "/home/u/a".to_string()],
        vec!["/home/u/z.pem".to_string(), "/home/u/y.pem".to_string()],
    )));
    let rows: Vec<(&str, bool)> = app.file_entries.iter().map(|e| (e.path.as_str(), e.is_dir)).collect();
    assert_eq!(
        rows,
        vec![
            ("/home", true),
            ("/home/u/a", true),
            ("/home/u/b", true),
            ("/home/u/y.pem", false),
            ("/home/u/z.pem", false),
        ]
    );
    assert_eq!(app.file_list_state, Some(0));
    app.load_directory(None);
    assert!(app.file_entries.is_empty());
    assert_eq!(app.file_list_state, None);
}

#[test]
fn opening_rows_of_the_file_browser() {
    let mut app = app_with(&[]);
    app.load_directory(Some((vec!["/home/u/a".to_string()], vec!["/home/u/k.pem".to_string()])));
    app.fb_next();
    assert!(app.fb_select());
    assert_eq!(app.current_dir, "/home/u/a");
    app.current_dir = "/home/u".to_string();
    app.fb_previous();
    assert_eq!(app.file_list_state, Some(0));
    app.fb_previous();
    assert_eq!(app.file_list_state, Some(2));
    assert!(!app.fb_select());
    assert_eq!(app.input_mode, InputMode::ImportAction);
    assert_eq!(app.selected_import_file.as_deref(), Some("/home/u/k.pem"));
    app.cancel_import();
    assert_eq!(app.selected_import_file, None);
    assert!(app.fb_parent());
    assert_eq!(app.current_dir, "/home");
    app.current_dir = "/".to_string();
    assert!(!app.fb_parent());
    assert_eq!(app.current_dir, "/");
}

#[test]
fn searching_filters_keys_by_name_ignoring_case() {
    let mut app = app_with(&["id_home", "id_work", "Work2"]);
    app.start_search();
    assert_eq!(app.filtered_keys, vec![0, 1, 2]);
    app.search_input('W');
    app.search_input('o');
    assert_eq!(app.filtered_keys, vec![1, 2]);
    assert_eq!(app.list_state, Some(0));
    let names: Vec<&str> = app.visible_keys().iter().map(|k| k.name.as_str()).collect();
    assert_eq!(names, vec!["id_work", "Work2"]);
    app.next_visible();
    assert_eq!(app.get_selected_key().unwrap().name, "Work2");
    app.next_visible();
    assert_eq!(app.get_selected_key().unwrap().name, "id_work");
    app.search_input('x');
    assert!(app.filtered_keys.is_empty());
    assert_eq!(app.list_state, None);
    assert!(app.visible_keys().is_empty());
    app.search_backspace();
    assert_eq!(app.filtered_keys, vec![1, 2]);
    app.confirm_search();
    assert_eq!(app.input_mode, InputMode::Normal);
    assert!(app.search_active);
    app.cancel_search();
    assert!(!app.search_active);
    assert_eq!(app.list_state, Some(0));
    assert_eq!(app.visible_keys().len(), 3);
}

#[test]
fn exporting_asks_for_a_platform_and_a_token() {
    let mut app = app_with(&["id_a", "id_b"]);
    app.next();
    app.start_export();
    assert_eq!(app.input_mode, InputMode::ExportPlatform);
    app.select_export_platform(ExportPlatformChoice::GitHub);
    assert_eq!(app.input_mode, InputMode::ExportToken);
    assert!(app.submit_export().is_none());
    assert_eq!(app.popup_msg.as_deref(), Some("Token cannot be empty"));
    app.export_token_input('t');
    app.export_token_input('k');
    app.export_token_input('x');
    app.export_token_backspace();
    let req = app.submit_export().unwrap();
    assert_eq!(req.url, "https://api.github.com/user/keys");
    assert_eq!(req.headers[0], ("Authorization".to_string(), "Bearer tk".to_string()));
    assert_eq!(req.body, "{\"title\":\"id_b\",\"key\":\"ssh-ed25519 AAAA id_b\"}");
}

#[test]
fn exporting_during_a_search_takes_the_listed_key() {
    let mut app = app_with(&["alpha", "beta"]);
    app.start_search();
    app.search_input('b');
    app.confirm_search();
    app.start_export();
    app.select_export_platform(ExportPlatformChoice::GitLab);
    app.export_token_input('t');
    let req = app.submit_export().unwrap();
    assert_eq!(req.url, "https://gitlab.com/api/v4/user/keys");
    assert_eq!(req.headers[0], ("PRIVATE-TOKEN".to_string(), "t".to_string()));
    assert_eq!(req.body, "{\"title\":\"beta\",\"key\":\"ssh-ed25519 AAAA beta\"}");
}

#[test]
fn the_export_answer_closes_the_dialog_or_shows_the_error() {
    let mut app = app_with(&["a"]);
    app.start_export();
    app.select_export_platform(ExportPlatformChoice::GitHub);
    app.export_token_input('t');
    app.finish_export(Ok(HttpReply {
        status: 422,
        status_text: "422 Unprocessable Entity".to_string(),
        body: "key is already in use".to_string(),
    }));
    assert_eq!(
        app.popup_msg.as_deref(),
        Some("GitHub API error (422 Unprocessable Entity): key is already in use")
    );
    assert_eq!(app.export_token, "");
    assert_eq!(app.input_mode, InputMode::ExportToken);
    app.finish_export(Err("connection refused".to_string()));
    assert_eq!(app.popup_msg.as_deref(), Some("Request failed: connection refused"));
    app.finish_export(Ok(HttpReply { status: 201, status_text: "201 Created".to_string(), body: String::new() }));
    assert_eq!(app.input_mode, InputMode::Normal);
    assert_eq!(app.export_platform, None);
    assert_eq!(app.popup_msg, None);
    assert_eq!(msg(&app).as_deref(), Some("Key successfully added to GitHub!"));
}

#[test]
fn exporting_needs_a_selected_key() {
    let mut app = app_with(&[]);
    app.start_export();
    assert_eq!(app.input_mode, InputMode::Normal);
    app.cancel_export();
    assert_eq!(app.export_platform, None);
}

#[test]
fn switching_tabs() {
    let mut app = app_with(&[]);
    app.switch_tab(ActiveTab::KnownHosts);
    assert_eq!(app.active_tab, ActiveTab::KnownHosts);
}

#[test]
fn keys_in_the_list_views() {
    let n = InputMode::Normal;
    assert_eq!(key_command(n, ActiveTab::Keys, KeyInput::Char('q')), Command::Quit);
    assert_eq!(key_command(n, ActiveTab::SshConfig, KeyInput::Esc), Command::Quit);
    assert_eq!(key_command(n, ActiveTab::Keys, KeyInput::Char('2')), Command::SwitchTab(ActiveTab::SshConfig));
    assert_eq!(key_command(n, ActiveTab::Keys, KeyInput::Down), Command::NextVisible);
    assert_eq!(key_command(n, ActiveTab::Keys, KeyInput::Char('k')), Command::PreviousVisible);
    assert_eq!(key_command(n, ActiveTab::SshConfig, KeyInput::Char('j')), Command::ConfigNext);
    assert_eq!(key_command(n, ActiveTab::KnownHosts, KeyInput::Char('k')), Command::KhPrevious);
    assert_eq!(key_command(n, ActiveTab::Keys, KeyInput::Char('c')), Command::CopyPublicKey);
    assert_eq!(key_command(n, ActiveTab::SshConfig, KeyInput::Char('c')), Command::Nothing);
    assert_eq!(key_command(n, ActiveTab::Keys, KeyInput::Char('e')), Command::StartExport);
    assert_eq!(key_command(n, ActiveTab::SshConfig, KeyInput::Char('e')), Command::StartEditConfig);
    assert_eq!(key_command(n, ActiveTab::KnownHosts, KeyInput::Char('d')), Command::DeleteKnownHost);
    assert_eq!(key_command(n, ActiveTab::Keys, KeyInput::Char('/')), Command::StartSearch);
}

#[test]
fn keys_in_the_dialogs() {
    assert_eq!(key_command(InputMode::Editing, ActiveTab::Keys, KeyInput::Char('q')), Command::HandleInput('q'));
    assert_eq!(key_command(InputMode::Editing, ActiveTab::Keys, KeyInput::Tab), Command::SwitchField);
    assert_eq!(key_command(InputMode::FileBrowser, ActiveTab::Keys, KeyInput::Left), Command::FbParent);
    assert_eq!(key_command(InputMode::FileBrowser, ActiveTab::Keys, KeyInput::Char('q')), Command::CancelImport);
    assert_eq!(key_command(InputMode::ImportAction, ActiveTab::Keys, KeyInput::Char('m')), Command::ImportAction('m'));
    assert_eq!(key_command(InputMode::ImportAction, ActiveTab::Keys, KeyInput::Char('x')), Command::Nothing);
    assert_eq!(key_command(InputMode::PasswordPrompt, ActiveTab::Keys, KeyInput::Enter), Command::SubmitPassword);
    assert_eq!(key_command(InputMode::ConfigEditing, ActiveTab::SshConfig, KeyInput::Esc), Command::CancelConfigEdit);
    assert_eq!(
        key_command(InputMode::ExportPlatform, ActiveTab::Keys, KeyInput::Char('l')),
        Command::SelectExportPlatform(ExportPlatformChoice::GitLab)
    );
    assert_eq!(key_command(InputMode::ExportToken, ActiveTab::Keys, KeyInput::Enter), Command::SubmitExport);
    assert_eq!(key_command(InputMode::Searching, ActiveTab::Keys, KeyInput::Esc), Command::CancelSearch);
    assert_eq!(key_command(InputMode::Searching, ActiveTab::Keys, KeyInput::Char('j')), Command::SearchInput('j'));
}

#[test]
fn five_field_moves_come_back_to_the_host() {
    let mut app = app_with(&[]);
    app.start_add_config();
    let mut seen = vec![app.config_edit_field];
    for _ in 0..5 {
        app.config_edit_next_field();
        seen.push(app.config_edit_field);
    }
    assert_eq!(
        seen,
        vec![
            ConfigEditField::Host,
            ConfigEditField::Hostname,
            ConfigEditField::User,
            ConfigEditField::Port,
            ConfigEditField::IdentityFile,
            ConfigEditField::Host,
        ]
    );
}

#[test]
fn moving_down_then_up_returns_to_the_same_row() {
    let mut app = app_with(&["a", "b", "c", "d"]);
    for start in 0..4 {
        app.list_state = Some(start);
        app.next();
        app.previous();
        assert_eq!(app.list_state, Some(start));
        app.previous();
        app.next();
        assert_eq!(app.list_state, Some(start));
    }
}

#[test]
fn typing_then_deleting_leaves_the_passphrase_as_it_was() {
    let mut app = app_with(&[]);
    app.handle_password_input('a');
    app.handle_password_input('é');
    app.handle_password_backspace();
    assert_eq!(app.password_input, "a");
    app.handle_password_backspace();
    app.handle_password_backspace();
    assert_eq!(app.password_input, "");
}

#[test]
fn copying_during_a_search_takes_the_highlighted_key() {
    let mut app = app_with(&["alpha", "beta"]);
    app.start_search();
    app.search_input('b');
    app.confirm_search();
    assert_eq!(app.filtered_keys, vec![1]);
    assert_eq!(app.list_state, Some(0));
    assert_eq!(app.copy_public_key(true).as_deref(), Some("ssh-ed25519 AAAA beta"));
    app.finish_copy(true);
    assert_eq!(msg(&app).as_deref(), Some("Copied beta public key to clipboard!"));
}

#[test]
fn an_empty_token_is_refused_whatever_is_selected() {
    let mut app = app_with(&["alpha", "beta"]);
    app.start_search();
    app.search_input('b');
    app.confirm_search();
    app.start_export();
    app.select_export_platform(ExportPlatformChoice::GitHub);
    app.list_state = Some(5);
    assert!(app.submit_export().is_none());
    assert_eq!(app.popup_msg.as_deref(), Some("Token cannot be empty"));
}

#[test]
fn typing_more_of_the_query_only_narrows_the_search() {
    let mut app = app_with(&["id_work", "work2", "home", "WORKSHOP"]);
    app.start_search();
    let mut before = app.filtered_keys.clone();
    for c in "wOrks".chars() {
        app.search_input(c);
        assert!(app.filtered_keys.iter().all(|i| before.contains(i)));
        before = app.filtered_keys.clone();
    }
    assert_eq!(app.filtered_keys, vec![3]);
}
