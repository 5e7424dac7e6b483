use vstd::prelude::*;
use std::time::Instant;
use crate::config::{entry_views, new_entry, ConfigEntryView, ConfigSave, SshConfigEntry};
use crate::export::{
    export_outcome, export_request, export_response, platform_request, reply_view,
    ExportPlatformChoice, ExportRequest, HttpReply,
};
use crate::order::{sort_by_key, sorted_by_key, with_key};
use crate::stdlib::{to_lowercase, unicode_lowercase};
use crate::text::{ascii_lower, chars_of, is_ascii_text, same_chars, sub_chars};
use crate::keys::{key_views, SshKey, SshKeyView};
use crate::known_hosts::{host_views, KnownHostEntry, KnownHostView};
use crate::stdlib::{elapsed_nanos, now, pop_char, path_parent, parent_of};
use crate::text::push_char;

verus! {

/// The tab shown.
#[derive(PartialEq, Eq, Structural, Clone, Copy, Debug)]
pub enum ActiveTab {
    Keys,
    SshConfig,
    KnownHosts,
}

/// The field of a configuration entry being edited.
#[derive(PartialEq, Eq, Structural, Clone, Copy, Debug)]
pub enum ConfigEditField {
    Host,
    Hostname,
    User,
    Port,
    IdentityFile,
}

/// What keystrokes go to.
#[derive(PartialEq, Eq, Structural, Clone, Copy, Debug)]
pub enum InputMode {
    Normal,
    Editing,
    FileBrowser,
    ImportAction,
    PasswordPrompt,
    ConfigEditing,
    ExportPlatform,
    ExportToken,
    Searching,
}

/// The field of the key creation form being edited.
#[derive(PartialEq, Eq, Structural, Clone, Copy, Debug)]
pub enum InputField {
    Name,
    Email,
}

/// One row of the file browser.
pub struct FileEntry {
    pub path: String,
    pub is_dir: bool,
}

/// The state of the terminal interface.
pub struct App {
    pub keys: Vec<SshKey>,
    pub list_state: Option<usize>,
    pub clipboard_msg: Option<(String, Instant)>,
    pub input_mode: InputMode,
    pub input_field: InputField,
    pub input_name: String,
    pub input_email: String,
    pub popup_msg: Option<String>,
    pub current_dir: String,
    pub file_entries: Vec<FileEntry>,
    pub file_list_state: Option<usize>,
    pub selected_import_file: Option<String>,
    pub password_input: String,
    pub active_tab: ActiveTab,
    pub config_entries: Vec<SshConfigEntry>,
    pub config_list_state: Option<usize>,
    pub editing_config: Option<SshConfigEntry>,
    pub config_edit_field: ConfigEditField,
    pub config_edit_index: Option<usize>,
    pub known_hosts: Vec<KnownHostEntry>,
    pub known_hosts_list_state: Option<usize>,
    pub export_platform: Option<ExportPlatformChoice>,
    pub export_token: String,
    pub search_query: String,
    pub filtered_keys: Vec<usize>,
    pub search_active: bool,
}

pub ghost struct AppView {
    pub keys: Seq<SshKeyView>,
    pub list_state: Option<usize>,
    pub clipboard_msg: Option<(Seq<char>, Instant)>,
    pub input_mode: InputMode,
    pub input_field: InputField,
    pub input_name: Seq<char>,
    pub input_email: Seq<char>,
    pub popup_msg: Option<Seq<char>>,
    pub current_dir: Seq<char>,
    pub file_entries: Seq<(Seq<char>, bool)>,
    pub file_list_state: Option<usize>,
    pub selected_import_file: Option<Seq<char>>,
    pub password_input: Seq<char>,
    pub active_tab: ActiveTab,
    pub config_entries: Seq<ConfigEntryView>,
    pub config_list_state: Option<usize>,
    pub editing_config: Option<ConfigEntryView>,
    pub config_edit_field: ConfigEditField,
    pub config_edit_index: Option<usize>,
    pub known_hosts: Seq<KnownHostView>,
    pub known_hosts_list_state: Option<usize>,
    pub export_platform: Option<ExportPlatformChoice>,
    pub export_token: Seq<char>,
    pub search_query: Seq<char>,
    pub filtered_keys: Seq<usize>,
    pub search_active: bool,
}

pub open spec fn opt_text(o: Option<String>) -> Option<Seq<char>> {
    match o {
        Some(s) => Some(s@),
        None => None,
    }
}

pub open spec fn msg_view(o: Option<(String, Instant)>) -> Option<(Seq<char>, Instant)> {
    match o {
        Some((s, t)) => Some((s@, t)),
        None => None,
    }
}

pub open spec fn opt_entry(o: Option<SshConfigEntry>) -> Option<ConfigEntryView> {
    match o {
        Some(e) => Some(e@),
        None => None,
    }
}

pub open spec fn file_views(v: Seq<FileEntry>) -> Seq<(Seq<char>, bool)> {
    v.map_values(|e: FileEntry| (e.path@, e.is_dir))
}

impl View for App {
    type V = AppView;

    open spec fn view(&self) -> AppView {
        AppView {
            keys: key_views(self.keys@),
            list_state: self.list_state,
            clipboard_msg: msg_view(self.clipboard_msg),
            input_mode: self.input_mode,
            input_field: self.input_field,
            input_name: self.input_name@,
            input_email: self.input_email@,
            popup_msg: opt_text(self.popup_msg),
            current_dir: self.current_dir@,
            file_entries: file_views(self.file_entries@),
            file_list_state: self.file_list_state,
            selected_import_file: opt_text(self.selected_import_file),
            password_input: self.password_input@,
            active_tab: self.active_tab,
            config_entries: entry_views(self.config_entries@),
            config_list_state: self.config_list_state,
            editing_config: opt_entry(self.editing_config),
            config_edit_field: self.config_edit_field,
            config_edit_index: self.config_edit_index,
            known_hosts: host_views(self.known_hosts@),
            known_hosts_list_state: self.known_hosts_list_state,
            export_platform: self.export_platform,
            export_token: self.export_token@,
            search_query: self.search_query@,
            filtered_keys: self.filtered_keys@,
            search_active: self.search_active,
        }
    }
}

/// The first row of a list, if it has any.
pub open spec fn first_row(len: nat) -> Option<usize> {
    if len > 0 {
        Some(0)
    } else {
        None
    }
}

/// `len - 1`, or 0 for an empty list.
pub open spec fn last_row(len: nat) -> int {
    if len > 0 {
        len - 1
    } else {
        0
    }
}

/// The row below the selection, wrapping to the top after the last row; the top row when
/// nothing is selected.
pub open spec fn next_row(sel: Option<usize>, len: nat) -> int {
    match sel {
        Some(i) => if i >= last_row(len) {
            0
        } else {
            i + 1
        },
        None => 0,
    }
}

/// The row above the selection, wrapping to the last row from the top; the top row when
/// nothing is selected.
pub open spec fn previous_row(sel: Option<usize>, len: nat) -> int {
    match sel {
        Some(i) => if i == 0 {
            last_row(len)
        } else {
            i - 1
        },
        None => 0,
    }
}

/// The state right after start, before the file browser has read its directory.
pub open spec fn initial_view(
    keys: Seq<SshKeyView>,
    home_dir: Seq<char>,
    config_entries: Seq<ConfigEntryView>,
    known_hosts: Seq<KnownHostView>,
) -> AppView {
    AppView {
        keys,
        list_state: first_row(keys.len()),
        clipboard_msg: None,
        input_mode: InputMode::Normal,
        input_field: InputField::Name,
        input_name: seq![],
        input_email: seq![],
        popup_msg: None,
        current_dir: home_dir,
        file_entries: seq![],
        file_list_state: None,
        selected_import_file: None,
        password_input: seq![],
        active_tab: ActiveTab::Keys,
        config_entries,
        config_list_state: first_row(config_entries.len()),
        editing_config: None,
        config_edit_field: ConfigEditField::Host,
        config_edit_index: None,
        known_hosts,
        known_hosts_list_state: first_row(known_hosts.len()),
        export_platform: None,
        export_token: seq![],
        search_query: seq![],
        filtered_keys: seq![],
        search_active: false,
    }
}

fn next_index(sel: Option<usize>, len: usize) -> (r: usize)
    ensures
        r == next_row(sel, len as nat),
{
    match sel {
        Some(i) => if i >= len.saturating_sub(1) {
            0
        } else {
            i + 1
        },
        None => 0,
    }
}

fn previous_index(sel: Option<usize>, len: usize) -> (r: usize)
    ensures
        r == previous_row(sel, len as nat),
{
    match sel {
        Some(i) => if i == 0 {
            len.saturating_sub(1)
        } else {
            i - 1
        },
        None => 0,
    }
}

/// A character allowed in a key name: an ASCII letter or digit, `_` or `-`.
pub open spec fn key_name_char(c: char) -> bool {
    ||| ('0' <= c <= '9')
    ||| ('A' <= c <= 'Z')
    ||| ('a' <= c <= 'z')
    ||| c == '_'
    ||| c == '-'
}

pub open spec fn is_digit(c: char) -> bool {
    '0' <= c <= '9'
}

/// A text with its last character removed, if it has one.
pub open spec fn backspaced(s: Seq<char>) -> Seq<char> {
    if s.len() > 0 {
        s.drop_last()
    } else {
        s
    }
}

/// Whether the message line shows `m`.
pub open spec fn shows(v: AppView, m: Seq<char>) -> bool {
    v.clipboard_msg matches Some((t, _)) && t == m
}

pub open spec fn next_config_field(f: ConfigEditField) -> ConfigEditField {
    match f {
        ConfigEditField::Host => ConfigEditField::Hostname,
        ConfigEditField::Hostname => ConfigEditField::User,
        ConfigEditField::User => ConfigEditField::Port,
        ConfigEditField::Port => ConfigEditField::IdentityFile,
        ConfigEditField::IdentityFile => ConfigEditField::Host,
    }
}

/// The entry being edited after character `c` is typed into field `f`; only digits go into the
/// port.
pub open spec fn entry_typed(e: ConfigEntryView, f: ConfigEditField, c: char) -> ConfigEntryView {
    match f {
        ConfigEditField::Host => ConfigEntryView { host: e.host.push(c), ..e },
        ConfigEditField::Hostname => ConfigEntryView { hostname: e.hostname.push(c), ..e },
        ConfigEditField::User => ConfigEntryView { user: e.user.push(c), ..e },
        ConfigEditField::Port => if is_digit(c) {
            ConfigEntryView { port: e.port.push(c), ..e }
        } else {
            e
        },
        ConfigEditField::IdentityFile => ConfigEntryView { identity_file: e.identity_file.push(c), ..e },
    }
}

/// The entry being edited after a backspace in field `f`.
pub open spec fn entry_backspaced(e: ConfigEntryView, f: ConfigEditField) -> ConfigEntryView {
    match f {
        ConfigEditField::Host => ConfigEntryView { host: backspaced(e.host), ..e },
        ConfigEditField::Hostname => ConfigEntryView { hostname: backspaced(e.hostname), ..e },
        ConfigEditField::User => ConfigEntryView { user: backspaced(e.user), ..e },
        ConfigEditField::Port => ConfigEntryView { port: backspaced(e.port), ..e },
        ConfigEditField::IdentityFile => ConfigEntryView { identity_file: backspaced(e.identity_file), ..e },
    }
}

fn pop_text(s: &mut String)
    ensures
        final(s)@ == backspaced(old(s)@),
{
    let _ = pop_char(s);
}

/// Position of the first element that satisfies `f`, or the length when none does.
pub open spec fn first_match<A>(s: Seq<A>, f: spec_fn(A) -> bool) -> int
    decreases s.len(),
{
    if s.len() == 0 {
        0
    } else if f(s[0]) {
        0
    } else {
        1 + first_match(s.drop_first(), f)
    }
}

pub proof fn lemma_first_match_at<A>(s: Seq<A>, f: spec_fn(A) -> bool, k: int)
    requires
        0 <= k <= s.len(),
        forall|j: int| 0 <= j < k ==> !f(#[trigger] s[j]),
        k == s.len() || f(s[k]),
    ensures
        first_match(s, f) == k,
    decreases k,
{
    if k > 0 {
        assert forall|j: int| 0 <= j < k - 1 implies !f(#[trigger] s.drop_first()[j]) by {
            assert(s.drop_first()[j] == s[j + 1]);
        }
        lemma_first_match_at(s.drop_first(), f, k - 1);
    }
}

/// The selection after the key list is read again: the first key that satisfies `f`, or the
/// old selection when there is none.
pub open spec fn reselect(old_sel: Option<usize>, keys: Seq<SshKeyView>, f: spec_fn(SshKeyView) -> bool) -> Option<usize> {
    if first_match(keys, f) < keys.len() {
        Some(first_match(keys, f) as usize)
    } else {
        old_sel
    }
}

pub open spec fn named_as(n: Seq<char>) -> spec_fn(SshKeyView) -> bool {
    |k: SshKeyView| k.name == n
}

pub open spec fn stored_at(p: Seq<char>) -> spec_fn(SshKeyView) -> bool {
    |k: SshKeyView| k.private_path == p
}

/// The selection after a list shrank: none when it is empty, the last row when the old
/// position is past its end.
pub open spec fn clamp_row(sel: Option<usize>, idx: usize, len: nat) -> Option<usize> {
    if len == 0 {
        None
    } else if idx >= len {
        Some((len - 1) as usize)
    } else {
        sel
    }
}

/// The outcome of importing a key file.
pub enum ImportOutcome {
    /// The file could not be placed in `~/.ssh`; why.
    Failed(String),
    /// The file now in `~/.ssh` is protected by a passphrase.
    NeedsPassword(String),
    /// The file now in `~/.ssh` needs no passphrase; the keys read again.
    Imported(String, Vec<SshKey>),
}

fn find_name(keys: &Vec<SshKey>, n: &String) -> (r: usize)
    ensures
        r == first_match(key_views(keys@), named_as(n@)),
{
    let mut i: usize = 0;
    while i < keys.len()
        invariant
            i <= keys.len(),
            forall|j: int| 0 <= j < i ==> !named_as(n@)(#[trigger] key_views(keys@)[j]),
        decreases keys.len() - i,
    {
        if keys[i].name == *n {
            proof {
                lemma_first_match_at(key_views(keys@), named_as(n@), i as int);
            }
            return i;
        }
        i += 1;
    }
    proof {
        lemma_first_match_at(key_views(keys@), named_as(n@), i as int);
    }
    i
}

fn find_private_path(keys: &Vec<SshKey>, p: &String) -> (r: usize)
    ensures
        r == first_match(key_views(keys@), stored_at(p@)),
{
    let mut i: usize = 0;
    while i < keys.len()
        invariant
            i <= keys.len(),
            forall|j: int| 0 <= j < i ==> !stored_at(p@)(#[trigger] key_views(keys@)[j]),
        decreases keys.len() - i,
    {
        if keys[i].private_path == *p {
            proof {
                lemma_first_match_at(key_views(keys@), stored_at(p@), i as int);
            }
            return i;
        }
        i += 1;
    }
    proof {
        lemma_first_match_at(key_views(keys@), stored_at(p@), i as int);
    }
    i
}

fn joined(a: &str, b: &str, c: &str) -> (r: String)
    ensures
        r@ == a@ + b@ + c@,
{
    let mut r = String::from_str(a);
    r.append(b);
    r.append(c);
    r
}

fn prefixed(a: &str, b: &str) -> (r: String)
    ensures
        r@ == a@ + b@,
{
    let mut r = String::from_str(a);
    r.append(b);
    r
}

pub open spec fn paths_of(v: Seq<FileEntry>) -> Seq<String> {
    v.map_values(|e: FileEntry| e.path)
}

/// Rows that list `src` sorted (entries with equal paths in their order), all marked as
/// directories or all as files.
pub open spec fn sorted_rows(rows: Seq<FileEntry>, src: Seq<String>, is_dir: bool) -> bool {
    &&& rows.len() == src.len()
    &&& sorted_by_key(paths_of(rows))
    &&& forall|n: Seq<char>| #[trigger] with_key(paths_of(rows), n) == with_key(src, n)
    &&& forall|i: int| 0 <= i < rows.len() ==> (#[trigger] rows[i]).is_dir == is_dir
}

/// The rows of the file browser for a directory with parent `parent` whose subdirectories
/// are `dirs` and whose other entries are `files`: the parent first, then the directories,
/// then the files, each group sorted.
pub open spec fn listed(rows: Seq<FileEntry>, parent: Option<Seq<char>>, dirs: Seq<String>, files: Seq<String>) -> bool {
    let np: int = if parent is Some {
        1
    } else {
        0
    };
    &&& rows.len() == np + dirs.len() + files.len()
    &&& (parent matches Some(p) ==> rows[0].path@ == p && rows[0].is_dir)
    &&& sorted_rows(rows.subrange(np, np + dirs.len()), dirs, true)
    &&& sorted_rows(rows.subrange(np + dirs.len(), rows.len() as int), files, false)
}

/// Whether `n` occurs in `h`.
pub open spec fn contains_text(h: Seq<char>, n: Seq<char>) -> bool {
    exists|i: int| 0 <= i && i + n.len() <= h.len() && #[trigger] h.subrange(i, i + n.len()) == n
}

/// Positions, in order, of the names that contain `q` (all of them when `q` is empty).
pub open spec fn matching_indices(names: Seq<Seq<char>>, q: Seq<char>) -> Seq<usize>
    decreases names.len(),
{
    if names.len() == 0 {
        seq![]
    } else if q.len() == 0 || contains_text(names.last(), q) {
        matching_indices(names.drop_last(), q).push((names.len() - 1) as usize)
    } else {
        matching_indices(names.drop_last(), q)
    }
}

/// Positions of the keys whose lower-cased name contains the lower-cased query.
pub open spec fn key_filter(keys: Seq<SshKeyView>, query: Seq<char>) -> Seq<usize> {
    matching_indices(
        keys.map_values(|k: SshKeyView| unicode_lowercase(k.name)),
        unicode_lowercase(query),
    )
}

/// The lower-cased names of the keys.
pub open spec fn lowered_names(keys: Seq<SshKeyView>) -> Seq<Seq<char>> {
    keys.map_values(|k: SshKeyView| unicode_lowercase(k.name))
}

/// With an ASCII query, the search results are the positions of the lower-cased names that
/// contain the query with its ASCII letters lowered.
pub open spec fn ascii_filtered(v: AppView) -> bool {
    is_ascii_text(v.search_query) ==> v.filtered_keys == matching_indices(
        lowered_names(v.keys),
        ascii_lower(v.search_query),
    )
}

/// The keys at the given positions, skipping positions past the end.
pub open spec fn present(keys: Seq<SshKeyView>, idx: Seq<usize>) -> Seq<SshKeyView>
    decreases idx.len(),
{
    if idx.len() == 0 {
        seq![]
    } else if idx.last() < keys.len() {
        present(keys, idx.drop_last()).push(keys[idx.last() as int])
    } else {
        present(keys, idx.drop_last())
    }
}

/// The keys listed: while a search is active those it matched, otherwise all.
pub open spec fn visible(v: AppView) -> Seq<SshKeyView> {
    if v.search_active {
        present(v.keys, v.filtered_keys)
    } else {
        v.keys
    }
}

/// The position in the key list of the highlighted key: through the search results while a
/// search with results is active.
pub open spec fn selected_index(v: AppView) -> Option<int> {
    match v.list_state {
        None => None,
        Some(sel) => if v.search_active && v.filtered_keys.len() > 0 {
            if sel < v.filtered_keys.len() && v.filtered_keys[sel as int] < v.keys.len() {
                Some(v.filtered_keys[sel as int] as int)
            } else {
                None
            }
        } else if sel < v.keys.len() {
            Some(sel as int)
        } else {
            None
        },
    }
}

pub open spec fn selected_key(v: AppView) -> Option<SshKeyView> {
    match selected_index(v) {
        Some(i) => Some(v.keys[i]),
        None => None,
    }
}

/// After the filter is computed: the matching positions, the first of them selected.
pub open spec fn refiltered(v: AppView) -> AppView {
    AppView {
        filtered_keys: key_filter(v.keys, v.search_query),
        list_state: first_row(key_filter(v.keys, v.search_query).len()),
        ..v
    }
}

fn contains_chars(h: &Vec<char>, n: &Vec<char>) -> (r: bool)
    ensures
        r == contains_text(h@, n@),
{
    if n.len() > h.len() {
        return false;
    }
    if n.len() == 0 {
        assert(h@.subrange(0, 0int + n@.len()) =~= n@);
        return true;
    }
    let last = h.len() - n.len();
    let mut i: usize = 0;
    while i <= last
        invariant
            last == h.len() - n.len(),
            n@.len() > 0,
            n@.len() <= h@.len(),
            i <= last + 1,
            forall|j: int| 0 <= j < i ==> #[trigger] h@.subrange(j, j + n@.len()) != n@,
        decreases last + 1 - i,
    {
        let piece = sub_chars(h, i, i + n.len());
        if same_chars(&piece, n) {
            assert(h@.subrange(i as int, i + n@.len()) == n@);
            return true;
        }
        i += 1;
    }
    assert forall|j: int| 0 <= j && j + n@.len() <= h@.len() implies #[trigger] h@.subrange(j, j + n@.len()) != n@ by {
        assert(j < i);
    }
    false
}

/// Positions, in order, of the (lower-cased) names that contain the (lower-cased) query; all
/// positions when the query is empty.
pub fn matching_key_indices(lowered_names: &Vec<String>, lowered_query: &String) -> (r: Vec<usize>)
    ensures
        r@ == matching_indices(lowered_names@.map_values(|s: String| s@), lowered_query@),
{
    let q = chars_of(lowered_query.as_str());
    let ghost names = lowered_names@.map_values(|s: String| s@);
    let mut r: Vec<usize> = Vec::new();
    for i in 0..lowered_names.len()
        invariant
            q@ == lowered_query@,
            names == lowered_names@.map_values(|s: String| s@),
            r@ == matching_indices(names.take(i as int), q@),
    {
        assert(names.take(i + 1).drop_last() =~= names.take(i as int));
        assert(names.take(i + 1).last() == lowered_names@[i as int]@);
        let h = chars_of(lowered_names[i].as_str());
        if q.len() == 0 || contains_chars(&h, &q) {
            r.push(i);
        }
    }
    assert(names.take(lowered_names.len() as int) =~= names);
    r
}

/// The position in the key list of the key to export: through the search results while a
/// search with results is active.
pub open spec fn export_index(v: AppView, sel: usize) -> int {
    if v.search_active && v.filtered_keys.len() > 0 {
        v.filtered_keys[sel as int] as int
    } else {
        sel as int
    }
}

/// The platform and the key of an export, when a key is selected that exists and a platform
/// is chosen.
pub open spec fn export_target(v: AppView) -> Option<(ExportPlatformChoice, SshKeyView)> {
    match v.list_state {
        None => None,
        Some(sel) => if 0 <= export_index(v, sel) < v.keys.len() {
            match v.export_platform {
                Some(p) => Some((p, v.keys[export_index(v, sel)])),
                None => None,
            }
        } else {
            None
        },
    }
}

impl App {
    /// The state at start: the keys, the home directory for the file browser, the configuration
    /// entries and the known hosts that were read; each nonempty list has its first row
    /// selected.
    pub fn new(
        keys: Vec<SshKey>,
        home_dir: String,
        config_entries: Vec<SshConfigEntry>,
        known_hosts: Vec<KnownHostEntry>,
    ) -> (app: App)
        ensures
            app@ == initial_view(
                key_views(keys@),
                home_dir@,
                entry_views(config_entries@),
                host_views(known_hosts@),
            ),
    {
        let list_state = if keys.len() > 0 {
            Some(0)
        } else {
            None
        };
        let config_list_state = if config_entries.len() > 0 {
            Some(0)
        } else {
            None
        };
        let known_hosts_list_state = if known_hosts.len() > 0 {
            Some(0)
        } else {
            None
        };
        let app = App {
            keys,
            list_state,
            clipboard_msg: None,
            input_mode: InputMode::Normal,
            input_field: InputField::Name,
            input_name: String::new(),
            input_email: String::new(),
            popup_msg: None,
            current_dir: home_dir,
            file_entries: Vec::new(),
            file_list_state: None,
            selected_import_file: None,
            password_input: String::new(),
            active_tab: ActiveTab::Keys,
            config_entries,
            config_list_state,
            editing_config: None,
            config_edit_field: ConfigEditField::Host,
            config_edit_index: None,
            known_hosts,
            known_hosts_list_state,
            export_platform: None,
            export_token: String::new(),
            search_query: String::new(),
            filtered_keys: Vec::new(),
            search_active: false,
        };
        assert(file_views(app.file_entries@) =~= Seq::<(Seq<char>, bool)>::empty());
        assert(app.filtered_keys@ =~= Seq::<usize>::empty());
        app
    }

    /// Moves the key selection down, wrapping to the top.
    pub fn next(&mut self)
        ensures
            final(self)@ == (AppView {
                list_state: Some(next_row(old(self).list_state, old(self)@.keys.len()) as usize),
                ..old(self)@
            }),
    {
        let i = next_index(self.list_state, self.keys.len());
        self.list_state = Some(i);
    }

    /// Moves the key selection up, wrapping to the bottom.
    pub fn previous(&mut self)
        ensures
            final(self)@ == (AppView {
                list_state: Some(previous_row(old(self).list_state, old(self)@.keys.len()) as usize),
                ..old(self)@
            }),
    {
        let i = previous_index(self.list_state, self.keys.len());
        self.list_state = Some(i);
    }

    fn show_msg(&mut self, m: String)
        ensures
            shows(final(self)@, m@),
            final(self)@ == (AppView { clipboard_msg: final(self)@.clipboard_msg, ..old(self)@ }),
    {
        self.clipboard_msg = Some((m, now()));
    }

    /// Drops the message line once it has been shown for more than three seconds, given how
    /// long ago it was set.
    pub fn expire_clipboard_msg(&mut self, elapsed_nanos: u128)
        ensures
            old(self).clipboard_msg is Some && elapsed_nanos > 3_000_000_000 ==> final(self)@ == (
            AppView { clipboard_msg: None, ..old(self)@ }),
            !(old(self).clipboard_msg is Some && elapsed_nanos > 3_000_000_000) ==> final(self)@
                == old(self)@,
    {
        if self.clipboard_msg.is_some() && elapsed_nanos > 3_000_000_000 {
            self.clipboard_msg = None;
        }
    }

    /// Drops the message line once it has been shown for more than three seconds.
    pub fn update_clipboard_msg_timeout(&mut self)
        ensures
            final(self)@ == old(self)@ || (old(self).clipboard_msg is Some && final(self)@ == (
            AppView { clipboard_msg: None, ..old(self)@ })),
    {
        let elapsed = match &self.clipboard_msg {
            Some((_, t)) => elapsed_nanos(t),
            None => 0,
        };
        self.expire_clipboard_msg(elapsed);
    }

    /// Opens the key creation form with empty fields.
    pub fn start_creation(&mut self)
        ensures
            final(self)@ == (AppView {
                input_mode: InputMode::Editing,
                input_field: InputField::Name,
                input_name: seq![],
                input_email: seq![],
                popup_msg: None,
                ..old(self)@
            }),
    {
        self.input_mode = InputMode::Editing;
        self.input_field = InputField::Name;
        self.input_name = String::new();
        self.input_email = String::new();
        self.popup_msg = None;
    }

    /// Closes the key creation form.
    pub fn cancel_creation(&mut self)
        ensures
            final(self)@ == (AppView { input_mode: InputMode::Normal, popup_msg: None, ..old(self)@ }),
    {
        self.input_mode = InputMode::Normal;
        self.popup_msg = None;
    }

    /// Types a character into the form: any character into the email, only ASCII letters,
    /// digits, `_` and `-` into the key name.
    pub fn handle_input(&mut self, c: char)
        ensures
            old(self).input_field == InputField::Name ==> final(self)@ == (AppView {
                input_name: if key_name_char(c) {
                    old(self)@.input_name.push(c)
                } else {
                    old(self)@.input_name
                },
                ..old(self)@
            }),
            old(self).input_field == InputField::Email ==> final(self)@ == (AppView {
                input_email: old(self)@.input_email.push(c),
                ..old(self)@
            }),
    {
        match self.input_field {
            InputField::Name => {
                let u = c as u32;
                if (48 <= u && u <= 57) || (65 <= u && u <= 90) || (97 <= u && u <= 122) || c == '_'
                    || c == '-' {
                    push_char(&mut self.input_name, c);
                }
            },
            InputField::Email => {
                push_char(&mut self.input_email, c);
            },
        }
    }

    /// Deletes the last character of the form field being edited.
    pub fn handle_backspace(&mut self)
        ensures
            old(self).input_field == InputField::Name ==> final(self)@ == (AppView {
                input_name: backspaced(old(self)@.input_name),
                ..old(self)@
            }),
            old(self).input_field == InputField::Email ==> final(self)@ == (AppView {
                input_email: backspaced(old(self)@.input_email),
                ..old(self)@
            }),
    {
        match self.input_field {
            InputField::Name => pop_text(&mut self.input_name),
            InputField::Email => pop_text(&mut self.input_email),
        }
    }

    /// Switches between the name and the email field.
    pub fn switch_field(&mut self)
        ensures
            final(self)@ == (AppView {
                input_field: if old(self).input_field == InputField::Name {
                    InputField::Email
                } else {
                    InputField::Name
                },
                ..old(self)@
            }),
    {
        self.input_field = match self.input_field {
            InputField::Name => InputField::Email,
            InputField::Email => InputField::Name,
        };
    }

    /// Opens the file browser; its directory is read next (see `load_directory`).
    pub fn start_file_browser(&mut self)
        ensures
            final(self)@ == (AppView { input_mode: InputMode::FileBrowser, popup_msg: None, ..old(self)@ }),
    {
        self.input_mode = InputMode::FileBrowser;
        self.popup_msg = None;
    }

    /// Moves the file selection down, wrapping to the top.
    pub fn fb_next(&mut self)
        ensures
            final(self)@ == (AppView {
                file_list_state: Some(next_row(old(self).file_list_state, old(self)@.file_entries.len()) as usize),
                ..old(self)@
            }),
    {
        let i = next_index(self.file_list_state, self.file_entries.len());
        self.file_list_state = Some(i);
    }

    /// Moves the file selection up, wrapping to the bottom.
    pub fn fb_previous(&mut self)
        ensures
            final(self)@ == (AppView {
                file_list_state: Some(previous_row(old(self).file_list_state, old(self)@.file_entries.len()) as usize),
                ..old(self)@
            }),
    {
        let i = previous_index(self.file_list_state, self.file_entries.len());
        self.file_list_state = Some(i);
    }

    /// Leaves the import: back to the key list, with no file and no passphrase kept.
    pub fn cancel_import(&mut self)
        ensures
            final(self)@ == (AppView {
                input_mode: InputMode::Normal,
                selected_import_file: None,
                password_input: seq![],
                popup_msg: None,
                ..old(self)@
            }),
    {
        self.input_mode = InputMode::Normal;
        self.selected_import_file = None;
        self.password_input = String::new();
        self.popup_msg = None;
    }

    /// Types a character of the passphrase.
    pub fn handle_password_input(&mut self, c: char)
        ensures
            final(self)@ == (AppView { password_input: old(self)@.password_input.push(c), ..old(self)@ }),
    {
        push_char(&mut self.password_input, c);
    }

    /// Deletes the last character of the passphrase.
    pub fn handle_password_backspace(&mut self)
        ensures
            final(self)@ == (AppView { password_input: backspaced(old(self)@.password_input), ..old(self)@ }),
    {
        pop_text(&mut self.password_input);
    }

    /// Shows another tab.
    pub fn switch_tab(&mut self, tab: ActiveTab)
        ensures
            final(self)@ == (AppView { active_tab: tab, ..old(self)@ }),
    {
        self.active_tab = tab;
    }

    /// Moves the configuration selection down, wrapping to the top; nothing happens on an
    /// empty list.
    pub fn config_next(&mut self)
        ensures
            old(self).config_entries.len() == 0 ==> final(self)@ == old(self)@,
            old(self).config_entries.len() > 0 ==> final(self)@ == (AppView {
                config_list_state: Some(next_row(old(self).config_list_state, old(self)@.config_entries.len()) as usize),
                ..old(self)@
            }),
    {
        let len = self.config_entries.len();
        if len == 0 {
            return;
        }
        let i = next_index(self.config_list_state, len);
        self.config_list_state = Some(i);
    }

    /// Moves the configuration selection up, wrapping to the bottom; nothing happens on an
    /// empty list.
    pub fn config_previous(&mut self)
        ensures
            old(self).config_entries.len() == 0 ==> final(self)@ == old(self)@,
            old(self).config_entries.len() > 0 ==> final(self)@ == (AppView {
                config_list_state: Some(previous_row(old(self).config_list_state, old(self)@.config_entries.len()) as usize),
                ..old(self)@
            }),
    {
        let len = self.config_entries.len();
        if len == 0 {
            return;
        }
        let i = previous_index(self.config_list_state, len);
        self.config_list_state = Some(i);
    }

    /// Opens the form for a new configuration entry (port 22, other fields empty).
    pub fn start_add_config(&mut self)
        ensures
            final(self)@ == (AppView {
                editing_config: Some(new_entry()),
                config_edit_field: ConfigEditField::Host,
                config_edit_index: None,
                input_mode: InputMode::ConfigEditing,
                popup_msg: None,
                ..old(self)@
            }),
    {
        self.editing_config = Some(SshConfigEntry::new());
        self.config_edit_field = ConfigEditField::Host;
        self.config_edit_index = None;
        self.input_mode = InputMode::ConfigEditing;
        self.popup_msg = None;
    }

    /// Opens the form on a copy of the selected configuration entry; nothing happens when no
    /// entry is selected.
    pub fn start_edit_config(&mut self)
        ensures
            (old(self).config_list_state matches Some(idx) && idx < old(self).config_entries.len())
                ==> final(self)@ == (AppView {
                editing_config: Some(old(self)@.config_entries[old(self).config_list_state->0 as int]),
                config_edit_field: ConfigEditField::Host,
                config_edit_index: old(self).config_list_state,
                input_mode: InputMode::ConfigEditing,
                popup_msg: None,
                ..old(self)@
            }),
            !(old(self).config_list_state matches Some(idx) && idx < old(self).config_entries.len())
                ==> final(self)@ == old(self)@,
    {
        if let Some(idx) = self.config_list_state {
            if idx < self.config_entries.len() {
                let e = self.config_entries[idx].duplicate();
                self.editing_config = Some(e);
                self.config_edit_field = ConfigEditField::Host;
                self.config_edit_index = Some(idx);
                self.input_mode = InputMode::ConfigEditing;
                self.popup_msg = None;
            }
        }
    }

    /// Closes the configuration form without saving.
    pub fn cancel_config_edit(&mut self)
        ensures
            final(self)@ == (AppView {
                editing_config: None,
                input_mode: InputMode::Normal,
                popup_msg: None,
                ..old(self)@
            }),
    {
        self.editing_config = None;
        self.input_mode = InputMode::Normal;
        self.popup_msg = None;
    }

    /// Types a character into the field being edited; only digits go into the port.
    pub fn config_edit_input(&mut self, c: char)
        ensures
            final(self)@ == (AppView {
                editing_config: match old(self)@.editing_config {
                    Some(e) => Some(entry_typed(e, old(self).config_edit_field, c)),
                    None => None,
                },
                ..old(self)@
            }),
    {
        let field = self.config_edit_field;
        match self.editing_config.take() {
            Some(mut entry) => {
                match field {
                    ConfigEditField::Host => push_char(&mut entry.host, c),
                    ConfigEditField::Hostname => push_char(&mut entry.hostname, c),
                    ConfigEditField::User => push_char(&mut entry.user, c),
                    ConfigEditField::Port => {
                        let u = c as u32;
                        if 48 <= u && u <= 57 {
                            push_char(&mut entry.port, c);
                        }
                    },
                    ConfigEditField::IdentityFile => push_char(&mut entry.identity_file, c),
                }
                self.editing_config = Some(entry);
            },
            None => {},
        }
    }

    /// Deletes the last character of the field being edited.
    pub fn config_edit_backspace(&mut self)
        ensures
            final(self)@ == (AppView {
                editing_config: match old(self)@.editing_config {
                    Some(e) => Some(entry_backspaced(e, old(self).config_edit_field)),
                    None => None,
                },
                ..old(self)@
            }),
    {
        let field = self.config_edit_field;
        match self.editing_config.take() {
            Some(mut entry) => {
                match field {
                    ConfigEditField::Host => pop_text(&mut entry.host),
                    ConfigEditField::Hostname => pop_text(&mut entry.hostname),
                    ConfigEditField::User => pop_text(&mut entry.user),
                    ConfigEditField::Port => pop_text(&mut entry.port),
                    ConfigEditField::IdentityFile => pop_text(&mut entry.identity_file),
                }
                self.editing_config = Some(entry);
            },
            None => {},
        }
    }

    /// Moves to the next field of the configuration form, from the last back to the first.
    pub fn config_edit_next_field(&mut self)
        ensures
            final(self)@ == (AppView {
                config_edit_field: next_config_field(old(self).config_edit_field),
                ..old(self)@
            }),
    {
        self.config_edit_field = match self.config_edit_field {
            ConfigEditField::Host => ConfigEditField::Hostname,
            ConfigEditField::Hostname => ConfigEditField::User,
            ConfigEditField::User => ConfigEditField::Port,
            ConfigEditField::Port => ConfigEditField::IdentityFile,
            ConfigEditField::IdentityFile => ConfigEditField::Host,
        };
    }

    /// Moves the known-host selection down, wrapping to the top; nothing happens on an empty
    /// list.
    pub fn kh_next(&mut self)
        ensures
            old(self).known_hosts.len() == 0 ==> final(self)@ == old(self)@,
            old(self).known_hosts.len() > 0 ==> final(self)@ == (AppView {
                known_hosts_list_state: Some(next_row(old(self).known_hosts_list_state, old(self)@.known_hosts.len()) as usize),
                ..old(self)@
            }),
    {
        let len = self.known_hosts.len();
        if len == 0 {
            return;
        }
        let i = next_index(self.known_hosts_list_state, len);
        self.known_hosts_list_state = Some(i);
    }

    /// Moves the known-host selection up, wrapping to the bottom; nothing happens on an empty
    /// list.
    pub fn kh_previous(&mut self)
        ensures
            old(self).known_hosts.len() == 0 ==> final(self)@ == old(self)@,
            old(self).known_hosts.len() > 0 ==> final(self)@ == (AppView {
                known_hosts_list_state: Some(previous_row(old(self).known_hosts_list_state, old(self)@.known_hosts.len()) as usize),
                ..old(self)@
            }),
    {
        let len = self.known_hosts.len();
        if len == 0 {
            return;
        }
        let i = previous_index(self.known_hosts_list_state, len);
        self.known_hosts_list_state = Some(i);
    }

    /// Opens the export dialog when a key is selected.
    pub fn start_export(&mut self)
        ensures
            old(self).list_state is Some ==> final(self)@ == (AppView {
                input_mode: InputMode::ExportPlatform,
                export_platform: None,
                export_token: seq![],
                popup_msg: None,
                ..old(self)@
            }),
            old(self).list_state is None ==> final(self)@ == old(self)@,
    {
        if self.list_state.is_some() {
            self.input_mode = InputMode::ExportPlatform;
            self.export_platform = None;
            self.export_token = String::new();
            self.popup_msg = None;
        }
    }

    /// Chooses where to export, and asks for the token.
    pub fn select_export_platform(&mut self, platform: ExportPlatformChoice)
        ensures
            final(self)@ == (AppView {
                export_platform: Some(platform),
                input_mode: InputMode::ExportToken,
                export_token: seq![],
                popup_msg: None,
                ..old(self)@
            }),
    {
        self.export_platform = Some(platform);
        self.input_mode = InputMode::ExportToken;
        self.export_token = String::new();
        self.popup_msg = None;
    }

    /// Closes the export dialog, forgetting platform and token.
    pub fn cancel_export(&mut self)
        ensures
            final(self)@ == (AppView {
                input_mode: InputMode::Normal,
                export_platform: None,
                export_token: seq![],
                popup_msg: None,
                ..old(self)@
            }),
    {
        self.input_mode = InputMode::Normal;
        self.export_platform = None;
        self.export_token = String::new();
        self.popup_msg = None;
    }

    /// Types a character of the token.
    pub fn export_token_input(&mut self, c: char)
        ensures
            final(self)@ == (AppView { export_token: old(self)@.export_token.push(c), ..old(self)@ }),
    {
        push_char(&mut self.export_token, c);
    }

    /// Deletes the last character of the token.
    pub fn export_token_backspace(&mut self)
        ensures
            final(self)@ == (AppView { export_token: backspaced(old(self)@.export_token), ..old(self)@ }),
    {
        pop_text(&mut self.export_token);
    }

    /// Checks the export dialog: with an empty token it says so and gives none; otherwise it
    /// gives the upload request for the chosen platform and the selected key (counted through
    /// the search results while a search with results is active), if both exist.
    pub fn submit_export(&mut self) -> (r: Option<ExportRequest>)
        requires
            old(self)@.export_token.len() > 0 && old(self).search_active && old(self).filtered_keys.len()
                > 0 && old(self).list_state is Some ==> old(self).list_state->0
                < old(self).filtered_keys.len(),
        ensures
            old(self)@.export_token.len() == 0 ==> r is None && final(self)@ == (AppView {
                popup_msg: Some("Token cannot be empty"@),
                ..old(self)@
            }),
            old(self)@.export_token.len() > 0 ==> final(self)@ == old(self)@ && match export_target(
                old(self)@,
            ) {
                Some((p, k)) => r matches Some(q) && q@ == platform_request(
                    p,
                    old(self)@.export_token,
                    k.name,
                    k.public_content,
                ),
                None => r is None,
            },
    {
        if self.export_token.as_str().is_empty() {
            self.popup_msg = Some(String::from_str("Token cannot be empty"));
            return None;
        }
        let selected = match self.list_state {
            Some(i) => i,
            None => return None,
        };
        let real_idx = if self.search_active && self.filtered_keys.len() > 0 {
            self.filtered_keys[selected]
        } else {
            selected
        };
        if real_idx >= self.keys.len() {
            return None;
        }
        let key = &self.keys[real_idx];
        match self.export_platform {
            Some(p) => Some(
                export_request(p, self.export_token.as_str(), key.name.as_str(), key.public_content.as_str()),
            ),
            None => None,
        }
    }

    /// Takes the server's answer to the upload (or why the request failed). On success the
    /// dialog closes and the success is shown; otherwise the error is shown and the token
    /// cleared.
    pub fn finish_export(&mut self, reply: Result<HttpReply, String>)
        ensures
            match old(self).export_platform {
                None => final(self)@ == old(self)@,
                Some(p) => match export_outcome(p, reply_view(reply)) {
                    Ok(m) => shows(final(self)@, m) && final(self)@ == (AppView {
                        input_mode: InputMode::Normal,
                        export_platform: None,
                        export_token: seq![],
                        popup_msg: None,
                        clipboard_msg: final(self)@.clipboard_msg,
                        ..old(self)@
                    }),
                    Err(m) => final(self)@ == (AppView {
                        popup_msg: Some(m),
                        export_token: seq![],
                        ..old(self)@
                    }),
                },
            },
    {
        let p = match self.export_platform {
            Some(p) => p,
            None => return,
        };
        match export_response(p, reply) {
            Ok(m) => {
                self.cancel_export();
                self.show_msg(m);
            },
            Err(e) => {
                self.popup_msg = Some(e);
                self.export_token = String::new();
            },
        }
    }

    /// Leaves the search box, keeping the filter.
    pub fn confirm_search(&mut self)
        ensures
            final(self)@ == (AppView { input_mode: InputMode::Normal, ..old(self)@ }),
    {
        self.input_mode = InputMode::Normal;
    }

    /// Checks the key creation form: with an empty name it says so and gives none; otherwise
    /// it gives the name and the email to create the key with.
    pub fn confirm_creation(&mut self) -> (r: Option<(String, String)>)
        ensures
            old(self)@.input_name.len() == 0 ==> r is None && final(self)@ == (AppView {
                popup_msg: Some("Key name cannot be empty"@),
                ..old(self)@
            }),
            old(self)@.input_name.len() > 0 ==> (r matches Some((n, e)) && n@ == old(self)@.input_name
                && e@ == old(self)@.input_email && final(self)@ == old(self)@),
    {
        if self.input_name.as_str().is_empty() {
            self.popup_msg = Some(String::from_str("Key name cannot be empty"));
            return None;
        }
        Some((self.input_name.clone(), self.input_email.clone()))
    }

    /// Takes the outcome of creating the key: the keys read again, or why it failed. On success
    /// the new key is selected, the form is closed and the success is shown.
    pub fn finish_creation(&mut self, result: Result<Vec<SshKey>, String>)
        ensures
            match result {
                Ok(keys) => shows(
                    final(self)@,
                    "Created SSH key '"@ + old(self)@.input_name + "' successfully!"@,
                ) && final(self)@ == (AppView {
                    keys: key_views(keys@),
                    list_state: reselect(old(self).list_state, key_views(keys@), named_as(old(self)@.input_name)),
                    input_mode: InputMode::Normal,
                    clipboard_msg: final(self)@.clipboard_msg,
                    ..old(self)@
                }),
                Err(e) => final(self)@ == (AppView { popup_msg: Some("Error: "@ + e@), ..old(self)@ }),
            },
    {
        match result {
            Ok(keys) => {
                let pos = find_name(&keys, &self.input_name);
                self.keys = keys;
                if pos < self.keys.len() {
                    self.list_state = Some(pos);
                }
                self.input_mode = InputMode::Normal;
                let m = joined("Created SSH key '", self.input_name.as_str(), "' successfully!");
                self.show_msg(m);
            },
            Err(e) => {
                self.popup_msg = Some(prefixed("Error: ", e.as_str()));
            },
        }
    }

    /// The file to import and whether to move it (`m`) or copy it (`c`); none for another
    /// character or when no file is chosen.
    pub fn handle_import_action(&self, action_char: char) -> (r: Option<(String, bool)>)
        ensures
            (action_char == 'm' || action_char == 'c') && self.selected_import_file is Some
                ==> (r matches Some((p, mv)) && p@ == self@.selected_import_file->0 && mv == (
            action_char == 'm')),
            !((action_char == 'm' || action_char == 'c') && self.selected_import_file is Some)
                ==> r is None,
    {
        let is_move = if action_char == 'm' {
            true
        } else if action_char == 'c' {
            false
        } else {
            return None;
        };
        match &self.selected_import_file {
            Some(p) => Some((p.clone(), is_move)),
            None => None,
        }
    }

    /// Takes the outcome of placing the file in `~/.ssh`.
    pub fn finish_import(&mut self, outcome: ImportOutcome)
        ensures
            match outcome {
                ImportOutcome::Failed(e) => final(self)@ == (AppView {
                    popup_msg: Some("Import error: "@ + e@),
                    ..old(self)@
                }),
                ImportOutcome::NeedsPassword(p) => final(self)@ == (AppView {
                    input_mode: InputMode::PasswordPrompt,
                    selected_import_file: Some(p@),
                    password_input: seq![],
                    popup_msg: None,
                    ..old(self)@
                }),
                ImportOutcome::Imported(p, keys) => shows(final(self)@, "Import successful!"@)
                    && final(self)@ == (AppView {
                    keys: key_views(keys@),
                    list_state: reselect(old(self).list_state, key_views(keys@), stored_at(p@)),
                    input_mode: InputMode::Normal,
                    selected_import_file: None,
                    password_input: seq![],
                    popup_msg: None,
                    clipboard_msg: final(self)@.clipboard_msg,
                    ..old(self)@
                }),
            },
    {
        match outcome {
            ImportOutcome::Failed(e) => {
                self.popup_msg = Some(prefixed("Import error: ", e.as_str()));
            },
            ImportOutcome::NeedsPassword(p) => {
                self.input_mode = InputMode::PasswordPrompt;
                self.selected_import_file = Some(p);
                self.password_input = String::new();
                self.popup_msg = None;
            },
            ImportOutcome::Imported(p, keys) => {
                let pos = find_private_path(&keys, &p);
                self.keys = keys;
                if pos < self.keys.len() {
                    self.list_state = Some(pos);
                }
                self.cancel_import();
                self.show_msg(String::from_str("Import successful!"));
            },
        }
    }

    /// The key file to add to the agent and the passphrase typed; none when no file is chosen.
    pub fn submit_password(&self) -> (r: Option<(String, String)>)
        ensures
            match self.selected_import_file {
                Some(p) => r matches Some((q, pw)) && q@ == p@ && pw@ == self@.password_input,
                None => r is None,
            },
    {
        match &self.selected_import_file {
            Some(p) => Some((p.clone(), self.password_input.clone())),
            None => None,
        }
    }

    /// Takes the outcome of adding the key to the agent: the keys read again, or why it
    /// failed (the passphrase is then cleared).
    pub fn finish_password(&mut self, result: Result<Vec<SshKey>, String>)
        ensures
            match result {
                Ok(keys) => shows(final(self)@, "Import and ssh-add successful!"@) && final(self)@
                    == (AppView {
                    keys: key_views(keys@),
                    list_state: match old(self)@.selected_import_file {
                        Some(p) => reselect(old(self).list_state, key_views(keys@), stored_at(p)),
                        None => old(self).list_state,
                    },
                    input_mode: InputMode::Normal,
                    selected_import_file: None,
                    password_input: seq![],
                    popup_msg: None,
                    clipboard_msg: final(self)@.clipboard_msg,
                    ..old(self)@
                }),
                Err(e) => final(self)@ == (AppView {
                    popup_msg: Some("ssh-add error: "@ + e@),
                    password_input: seq![],
                    ..old(self)@
                }),
            },
    {
        match result {
            Ok(keys) => {
                let mut pos = keys.len();
                match &self.selected_import_file {
                    Some(p) => {
                        pos = find_private_path(&keys, p);
                    },
                    None => {},
                }
                self.keys = keys;
                if pos < self.keys.len() {
                    self.list_state = Some(pos);
                }
                self.cancel_import();
                self.show_msg(String::from_str("Import and ssh-add successful!"));
            },
            Err(e) => {
                self.popup_msg = Some(prefixed("ssh-add error: ", e.as_str()));
                self.password_input = String::new();
            },
        }
    }

    /// Checks the configuration form: with an empty host it says so and keeps the form;
    /// otherwise it closes the entry being edited and gives the change to write: the edited
    /// entry replaces the one it was opened on, or a new entry is added.
    pub fn confirm_config_edit(&mut self) -> (r: Option<ConfigSave>)
        ensures
            old(self).editing_config is None ==> r is None && final(self)@ == old(self)@,
            old(self)@.editing_config matches Some(e) ==> if e.host.len() == 0 {
                r is None && final(self)@ == (AppView {
                    popup_msg: Some("Host name cannot be empty"@),
                    ..old(self)@
                })
            } else {
                final(self)@ == (AppView { editing_config: None, ..old(self)@ }) && match r {
                    Some(ConfigSave::Replace(i, x)) => old(self).config_edit_index == Some(i)
                        && x@ == e,
                    Some(ConfigSave::Add(x)) => old(self).config_edit_index is None && x@ == e,
                    None => false,
                }
            },
    {
        match self.editing_config.take() {
            None => None,
            Some(entry) => {
                if entry.host.as_str().is_empty() {
                    self.popup_msg = Some(String::from_str("Host name cannot be empty"));
                    self.editing_config = Some(entry);
                    return None;
                }
                match self.config_edit_index {
                    Some(idx) => Some(ConfigSave::Replace(idx, entry)),
                    None => Some(ConfigSave::Add(entry)),
                }
            },
        }
    }

    /// Takes the outcome of writing the configuration: the entries read again, or why it
    /// failed.
    pub fn finish_config_edit(&mut self, result: Result<Vec<SshConfigEntry>, String>)
        ensures
            match result {
                Ok(entries) => shows(final(self)@, "SSH config saved!"@) && final(self)@ == (AppView {
                    config_entries: entry_views(entries@),
                    input_mode: InputMode::Normal,
                    clipboard_msg: final(self)@.clipboard_msg,
                    ..old(self)@
                }),
                Err(e) => final(self)@ == (AppView {
                    popup_msg: Some(
                        (if old(self).config_edit_index is Some {
                            "Error saving: "@
                        } else {
                            "Error adding: "@
                        }) + e@,
                    ),
                    ..old(self)@
                }),
            },
    {
        match result {
            Ok(entries) => {
                self.config_entries = entries;
                self.input_mode = InputMode::Normal;
                self.show_msg(String::from_str("SSH config saved!"));
            },
            Err(e) => {
                let m = if self.config_edit_index.is_some() {
                    prefixed("Error saving: ", e.as_str())
                } else {
                    prefixed("Error adding: ", e.as_str())
                };
                self.popup_msg = Some(m);
            },
        }
    }

    /// The position of the configuration entry to delete: the selected one, if it exists.
    pub fn delete_config_entry(&self) -> (r: Option<usize>)
        ensures
            r == (if self.config_list_state matches Some(i) && i < self.config_entries.len() {
                self.config_list_state
            } else {
                None::<usize>
            }),
    {
        match self.config_list_state {
            Some(idx) => if idx < self.config_entries.len() {
                Some(idx)
            } else {
                None
            },
            None => None,
        }
    }

    /// Takes the outcome of deleting configuration entry `idx`: the entries read again, or why
    /// it failed. The selection stays within the shorter list.
    pub fn finish_delete_config_entry(&mut self, idx: usize, result: Result<Vec<SshConfigEntry>, String>)
        ensures
            match result {
                Ok(entries) => shows(final(self)@, "Config entry deleted!"@) && final(self)@ == (
                AppView {
                    config_entries: entry_views(entries@),
                    config_list_state: clamp_row(old(self).config_list_state, idx, entries@.len()),
                    clipboard_msg: final(self)@.clipboard_msg,
                    ..old(self)@
                }),
                Err(e) => shows(final(self)@, "Error: "@ + e@) && final(self)@ == (AppView {
                    clipboard_msg: final(self)@.clipboard_msg,
                    ..old(self)@
                }),
            },
    {
        match result {
            Ok(entries) => {
                self.config_entries = entries;
                let len = self.config_entries.len();
                if len == 0 {
                    self.config_list_state = None;
                } else if idx >= len {
                    self.config_list_state = Some(len - 1);
                }
                self.show_msg(String::from_str("Config entry deleted!"));
            },
            Err(e) => {
                self.show_msg(prefixed("Error: ", e.as_str()));
            },
        }
    }

    /// The position of the known host to delete: the selected one, if it exists.
    pub fn delete_known_host(&self) -> (r: Option<usize>)
        ensures
            r == (if self.known_hosts_list_state matches Some(i) && i < self.known_hosts.len() {
                self.known_hosts_list_state
            } else {
                None::<usize>
            }),
    {
        match self.known_hosts_list_state {
            Some(idx) => if idx < self.known_hosts.len() {
                Some(idx)
            } else {
                None
            },
            None => None,
        }
    }

    /// Takes the outcome of deleting known host `idx`: the hosts read again, or why it failed.
    /// The selection stays within the shorter list.
    pub fn finish_delete_known_host(&mut self, idx: usize, result: Result<Vec<KnownHostEntry>, String>)
        ensures
            match result {
                Ok(hosts) => shows(final(self)@, "Known host removed!"@) && final(self)@ == (AppView {
                    known_hosts: host_views(hosts@),
                    known_hosts_list_state: clamp_row(old(self).known_hosts_list_state, idx, hosts@.len()),
                    clipboard_msg: final(self)@.clipboard_msg,
                    ..old(self)@
                }),
                Err(e) => shows(final(self)@, "Error: "@ + e@) && final(self)@ == (AppView {
                    clipboard_msg: final(self)@.clipboard_msg,
                    ..old(self)@
                }),
            },
    {
        match result {
            Ok(hosts) => {
                self.known_hosts = hosts;
                let len = self.known_hosts.len();
                if len == 0 {
                    self.known_hosts_list_state = None;
                } else if idx >= len {
                    self.known_hosts_list_state = Some(len - 1);
                }
                self.show_msg(String::from_str("Known host removed!"));
            },
            Err(e) => {
                self.show_msg(prefixed("Error: ", e.as_str()));
            },
        }
    }

    /// For copying the highlighted key (through the search results while a search with results
    /// is active): when no clipboard is available it says so; otherwise it gives the public key
    /// to copy.
    pub fn copy_public_key(&mut self, clipboard_available: bool) -> (r: Option<String>)
        ensures
            match selected_key(old(self)@) {
                Some(k) => if clipboard_available {
                    (r matches Some(t) && t@ == k.public_content) && final(self)@ == old(self)@
                } else {
                    r is None && shows(final(self)@, "Clipboard not available"@) && final(self)@ == (
                    AppView { clipboard_msg: final(self)@.clipboard_msg, ..old(self)@ })
                },
                None => r is None && final(self)@ == old(self)@,
            },
    {
        let content = match self.get_selected_key() {
            Some(k) => k.public_content.clone(),
            None => return None,
        };
        if clipboard_available {
            Some(content)
        } else {
            self.show_msg(String::from_str("Clipboard not available"));
            None
        }
    }

    /// Takes whether the clipboard accepted the highlighted key.
    pub fn finish_copy(&mut self, copied: bool)
        ensures
            match selected_key(old(self)@) {
                Some(k) => shows(
                    final(self)@,
                    if copied {
                        "Copied "@ + k.name + " public key to clipboard!"@
                    } else {
                        "Failed to copy to clipboard"@
                    },
                ) && final(self)@ == (AppView { clipboard_msg: final(self)@.clipboard_msg, ..old(self)@ }),
                None => final(self)@ == old(self)@,
            },
    {
        let name = match self.get_selected_key() {
            Some(k) => k.name.clone(),
            None => return,
        };
        let m = if copied {
            joined("Copied ", name.as_str(), " public key to clipboard!")
        } else {
            String::from_str("Failed to copy to clipboard")
        };
        self.show_msg(m);
    }

    /// Fills the file browser from what reading the current directory gave: none when it
    /// could not be read, otherwise its subdirectories and its other entries. Lists the parent
    /// directory first, then the subdirectories, then the files, each group sorted, and selects
    /// the first row.
    pub fn load_directory(&mut self, listing: Option<(Vec<String>, Vec<String>)>)
        ensures
            match listing {
                None => final(self).file_entries@.len() == 0,
                Some((d, f)) => listed(final(self).file_entries@, path_parent(old(self)@.current_dir), d@, f@),
            },
            final(self)@ == (AppView {
                file_entries: final(self)@.file_entries,
                file_list_state: first_row(final(self).file_entries@.len()),
                ..old(self)@
            }),
    {
        let mut rows: Vec<FileEntry> = Vec::new();
        match listing {
            None => {},
            Some((dirs, files)) => {
                let dirs = sort_by_key(dirs);
                let files = sort_by_key(files);
                let parent = parent_of(self.current_dir.as_str());
                let np: usize = match parent {
                    Some(p) => {
                        rows.push(FileEntry { path: p, is_dir: true });
                        1
                    },
                    None => 0,
                };
                let ghost start = rows@;
                push_rows(&mut rows, &dirs, true);
                let ghost mid = rows@;
                push_rows(&mut rows, &files, false);
                proof {
                    let r = rows@;
                    let nd = dirs@.len() as int;
                    let ds = r.subrange(np as int, np + nd);
                    let fs = r.subrange(np + nd, r.len() as int);
                    assert(paths_of(ds) =~= dirs@) by {
                        assert forall|j: int| 0 <= j < nd implies paths_of(ds)[j] == dirs@[j] by {
                            assert(r.take(mid.len() as int)[np + j] == r[np + j]);
                            assert(mid[np + j] == r[np + j]);
                        }
                    }
                    assert(paths_of(fs) =~= files@) by {
                        assert forall|j: int| 0 <= j < files@.len() implies paths_of(fs)[j] == files@[j] by {
                            assert(r[mid.len() + j].path == files@[j]);
                        }
                    }
                    assert forall|j: int| 0 <= j < ds.len() implies (#[trigger] ds[j]).is_dir == true by {
                        assert(r.take(mid.len() as int)[np + j] == r[np + j]);
                        assert(mid[np + j] == r[np + j]);
                        assert(mid[start.len() + j].path == dirs@[j]);
                    }
                    assert forall|j: int| 0 <= j < fs.len() implies (#[trigger] fs[j]).is_dir == false by {
                        assert(fs[j] == r[np + nd + j]);
                        assert(r[mid.len() + j].path == files@[j]);
                        assert(r[mid.len() + j].is_dir == false);
                    }
                    if np == 1 {
                        assert(mid.take(start.len() as int)[0] == mid[0]);
                        assert(r.take(mid.len() as int)[0] == r[0]);
                    }
                }
            },
        }
        let nonempty = rows.len() > 0;
        self.file_entries = rows;
        self.file_list_state = if nonempty {
            Some(0)
        } else {
            None
        };
    }

    /// Opens the selected row of the file browser: a directory becomes the current one (it
    /// must be read next, which the result says), a file becomes the one to import.
    pub fn fb_select(&mut self) -> (reload: bool)
        ensures
            (old(self).file_list_state matches Some(i) && i < old(self).file_entries.len()) ==> {
                let e = old(self)@.file_entries[old(self).file_list_state->0 as int];
                if e.1 {
                    reload && final(self)@ == (AppView { current_dir: e.0, ..old(self)@ })
                } else {
                    !reload && final(self)@ == (AppView {
                        selected_import_file: Some(e.0),
                        input_mode: InputMode::ImportAction,
                        ..old(self)@
                    })
                }
            },
            !(old(self).file_list_state matches Some(i) && i < old(self).file_entries.len()) ==> !reload
                && final(self)@ == old(self)@,
    {
        if let Some(selected) = self.file_list_state {
            if selected < self.file_entries.len() {
                let path = self.file_entries[selected].path.clone();
                if self.file_entries[selected].is_dir {
                    self.current_dir = path;
                    return true;
                } else {
                    self.selected_import_file = Some(path);
                    self.input_mode = InputMode::ImportAction;
                    return false;
                }
            }
        }
        false
    }

    /// Goes up to the parent directory, if there is one (it must be read next, which the
    /// result says).
    pub fn fb_parent(&mut self) -> (reload: bool)
        ensures
            match path_parent(old(self)@.current_dir) {
                Some(p) => reload && final(self)@ == (AppView { current_dir: p, ..old(self)@ }),
                None => !reload && final(self)@ == old(self)@,
            },
    {
        match parent_of(self.current_dir.as_str()) {
            Some(p) => {
                self.current_dir = p;
                true
            },
            None => false,
        }
    }

    fn update_filtered_keys(&mut self)
        ensures
            final(self)@ == refiltered(old(self)@),
            old(self)@.search_query.len() == 0 ==> final(self)@.filtered_keys == Seq::new(
                old(self).keys@.len(),
                |i: int| i as usize,
            ),
            ascii_filtered(final(self)@),
    {
        let query = to_lowercase(self.search_query.as_str());
        let mut names: Vec<String> = Vec::new();
        for i in 0..self.keys.len()
            invariant
                names@.map_values(|s: String| s@) == key_views(self.keys@).take(i as int).map_values(
                    |k: SshKeyView| unicode_lowercase(k.name),
                ),
        {
            let ghost before = names@;
            let low = to_lowercase(self.keys[i].name.as_str());
            names.push(low);
            assert(names@ == before.push(low));
            assert(names@.map_values(|s: String| s@) =~= before.map_values(|s: String| s@).push(low@));
            assert(key_views(self.keys@).take(i + 1) =~= key_views(self.keys@).take(i as int).push(self.keys@[i as int]@));
            assert(key_views(self.keys@).take(i + 1).map_values(|k: SshKeyView| unicode_lowercase(k.name))
                =~= key_views(self.keys@).take(i as int).map_values(|k: SshKeyView| unicode_lowercase(k.name)).push(
                unicode_lowercase(self.keys@[i as int].name@)));
        }
        assert(key_views(self.keys@).take(self.keys.len() as int) =~= key_views(self.keys@));
        let found = matching_key_indices(&names, &query);
        proof {
            if self.search_query@.len() == 0 {
                assert(unicode_lowercase(self.search_query@) =~= Seq::<char>::empty());
                crate::app_laws::law_empty_query_lists_all(
                    key_views(self.keys@).map_values(|k: SshKeyView| unicode_lowercase(k.name)),
                );
            }
        }
        let nonempty = found.len() > 0;
        self.filtered_keys = found;
        self.list_state = if nonempty {
            Some(0)
        } else {
            None
        };
    }

    /// Opens the search box with an empty query: every key is listed.
    pub fn start_search(&mut self)
        ensures
            final(self)@ == refiltered(AppView {
                input_mode: InputMode::Searching,
                search_query: seq![],
                search_active: true,
                ..old(self)@
            }),
            final(self)@.filtered_keys == Seq::new(old(self).keys@.len(), |i: int| i as usize),
            ascii_filtered(final(self)@),
    {
        self.input_mode = InputMode::Searching;
        self.search_query = String::new();
        self.search_active = true;
        self.update_filtered_keys();
    }

    /// Types a character of the query and filters again.
    pub fn search_input(&mut self, c: char)
        ensures
            final(self)@ == refiltered(AppView { search_query: old(self)@.search_query.push(c), ..old(self)@ }),
            ascii_filtered(final(self)@),
    {
        push_char(&mut self.search_query, c);
        self.update_filtered_keys();
    }

    /// Deletes the last character of the query and filters again.
    pub fn search_backspace(&mut self)
        ensures
            final(self)@ == refiltered(AppView { search_query: backspaced(old(self)@.search_query), ..old(self)@ }),
            ascii_filtered(final(self)@),
    {
        pop_text(&mut self.search_query);
        self.update_filtered_keys();
    }

    /// Closes the search and drops the filter; the first key is selected again.
    pub fn cancel_search(&mut self)
        ensures
            final(self)@ == (AppView {
                input_mode: InputMode::Normal,
                search_query: seq![],
                search_active: false,
                filtered_keys: seq![],
                list_state: if old(self).keys.len() > 0 {
                    Some(0)
                } else {
                    old(self).list_state
                },
                ..old(self)@
            }),
    {
        self.input_mode = InputMode::Normal;
        self.search_query = String::new();
        self.search_active = false;
        self.filtered_keys = Vec::new();
        if self.keys.len() > 0 {
            self.list_state = Some(0);
        }
    }

    /// The keys listed: the search results while a search is active, otherwise all keys.
    pub fn visible_keys(&self) -> (r: Vec<&SshKey>)
        ensures
            r@.map_values(|k: &SshKey| k@) == visible(self@),
    {
        let mut r: Vec<&SshKey> = Vec::new();
        if self.search_active {
            for i in 0..self.filtered_keys.len()
                invariant
                    self.search_active,
                    r@.map_values(|k: &SshKey| k@) == present(key_views(self.keys@), self.filtered_keys@.take(i as int)),
            {
                let ghost before = r@;
                assert(self.filtered_keys@.take(i + 1).drop_last() =~= self.filtered_keys@.take(i as int));
                let j = self.filtered_keys[i];
                if j < self.keys.len() {
                    r.push(&self.keys[j]);
                    assert(r@.map_values(|k: &SshKey| k@) =~= before.map_values(|k: &SshKey| k@).push(self.keys@[j as int]@));
                }
            }
            assert(self.filtered_keys@.take(self.filtered_keys.len() as int) =~= self.filtered_keys@);
        } else {
            for i in 0..self.keys.len()
                invariant
                    !self.search_active,
                    r@.map_values(|k: &SshKey| k@) == key_views(self.keys@).take(i as int),
            {
                let ghost before = r@;
                r.push(&self.keys[i]);
                assert(r@.map_values(|k: &SshKey| k@) =~= before.map_values(|k: &SshKey| k@).push(self.keys@[i as int]@));
                assert(key_views(self.keys@).take(i + 1) =~= key_views(self.keys@).take(i as int).push(self.keys@[i as int]@));
            }
            assert(key_views(self.keys@).take(self.keys.len() as int) =~= key_views(self.keys@));
        }
        r
    }

    /// Moves the selection down through the listed keys, wrapping to the top; nothing happens
    /// when none is listed.
    pub fn next_visible(&mut self)
        ensures
            visible(old(self)@).len() == 0 ==> final(self)@ == old(self)@,
            visible(old(self)@).len() > 0 ==> final(self)@ == (AppView {
                list_state: Some(next_row(old(self).list_state, visible(old(self)@).len()) as usize),
                ..old(self)@
            }),
    {
        let len = self.visible_keys().len();
        if len == 0 {
            return;
        }
        let i = next_index(self.list_state, len);
        self.list_state = Some(i);
    }

    /// Moves the selection up through the listed keys, wrapping to the bottom; nothing happens
    /// when none is listed.
    pub fn previous_visible(&mut self)
        ensures
            visible(old(self)@).len() == 0 ==> final(self)@ == old(self)@,
            visible(old(self)@).len() > 0 ==> final(self)@ == (AppView {
                list_state: Some(previous_row(old(self).list_state, visible(old(self)@).len()) as usize),
                ..old(self)@
            }),
    {
        let len = self.visible_keys().len();
        if len == 0 {
            return;
        }
        let i = previous_index(self.list_state, len);
        self.list_state = Some(i);
    }

    /// The highlighted key, through the search results while a search with results is active.
    pub fn get_selected_key(&self) -> (r: Option<&SshKey>)
        ensures
            match r {
                Some(k) => selected_key(self@) == Some(k@),
                None => selected_key(self@) is None,
            },
    {
        let selected = match self.list_state {
            Some(s) => s,
            None => return None,
        };
        if self.search_active && self.filtered_keys.len() > 0 {
            if selected < self.filtered_keys.len() {
                let real_idx = self.filtered_keys[selected];
                if real_idx < self.keys.len() {
                    return Some(&self.keys[real_idx]);
                }
            }
            None
        } else if selected < self.keys.len() {
            Some(&self.keys[selected])
        } else {
            None
        }
    }
}

fn push_rows(rows: &mut Vec<FileEntry>, src: &Vec<String>, is_dir: bool)
    ensures
        final(rows)@.len() == old(rows)@.len() + src@.len(),
        final(rows)@.take(old(rows)@.len() as int) == old(rows)@,
        forall|j: int| 0 <= j < src@.len() ==> #[trigger] final(rows)@[old(rows)@.len() + j].path == src@[j]
            && final(rows)@[old(rows)@.len() + j].is_dir == is_dir,
{
    let ghost start = rows@;
    let mut i: usize = 0;
    while i < src.len()
        invariant
            i <= src.len(),
            rows@.len() == start.len() + i,
            rows@.take(start.len() as int) == start,
            forall|j: int| 0 <= j < i ==> #[trigger] rows@[start.len() + j].path == src@[j]
                && rows@[start.len() + j].is_dir == is_dir,
        decreases src.len() - i,
    {
        let ghost before = rows@;
        let e = FileEntry { path: src[i].clone(), is_dir };
        assert(e.path == src@[i as int]);
        rows.push(e);
        assert(rows@ == before.push(e));
        assert(rows@.take(start.len() as int) =~= before.take(start.len() as int));
        assert forall|j: int| 0 <= j < i + 1 implies #[trigger] rows@[start.len() + j].path == src@[j]
            && rows@[start.len() + j].is_dir == is_dir by {
            if j < i {
                assert(rows@[start.len() + j] == before[start.len() + j]);
                assert(before[start.len() + j].path == src@[j]);
            } else {
                assert(rows@[start.len() + j] == e);
            }
        }
        i += 1;
    }
}

} // verus!
