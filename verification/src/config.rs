use vstd::prelude::*;
use crate::text::{
    append_str, ascii_lower, chars_of, same_chars, find_whitespace, first_ws, lines, lowers_to, split_lines, string_of,
    sub_chars, trim, trim_chars, views,
};

verus! {


/// One `Host` block of an OpenSSH client configuration file.
pub struct SshConfigEntry {
    pub host: String,
    pub hostname: String,
    pub user: String,
    pub port: String,
    pub identity_file: String,
}

/// The text of the five fields of an [`SshConfigEntry`].
pub ghost struct ConfigEntryView {
    pub host: Seq<char>,
    pub hostname: Seq<char>,
    pub user: Seq<char>,
    pub port: Seq<char>,
    pub identity_file: Seq<char>,
}

impl View for SshConfigEntry {
    type V = ConfigEntryView;

    open spec fn view(&self) -> ConfigEntryView {
        ConfigEntryView {
            host: self.host@,
            hostname: self.hostname@,
            user: self.user@,
            port: self.port@,
            identity_file: self.identity_file@,
        }
    }
}

pub open spec fn entry_views(v: Seq<SshConfigEntry>) -> Seq<ConfigEntryView> {
    v.map_values(|e: SshConfigEntry| e@)
}

pub open spec fn default_port() -> Seq<char> {
    seq!['2', '2']
}

/// A fresh entry: every field empty but the port, which is `22`.
pub open spec fn new_entry() -> ConfigEntryView {
    ConfigEntryView {
        host: seq![],
        hostname: seq![],
        user: seq![],
        port: default_port(),
        identity_file: seq![],
    }
}

impl SshConfigEntry {
    pub fn new() -> (e: SshConfigEntry)
        ensures
            e@ == new_entry(),
    {
        let port = String::from_str("22");
        proof {
            reveal_strlit("22");
        }
        assert(port@ =~= default_port());
        SshConfigEntry {
            host: String::new(),
            hostname: String::new(),
            user: String::new(),
            port,
            identity_file: String::new(),
        }
    }

    /// A copy of the entry.
    pub fn duplicate(&self) -> (e: SshConfigEntry)
        ensures
            e@ == self@,
    {
        SshConfigEntry {
            host: self.host.clone(),
            hostname: self.hostname.clone(),
            user: self.user.clone(),
            port: self.port.clone(),
            identity_file: self.identity_file.clone(),
        }
    }
}

impl Clone for SshConfigEntry {
    fn clone(&self) -> (e: SshConfigEntry)
        ensures
            e@ == self@,
    {
        self.duplicate()
    }
}

pub open spec fn kw_host() -> Seq<char> {
    seq!['h', 'o', 's', 't']
}

pub open spec fn kw_hostname() -> Seq<char> {
    seq!['h', 'o', 's', 't', 'n', 'a', 'm', 'e']
}

pub open spec fn kw_user() -> Seq<char> {
    seq!['u', 's', 'e', 'r']
}

pub open spec fn kw_port() -> Seq<char> {
    seq!['p', 'o', 'r', 't']
}

pub open spec fn kw_identityfile() -> Seq<char> {
    seq!['i', 'd', 'e', 'n', 't', 'i', 't', 'y', 'f', 'i', 'l', 'e']
}

/// The keyword and the value of a configuration line: the trimmed line split at its first
/// whitespace character, the value trimmed. Blank lines, comments and lines with a single word
/// give none.
pub open spec fn config_line_kv(line: Seq<char>) -> Option<(Seq<char>, Seq<char>)> {
    let t = trim(line);
    let k = first_ws(t);
    if t.len() == 0 || t[0] == '#' || k >= t.len() {
        None
    } else {
        Some((t.take(k), trim(t.skip(k + 1))))
    }
}

/// Parser state: the entries closed so far, and the entry being read.
pub type ConfigState = (Seq<ConfigEntryView>, Option<ConfigEntryView>);

pub open spec fn close_entry(st: ConfigState) -> Seq<ConfigEntryView> {
    match st.1 {
        Some(e) => st.0.push(e),
        None => st.0,
    }
}

/// The effect of one `keyword value` line. Keywords are matched without regard to the case of
/// ASCII letters, as `str::to_lowercase` compares them: none of the five keywords holds a
/// letter that a non-ASCII character lowers to.
pub open spec fn apply_kv(st: ConfigState, key: Seq<char>, value: Seq<char>) -> ConfigState {
    let key = ascii_lower(key);
    if key == kw_host() {
        (close_entry(st), Some(ConfigEntryView { host: value, ..new_entry() }))
    } else {
        match st.1 {
            Some(e) => {
                if key == kw_hostname() {
                    (st.0, Some(ConfigEntryView { hostname: value, ..e }))
                } else if key == kw_user() {
                    (st.0, Some(ConfigEntryView { user: value, ..e }))
                } else if key == kw_port() {
                    (st.0, Some(ConfigEntryView { port: value, ..e }))
                } else if key == kw_identityfile() {
                    (st.0, Some(ConfigEntryView { identity_file: value, ..e }))
                } else {
                    st
                }
            },
            None => st,
        }
    }
}

pub open spec fn config_step(st: ConfigState, line: Seq<char>) -> ConfigState {
    match config_line_kv(line) {
        Some((k, v)) => apply_kv(st, k, v),
        None => st,
    }
}

pub open spec fn config_fold(st: ConfigState, ls: Seq<Seq<char>>) -> ConfigState
    decreases ls.len(),
{
    if ls.len() == 0 {
        st
    } else {
        config_step(config_fold(st, ls.drop_last()), ls.last())
    }
}

pub open spec fn config_start() -> ConfigState {
    (seq![], None)
}

/// The entries of a configuration text: a `Host` line opens an entry; `HostName`, `User`,
/// `Port` and `IdentityFile` lines set a field of the open entry; other lines are ignored.
pub open spec fn parse_config(text: Seq<char>) -> Seq<ConfigEntryView> {
    close_entry(config_fold(config_start(), lines(text)))
}

fn word(cs: &str) -> (v: Vec<char>)
    ensures
        v@ == cs@,
{
    chars_of(cs)
}

fn config_step_exec(
    entries: &mut Vec<SshConfigEntry>,
    current: &mut Option<SshConfigEntry>,
    line: &Vec<char>,
)
    ensures
        (entry_views(final(entries)@), opt_view(*final(current))) == config_step(
            (entry_views(old(entries)@), opt_view(*old(current))),
            line@,
        ),
{
    let t = trim_chars(line);
    if t.len() == 0 || t[0] == '#' {
        return;
    }
    let k = find_whitespace(&t);
    if k >= t.len() {
        return;
    }
    let key = sub_chars(&t, 0, k);
    let rest = sub_chars(&t, k + 1, t.len());
    let value = trim_chars(&rest);
    assert(key@ =~= t@.take(k as int));
    assert(rest@ =~= t@.skip(k + 1));
    let value = string_of(&value);
    let ghost st = (entry_views(entries@), opt_view(*current));
    let w_host: Vec<char> = vec!['h', 'o', 's', 't'];
    let w_hostname: Vec<char> = vec!['h', 'o', 's', 't', 'n', 'a', 'm', 'e'];
    let w_user: Vec<char> = vec!['u', 's', 'e', 'r'];
    let w_port: Vec<char> = vec!['p', 'o', 'r', 't'];
    let w_identityfile: Vec<char> = vec!['i', 'd', 'e', 'n', 't', 'i', 't', 'y', 'f', 'i', 'l', 'e'];
    if lowers_to(&key, &w_host) {
        let old_current = current.take();
        match old_current {
            Some(e) => {
                let ghost before = entries@;
                entries.push(e);
                assert(entry_views(entries@) =~= entry_views(before).push(e@));
            },
            None => {},
        }
        let mut fresh = SshConfigEntry::new();
        fresh.host = value;
        *current = Some(fresh);
    } else {
        match current {
            Some(e) => {
                if lowers_to(&key, &w_hostname) {
                    e.hostname = value;
                } else if lowers_to(&key, &w_user) {
                    e.user = value;
                } else if lowers_to(&key, &w_port) {
                    e.port = value;
                } else if lowers_to(&key, &w_identityfile) {
                    e.identity_file = value;
                }
            },
            None => {},
        }
    }
}

pub open spec fn opt_view(e: Option<SshConfigEntry>) -> Option<ConfigEntryView> {
    match e {
        Some(x) => Some(x@),
        None => None,
    }
}

/// Reads the entries of an OpenSSH client configuration text.
pub fn parse_ssh_config(content: &str) -> (r: Vec<SshConfigEntry>)
    ensures
        entry_views(r@) == parse_config(content@),
{
    let chars = chars_of(content);
    let ls = split_lines(&chars);
    let mut entries: Vec<SshConfigEntry> = Vec::new();
    let mut current: Option<SshConfigEntry> = None;
    for i in 0..ls.len()
        invariant
            views(ls@) == lines(content@),
            (entry_views(entries@), opt_view(current)) == config_fold(
                config_start(),
                views(ls@).take(i as int),
            ),
    {
        assert(views(ls@).take(i + 1).drop_last() =~= views(ls@).take(i as int));
        config_step_exec(&mut entries, &mut current, &ls[i]);
    }
    assert(views(ls@).take(ls.len() as int) =~= views(ls@));
    match current {
        Some(e) => {
            let ghost before = entries@;
            entries.push(e);
            assert(entry_views(entries@) =~= entry_views(before).push(e@));
        },
        None => {
            assert(entry_views(entries@) =~= entry_views(entries@));
        },
    }
    entries
}

pub open spec fn host_prefix() -> Seq<char> {
    seq!['H', 'o', 's', 't', ' ']
}

pub open spec fn indent() -> Seq<char> {
    seq![' ', ' ', ' ', ' ']
}

pub open spec fn word_hostname() -> Seq<char> {
    seq!['H', 'o', 's', 't', 'N', 'a', 'm', 'e']
}

pub open spec fn word_user() -> Seq<char> {
    seq!['U', 's', 'e', 'r']
}

pub open spec fn word_port() -> Seq<char> {
    seq!['P', 'o', 'r', 't']
}

pub open spec fn word_identityfile() -> Seq<char> {
    seq!['I', 'd', 'e', 'n', 't', 'i', 't', 'y', 'F', 'i', 'l', 'e']
}

/// `    Word ` : the start of an indented field line.
pub open spec fn field_prefix(w: Seq<char>) -> Seq<char> {
    indent() + w + seq![' ']
}

pub open spec fn field_line(prefix: Seq<char>, value: Seq<char>) -> Seq<char> {
    prefix + value + seq!['\n']
}

pub open spec fn opt_field_line(prefix: Seq<char>, value: Seq<char>, present: bool) -> Seq<char> {
    if present {
        field_line(prefix, value)
    } else {
        seq![]
    }
}

/// Whether the port is written out: it is, unless it is empty or the default `22`.
pub open spec fn port_written(port: Seq<char>) -> bool {
    port.len() > 0 && port != default_port()
}

/// The block written for one entry: its `Host` line, one indented line for each nonempty field
/// (the port only when it is not `22`), and a blank line.
pub open spec fn render_entry(e: ConfigEntryView) -> Seq<char> {
    field_line(host_prefix(), e.host) + opt_field_line(
        field_prefix(word_hostname()),
        e.hostname,
        e.hostname.len() > 0,
    ) + opt_field_line(field_prefix(word_user()), e.user, e.user.len() > 0) + opt_field_line(
        field_prefix(word_port()),
        e.port,
        port_written(e.port),
    ) + opt_field_line(
        field_prefix(word_identityfile()),
        e.identity_file,
        e.identity_file.len() > 0,
    ) + seq!['\n']
}

/// The configuration text written for a list of entries: their blocks one after another.
pub open spec fn render_config(es: Seq<ConfigEntryView>) -> Seq<char>
    decreases es.len(),
{
    if es.len() == 0 {
        seq![]
    } else {
        render_config(es.drop_last()) + render_entry(es.last())
    }
}

fn push_field_line(out: &mut Vec<char>, prefix: &str, value: &String)
    ensures
        final(out)@ == old(out)@ + prefix@ + value@ + seq!['\n'],
{
    append_str(out, prefix);
    append_str(out, value.as_str());
    out.push('\n');
}

fn lit_host() -> (s: &'static str)
    ensures
        s@ == host_prefix(),
{
    proof {
        broadcast use vstd::string::group_string_axioms;

        reveal_strlit("Host ");
    }
    assert("Host "@ =~= host_prefix());
    "Host "
}

fn lit_hostname() -> (s: &'static str)
    ensures
        s@ == field_prefix(word_hostname()),
{
    proof {
        broadcast use vstd::string::group_string_axioms;

        reveal_strlit("    HostName ");
    }
    assert("    HostName "@ =~= field_prefix(word_hostname()));
    "    HostName "
}

fn lit_user() -> (s: &'static str)
    ensures
        s@ == field_prefix(word_user()),
{
    proof {
        broadcast use vstd::string::group_string_axioms;

        reveal_strlit("    User ");
    }
    assert("    User "@ =~= field_prefix(word_user()));
    "    User "
}

fn lit_port() -> (s: &'static str)
    ensures
        s@ == field_prefix(word_port()),
{
    proof {
        broadcast use vstd::string::group_string_axioms;

        reveal_strlit("    Port ");
    }
    assert("    Port "@ =~= field_prefix(word_port()));
    "    Port "
}

fn lit_identityfile() -> (s: &'static str)
    ensures
        s@ == field_prefix(word_identityfile()),
{
    proof {
        broadcast use vstd::string::group_string_axioms;

        reveal_strlit("    IdentityFile ");
    }
    assert("    IdentityFile "@ =~= field_prefix(word_identityfile()));
    "    IdentityFile "
}

fn push_opt_line(out: &mut Vec<char>, prefix: &str, value: &String, present: bool)
    ensures
        final(out)@ == old(out)@ + opt_field_line(prefix@, value@, present),
{
    if present {
        push_field_line(out, prefix, value);
        assert(final(out)@ =~= old(out)@ + opt_field_line(prefix@, value@, present));
    } else {
        assert(out@ =~= old(out)@ + opt_field_line(prefix@, value@, present));
    }
}

fn render_entry_exec(out: &mut Vec<char>, e: &SshConfigEntry)
    ensures
        final(out)@ == old(out)@ + render_entry(e@),
{
    let ghost start = out@;
    push_field_line(out, lit_host(), &e.host);
    let ghost a0 = out@;
    push_opt_line(out, lit_hostname(), &e.hostname, !e.hostname.as_str().is_empty());
    let ghost a1 = out@;
    push_opt_line(out, lit_user(), &e.user, !e.user.as_str().is_empty());
    let ghost a2 = out@;
    let port_chars = chars_of(e.port.as_str());
    let two: Vec<char> = vec!['2', '2'];
    let written = port_chars.len() > 0 && !same_chars(&port_chars, &two);
    assert(written == port_written(e.port@));
    push_opt_line(out, lit_port(), &e.port, written);
    let ghost a3 = out@;
    push_opt_line(out, lit_identityfile(), &e.identity_file, !e.identity_file.as_str().is_empty());
    out.push('\n');
    let ghost e_ = e@;
    assert(out@ =~= start + render_entry(e_));
}

/// The configuration text for a list of entries, as it is written to `~/.ssh/config`.
pub fn render_ssh_config(entries: &Vec<SshConfigEntry>) -> (r: String)
    ensures
        r@ == render_config(entry_views(entries@)),
{
    let mut out: Vec<char> = Vec::new();
    for i in 0..entries.len()
        invariant
            out@ == render_config(entry_views(entries@).take(i as int)),
    {
        render_entry_exec(&mut out, &entries[i]);
        assert(entry_views(entries@).take(i + 1).drop_last() =~= entry_views(entries@).take(i as int));
    }
    assert(entry_views(entries@).take(entries.len() as int) =~= entry_views(entries@));
    string_of(&out)
}

/// The configuration text after `entry` is added at the end of the entries read from
/// `content`.
pub fn add_ssh_config_entry(content: &str, entry: &SshConfigEntry) -> (r: String)
    ensures
        r@ == render_config(parse_config(content@).push(entry@)),
{
    let mut entries = parse_ssh_config(content);
    let ghost before = entries@;
    entries.push(entry.duplicate());
    assert(entry_views(entries@) =~= entry_views(before).push(entry@));
    render_ssh_config(&entries)
}

/// The configuration text after entry `index` is removed from the entries read from `content`;
/// none when there is no such entry (the file is then left as it is).
pub fn remove_ssh_config_entry(content: &str, index: usize) -> (r: Option<String>)
    ensures
        index < parse_config(content@).len() ==> (r matches Some(t) && t@ == render_config(
            parse_config(content@).remove(index as int),
        )),
        index >= parse_config(content@).len() ==> r is None,
{
    let mut entries = parse_ssh_config(content);
    if index < entries.len() {
        let ghost before = entries@;
        entries.remove(index);
        assert(entry_views(entries@) =~= entry_views(before).remove(index as int));
        Some(render_ssh_config(&entries))
    } else {
        None
    }
}

/// The configuration text after entry `index` of those read from `content` is replaced by
/// `entry`; none when there is no such entry (the file is then left as it is).
pub fn replace_ssh_config_entry(content: &str, index: usize, entry: &SshConfigEntry) -> (r: Option<
    String,
>)
    ensures
        index < parse_config(content@).len() ==> (r matches Some(t) && t@ == render_config(
            parse_config(content@).update(index as int, entry@),
        )),
        index >= parse_config(content@).len() ==> r is None,
{
    let mut entries = parse_ssh_config(content);
    if index < entries.len() {
        let ghost before = entries@;
        entries.set(index, entry.duplicate());
        assert(entry_views(entries@) =~= entry_views(before).update(index as int, entry@));
        Some(render_ssh_config(&entries))
    } else {
        None
    }
}

/// A change to write to the configuration file: entry `i` replaced, or an entry added.
pub enum ConfigSave {
    Replace(usize, SshConfigEntry),
    Add(SshConfigEntry),
}

/// The configuration text after a change; none when the entry to replace does not exist (the
/// file is then left as it is).
pub fn apply_config_save(content: &str, save: &ConfigSave) -> (r: Option<String>)
    ensures
        match save {
            ConfigSave::Replace(i, e) => if (*i as int) < parse_config(content@).len() {
                r matches Some(t) && t@ == render_config(parse_config(content@).update(*i as int, e@))
            } else {
                r is None
            },
            ConfigSave::Add(e) => r matches Some(t) && t@ == render_config(
                parse_config(content@).push(e@),
            ),
        },
{
    match save {
        ConfigSave::Replace(i, e) => replace_ssh_config_entry(content, *i, e),
        ConfigSave::Add(e) => Some(add_ssh_config_entry(content, e)),
    }
}

} // verus!
