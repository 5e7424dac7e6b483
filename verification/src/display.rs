use vstd::prelude::*;
use crate::app::ActiveTab;
use crate::config::{ConfigEntryView, SshConfigEntry};
use crate::text::{chars_of, push_char};

verus! {

/// The line listing a configuration entry: `host → user@hostname:port` (`*` for an empty user)
/// when it names a host, otherwise the host alone.
pub open spec fn entry_summary(e: ConfigEntryView) -> Seq<char> {
    if e.hostname.len() > 0 {
        e.host + " → "@ + (if e.user.len() == 0 {
            "*"@
        } else {
            e.user
        }) + "@"@ + e.hostname + ":"@ + e.port
    } else {
        e.host
    }
}

/// The line listing a configuration entry (see [`entry_summary`]).
pub fn config_entry_summary(e: &SshConfigEntry) -> (r: String)
    ensures
        r@ == entry_summary(e@),
{
    if e.hostname.as_str().is_empty() {
        return e.host.clone();
    }
    let mut r = e.host.clone();
    r.append(" → ");
    if e.user.as_str().is_empty() {
        r.append("*");
    } else {
        r.append(e.user.as_str());
    }
    r.append("@");
    r.append(e.hostname.as_str());
    r.append(":");
    r.append(e.port.as_str());
    r
}

/// A field as shown in the details: `-` when it is empty.
pub fn or_dash(s: &String) -> (r: String)
    ensures
        r@ == (if s@.len() == 0 {
            "-"@
        } else {
            s@
        }),
{
    if s.as_str().is_empty() {
        String::from_str("-")
    } else {
        s.clone()
    }
}

/// A passphrase as shown while it is typed: one `*` for each character.
pub fn mask_password(p: &String) -> (r: String)
    ensures
        r@ == Seq::new(p@.len(), |i: int| '*'),
{
    let cs = chars_of(p.as_str());
    let mut r = String::new();
    for i in 0..cs.len()
        invariant
            cs@ == p@,
            r@ == Seq::new(i as nat, |j: int| '*'),
    {
        push_char(&mut r, '*');
        assert(r@ =~= Seq::new((i + 1) as nat, |j: int| '*'));
    }
    r
}

/// A text padded with spaces on the right to `width` characters (left as it is when longer),
/// as the format `{:<width}` does.
pub fn pad_right(s: &String, width: usize) -> (r: String)
    ensures
        r@ == s@ + Seq::new(if s@.len() < width { (width - s@.len()) as nat } else { 0 }, |j: int| ' '),
{
    let n = chars_of(s.as_str()).len();
    let mut r = s.clone();
    let mut k = n;
    while k < width
        invariant
            n == s@.len(),
            n <= k <= width || (k == n && n >= width),
            r@ == s@ + Seq::new((k - n) as nat, |j: int| ' '),
        decreases width - k,
    {
        push_char(&mut r, ' ');
        k += 1;
        assert(r@ =~= s@ + Seq::new((k - n) as nat, |j: int| ' '));
    }
    assert(s@ + Seq::new((k - n) as nat, |j: int| ' ') =~= s@ + Seq::new(if s@.len() < width { (width - s@.len()) as nat } else { 0 }, |j: int| ' '));
    r
}

/// The keys offered in the header for a tab, each with what it does; quitting is offered on
/// every tab after these.
pub open spec fn hints_of(tab: ActiveTab) -> Seq<(Seq<char>, Seq<char>)> {
    match tab {
        ActiveTab::Keys => seq![
            ("n"@, ":new "@),
            ("i"@, ":import "@),
            ("c"@, ":copy "@),
            ("e"@, ":export "@),
            ("/"@, ":search "@),
        ],
        ActiveTab::SshConfig => seq![("a"@, ":add "@), ("e"@, ":edit "@), ("d"@, ":delete "@)],
        ActiveTab::KnownHosts => seq![("d"@, ":delete "@)],
    }
}

fn hint(key: &str, what: &str) -> (r: (String, String))
    ensures
        r.0@ == key@,
        r.1@ == what@,
{
    (String::from_str(key), String::from_str(what))
}

/// The keys offered in the header for a tab (see [`hints_of`]).
pub fn tab_hints(tab: ActiveTab) -> (r: Vec<(String, String)>)
    ensures
        r@.map_values(|h: (String, String)| (h.0@, h.1@)) == hints_of(tab),
{
    let mut r: Vec<(String, String)> = Vec::new();
    match tab {
        ActiveTab::Keys => {
            r.push(hint("n", ":new "));
            r.push(hint("i", ":import "));
            r.push(hint("c", ":copy "));
            r.push(hint("e", ":export "));
            r.push(hint("/", ":search "));
        },
        ActiveTab::SshConfig => {
            r.push(hint("a", ":add "));
            r.push(hint("e", ":edit "));
            r.push(hint("d", ":delete "));
        },
        ActiveTab::KnownHosts => {
            r.push(hint("d", ":delete "));
        },
    }
    assert(r@.map_values(|h: (String, String)| (h.0@, h.1@)) =~= hints_of(tab));
    r
}

/// The title of the configuration form: editing an entry or adding one.
pub fn config_form_title(editing: bool) -> (r: &'static str)
    ensures
        r@ == (if editing {
            " Edit SSH Config Entry "@
        } else {
            " Add SSH Config Entry "@
        }),
{
    if editing {
        " Edit SSH Config Entry "
    } else {
        " Add SSH Config Entry "
    }
}

/// The column of the cursor after a text typed into a field: the field's left edge, the width
/// of the prompt before the text, and one column per character typed (the last column of the
/// screen when that is past it).
pub fn cursor_column(left: u16, prompt: u16, text: &String) -> (r: u16)
    ensures
        r == (if left + prompt + text@.len() <= u16::MAX {
            left + prompt + text@.len()
        } else {
            u16::MAX as int
        }),
{
    let n = chars_of(text.as_str()).len();
    if n > 65535 {
        return 65535;
    }
    let total: u32 = left as u32 + prompt as u32 + n as u32;
    if total > 65535 {
        65535
    } else {
        total as u16
    }
}

} // verus!
