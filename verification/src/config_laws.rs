use vstd::prelude::*;
use crate::config::{
    apply_kv, close_entry, config_fold, config_line_kv, config_start, config_step, default_port,
    field_line, field_prefix, host_prefix, indent, new_entry, opt_field_line, parse_config,
    port_written, render_config, render_entry, word_hostname, word_identityfile, word_port,
    word_user, ConfigEntryView, ConfigState, kw_host, kw_hostname, kw_identityfile, kw_port,
    kw_user,
};
use crate::text::{
    ascii_lower, first_ws, has_newline, is_clean, is_ws, lemma_clean_ends, lemma_first_ws_at,
    lemma_lines_append, lemma_lines_no_newline, lemma_lines_one, lemma_trim_props, lemma_trim_nonempty,
    lemma_no_newline_sub, lemma_first_ws_bounds, lemma_trim_fixed, lemma_trim_start_skip, lines,
    strip_cr, trim, trim_end, trim_start,
};

verus! {

/// An entry that the configuration file keeps as it is: a nonempty host, a nonempty port, and
/// every field free of line breaks and of whitespace at either end.
pub open spec fn entry_ok(e: ConfigEntryView) -> bool {
    &&& e.host.len() > 0
    &&& e.port.len() > 0
    &&& is_clean(e.host)
    &&& is_clean(e.hostname)
    &&& is_clean(e.user)
    &&& is_clean(e.port)
    &&& is_clean(e.identity_file)
}

pub open spec fn entries_ok(es: Seq<ConfigEntryView>) -> bool {
    forall|i: int| 0 <= i < es.len() ==> entry_ok(#[trigger] es[i])
}

pub proof fn lemma_config_fold_append(st: ConfigState, a: Seq<Seq<char>>, b: Seq<Seq<char>>)
    ensures
        config_fold(st, a + b) == config_fold(config_fold(st, a), b),
    decreases b.len(),
{
    if b.len() == 0 {
        assert(a + b =~= a);
    } else {
        lemma_config_fold_append(st, a, b.drop_last());
        assert((a + b).drop_last() =~= a + b.drop_last());
        assert((a + b).last() == b.last());
    }
}

pub proof fn lemma_config_fold_one(st: ConfigState, l: Seq<char>)
    ensures
        config_fold(st, seq![l]) == config_step(st, l),
{
    assert(seq![l].drop_last() =~= Seq::<Seq<char>>::empty());
    assert(config_fold(st, Seq::<Seq<char>>::empty()) == st);
    assert(seq![l].last() == l);
}

pub proof fn lemma_no_newline_add(a: Seq<char>, b: Seq<char>)
    requires
        !has_newline(a),
        !has_newline(b),
    ensures
        !has_newline(a + b),
{
    if has_newline(a + b) {
        let i = choose|i: int| 0 <= i < (a + b).len() && (a + b)[i] == '\n';
        if i < a.len() {
            assert(a[i] == '\n');
        } else {
            assert(b[i - a.len()] == '\n');
        }
    }
}

/// A word of ASCII letters: no whitespace, no line feed, no `#`.
pub open spec fn is_word(w: Seq<char>) -> bool {
    forall|i: int| 0 <= i < w.len() ==> ('A' <= #[trigger] w[i] <= 'Z' || 'a' <= w[i] <= 'z')
}

pub proof fn lemma_word_facts(w: Seq<char>)
    requires
        is_word(w),
    ensures
        !has_newline(w),
        forall|i: int| 0 <= i < w.len() ==> !is_ws(#[trigger] w[i]) && w[i] != '#',
{
    assert forall|i: int| 0 <= i < w.len() implies !is_ws(#[trigger] w[i]) && w[i] != '#' by {
        assert('A' <= w[i] <= 'Z' || 'a' <= w[i] <= 'z');
    }
    if has_newline(w) {
        let i = choose|i: int| 0 <= i < w.len() && w[i] == '\n';
        assert('A' <= w[i] <= 'Z' || 'a' <= w[i] <= 'z');
    }
}

pub proof fn lemma_words()
    ensures
        is_word(word_hostname()),
        is_word(word_user()),
        is_word(word_port()),
        is_word(word_identityfile()),
        is_word(seq!['H', 'o', 's', 't']),
        ascii_lower(word_hostname()) == kw_hostname(),
        ascii_lower(word_user()) == kw_user(),
        ascii_lower(word_port()) == kw_port(),
        ascii_lower(word_identityfile()) == kw_identityfile(),
        ascii_lower(seq!['H', 'o', 's', 't']) == kw_host(),
        host_prefix() == seq!['H', 'o', 's', 't'] + seq![' '],
{
    assert(ascii_lower(word_hostname()) =~= kw_hostname());
    assert(ascii_lower(word_user()) =~= kw_user());
    assert(ascii_lower(word_port()) =~= kw_port());
    assert(ascii_lower(word_identityfile()) =~= kw_identityfile());
    assert(ascii_lower(seq!['H', 'o', 's', 't']) =~= kw_host());
    assert(host_prefix() =~= seq!['H', 'o', 's', 't'] + seq![' ']);
}

/// A line `indent word value` reads as the keyword `word` with the value `value`.
pub proof fn lemma_kv_line(p: Seq<char>, w: Seq<char>, v: Seq<char>)
    requires
        forall|i: int| 0 <= i < p.len() ==> is_ws(#[trigger] p[i]),
        w.len() > 0,
        is_word(w),
        v.len() > 0,
        trim(v) == v,
    ensures
        config_line_kv(p + w + seq![' '] + v) == Some((w, v)),
{
    lemma_word_facts(w);
    lemma_clean_ends(v);
    let line = p + w + seq![' '] + v;
    let u = w + seq![' '] + v;
    assert(line[p.len() as int] == w[0]);
    assert forall|k: int| 0 <= k < p.len() implies is_ws(#[trigger] line[k]) by {
        assert(line[k] == p[k]);
    }
    lemma_trim_start_skip(line, p.len() as int);
    assert(line.skip(p.len() as int) =~= u);
    assert(u[0] == w[0]);
    assert(u.last() == v.last());
    lemma_trim_fixed(u);
    assert(trim(line) == u);
    assert forall|j: int| 0 <= j < w.len() implies !is_ws(#[trigger] u[j]) by {
        assert(u[j] == w[j]);
    }
    assert(u[w.len() as int] == ' ');
    lemma_first_ws_at(u, w.len() as int);
    assert(u.take(w.len() as int) =~= w);
    assert(u.skip(w.len() as int + 1) =~= v);
}

pub proof fn lemma_all_ws_indent()
    ensures
        forall|i: int| 0 <= i < indent().len() ==> is_ws(#[trigger] indent()[i]),
        forall|i: int| 0 <= i < Seq::<char>::empty().len() ==> is_ws(#[trigger] Seq::<char>::empty()[i]),
{
}

/// The lines of a piece `prefix value \n` added after a text that ends a line.
pub proof fn lemma_lines_piece(acc: Seq<char>, prefix: Seq<char>, value: Seq<char>, present: bool)
    requires
        acc.len() > 0,
        acc.last() == '\n',
        present ==> !has_newline(prefix) && value.len() > 0 && is_clean(value),
    ensures
        lines(acc + opt_field_line(prefix, value, present)) == lines(acc) + (if present {
            seq![prefix + value]
        } else {
            Seq::<Seq<char>>::empty()
        }),
        (acc + opt_field_line(prefix, value, present)).last() == '\n',
{
    if present {
        lemma_lines_append(acc, field_line(prefix, value));
        lemma_no_newline_add(prefix, value);
        assert(field_line(prefix, value) =~= (prefix + value).push('\n'));
        lemma_lines_one(prefix + value);
        lemma_clean_ends(value);
        assert((prefix + value).last() == value.last());
        assert(strip_cr(prefix + value) == prefix + value);
    } else {
        assert(acc + opt_field_line(prefix, value, present) =~= acc);
        assert(lines(acc) + Seq::<Seq<char>>::empty() =~= lines(acc));
    }
}

pub open spec fn opt_line(prefix: Seq<char>, value: Seq<char>, present: bool) -> Seq<Seq<char>> {
    if present {
        seq![prefix + value]
    } else {
        seq![]
    }
}

/// The lines of the block written for one entry.
pub open spec fn entry_lines(e: ConfigEntryView) -> Seq<Seq<char>> {
    seq![host_prefix() + e.host] + opt_line(
        field_prefix(word_hostname()),
        e.hostname,
        e.hostname.len() > 0,
    ) + opt_line(field_prefix(word_user()), e.user, e.user.len() > 0) + opt_line(
        field_prefix(word_port()),
        e.port,
        port_written(e.port),
    ) + opt_line(field_prefix(word_identityfile()), e.identity_file, e.identity_file.len() > 0)
        + seq![Seq::<char>::empty()]
}

pub proof fn lemma_prefixes_clean()
    ensures
        !has_newline(host_prefix()),
        !has_newline(field_prefix(word_hostname())),
        !has_newline(field_prefix(word_user())),
        !has_newline(field_prefix(word_port())),
        !has_newline(field_prefix(word_identityfile())),
{
    lemma_words();
    lemma_word_facts(seq!['H', 'o', 's', 't']);
    assert(!has_newline(seq![' ']));
    assert(!has_newline(indent()));
    lemma_no_newline_add(seq!['H', 'o', 's', 't'], seq![' ']);
    lemma_word_facts(word_hostname());
    lemma_word_facts(word_user());
    lemma_word_facts(word_port());
    lemma_word_facts(word_identityfile());
    lemma_no_newline_add(indent(), word_hostname());
    lemma_no_newline_add(indent() + word_hostname(), seq![' ']);
    lemma_no_newline_add(indent(), word_user());
    lemma_no_newline_add(indent() + word_user(), seq![' ']);
    lemma_no_newline_add(indent(), word_port());
    lemma_no_newline_add(indent() + word_port(), seq![' ']);
    lemma_no_newline_add(indent(), word_identityfile());
    lemma_no_newline_add(indent() + word_identityfile(), seq![' ']);
}

pub proof fn lemma_entry_lines(e: ConfigEntryView)
    requires
        entry_ok(e),
    ensures
        lines(render_entry(e)) == entry_lines(e),
        render_entry(e).last() == '\n',
{
    lemma_prefixes_clean();
    let a0 = field_line(host_prefix(), e.host);
    lemma_no_newline_add(host_prefix(), e.host);
    assert(a0 =~= (host_prefix() + e.host).push('\n'));
    lemma_lines_one(host_prefix() + e.host);
    lemma_clean_ends(e.host);
    assert((host_prefix() + e.host).last() == e.host.last());
    assert(lines(a0) == seq![host_prefix() + e.host]);
    let a1 = a0 + opt_field_line(field_prefix(word_hostname()), e.hostname, e.hostname.len() > 0);
    lemma_lines_piece(a0, field_prefix(word_hostname()), e.hostname, e.hostname.len() > 0);
    let a2 = a1 + opt_field_line(field_prefix(word_user()), e.user, e.user.len() > 0);
    lemma_lines_piece(a1, field_prefix(word_user()), e.user, e.user.len() > 0);
    let a3 = a2 + opt_field_line(field_prefix(word_port()), e.port, port_written(e.port));
    lemma_lines_piece(a2, field_prefix(word_port()), e.port, port_written(e.port));
    let a4 = a3 + opt_field_line(
        field_prefix(word_identityfile()),
        e.identity_file,
        e.identity_file.len() > 0,
    );
    lemma_lines_piece(
        a3,
        field_prefix(word_identityfile()),
        e.identity_file,
        e.identity_file.len() > 0,
    );
    lemma_lines_append(a4, seq!['\n']);
    assert(seq!['\n'] =~= Seq::<char>::empty().push('\n'));
    assert(!has_newline(Seq::<char>::empty()));
    lemma_lines_one(Seq::<char>::empty());
    assert(render_entry(e) == a4 + seq!['\n']);
    assert(lines(render_entry(e)) =~= entry_lines(e));
}

/// Reading the block of a well-formed entry closes the open entry and opens that entry.
pub proof fn lemma_fold_entry_lines(st: ConfigState, e: ConfigEntryView)
    requires
        entry_ok(e),
    ensures
        config_fold(st, entry_lines(e)) == (close_entry(st), Some(e)),
{
    lemma_words();
    lemma_all_ws_indent();
    let hostw = seq!['H', 'o', 's', 't'];
    let l0 = seq![host_prefix() + e.host];
    let o1 = opt_line(field_prefix(word_hostname()), e.hostname, e.hostname.len() > 0);
    let o2 = opt_line(field_prefix(word_user()), e.user, e.user.len() > 0);
    let o3 = opt_line(field_prefix(word_port()), e.port, port_written(e.port));
    let o4 = opt_line(field_prefix(word_identityfile()), e.identity_file, e.identity_file.len() > 0);
    let l5 = seq![Seq::<char>::empty()];
    // the Host line
    assert(host_prefix() + e.host =~= Seq::<char>::empty() + hostw + seq![' '] + e.host);
    lemma_kv_line(Seq::<char>::empty(), hostw, e.host);
    lemma_config_fold_one(st, host_prefix() + e.host);
    let s0 = (close_entry(st), Some(ConfigEntryView { host: e.host, ..new_entry() }));
    assert(config_fold(st, l0) == s0);
    // HostName
    lemma_config_fold_append(st, l0, o1);
    let s1 = (close_entry(st), Some(ConfigEntryView { host: e.host, hostname: e.hostname, ..new_entry() }));
    if e.hostname.len() > 0 {
        assert(field_prefix(word_hostname()) + e.hostname =~= indent() + word_hostname() + seq![' '] + e.hostname);
        lemma_kv_line(indent(), word_hostname(), e.hostname);
        lemma_config_fold_one(s0, field_prefix(word_hostname()) + e.hostname);
        assert(config_line_kv(field_prefix(word_hostname()) + e.hostname) == Some((word_hostname(), e.hostname)));
        assert(kw_hostname() != kw_host()) by { assert(kw_hostname().len() != kw_host().len()); }
        assert(apply_kv(s0, word_hostname(), e.hostname) == s1);
        assert(config_step(s0, field_prefix(word_hostname()) + e.hostname) == s1);
        assert(o1 == seq![field_prefix(word_hostname()) + e.hostname]);
        assert(config_fold(s0, o1) == s1);
    } else {
        assert(e.hostname =~= Seq::<char>::empty());
        assert(l0 + o1 =~= l0);
    }
    assert(config_fold(st, l0 + o1) == s1);
    // User
    lemma_config_fold_append(st, l0 + o1, o2);
    let s2 = (close_entry(st), Some(ConfigEntryView { host: e.host, hostname: e.hostname, user: e.user, ..new_entry() }));
    if e.user.len() > 0 {
        assert(field_prefix(word_user()) + e.user =~= indent() + word_user() + seq![' '] + e.user);
        lemma_kv_line(indent(), word_user(), e.user);
        lemma_config_fold_one(s1, field_prefix(word_user()) + e.user);
    } else {
        assert(e.user =~= Seq::<char>::empty());
        assert(l0 + o1 + o2 =~= l0 + o1);
    }
    assert(config_fold(st, l0 + o1 + o2) == s2);
    // Port
    lemma_config_fold_append(st, l0 + o1 + o2, o3);
    let s3 = (close_entry(st), Some(ConfigEntryView { host: e.host, hostname: e.hostname, user: e.user, port: e.port, ..new_entry() }));
    if port_written(e.port) {
        assert(field_prefix(word_port()) + e.port =~= indent() + word_port() + seq![' '] + e.port);
        lemma_kv_line(indent(), word_port(), e.port);
        lemma_config_fold_one(s2, field_prefix(word_port()) + e.port);
    } else {
        assert(e.port == default_port());
        assert(l0 + o1 + o2 + o3 =~= l0 + o1 + o2);
    }
    assert(config_fold(st, l0 + o1 + o2 + o3) == s3);
    // IdentityFile
    lemma_config_fold_append(st, l0 + o1 + o2 + o3, o4);
    if e.identity_file.len() > 0 {
        assert(field_prefix(word_identityfile()) + e.identity_file =~= indent() + word_identityfile() + seq![' '] + e.identity_file);
        lemma_kv_line(indent(), word_identityfile(), e.identity_file);
        lemma_config_fold_one(s3, field_prefix(word_identityfile()) + e.identity_file);
    } else {
        assert(e.identity_file =~= Seq::<char>::empty());
        assert(l0 + o1 + o2 + o3 + o4 =~= l0 + o1 + o2 + o3);
    }
    let s4 = (close_entry(st), Some(e));
    assert(config_fold(st, l0 + o1 + o2 + o3 + o4) == s4);
    // blank line
    lemma_config_fold_append(st, l0 + o1 + o2 + o3 + o4, l5);
    lemma_config_fold_one(s4, Seq::<char>::empty());
    assert(trim_start(Seq::<char>::empty()) == Seq::<char>::empty());
    assert(trim_end(Seq::<char>::empty()) == Seq::<char>::empty());
    assert(config_line_kv(Seq::<char>::empty()) is None);
    assert(entry_lines(e) == l0 + o1 + o2 + o3 + o4 + l5);
}

/// The state after reading the blocks of the given entries.
pub open spec fn state_after(es: Seq<ConfigEntryView>) -> ConfigState {
    if es.len() == 0 {
        config_start()
    } else {
        (es.drop_last(), Some(es.last()))
    }
}

pub proof fn lemma_fold_render(es: Seq<ConfigEntryView>)
    requires
        entries_ok(es),
    ensures
        config_fold(config_start(), lines(render_config(es))) == state_after(es),
        render_config(es).len() == 0 || render_config(es).last() == '\n',
    decreases es.len(),
{
    if es.len() == 0 {
        assert(lines(Seq::<char>::empty()) =~= Seq::<Seq<char>>::empty());
    } else {
        let init = es.drop_last();
        assert(entries_ok(init)) by {
            assert forall|i: int| 0 <= i < init.len() implies entry_ok(#[trigger] init[i]) by {
                assert(init[i] == es[i]);
            }
        }
        lemma_fold_render(init);
        let e = es.last();
        assert(entry_ok(e)) by {
            assert(es[es.len() - 1] == e);
        }
        lemma_entry_lines(e);
        lemma_lines_append(render_config(init), render_entry(e));
        lemma_config_fold_append(config_start(), lines(render_config(init)), entry_lines(e));
        lemma_fold_entry_lines(state_after(init), e);
        if init.len() == 0 {
            assert(close_entry(config_start()) =~= init);
        } else {
            assert(init.drop_last().push(init.last()) =~= init);
        }
        assert(render_entry(e).len() > 0);
        assert((render_config(init) + render_entry(e)).last() == render_entry(e).last());
    }
}

/// Writing a list of well-formed entries to the configuration file and reading it back gives
/// the same entries.
pub proof fn law_parse_render(es: Seq<ConfigEntryView>)
    requires
        entries_ok(es),
    ensures
        parse_config(render_config(es)) == es,
{
    lemma_fold_render(es);
    if es.len() > 0 {
        assert(es.drop_last().push(es.last()) =~= es);
    }
}

/// Every value read from a line is nonempty, clean, and free of line breaks.
pub proof fn lemma_kv_value_clean(line: Seq<char>)
    requires
        !has_newline(line),
    ensures
        config_line_kv(line) matches Some((_, v)) ==> v.len() > 0 && is_clean(v),
{
    if config_line_kv(line) is Some {
        let t = trim(line);
        lemma_trim_props(line);
        lemma_first_ws_bounds(t);
        let k = first_ws(t);
        assert(k != t.len() - 1) by {
            assert(t[t.len() - 1] == t.last());
        }
        let r = t.skip(k + 1);
        assert(r.last() == t.last());
        lemma_trim_nonempty(r);
        lemma_trim_props(r);
        assert(r =~= t.subrange(k + 1, t.len() as int));
        lemma_no_newline_sub(t, k + 1, t.len() as int);
    }
}

pub open spec fn state_ok(st: ConfigState) -> bool {
    &&& entries_ok(st.0)
    &&& (st.1 matches Some(e) ==> entry_ok(e))
}

pub proof fn lemma_new_entry_ok(h: Seq<char>)
    requires
        h.len() > 0,
        is_clean(h),
    ensures
        entry_ok(ConfigEntryView { host: h, ..new_entry() }),
{
    let e = new_entry();
    assert(!has_newline(Seq::<char>::empty()));
    assert(trim(Seq::<char>::empty()) == Seq::<char>::empty());
    assert(!is_ws('2'));
    lemma_trim_fixed(default_port());
    assert(!has_newline(default_port())) by {
        if has_newline(default_port()) {
            let i = choose|i: int| 0 <= i < default_port().len() && default_port()[i] == '\n';
            assert(default_port()[i] == '2');
        }
    }
}

pub proof fn lemma_step_ok(st: ConfigState, line: Seq<char>)
    requires
        state_ok(st),
        !has_newline(line),
    ensures
        state_ok(config_step(st, line)),
{
    if let Some((k, v)) = config_line_kv(line) {
        lemma_kv_value_clean(line);
        let key = ascii_lower(k);
        if key == kw_host() {
            lemma_new_entry_ok(v);
            if let Some(e) = st.1 {
                assert forall|i: int| 0 <= i < st.0.push(e).len() implies entry_ok(#[trigger] st.0.push(e)[i]) by {
                    if i < st.0.len() {
                        assert(st.0.push(e)[i] == st.0[i]);
                    }
                }
            }
        }
    }
}

pub proof fn lemma_fold_ok(ls: Seq<Seq<char>>)
    requires
        forall|i: int| 0 <= i < ls.len() ==> !has_newline(#[trigger] ls[i]),
    ensures
        state_ok(config_fold(config_start(), ls)),
    decreases ls.len(),
{
    if ls.len() > 0 {
        assert forall|i: int| 0 <= i < ls.drop_last().len() implies !has_newline(#[trigger] ls.drop_last()[i]) by {
            assert(ls.drop_last()[i] == ls[i]);
        }
        lemma_fold_ok(ls.drop_last());
        assert(!has_newline(ls[ls.len() - 1]));
        lemma_step_ok(config_fold(config_start(), ls.drop_last()), ls.last());
    }
}

/// Every entry read from a configuration text is well formed.
pub proof fn law_parse_ok(text: Seq<char>)
    ensures
        entries_ok(parse_config(text)),
{
    lemma_lines_no_newline(text);
    lemma_fold_ok(lines(text));
    let st = config_fold(config_start(), lines(text));
    if let Some(e) = st.1 {
        assert forall|i: int| 0 <= i < st.0.push(e).len() implies entry_ok(#[trigger] st.0.push(e)[i]) by {
            if i < st.0.len() {
                assert(st.0.push(e)[i] == st.0[i]);
            }
        }
    }
}

/// Writing back what was read from a configuration text reads back the same entries.
pub proof fn law_render_parsed(text: Seq<char>)
    ensures
        parse_config(render_config(parse_config(text))) == parse_config(text),
{
    law_parse_ok(text);
    law_parse_render(parse_config(text));
}

/// After a well-formed entry is added to the file, the file reads as the old entries followed
/// by the new one.
pub proof fn law_add_entry(text: Seq<char>, e: ConfigEntryView)
    requires
        entry_ok(e),
    ensures
        parse_config(render_config(parse_config(text).push(e))) == parse_config(text).push(e),
{
    let es = parse_config(text);
    law_parse_ok(text);
    assert forall|i: int| 0 <= i < es.push(e).len() implies entry_ok(#[trigger] es.push(e)[i]) by {
        if i < es.len() {
            assert(es.push(e)[i] == es[i]);
        }
    }
    law_parse_render(es.push(e));
}

/// After entry `i` is removed, the file reads as the old entries without entry `i`.
pub proof fn law_remove_entry(text: Seq<char>, i: int)
    requires
        0 <= i < parse_config(text).len(),
    ensures
        parse_config(render_config(parse_config(text).remove(i))) == parse_config(text).remove(i),
{
    let es = parse_config(text);
    law_parse_ok(text);
    assert forall|j: int| 0 <= j < es.remove(i).len() implies entry_ok(#[trigger] es.remove(i)[j]) by {
        if j < i {
            assert(es.remove(i)[j] == es[j]);
        } else {
            assert(es.remove(i)[j] == es[j + 1]);
        }
    }
    law_parse_render(es.remove(i));
}

/// After entry `i` is replaced by a well-formed entry, the file reads as the old entries with
/// entry `i` replaced.
pub proof fn law_replace_entry(text: Seq<char>, i: int, e: ConfigEntryView)
    requires
        0 <= i < parse_config(text).len(),
        entry_ok(e),
    ensures
        parse_config(render_config(parse_config(text).update(i, e))) == parse_config(text).update(i, e),
{
    let es = parse_config(text);
    law_parse_ok(text);
    assert forall|j: int| 0 <= j < es.update(i, e).len() implies entry_ok(#[trigger] es.update(i, e)[j]) by {
        if j != i {
            assert(es.update(i, e)[j] == es[j]);
        }
    }
    law_parse_render(es.update(i, e));
}

} // verus!
