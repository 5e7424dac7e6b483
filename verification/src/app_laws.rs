use vstd::prelude::*;
use crate::app::{
    backspaced, clamp_row, contains_text, entry_backspaced, entry_typed, export_target,
    key_name_char, lemma_first_match_at, matching_indices, next_config_field, next_row, present,
    previous_row, reselect, selected_key, visible, AppView, ConfigEditField,
};
use crate::config::ConfigEntryView;
use crate::keys::SshKeyView;
use crate::text::ascii_lower;

verus! {

/// Moving down and then up returns to the row where the selection was, in any nonempty list.
pub proof fn law_next_then_previous(i: usize, n: nat)
    requires
        i < n <= usize::MAX,
    ensures
        previous_row(Some(next_row(Some(i), n) as usize), n) == i,
{
}

/// Moving up and then down returns to the row where the selection was, in any nonempty list.
pub proof fn law_previous_then_next(i: usize, n: nat)
    requires
        i < n <= usize::MAX,
    ensures
        next_row(Some(previous_row(Some(i), n) as usize), n) == i,
{
}

/// In a nonempty list, moving a selection that is on a row (or absent) up or down keeps it on a
/// row of the list.
pub proof fn law_moves_stay_in_list(sel: Option<usize>, n: nat)
    requires
        n > 0,
        sel matches Some(i) ==> i < n,
    ensures
        0 <= next_row(sel, n) < n,
        0 <= previous_row(sel, n) < n,
{
}

/// Typing a character and deleting it leaves the text as it was.
pub proof fn law_backspace_undoes_typing(s: Seq<char>, c: char)
    ensures
        backspaced(s.push(c)) == s,
{
    assert(s.push(c).drop_last() =~= s);
}

/// A key name typed into the form holds only ASCII letters, digits, `_` and `-`, whatever is
/// typed or deleted.
pub open spec fn valid_key_name(s: Seq<char>) -> bool {
    forall|i: int| 0 <= i < s.len() ==> key_name_char(#[trigger] s[i])
}

pub proof fn law_key_name_stays_valid(s: Seq<char>, c: char)
    requires
        valid_key_name(s),
    ensures
        valid_key_name(if key_name_char(c) {
            s.push(c)
        } else {
            s
        }),
        valid_key_name(backspaced(s)),
{
    if key_name_char(c) {
        assert forall|i: int| 0 <= i < s.push(c).len() implies key_name_char(#[trigger] s.push(c)[i]) by {
            if i < s.len() {
                assert(s.push(c)[i] == s[i]);
            }
        }
    }
    if s.len() > 0 {
        assert forall|i: int| 0 <= i < s.drop_last().len() implies key_name_char(#[trigger] s.drop_last()[i]) by {
            assert(s.drop_last()[i] == s[i]);
        }
    }
}

/// Moving to the next field five times comes back to the field where one started.
pub proof fn law_config_fields_cycle(f: ConfigEditField)
    ensures
        next_config_field(next_config_field(next_config_field(next_config_field(next_config_field(f))))) == f,
{
}

/// Whether position `i` is among `s`.
pub open spec fn is_listed(s: Seq<usize>, i: int) -> bool {
    exists|k: int| 0 <= k < s.len() && s[k] == i
}

/// The search results are positions of names, in increasing order, and a position is among
/// them exactly when its name contains the query (every position when the query is empty).
pub proof fn law_search_results(names: Seq<Seq<char>>, q: Seq<char>)
    requires
        names.len() <= usize::MAX,
    ensures
        forall|k: int| 0 <= k < matching_indices(names, q).len() ==> #[trigger] matching_indices(names, q)[k] < names.len(),
        forall|k: int, m: int| 0 <= k < m < matching_indices(names, q).len() ==> #[trigger] matching_indices(names, q)[k] < #[trigger] matching_indices(names, q)[m],
        forall|i: int| 0 <= i < names.len() ==> (#[trigger] is_listed(matching_indices(names, q), i) <==> (q.len() == 0 || contains_text(names[i], q))),
    decreases names.len(), 1int,
{
    if names.len() > 0 {
        let init = names.drop_last();
        law_search_results(init, q);
        let r = matching_indices(names, q);
        let ri = matching_indices(init, q);
        assert forall|k: int| 0 <= k < r.len() implies #[trigger] r[k] < names.len() by {
            if k < ri.len() {
                assert(r[k] == ri[k]);
            }
        }
        assert forall|k: int, m: int| 0 <= k < m < r.len() implies #[trigger] r[k] < #[trigger] r[m] by {
            assert(r[k] == ri[k]);
            if m < ri.len() {
                assert(r[m] == ri[m]);
            }
        }
        assert forall|i: int| 0 <= i < names.len() implies (#[trigger] is_listed(matching_indices(names, q), i) <==> (q.len() == 0 || contains_text(names[i], q))) by {
            lemma_listed_iff(names, q, i);
        }
    }
}

pub proof fn lemma_listed_iff(names: Seq<Seq<char>>, q: Seq<char>, i: int)
    requires
        names.len() <= usize::MAX,
        0 <= i < names.len(),
    ensures
        is_listed(matching_indices(names, q), i) <==> (q.len() == 0 || contains_text(names[i], q)),
    decreases names.len(), 0int,
{
    let init = names.drop_last();
    let r = matching_indices(names, q);
    let ri = matching_indices(init, q);
    if init.len() > 0 {
        law_search_results(init, q);
    }
    if i < init.len() {
        lemma_listed_iff(init, q, i);
        assert(names[i] == init[i]);
        if is_listed(r, i) {
            let k = choose|k: int| 0 <= k < r.len() && r[k] == i;
            if k < ri.len() {
                assert(ri[k] == r[k]);
            }
        }
        if is_listed(ri, i) {
            let k = choose|k: int| 0 <= k < ri.len() && ri[k] == i;
            assert(r[k] == ri[k]);
        }
    } else {
        if q.len() == 0 || contains_text(names.last(), q) {
            assert(r[r.len() - 1] == i);
        } else {
            if is_listed(r, i) {
                let k = choose|k: int| 0 <= k < r.len() && r[k] == i;
                assert(r[k] == ri[k]);
                assert(ri[k] < init.len());
            }
        }
    }
}

/// With an empty query the search lists every key, in order.
pub proof fn law_empty_query_lists_all(names: Seq<Seq<char>>)
    requires
        names.len() <= usize::MAX,
    ensures
        matching_indices(names, Seq::<char>::empty()) == Seq::new(names.len(), |i: int| i as usize),
    decreases names.len(),
{
    if names.len() > 0 {
        law_empty_query_lists_all(names.drop_last());
        assert(matching_indices(names, Seq::<char>::empty()) =~= Seq::new(names.len(), |i: int| i as usize));
    } else {
        assert(matching_indices(names, Seq::<char>::empty()) =~= Seq::new(names.len(), |i: int| i as usize));
    }
}

pub proof fn lemma_present_all(keys: Seq<SshKeyView>, idx: Seq<usize>)
    requires
        forall|k: int| 0 <= k < idx.len() ==> #[trigger] idx[k] < keys.len(),
    ensures
        present(keys, idx) == idx.map_values(|j: usize| keys[j as int]),
    decreases idx.len(),
{
    if idx.len() > 0 {
        assert forall|k: int| 0 <= k < idx.drop_last().len() implies #[trigger] idx.drop_last()[k] < keys.len() by {
            assert(idx.drop_last()[k] == idx[k]);
        }
        lemma_present_all(keys, idx.drop_last());
        assert(idx[idx.len() - 1] == idx.last());
        assert(present(keys, idx) =~= idx.map_values(|j: usize| keys[j as int]));
    } else {
        assert(present(keys, idx) =~= idx.map_values(|j: usize| keys[j as int]));
    }
}

/// While a search is active and every result is a position of a key, the highlighted key is
/// the listed key at the highlighted row.
pub proof fn law_selected_is_listed(v: AppView, s: usize)
    requires
        v.search_active,
        forall|k: int| 0 <= k < v.filtered_keys.len() ==> #[trigger] v.filtered_keys[k] < v.keys.len(),
        v.list_state == Some(s),
        s < v.filtered_keys.len(),
    ensures
        s < visible(v).len(),
        selected_key(v) == Some(visible(v)[s as int]),
{
    lemma_present_all(v.keys, v.filtered_keys);
}

/// After the selected row of a list is deleted and the list read again, the selection is on a
/// row of the new list, or there is none when the list is empty.
pub proof fn law_delete_keeps_selection_in_list(idx: usize, len: nat)
    requires
        len <= usize::MAX,
    ensures
        len == 0 ==> clamp_row(Some(idx), idx, len) is None,
        len > 0 ==> (clamp_row(Some(idx), idx, len) matches Some(j) && j < len),
{
}

/// A query that extends another lists no position that the shorter one does not list.
pub proof fn law_longer_query_narrows(names: Seq<Seq<char>>, q: Seq<char>, q2: Seq<char>)
    requires
        names.len() <= usize::MAX,
        q.len() <= q2.len(),
        q2.take(q.len() as int) == q,
    ensures
        forall|i: int| #[trigger] is_listed(matching_indices(names, q2), i) ==> is_listed(
            matching_indices(names, q),
            i,
        ),
{
    law_search_results(names, q2);
    assert forall|i: int| #[trigger] is_listed(matching_indices(names, q2), i) implies is_listed(
        matching_indices(names, q),
        i,
    ) by {
        let r2 = matching_indices(names, q2);
        let k = choose|k: int| 0 <= k < r2.len() && r2[k] == i;
        assert(r2[k] < names.len());
        lemma_listed_iff(names, q2, i);
        lemma_listed_iff(names, q, i);
        if q2.len() > 0 {
            let h = names[i];
            let j = choose|j: int| 0 <= j && j + q2.len() <= h.len() && #[trigger] h.subrange(j, j + q2.len()) == q2;
            assert(h.subrange(j, j + q.len()) =~= q2.take(q.len() as int)) by {
                assert forall|m: int| 0 <= m < q.len() implies h.subrange(j, j + q.len())[m] == q2.take(q.len() as int)[m] by {
                    assert(h.subrange(j, j + q2.len())[m] == h[j + m]);
                }
            }
            assert(contains_text(h, q));
        } else {
            assert(q.len() == 0);
        }
    }
}

/// Typing one more character into a search query (ASCII, so that lower-casing works character
/// by character) never adds a match: every position listed afterwards was listed before. Both
/// listings are increasing (see [`law_search_results`]), so the new one is a subsequence of the
/// old.
pub proof fn law_typing_narrows_search(names: Seq<Seq<char>>, s: Seq<char>, c: char)
    requires
        names.len() <= usize::MAX,
    ensures
        forall|i: int| #[trigger] is_listed(matching_indices(names, ascii_lower(s.push(c))), i) ==> is_listed(
            matching_indices(names, ascii_lower(s)),
            i,
        ),
{
    assert(ascii_lower(s.push(c)).take(s.len() as int) =~= ascii_lower(s));
    law_longer_query_narrows(names, ascii_lower(s), ascii_lower(s.push(c)));
}

/// A name is listed by the search exactly when the query occurs in it somewhere, a match that
/// covers the whole name included (every name is listed for an empty query).
pub proof fn law_search_lists_occurrences(names: Seq<Seq<char>>, q: Seq<char>, i: int, j: int)
    requires
        names.len() <= usize::MAX,
        0 <= i < names.len(),
        0 <= j,
        j + q.len() <= names[i].len(),
        names[i].subrange(j, j + q.len()) == q,
    ensures
        is_listed(matching_indices(names, q), i),
{
    lemma_listed_iff(names, q, i);
    assert(contains_text(names[i], q));
}

/// A name equal to the query is listed.
pub proof fn law_search_lists_equal_name(names: Seq<Seq<char>>, i: int)
    requires
        names.len() <= usize::MAX,
        0 <= i < names.len(),
    ensures
        is_listed(matching_indices(names, names[i]), i),
{
    assert(names[i].subrange(0, names[i].len() as int) =~= names[i]);
    law_search_lists_occurrences(names, names[i], i, 0);
}

/// A listed name holds the query at some position (or the query is empty).
pub proof fn law_search_lists_only_occurrences(names: Seq<Seq<char>>, q: Seq<char>, i: int)
    requires
        names.len() <= usize::MAX,
        0 <= i < names.len(),
        is_listed(matching_indices(names, q), i),
    ensures
        q.len() == 0 || exists|j: int|
            0 <= j && j + q.len() <= names[i].len() && #[trigger] names[i].subrange(j, j + q.len()) == q,
{
    lemma_listed_iff(names, q, i);
}

/// The characters a key name accepts are exactly the ASCII letters and digits, `_` and `-`.
pub proof fn law_key_name_chars(c: char)
    ensures
        key_name_char(c) <==> ((48 <= (c as u32) <= 57) || (65 <= (c as u32) <= 90) || (97
            <= (c as u32) <= 122) || c == '_' || c == '-'),
{
}

/// Typing into a field of the configuration form changes that field alone: the character is
/// added at its end (for the port, only a digit is), and every other field stays as it was.
pub proof fn law_typing_changes_one_field(e: ConfigEntryView, f: ConfigEditField, c: char)
    ensures
        entry_typed(e, f, c).host == (if f == ConfigEditField::Host {
            e.host.push(c)
        } else {
            e.host
        }),
        entry_typed(e, f, c).hostname == (if f == ConfigEditField::Hostname {
            e.hostname.push(c)
        } else {
            e.hostname
        }),
        entry_typed(e, f, c).user == (if f == ConfigEditField::User {
            e.user.push(c)
        } else {
            e.user
        }),
        entry_typed(e, f, c).port == (if f == ConfigEditField::Port && 48 <= (c as u32) <= 57 {
            e.port.push(c)
        } else {
            e.port
        }),
        entry_typed(e, f, c).identity_file == (if f == ConfigEditField::IdentityFile {
            e.identity_file.push(c)
        } else {
            e.identity_file
        }),
{
}

/// A backspace in a field of the configuration form shortens that field alone.
pub proof fn law_backspace_changes_one_field(e: ConfigEntryView, f: ConfigEditField)
    ensures
        entry_backspaced(e, f).host == (if f == ConfigEditField::Host {
            backspaced(e.host)
        } else {
            e.host
        }),
        entry_backspaced(e, f).hostname == (if f == ConfigEditField::Hostname {
            backspaced(e.hostname)
        } else {
            e.hostname
        }),
        entry_backspaced(e, f).user == (if f == ConfigEditField::User {
            backspaced(e.user)
        } else {
            e.user
        }),
        entry_backspaced(e, f).port == (if f == ConfigEditField::Port {
            backspaced(e.port)
        } else {
            e.port
        }),
        entry_backspaced(e, f).identity_file == (if f == ConfigEditField::IdentityFile {
            backspaced(e.identity_file)
        } else {
            e.identity_file
        }),
{
}

/// The key exported is the highlighted key (through the search results while a search with
/// results is active), to the platform chosen.
pub proof fn law_export_takes_highlighted_key(v: AppView)
    requires
        selected_key(v) is Some,
        v.export_platform is Some,
    ensures
        export_target(v) == Some((v.export_platform->0, selected_key(v)->0)),
{
}

/// While a search is active, the highlighted key is the key at the highlighted row of the
/// listed keys, counted through the search results.
pub proof fn law_highlighted_key_under_search(v: AppView, s: usize)
    requires
        v.search_active,
        v.filtered_keys.len() > 0,
        v.list_state == Some(s),
        s < v.filtered_keys.len(),
        v.filtered_keys[s as int] < v.keys.len(),
    ensures
        selected_key(v) == Some(v.keys[v.filtered_keys[s as int] as int]),
{
}

/// After the key list is read again, the selection moves to the first key that the new key is
/// recognised by (its name, or where its file now is), when there is one; otherwise it stays.
pub proof fn law_reselect_finds_first(old_sel: Option<usize>, keys: Seq<SshKeyView>, f: spec_fn(SshKeyView) -> bool, j: int)
    requires
        keys.len() <= usize::MAX,
        0 <= j < keys.len(),
        f(keys[j]),
        forall|k: int| 0 <= k < j ==> !f(#[trigger] keys[k]),
    ensures
        reselect(old_sel, keys, f) == Some(j as usize),
{
    lemma_first_match_at(keys, f, j);
}

/// When no key is recognised, the selection stays where it was.
pub proof fn law_reselect_keeps(old_sel: Option<usize>, keys: Seq<SshKeyView>, f: spec_fn(SshKeyView) -> bool)
    requires
        forall|k: int| 0 <= k < keys.len() ==> !f(#[trigger] keys[k]),
    ensures
        reselect(old_sel, keys, f) == old_sel,
{
    lemma_first_match_at(keys, f, keys.len() as int);
}

/// Moving through the configuration form visits five different fields before it comes back.
pub proof fn law_config_fields_all_visited(f: ConfigEditField)
    ensures
        ({
            let f1 = next_config_field(f);
            let f2 = next_config_field(f1);
            let f3 = next_config_field(f2);
            let f4 = next_config_field(f3);
            &&& f != f1 && f != f2 && f != f3 && f != f4
            &&& f1 != f2 && f1 != f3 && f1 != f4
            &&& f2 != f3 && f2 != f4
            &&& f3 != f4
        }),
        next_config_field(ConfigEditField::Host) == ConfigEditField::Hostname,
{
}

} // verus!
