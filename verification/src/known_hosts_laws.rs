use vstd::prelude::*;
use crate::known_hosts::{
    host_line_entry, host_line_parts, hosts_of_lines, join_lines,
    listed_positions, opt_seq, shown_fingerprint, parse_hosts, without_line, KnownHostView,
    lemma_listed_positions,
};
use crate::text::{
    has_newline, is_ws, lemma_lines_append, lemma_lines_no_newline, lemma_lines_one, lines,
    strip_cr, trim, trim_start,
};

verus! {

pub proof fn lemma_hosts_append(a: Seq<Seq<char>>, b: Seq<Seq<char>>)
    ensures
        hosts_of_lines(a + b) == hosts_of_lines(a) + hosts_of_lines(b),
    decreases b.len(),
{
    if b.len() == 0 {
        assert(a + b =~= a);
        assert(hosts_of_lines(a) + hosts_of_lines(b) =~= hosts_of_lines(a));
    } else {
        lemma_hosts_append(a, b.drop_last());
        assert((a + b).drop_last() =~= a + b.drop_last());
        assert((a + b).last() == b.last());
        let o = opt_seq(host_line_entry(b.last()));
        assert(hosts_of_lines(a) + hosts_of_lines(b.drop_last()) + o =~= hosts_of_lines(a) + (
        hosts_of_lines(b.drop_last()) + o));
    }
}

/// Each line followed by a line feed.
pub open spec fn lines_with_breaks(ls: Seq<Seq<char>>) -> Seq<char>
    decreases ls.len(),
{
    if ls.len() == 0 {
        seq![]
    } else {
        lines_with_breaks(ls.drop_last()) + ls.last() + seq!['\n']
    }
}

pub proof fn lemma_join_breaks(ls: Seq<Seq<char>>)
    requires
        ls.len() > 0,
    ensures
        join_lines(ls) + seq!['\n'] == lines_with_breaks(ls),
    decreases ls.len(),
{
    if ls.len() == 1 {
        assert(ls.drop_last() =~= Seq::<Seq<char>>::empty());
        assert(ls.last() == ls[0]);
        assert(lines_with_breaks(ls.drop_last()) == Seq::<char>::empty());
        assert(lines_with_breaks(ls) =~= ls[0] + seq!['\n']);
    } else {
        lemma_join_breaks(ls.drop_last());
        assert(join_lines(ls) + seq!['\n'] =~= (join_lines(ls.drop_last()) + seq!['\n']) + ls.last()
            + seq!['\n']);
    }
}

pub proof fn lemma_lines_breaks(ls: Seq<Seq<char>>)
    requires
        forall|i: int| 0 <= i < ls.len() ==> !has_newline(#[trigger] ls[i]),
    ensures
        lines(lines_with_breaks(ls)) == ls.map_values(|l: Seq<char>| strip_cr(l)),
        lines_with_breaks(ls).len() == 0 || lines_with_breaks(ls).last() == '\n',
    decreases ls.len(),
{
    if ls.len() == 0 {
        assert(lines(Seq::<char>::empty()) =~= Seq::<Seq<char>>::empty());
        assert(ls.map_values(|l: Seq<char>| strip_cr(l)) =~= Seq::<Seq<char>>::empty());
    } else {
        let init = ls.drop_last();
        assert forall|i: int| 0 <= i < init.len() implies !has_newline(#[trigger] init[i]) by {
            assert(init[i] == ls[i]);
        }
        lemma_lines_breaks(init);
        let last = ls.last();
        assert(!has_newline(last)) by {
            assert(ls[ls.len() - 1] == last);
        }
        lemma_lines_one(last);
        assert(last + seq!['\n'] =~= last.push('\n'));
        assert(lines_with_breaks(ls) =~= lines_with_breaks(init) + last.push('\n'));
        lemma_lines_append(lines_with_breaks(init), last.push('\n'));
        assert(ls.map_values(|l: Seq<char>| strip_cr(l)) =~= init.map_values(
            |l: Seq<char>| strip_cr(l),
        ) + seq![strip_cr(last)]);
    }
}

pub proof fn lemma_trim_start_push(m: Seq<char>, c: char)
    ensures
        trim_start(m.push(c)) == (if trim_start(m).len() == 0 {
            trim_start(seq![c])
        } else {
            trim_start(m).push(c)
        }),
    decreases m.len(),
{
    if m.len() == 0 {
        assert(m.push(c) =~= seq![c]);
    } else {
        assert(m.push(c)[0] == m[0]);
        if is_ws(m[0]) {
            assert(m.push(c).drop_first() =~= m.drop_first().push(c));
            lemma_trim_start_push(m.drop_first(), c);
        }
    }
}

/// Dropping a trailing carriage return does not change what `trim` leaves.
pub proof fn lemma_trim_strip_cr(l: Seq<char>)
    ensures
        trim(strip_cr(l)) == trim(l),
{
    if l.len() > 0 && l.last() == '\r' {
        let m = l.drop_last();
        assert(m.push('\r') =~= l);
        lemma_trim_start_push(m, '\r');
        assert(is_ws('\r'));
        if trim_start(m).len() == 0 {
            assert(seq!['\r'].drop_first() =~= Seq::<char>::empty());
            assert(trim_start(seq!['\r']) == trim_start(Seq::<char>::empty()));
        } else {
            assert(trim_start(m).push('\r').drop_last() =~= trim_start(m));
        }
    }
}

pub proof fn lemma_strip_cr_same(l: Seq<char>)
    ensures
        host_line_entry(strip_cr(l)) == host_line_entry(l),
{
    lemma_trim_strip_cr(l);
    assert(host_line_parts(strip_cr(l)) == host_line_parts(l));
}

pub proof fn lemma_hosts_strip(ls: Seq<Seq<char>>)
    ensures
        hosts_of_lines(ls.map_values(|l: Seq<char>| strip_cr(l))) == hosts_of_lines(ls),
    decreases ls.len(),
{
    if ls.len() > 0 {
        let f = |l: Seq<char>| strip_cr(l);
        assert(ls.map_values(f).drop_last() =~= ls.drop_last().map_values(f));
        lemma_hosts_strip(ls.drop_last());
        lemma_strip_cr_same(ls.last());
        assert(ls.map_values(f).last() == strip_cr(ls.last()));
    }
}

pub proof fn lemma_listed_count(ls: Seq<Seq<char>>)
    ensures
        hosts_of_lines(ls).len() == listed_positions(ls).len(),
    decreases ls.len(),
{
    if ls.len() > 0 {
        lemma_listed_count(ls.drop_last());
    }
}

pub proof fn lemma_lp_take(ls: Seq<Seq<char>>, i: int)
    requires
        0 <= i < listed_positions(ls).len(),
    ensures
        listed_positions(ls.take(listed_positions(ls)[i])).len() == i,
    decreases ls.len(),
{
    let init = ls.drop_last();
    let sp = listed_positions(ls);
    let spi = listed_positions(init);
    lemma_listed_positions(init);
    if i < spi.len() {
        assert(sp[i] == spi[i]);
        lemma_lp_take(init, i);
        assert(ls.take(spi[i]) =~= init.take(spi[i]));
    } else {
        assert(sp[i] == ls.len() - 1);
        assert(ls.take(ls.len() - 1) =~= init);
    }
}

/// Deleting the `i`-th listed known host rewrites the file so that it lists the old entries
/// without entry `i`.
pub proof fn law_delete_known_host(text: Seq<char>, i: int)
    requires
        0 <= i < parse_hosts(text).len(),
    ensures
        i < listed_positions(lines(text)).len(),
        parse_hosts(without_line(lines(text), listed_positions(lines(text))[i])) == parse_hosts(
            text,
        ).remove(i),
{
    let ls = lines(text);
    lemma_listed_count(ls);
    lemma_listed_positions(ls);
    lemma_lines_no_newline(text);
    let sp = listed_positions(ls);
    let p = sp[i];
    let rest = ls.remove(p);
    let new_text = without_line(ls, p);
    // the old listing, split around line p
    assert(ls =~= ls.take(p) + seq![ls[p]] + ls.skip(p + 1));
    assert(rest =~= ls.take(p) + ls.skip(p + 1));
    lemma_hosts_append(ls.take(p) + seq![ls[p]], ls.skip(p + 1));
    lemma_hosts_append(ls.take(p), seq![ls[p]]);
    lemma_hosts_append(ls.take(p), ls.skip(p + 1));
    assert(seq![ls[p]].drop_last() =~= Seq::<Seq<char>>::empty());
    assert(hosts_of_lines(Seq::<Seq<char>>::empty()) == Seq::<KnownHostView>::empty());
    assert(Seq::<KnownHostView>::empty() + opt_seq(host_line_entry(ls[p])) =~= opt_seq(
        host_line_entry(ls[p]),
    ));
    assert(hosts_of_lines(seq![ls[p]]) == opt_seq(host_line_entry(ls[p])));
    lemma_listed_count(ls.take(p));
    lemma_lp_take(ls, i);
    let before = hosts_of_lines(ls.take(p));
    let after = hosts_of_lines(ls.skip(p + 1));
    let e = host_line_entry(ls[p])->0;
    assert(parse_hosts(text) == before + seq![e] + after);
    assert((before + seq![e] + after).remove(i) =~= before + after);
    assert forall|j: int| 0 <= j < rest.len() implies !has_newline(#[trigger] rest[j]) by {
        if j < p {
            assert(rest[j] == ls[j]);
        } else {
            assert(rest[j] == ls[j + 1]);
        }
    }
    if rest.len() == 0 {
        assert(join_lines(rest) == Seq::<char>::empty());
        assert(new_text =~= Seq::<char>::empty().push('\n'));
        assert(!has_newline(Seq::<char>::empty()));
        lemma_lines_one(Seq::<char>::empty());
        assert(lines(new_text) == seq![Seq::<char>::empty()]);
        assert(seq![Seq::<char>::empty()].drop_last() =~= Seq::<Seq<char>>::empty());
        assert(trim(Seq::<char>::empty()) == Seq::<char>::empty());
        assert(host_line_entry(Seq::<char>::empty()) is None);
        assert(before =~= Seq::<KnownHostView>::empty());
        assert(after =~= Seq::<KnownHostView>::empty());
    } else {
        lemma_join_breaks(rest);
        lemma_lines_breaks(rest);
        lemma_hosts_strip(rest);
    }
}

/// A key of at most 30 characters is listed whole; a longer one as its first 30 characters
/// followed by `...`.
pub proof fn law_shown_key(fp: Seq<char>)
    ensures
        fp.len() <= 30 ==> shown_fingerprint(fp) == fp,
        fp.len() > 30 ==> shown_fingerprint(fp).len() == 33 && shown_fingerprint(fp).take(30) == fp.take(30)
            && shown_fingerprint(fp).skip(30) == seq!['.', '.', '.'],
{
    if fp.len() > 30 {
        assert(shown_fingerprint(fp).take(30) =~= fp.take(30));
        assert(shown_fingerprint(fp).skip(30) =~= seq!['.', '.', '.']);
    }
}

} // verus!
