use vstd::prelude::*;
use crate::text::{
    chars_of, lines, split_lines, string_of, sub_chars, trim, trim_chars, views,
};

verus! {

/// One entry of `~/.ssh/known_hosts`, as it is listed.
pub struct KnownHostEntry {
    pub hostname: String,
    pub key_type: String,
    pub fingerprint: String,
}

pub ghost struct KnownHostView {
    pub hostname: Seq<char>,
    pub key_type: Seq<char>,
    pub fingerprint: Seq<char>,
}

impl View for KnownHostEntry {
    type V = KnownHostView;

    open spec fn view(&self) -> KnownHostView {
        KnownHostView {
            hostname: self.hostname@,
            key_type: self.key_type@,
            fingerprint: self.fingerprint@,
        }
    }
}

pub open spec fn host_views(v: Seq<KnownHostEntry>) -> Seq<KnownHostView> {
    v.map_values(|e: KnownHostEntry| e@)
}

/// A line that lists an entry: it is neither blank nor a comment and names a host and a key
/// type.
pub open spec fn lists_entry(line: Seq<char>) -> bool {
    host_line_entry(line) is Some
}

/// Position of the first space, or the length when there is none.
pub open spec fn first_space(t: Seq<char>) -> int
    decreases t.len(),
{
    if t.len() == 0 {
        0
    } else if t[0] == ' ' {
        0
    } else {
        1 + first_space(t.drop_first())
    }
}

pub open spec fn fingerprint_limit() -> int {
    30
}

/// The key as it is listed: its first 30 characters and `...` when it is longer.
pub open spec fn shown_fingerprint(fp: Seq<char>) -> Seq<char> {
    if fp.len() > fingerprint_limit() {
        fp.take(fingerprint_limit()) + seq!['.', '.', '.']
    } else {
        fp
    }
}

/// The parts of a significant line split at its first two spaces: host, key type, and the
/// rest (the key), if there are two spaces.
pub open spec fn host_line_parts(line: Seq<char>) -> Option<(Seq<char>, Seq<char>, Option<Seq<char>>)> {
    let t = trim(line);
    if t.len() == 0 || t[0] == '#' {
        None
    } else {
        let a = first_space(t);
        if a >= t.len() {
            None
        } else {
            let rest = t.skip(a + 1);
            let b = first_space(rest);
            if b >= rest.len() {
                Some((t.take(a), rest, None))
            } else {
                Some((t.take(a), rest.take(b), Some(rest.skip(b + 1))))
            }
        }
    }
}

/// The entry listed for one line of `known_hosts`: none for blank lines, comments, and lines
/// without a space.
pub open spec fn host_line_entry(line: Seq<char>) -> Option<KnownHostView> {
    match host_line_parts(line) {
        Some((h, k, fp)) => Some(
            KnownHostView {
                hostname: h,
                key_type: k,
                fingerprint: match fp {
                    Some(f) => shown_fingerprint(f),
                    None => seq![],
                },
            },
        ),
        None => None,
    }
}

pub open spec fn opt_seq<A>(o: Option<A>) -> Seq<A> {
    match o {
        Some(x) => seq![x],
        None => seq![],
    }
}

pub open spec fn hosts_of_lines(ls: Seq<Seq<char>>) -> Seq<KnownHostView>
    decreases ls.len(),
{
    if ls.len() == 0 {
        seq![]
    } else {
        hosts_of_lines(ls.drop_last()) + opt_seq(host_line_entry(ls.last()))
    }
}

/// The entries listed for a `known_hosts` text, one for each line that names a host and a key
/// type.
pub open spec fn parse_hosts(text: Seq<char>) -> Seq<KnownHostView> {
    hosts_of_lines(lines(text))
}

fn find_space(t: &Vec<char>) -> (k: usize)
    ensures
        k == first_space(t@),
{
    let mut k: usize = 0;
    while k < t.len() && t[k] != ' '
        invariant
            k <= t.len(),
            forall|j: int| 0 <= j < k ==> #[trigger] t@[j] != ' ',
        decreases t.len() - k,
    {
        k += 1;
    }
    proof {
        lemma_first_space_at(t@, k as int);
    }
    k
}

pub proof fn lemma_first_space_at(t: Seq<char>, k: int)
    requires
        0 <= k <= t.len(),
        forall|j: int| 0 <= j < k ==> #[trigger] t[j] != ' ',
        k == t.len() || t[k] == ' ',
    ensures
        first_space(t) == k,
    decreases k,
{
    if k > 0 {
        assert forall|j: int| 0 <= j < k - 1 implies #[trigger] t.drop_first()[j] != ' ' by {
            assert(t.drop_first()[j] == t[j + 1]);
        }
        lemma_first_space_at(t.drop_first(), k - 1);
    }
}

/// The key as it is listed.
fn show_fingerprint(fp: &Vec<char>) -> (r: Vec<char>)
    ensures
        r@ == shown_fingerprint(fp@),
{
    if fp.len() > 30 {
        let mut r = sub_chars(fp, 0, 30);
        r.push('.');
        r.push('.');
        r.push('.');
        assert(r@ =~= fp@.take(30) + seq!['.', '.', '.']);
        r
    } else {
        let mut r: Vec<char> = Vec::new();
        append_chars_of(&mut r, fp);
        assert(r@ =~= fp@);
        r
    }
}

fn append_chars_of(r: &mut Vec<char>, w: &Vec<char>)
    ensures
        final(r)@ == old(r)@ + w@,
{
    crate::text::append_chars(r, w);
}

fn host_line_exec(line: &Vec<char>) -> (r: Option<KnownHostEntry>)
    ensures
        match r {
            Some(e) => host_line_entry(line@) == Some(e@),
            None => host_line_entry(line@) is None,
        },
{
    let t = trim_chars(line);
    if t.len() == 0 || t[0] == '#' {
        return None;
    }
    let a = find_space(&t);
    if a >= t.len() {
        return None;
    }
    let host = sub_chars(&t, 0, a);
    let rest = sub_chars(&t, a + 1, t.len());
    assert(host@ =~= t@.take(a as int));
    assert(rest@ =~= t@.skip(a + 1));
    let b = find_space(&rest);
    if b >= rest.len() {
        let ghost e = KnownHostView { hostname: host@, key_type: rest@, fingerprint: seq![] };
        let fp = String::new();
        Some(KnownHostEntry { hostname: string_of(&host), key_type: string_of(&rest), fingerprint: fp })
    } else {
        let key_type = sub_chars(&rest, 0, b);
        let raw = sub_chars(&rest, b + 1, rest.len());
        assert(key_type@ =~= rest@.take(b as int));
        assert(raw@ =~= rest@.skip(b + 1));
        let shown = show_fingerprint(&raw);
        Some(
            KnownHostEntry {
                hostname: string_of(&host),
                key_type: string_of(&key_type),
                fingerprint: string_of(&shown),
            },
        )
    }
}

/// Lists the entries of a `known_hosts` text. A key longer than 30 characters is shown as its
/// first 30 characters and `...`.
pub fn parse_known_hosts(content: &str) -> (r: Vec<KnownHostEntry>)
    ensures
        host_views(r@) == parse_hosts(content@),
{
    let chars = chars_of(content);
    let ls = split_lines(&chars);
    let mut entries: Vec<KnownHostEntry> = Vec::new();
    for i in 0..ls.len()
        invariant
            views(ls@) == lines(content@),
            host_views(entries@) == hosts_of_lines(views(ls@).take(i as int)),
    {
        assert(views(ls@).take(i + 1).drop_last() =~= views(ls@).take(i as int));
        let ghost before = entries@;
        match host_line_exec(&ls[i]) {
            Some(e) => {
                entries.push(e);
                assert(host_views(entries@) =~= host_views(before) + seq![e@]);
            },
            None => {
                assert(host_views(entries@) =~= host_views(before) + Seq::<KnownHostView>::empty());
            },
        }
    }
    assert(views(ls@).take(ls.len() as int) =~= views(ls@));
    entries
}

/// Positions of the lines that list an entry.
pub open spec fn listed_positions(ls: Seq<Seq<char>>) -> Seq<int>
    decreases ls.len(),
{
    if ls.len() == 0 {
        seq![]
    } else {
        listed_positions(ls.drop_last()) + (if lists_entry(ls.last()) {
            seq![ls.len() - 1]
        } else {
            Seq::<int>::empty()
        })
    }
}

pub proof fn lemma_listed_positions(ls: Seq<Seq<char>>)
    ensures
        listed_positions(ls).len() <= ls.len(),
        forall|k: int|
            0 <= k < listed_positions(ls).len() ==> 0 <= #[trigger] listed_positions(ls)[k]
                < ls.len() && lists_entry(ls[listed_positions(ls)[k]]),
        forall|k: int, m: int|
            0 <= k < m < listed_positions(ls).len() ==> #[trigger] listed_positions(ls)[k]
                < #[trigger] listed_positions(ls)[m],
    decreases ls.len(),
{
    if ls.len() > 0 {
        let init = ls.drop_last();
        lemma_listed_positions(init);
        let sp = listed_positions(ls);
        let spi = listed_positions(init);
        assert forall|k: int| 0 <= k < sp.len() implies 0 <= #[trigger] sp[k] < ls.len()
            && lists_entry(ls[sp[k]]) by {
            if k < spi.len() {
                assert(sp[k] == spi[k]);
                assert(ls[spi[k]] == init[spi[k]]);
            } else {
                assert(sp[k] == ls.len() - 1);
            }
        }
        assert forall|k: int, m: int| 0 <= k < m < sp.len() implies #[trigger] sp[k] < #[trigger] sp[m] by {
            if m < spi.len() {
                assert(sp[k] == spi[k]);
                assert(sp[m] == spi[m]);
            } else {
                assert(sp[k] == spi[k]);
            }
        }
    }
}

/// Lines joined with line feeds between them.
pub open spec fn join_lines(ls: Seq<Seq<char>>) -> Seq<char>
    decreases ls.len(),
{
    if ls.len() == 0 {
        seq![]
    } else if ls.len() == 1 {
        ls[0]
    } else {
        join_lines(ls.drop_last()) + seq!['\n'] + ls.last()
    }
}

/// The text written back when the line at position `p` is dropped.
pub open spec fn without_line(ls: Seq<Seq<char>>, p: int) -> Seq<char> {
    join_lines(ls.remove(p)) + seq!['\n']
}

fn join_lines_exec(ls: &Vec<Vec<char>>) -> (r: Vec<char>)
    ensures
        r@ == join_lines(views(ls@)),
{
    let mut out: Vec<char> = Vec::new();
    for i in 0..ls.len()
        invariant
            out@ == join_lines(views(ls@).take(i as int)),
    {
        let ghost pre = views(ls@).take(i as int);
        assert(views(ls@).take(i + 1).drop_last() =~= pre);
        if i > 0 {
            out.push('\n');
        }
        crate::text::append_chars(&mut out, &ls[i]);
        proof {
            if i == 0 {
                assert(views(ls@).take(1) =~= seq![ls@[0]@]);
                assert(out@ =~= ls@[0]@);
            } else {
                assert(out@ =~= join_lines(pre) + seq!['\n'] + ls@[i as int]@);
            }
        }
    }
    assert(views(ls@).take(ls.len() as int) =~= views(ls@));
    out
}

fn lists_entry_exec(line: &Vec<char>) -> (b: bool)
    ensures
        b == lists_entry(line@),
{
    let t = trim_chars(line);
    if t.len() == 0 || t[0] == '#' {
        return false;
    }
    find_space(&t) < t.len()
}

/// The `known_hosts` text after the line of the `index`-th listed entry is removed, the
/// remaining lines (comments and blank lines among them) joined by line feeds, with one after
/// the last; none when fewer entries are listed (the file is then left as it is).
pub fn delete_known_host(content: &str, index: usize) -> (r: Option<String>)
    ensures
        index < listed_positions(lines(content@)).len() ==> (r matches Some(t) && t@
            == without_line(lines(content@), listed_positions(lines(content@))[index as int])),
        index >= listed_positions(lines(content@)).len() ==> r is None,
{
    let chars = chars_of(content);
    let mut ls = split_lines(&chars);
    let mut real_indices: Vec<usize> = Vec::new();
    for i in 0..ls.len()
        invariant
            views(ls@) == lines(content@),
            real_indices@.map_values(|x: usize| x as int) == listed_positions(
                views(ls@).take(i as int),
            ),
    {
        let ghost before = real_indices@;
        assert(views(ls@).take(i + 1).drop_last() =~= views(ls@).take(i as int));
        assert(views(ls@)[i as int] == ls@[i as int]@);
        if lists_entry_exec(&ls[i]) {
            real_indices.push(i);
            assert(real_indices@.map_values(|x: usize| x as int) =~= before.map_values(
                |x: usize| x as int,
            ) + seq![i as int]);
        } else {
            assert(real_indices@.map_values(|x: usize| x as int) =~= before.map_values(
                |x: usize| x as int,
            ) + Seq::<int>::empty());
        }
    }
    assert(views(ls@).take(ls.len() as int) =~= views(ls@));
    if index >= real_indices.len() {
        return None;
    }
    let p = real_indices[index];
    assert(listed_positions(lines(content@))[index as int] == p as int);
    proof {
        lemma_listed_positions(lines(content@));
    }
    let ghost all = views(ls@);
    let ghost lsv = ls@;
    ls.remove(p);
    assert(views(ls@) =~= all.remove(p as int)) by {
        assert(ls@ == lsv.remove(p as int));
    }
    let mut out = join_lines_exec(&ls);
    out.push('\n');
    Some(string_of(&out))
}

} // verus!
