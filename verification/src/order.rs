use vstd::prelude::*;
use crate::text::chars_of;

verus! {

/// Lexicographic order on texts by code point, the order of `str` comparison.
pub open spec fn lex_le(a: Seq<char>, b: Seq<char>) -> bool
    decreases a.len(),
{
    if a.len() == 0 {
        true
    } else if b.len() == 0 {
        false
    } else if a[0] != b[0] {
        (a[0] as u32) < (b[0] as u32)
    } else {
        lex_le(a.drop_first(), b.drop_first())
    }
}

pub proof fn lemma_char_code(c: char, d: char)
    ensures
        (c as u32) == (d as u32) ==> c == d,
{
}

pub proof fn lemma_lex_refl(a: Seq<char>)
    ensures
        lex_le(a, a),
    decreases a.len(),
{
    if a.len() > 0 {
        lemma_lex_refl(a.drop_first());
    }
}

pub proof fn lemma_lex_total(a: Seq<char>, b: Seq<char>)
    ensures
        lex_le(a, b) || lex_le(b, a),
    decreases a.len(),
{
    if a.len() > 0 && b.len() > 0 {
        if a[0] == b[0] {
            lemma_lex_total(a.drop_first(), b.drop_first());
        } else {
            lemma_char_code(a[0], b[0]);
        }
    }
}

pub proof fn lemma_lex_antisym(a: Seq<char>, b: Seq<char>)
    requires
        lex_le(a, b),
        lex_le(b, a),
    ensures
        a == b,
    decreases a.len(),
{
    if a.len() > 0 {
        lemma_lex_antisym(a.drop_first(), b.drop_first());
        assert(a =~= seq![a[0]] + a.drop_first());
        assert(b =~= seq![b[0]] + b.drop_first());
    } else {
        assert(b.len() == 0);
        assert(a =~= b);
    }
}

pub proof fn lemma_lex_trans(a: Seq<char>, b: Seq<char>, c: Seq<char>)
    requires
        lex_le(a, b),
        lex_le(b, c),
    ensures
        lex_le(a, c),
    decreases a.len(),
{
    if a.len() > 0 && b.len() > 0 && c.len() > 0 && a[0] == b[0] && b[0] == c[0] {
        lemma_lex_trans(a.drop_first(), b.drop_first(), c.drop_first());
    }
}

/// Whether `a` comes before `b` or equals it, comparing code points.
pub fn lex_le_exec(a: &Vec<char>, b: &Vec<char>) -> (r: bool)
    ensures
        r == lex_le(a@, b@),
{
    let mut i: usize = 0;
    assert(a@.skip(0) =~= a@);
    assert(b@.skip(0) =~= b@);
    loop
        invariant
            i <= a.len(),
            i <= b.len(),
            lex_le(a@, b@) == lex_le(a@.skip(i as int), b@.skip(i as int)),
        decreases a.len() - i,
    {
        if i == a.len() {
            return true;
        }
        if i == b.len() {
            return false;
        }
        if a[i] != b[i] {
            return (a[i] as u32) < (b[i] as u32);
        }
        assert(a@.skip(i as int).drop_first() =~= a@.skip(i + 1));
        assert(b@.skip(i as int).drop_first() =~= b@.skip(i + 1));
        i += 1;
    }
}

/// Values that are ordered by a text.
pub trait SortKey {
    spec fn sort_key(&self) -> Seq<char>;

    fn key_chars(&self) -> (v: Vec<char>)
        ensures
            v@ == self.sort_key(),
    ;
}

impl SortKey for String {
    open spec fn sort_key(&self) -> Seq<char> {
        self@
    }

    fn key_chars(&self) -> (v: Vec<char>) {
        chars_of(self.as_str())
    }
}

pub open spec fn sorted_by_key<T: SortKey>(s: Seq<T>) -> bool {
    forall|i: int, j: int| 0 <= i < j < s.len() ==> lex_le(#[trigger] s[i].sort_key(), #[trigger] s[j].sort_key())
}

/// The values with key `n`, in order.
pub open spec fn with_key<T: SortKey>(s: Seq<T>, n: Seq<char>) -> Seq<T>
    decreases s.len(),
{
    if s.len() == 0 {
        seq![]
    } else if s.last().sort_key() == n {
        with_key(s.drop_last(), n).push(s.last())
    } else {
        with_key(s.drop_last(), n)
    }
}

pub proof fn lemma_with_key_add<T: SortKey>(a: Seq<T>, b: Seq<T>, n: Seq<char>)
    ensures
        with_key(a + b, n) == with_key(a, n) + with_key(b, n),
    decreases b.len(),
{
    if b.len() == 0 {
        assert(a + b =~= a);
        assert(with_key(a, n) + with_key(b, n) =~= with_key(a, n));
    } else {
        lemma_with_key_add(a, b.drop_last(), n);
        assert((a + b).drop_last() =~= a + b.drop_last());
        assert((a + b).last() == b.last());
        if b.last().sort_key() == n {
            assert(with_key(a, n) + with_key(b.drop_last(), n).push(b.last()) =~= (with_key(a, n)
                + with_key(b.drop_last(), n)).push(b.last()));
        }
    }
}

pub proof fn lemma_with_key_none<T: SortKey>(s: Seq<T>, n: Seq<char>)
    requires
        forall|i: int| 0 <= i < s.len() ==> #[trigger] s[i].sort_key() != n,
    ensures
        with_key(s, n) == Seq::<T>::empty(),
    decreases s.len(),
{
    if s.len() > 0 {
        assert forall|i: int| 0 <= i < s.drop_last().len() implies #[trigger] s.drop_last()[i].sort_key() != n by {
            assert(s.drop_last()[i] == s[i]);
        }
        lemma_with_key_none(s.drop_last(), n);
        assert(s[s.len() - 1] == s.last());
    }
}

pub proof fn lemma_with_key_one<T: SortKey>(x: T, n: Seq<char>)
    ensures
        with_key(seq![x], n) == (if x.sort_key() == n {
            seq![x]
        } else {
            Seq::<T>::empty()
        }),
{
    assert(seq![x].drop_last() =~= Seq::<T>::empty());
    assert(seq![x].last() == x);
    assert(with_key(Seq::<T>::empty(), n) == Seq::<T>::empty());
    assert(Seq::<T>::empty().push(x) =~= seq![x]);
}

/// Sorts by key, keeping values with equal keys in their order (as `sort_by` does).
pub fn sort_by_key<T: SortKey>(items: Vec<T>) -> (r: Vec<T>)
    ensures
        sorted_by_key(r@),
        forall|n: Seq<char>| #[trigger] with_key(r@, n) == with_key(items@, n),
        r@.len() == items@.len(),
{
    let ghost orig = items@;
    let mut v = items;
    let mut out: Vec<T> = Vec::new();
    while v.len() > 0
        invariant
            orig == v@ + orig.skip(v@.len() as int),
            v@.len() <= orig.len(),
            sorted_by_key(out@),
            out@.len() + v@.len() == orig.len(),
            forall|n: Seq<char>| #[trigger] with_key(out@, n) == with_key(orig.skip(v@.len() as int), n),
        decreases v.len(),
    {
        let ghost k = v@.len();
        let x = v.pop().unwrap();
        let xk = x.key_chars();
        let mut pos: usize = 0;
        let mut searching = true;
        while searching && pos < out.len()
            invariant
                pos <= out.len(),
                xk@ == x.sort_key(),
                forall|j: int| 0 <= j < pos ==> !lex_le(x.sort_key(), #[trigger] out@[j].sort_key()),
                !searching ==> pos < out.len() && lex_le(x.sort_key(), out@[pos as int].sort_key()),
            decreases out.len() - pos + (if searching { 1int } else { 0int }),
        {
            let yk = out[pos].key_chars();
            if lex_le_exec(&xk, &yk) {
                searching = false;
            } else {
                pos += 1;
            }
        }
        let ghost before = out@;
        proof {
            assert forall|j: int| pos <= j < before.len() implies lex_le(x.sort_key(), #[trigger] before[j].sort_key()) by {
                if j > pos {
                    lemma_lex_trans(x.sort_key(), before[pos as int].sort_key(), before[j].sort_key());
                }
            }
            assert forall|j: int| 0 <= j < pos implies lex_le(#[trigger] before[j].sort_key(), x.sort_key())
                && before[j].sort_key() != x.sort_key() by {
                lemma_lex_total(x.sort_key(), before[j].sort_key());
                if before[j].sort_key() == x.sort_key() {
                    lemma_lex_refl(x.sort_key());
                }
            }
        }
        out.insert(pos, x);
        proof {
            let rest = orig.skip(k - 1);
            assert(rest =~= seq![x] + orig.skip(k as int));
            assert(orig =~= v@ + orig.skip(v@.len() as int));
            assert(out@ =~= before.take(pos as int) + seq![x] + before.skip(pos as int));
            assert(before =~= before.take(pos as int) + before.skip(pos as int));
            assert forall|n: Seq<char>| #[trigger] with_key(out@, n) == with_key(orig.skip(v@.len() as int), n) by {
                lemma_with_key_add(before.take(pos as int) + seq![x], before.skip(pos as int), n);
                lemma_with_key_add(before.take(pos as int), seq![x], n);
                lemma_with_key_add(before.take(pos as int), before.skip(pos as int), n);
                lemma_with_key_add(seq![x], orig.skip(k as int), n);
                lemma_with_key_one(x, n);
                if x.sort_key() == n {
                    assert forall|i: int| 0 <= i < before.take(pos as int).len() implies #[trigger] before.take(pos as int)[i].sort_key() != n by {
                        assert(before.take(pos as int)[i] == before[i]);
                    }
                    lemma_with_key_none(before.take(pos as int), n);
                    assert(with_key(before, n) == with_key(before.skip(pos as int), n)) by {
                        assert(Seq::<T>::empty() + with_key(before.skip(pos as int), n) =~= with_key(before.skip(pos as int), n));
                    }
                    assert(Seq::<T>::empty() + seq![x] + with_key(before.skip(pos as int), n) =~= seq![x] + with_key(before.skip(pos as int), n));
                } else {
                    assert(with_key(before.take(pos as int), n) + Seq::<T>::empty() =~= with_key(before.take(pos as int), n));
                    assert(Seq::<T>::empty() + with_key(orig.skip(k as int), n) =~= with_key(orig.skip(k as int), n));
                }
            }
            assert forall|i: int, j: int| 0 <= i < j < out@.len() implies lex_le(#[trigger] out@[i].sort_key(), #[trigger] out@[j].sort_key()) by {
                if j < pos {
                    assert(out@[i] == before[i] && out@[j] == before[j]);
                } else if j == pos {
                    assert(out@[i] == before[i]);
                } else if i == pos {
                    assert(out@[j] == before[j - 1]);
                } else if i < pos {
                    assert(out@[i] == before[i] && out@[j] == before[j - 1]);
                } else {
                    assert(out@[i] == before[i - 1] && out@[j] == before[j - 1]);
                }
            }
        }
    }
    assert(orig.skip(0) =~= orig);
    out
}

} // verus!
