use vstd::prelude::*;

verus! {

broadcast use vstd::string::group_string_axioms;

/// Unicode `White_Space`: the characters for which `char::is_whitespace` holds.
pub open spec fn is_ws(c: char) -> bool {
    let u = c as u32;
    ||| 0x09 <= u <= 0x0d
    ||| u == 0x20
    ||| u == 0x85
    ||| u == 0xa0
    ||| u == 0x1680
    ||| 0x2000 <= u <= 0x200a
    ||| u == 0x2028
    ||| u == 0x2029
    ||| u == 0x202f
    ||| u == 0x205f
    ||| u == 0x3000
}

pub fn is_whitespace(c: char) -> (b: bool)
    ensures
        b == is_ws(c),
{
    let u = c as u32;
    (0x09 <= u && u <= 0x0d) || u == 0x20 || u == 0x85 || u == 0xa0 || u == 0x1680 || (0x2000
        <= u && u <= 0x200a) || u == 0x2028 || u == 0x2029 || u == 0x202f || u == 0x205f || u
        == 0x3000
}

/// Appends one character to a `String` (`String::push`).
#[verifier::external_body]
pub(crate) fn push_char(s: &mut String, c: char)
    ensures
        final(s)@ == old(s)@.push(c),
{
    s.push(c)
}

/// The characters of a string, in order.
pub fn chars_of(s: &str) -> (v: Vec<char>)
    ensures
        v@ == s@,
{
    let mut v: Vec<char> = Vec::new();
    for c in it: s.chars()
        invariant
            it.seq() == s@,
            v@ == it.seq().take(it.index() as int),
    {
        v.push(c);
    }
    v
}

/// A string holding the given characters.
pub fn string_of(v: &Vec<char>) -> (s: String)
    ensures
        s@ == v@,
{
    let mut s = String::new();
    for i in 0..v.len()
        invariant
            s@ == v@.take(i as int),
    {
        push_char(&mut s, v[i]);
        assert(v@.take(i + 1) =~= v@.take(i as int).push(v@[i as int]));
    }
    assert(v@.take(v.len() as int) =~= v@);
    s
}


/// Drops one character from the front of a sequence as long as it is whitespace.
pub open spec fn trim_start(s: Seq<char>) -> Seq<char>
    decreases s.len(),
{
    if s.len() > 0 && is_ws(s[0]) {
        trim_start(s.drop_first())
    } else {
        s
    }
}

/// Drops one character from the back of a sequence as long as it is whitespace.
pub open spec fn trim_end(s: Seq<char>) -> Seq<char>
    decreases s.len(),
{
    if s.len() > 0 && is_ws(s.last()) {
        trim_end(s.drop_last())
    } else {
        s
    }
}

/// `str::trim`: leading and trailing whitespace removed.
pub open spec fn trim(s: Seq<char>) -> Seq<char> {
    trim_end(trim_start(s))
}

pub open spec fn has_newline(s: Seq<char>) -> bool {
    exists|i: int| 0 <= i < s.len() && s[i] == '\n'
}

/// A value that is its own trim and lies on one line.
pub open spec fn is_clean(s: Seq<char>) -> bool {
    trim(s) == s && !has_newline(s)
}

pub proof fn lemma_trim_start_skip(s: Seq<char>, i: int)
    requires
        0 <= i <= s.len(),
        forall|k: int| 0 <= k < i ==> is_ws(#[trigger] s[k]),
        i == s.len() || !is_ws(s[i]),
    ensures
        trim_start(s) == s.skip(i),
    decreases i,
{
    if i == 0 {
        assert(s.skip(0) =~= s);
    } else {
        assert forall|k: int| 0 <= k < i - 1 implies is_ws(#[trigger] s.drop_first()[k]) by {
            assert(s.drop_first()[k] == s[k + 1]);
        }
        lemma_trim_start_skip(s.drop_first(), i - 1);
        assert(s.drop_first().skip(i - 1) =~= s.skip(i));
    }
}

pub proof fn lemma_trim_end_take(s: Seq<char>, j: int)
    requires
        0 <= j <= s.len(),
        forall|k: int| j <= k < s.len() ==> is_ws(#[trigger] s[k]),
        j == 0 || !is_ws(s[j - 1]),
    ensures
        trim_end(s) == s.take(j),
    decreases s.len() - j,
{
    if j == s.len() {
        assert(s.take(j) =~= s);
    } else {
        assert forall|k: int| j <= k < s.len() - 1 implies is_ws(#[trigger] s.drop_last()[k]) by {
            assert(s.drop_last()[k] == s[k]);
        }
        lemma_trim_end_take(s.drop_last(), j);
        assert(s.drop_last().take(j) =~= s.take(j));
    }
}

/// Copies `v[lo..hi]`.
pub fn sub_chars(v: &Vec<char>, lo: usize, hi: usize) -> (r: Vec<char>)
    requires
        lo <= hi <= v.len(),
    ensures
        r@ == v@.subrange(lo as int, hi as int),
{
    let mut r: Vec<char> = Vec::new();
    let mut i = lo;
    while i < hi
        invariant
            lo <= i <= hi <= v.len(),
            r@ == v@.subrange(lo as int, i as int),
        decreases hi - i,
    {
        r.push(v[i]);
        i += 1;
        assert(r@ =~= v@.subrange(lo as int, i as int));
    }
    r
}

/// Appends the characters of `w` to `v`.
pub fn append_chars(v: &mut Vec<char>, w: &Vec<char>)
    ensures
        final(v)@ == old(v)@ + w@,
{
    for i in 0..w.len()
        invariant
            v@ == old(v)@ + w@.take(i as int),
    {
        v.push(w[i]);
        assert(w@.take(i + 1) =~= w@.take(i as int).push(w@[i as int]));
        assert(v@ =~= old(v)@ + w@.take(i + 1));
    }
    assert(w@.take(w.len() as int) =~= w@);
}

/// Appends the characters of `w` to `v`.
pub fn append_str(v: &mut Vec<char>, w: &str)
    ensures
        final(v)@ == old(v)@ + w@,
{
    let cs = chars_of(w);
    append_chars(v, &cs);
}

/// `str::trim` on a character vector.
pub fn trim_chars(v: &Vec<char>) -> (r: Vec<char>)
    ensures
        r@ == trim(v@),
{
    let n = v.len();
    let mut i: usize = 0;
    while i < n && is_whitespace(v[i])
        invariant
            i <= n == v.len(),
            forall|k: int| 0 <= k < i ==> is_ws(#[trigger] v@[k]),
        decreases n - i,
    {
        i += 1;
    }
    proof {
        lemma_trim_start_skip(v@, i as int);
    }
    let mut j: usize = n;
    while j > i && is_whitespace(v[j - 1])
        invariant
            i <= j <= n == v.len(),
            forall|k: int| j <= k < n ==> is_ws(#[trigger] v@[k]),
        decreases j,
    {
        j -= 1;
    }
    proof {
        let t = v@.skip(i as int);
        assert forall|k: int| j - i <= k < t.len() implies is_ws(#[trigger] t[k]) by {
            assert(t[k] == v@[k + i]);
        }
        lemma_trim_end_take(t, j - i);
        assert(t.take(j - i) =~= v@.subrange(i as int, j as int));
    }
    sub_chars(v, i, j)
}

/// One trailing carriage return removed, as `str::lines` does before a line feed.
pub open spec fn strip_cr(l: Seq<char>) -> Seq<char> {
    if l.len() > 0 && l.last() == '\r' {
        l.drop_last()
    } else {
        l
    }
}

/// The lines finished so far and the line being read, after reading `s` from the left.
pub open spec fn lines_state(s: Seq<char>) -> (Seq<Seq<char>>, Seq<char>)
    decreases s.len(),
{
    if s.len() == 0 {
        (seq![], seq![])
    } else {
        let p = lines_state(s.drop_last());
        if s.last() == '\n' {
            (p.0.push(strip_cr(p.1)), seq![])
        } else {
            (p.0, p.1.push(s.last()))
        }
    }
}

/// `str::lines`: the text split at each `\n` (a `\r` before it dropped); a last line without
/// `\n` is kept as it is, an empty one is not produced.
pub open spec fn lines(s: Seq<char>) -> Seq<Seq<char>> {
    let p = lines_state(s);
    if p.1.len() > 0 {
        p.0.push(p.1)
    } else {
        p.0
    }
}

/// The character sequences held by a vector of character vectors.
pub open spec fn views(v: Seq<Vec<char>>) -> Seq<Seq<char>> {
    v.map_values(|x: Vec<char>| x@)
}

/// `str::lines` on a character vector.
pub fn split_lines(s: &Vec<char>) -> (r: Vec<Vec<char>>)
    ensures
        views(r@) == lines(s@),
{
    let mut done: Vec<Vec<char>> = Vec::new();
    let mut cur: Vec<char> = Vec::new();
    for i in 0..s.len()
        invariant
            (views(done@), cur@) == lines_state(s@.take(i as int)),
    {
        let c = s[i];
        assert(s@.take(i + 1).drop_last() =~= s@.take(i as int));
        if c == '\n' {
            if cur.len() > 0 && cur[cur.len() - 1] == '\r' {
                cur.pop();
            }
            let ghost old_done = done@;
            done.push(cur);
            assert(views(done@) =~= views(old_done).push(cur@));
            cur = Vec::new();
        } else {
            cur.push(c);
        }
    }
    assert(s@.take(s.len() as int) =~= s@);
    if cur.len() > 0 {
        let ghost old_done = done@;
        done.push(cur);
        assert(views(done@) =~= views(old_done).push(cur@));
    }
    done
}

pub proof fn lemma_lines_state_append(a: Seq<char>, b: Seq<char>)
    requires
        a.len() == 0 || a.last() == '\n',
    ensures
        lines_state(a + b) == (lines(a) + lines_state(b).0, lines_state(b).1),
    decreases b.len(),
{
    if b.len() == 0 {
        assert(a + b =~= a);
        assert(lines(a) + lines_state(b).0 =~= lines(a));
    } else {
        lemma_lines_state_append(a, b.drop_last());
        assert((a + b).drop_last() =~= a + b.drop_last());
        assert((a + b).last() == b.last());
        let p = lines_state(b.drop_last());
        if b.last() == '\n' {
            assert(lines(a) + p.0.push(strip_cr(p.1)) =~= (lines(a) + p.0).push(strip_cr(p.1)));
        }
    }
}

/// `lines` of a text that ends with a line break, followed by more text.
pub proof fn lemma_lines_append(a: Seq<char>, b: Seq<char>)
    requires
        a.len() == 0 || a.last() == '\n',
    ensures
        lines(a + b) == lines(a) + lines(b),
{
    lemma_lines_state_append(a, b);
    let p = lines_state(b);
    if p.1.len() > 0 {
        assert(lines(a) + p.0.push(p.1) =~= (lines(a) + p.0).push(p.1));
    }
}

pub proof fn lemma_lines_state_no_newline(s: Seq<char>)
    requires
        !has_newline(s),
    ensures
        lines_state(s) == (Seq::<Seq<char>>::empty(), s),
    decreases s.len(),
{
    if s.len() > 0 {
        assert(!has_newline(s.drop_last())) by {
            if has_newline(s.drop_last()) {
                let i = choose|i: int| 0 <= i < s.drop_last().len() && s.drop_last()[i] == '\n';
                assert(s[i] == '\n');
            }
        }
        lemma_lines_state_no_newline(s.drop_last());
        assert(s.last() != '\n') by {
            assert(s[s.len() - 1] == s.last());
        }
        assert(s.drop_last().push(s.last()) =~= s);
    }
}

/// The lines of one line followed by its line break.
pub proof fn lemma_lines_one(s: Seq<char>)
    requires
        !has_newline(s),
    ensures
        lines(s.push('\n')) == seq![strip_cr(s)],
{
    lemma_lines_state_no_newline(s);
    assert(s.push('\n').drop_last() =~= s);
}

pub proof fn lemma_trim_start_props(s: Seq<char>)
    ensures
        trim_start(s).len() <= s.len(),
        trim_start(s) == s.skip(s.len() - trim_start(s).len()),
        trim_start(s).len() > 0 ==> !is_ws(trim_start(s)[0]),
    decreases s.len(),
{
    if s.len() > 0 && is_ws(s[0]) {
        lemma_trim_start_props(s.drop_first());
        let t = trim_start(s.drop_first());
        assert(s.drop_first().skip(s.drop_first().len() - t.len()) =~= s.skip(s.len() - t.len()));
    } else {
        assert(s.skip(0) =~= s);
    }
}

pub proof fn lemma_trim_end_props(s: Seq<char>)
    ensures
        trim_end(s).len() <= s.len(),
        trim_end(s) == s.take(trim_end(s).len() as int),
        trim_end(s).len() > 0 ==> !is_ws(trim_end(s).last()),
    decreases s.len(),
{
    if s.len() > 0 && is_ws(s.last()) {
        lemma_trim_end_props(s.drop_last());
        let t = trim_end(s.drop_last());
        assert(s.drop_last().take(t.len() as int) =~= s.take(t.len() as int));
    } else {
        assert(s.take(s.len() as int) =~= s);
    }
}

/// What `trim` leaves is a piece of its argument, with no whitespace at either end.
pub proof fn lemma_trim_props(s: Seq<char>)
    ensures
        trim(s).len() <= s.len(),
        trim(s).len() > 0 ==> !is_ws(trim(s)[0]) && !is_ws(trim(s).last()),
        trim(trim(s)) == trim(s),
        !has_newline(s) ==> !has_newline(trim(s)),
        exists|a: int| 0 <= a && a + trim(s).len() <= s.len() && trim(s) == #[trigger] s.subrange(a, a + trim(s).len()),
{
    lemma_trim_start_props(s);
    let u = trim_start(s);
    lemma_trim_end_props(u);
    let t = trim_end(u);
    let a = s.len() - u.len();
    assert(t == s.subrange(a, a + t.len())) by {
        assert(u.take(t.len() as int) =~= s.subrange(a, a + t.len()));
    }
    if t.len() > 0 {
        assert(t[0] == u[0]);
        lemma_trim_end_props(t);
        assert(trim_end(t) == t);
    }
    assert(trim_start(t) == t);
    if !has_newline(s) && has_newline(t) {
        let i = choose|i: int| 0 <= i < t.len() && t[i] == '\n';
        assert(s[a + i] == '\n');
    }
}

/// A nonempty clean value has no whitespace at either end.
pub proof fn lemma_clean_ends(v: Seq<char>)
    requires
        trim(v) == v,
        v.len() > 0,
    ensures
        !is_ws(v[0]),
        !is_ws(v.last()),
{
    lemma_trim_props(v);
}

/// A value with no whitespace at either end is its own trim.
pub proof fn lemma_trim_fixed(v: Seq<char>)
    requires
        v.len() > 0 ==> !is_ws(v[0]) && !is_ws(v.last()),
    ensures
        trim(v) == v,
{
}

/// The first whitespace position, or the length when there is none.
pub open spec fn first_ws(t: Seq<char>) -> int
    decreases t.len(),
{
    if t.len() == 0 {
        0
    } else if is_ws(t[0]) {
        0
    } else {
        1 + first_ws(t.drop_first())
    }
}

pub proof fn lemma_first_ws_at(t: Seq<char>, k: int)
    requires
        0 <= k <= t.len(),
        forall|j: int| 0 <= j < k ==> !is_ws(#[trigger] t[j]),
        k == t.len() || is_ws(t[k]),
    ensures
        first_ws(t) == k,
    decreases k,
{
    if k > 0 {
        assert forall|j: int| 0 <= j < k - 1 implies !is_ws(#[trigger] t.drop_first()[j]) by {
            assert(t.drop_first()[j] == t[j + 1]);
        }
        lemma_first_ws_at(t.drop_first(), k - 1);
    }
}

pub proof fn lemma_first_ws_bounds(t: Seq<char>)
    ensures
        0 <= first_ws(t) <= t.len(),
        forall|j: int| 0 <= j < first_ws(t) ==> !is_ws(#[trigger] t[j]),
        first_ws(t) < t.len() ==> is_ws(t[first_ws(t)]),
    decreases t.len(),
{
    if t.len() > 0 && !is_ws(t[0]) {
        lemma_first_ws_bounds(t.drop_first());
        assert forall|j: int| 0 <= j < first_ws(t) implies !is_ws(#[trigger] t[j]) by {
            if j > 0 {
                assert(t[j] == t.drop_first()[j - 1]);
            }
        }
    }
}

/// Position of the first whitespace character, or the length when there is none.
pub fn find_whitespace(t: &Vec<char>) -> (k: usize)
    ensures
        k == first_ws(t@),
{
    let mut k: usize = 0;
    while k < t.len() && !is_whitespace(t[k])
        invariant
            k <= t.len(),
            forall|j: int| 0 <= j < k ==> !is_ws(#[trigger] t@[j]),
        decreases t.len() - k,
    {
        k += 1;
    }
    proof {
        lemma_first_ws_at(t@, k as int);
    }
    k
}

/// A text of ASCII characters only.
pub open spec fn is_ascii_text(s: Seq<char>) -> bool {
    forall|i: int| 0 <= i < s.len() ==> (#[trigger] s[i] as u32) < 128
}

/// ASCII upper-case letters mapped to lower case, every other character kept.
pub open spec fn lower_ascii(c: char) -> char {
    if 'A' <= c <= 'Z' {
        ((c as u32) + 32) as char
    } else {
        c
    }
}

pub open spec fn ascii_lower(s: Seq<char>) -> Seq<char> {
    s.map_values(|c: char| lower_ascii(c))
}

/// Whether `key`, with ASCII letters lowered, is `word`.
pub fn lowers_to(key: &Vec<char>, word: &Vec<char>) -> (b: bool)
    ensures
        b == (ascii_lower(key@) == word@),
{
    if key.len() != word.len() {
        assert(ascii_lower(key@).len() != word@.len());
        return false;
    }
    for i in 0..key.len()
        invariant
            key.len() == word.len(),
            forall|j: int| 0 <= j < i ==> lower_ascii(#[trigger] key@[j]) == word@[j],
    {
        let c = key[i];
        let u = c as u32;
        let l = if 65 <= u && u <= 90 {
            ((u as u8) + 32) as char
        } else {
            c
        };
        if l != word[i] {
            assert(ascii_lower(key@)[i as int] != word@[i as int]);
            return false;
        }
    }
    assert(ascii_lower(key@) =~= word@);
    true
}

/// Whether two character vectors are equal.
pub fn same_chars(a: &Vec<char>, b: &Vec<char>) -> (r: bool)
    ensures
        r == (a@ == b@),
{
    if a.len() != b.len() {
        return false;
    }
    for i in 0..a.len()
        invariant
            a.len() == b.len(),
            forall|j: int| 0 <= j < i ==> a@[j] == b@[j],
    {
        if a[i] != b[i] {
            return false;
        }
    }
    assert(a@ =~= b@);
    true
}

/// The lines of a text never hold a line feed.
pub proof fn lemma_lines_no_newline(s: Seq<char>)
    ensures
        forall|i: int| 0 <= i < lines(s).len() ==> !has_newline(#[trigger] lines(s)[i]),
{
    lemma_lines_state_clean(s);
}

pub proof fn lemma_lines_state_clean(s: Seq<char>)
    ensures
        forall|i: int| 0 <= i < lines_state(s).0.len() ==> !has_newline(#[trigger] lines_state(s).0[i]),
        !has_newline(lines_state(s).1),
    decreases s.len(),
{
    if s.len() > 0 {
        lemma_lines_state_clean(s.drop_last());
        let p = lines_state(s.drop_last());
        if s.last() == '\n' {
            assert(!has_newline(strip_cr(p.1))) by {
                if has_newline(strip_cr(p.1)) {
                    let i = choose|i: int| 0 <= i < strip_cr(p.1).len() && strip_cr(p.1)[i] == '\n';
                    assert(p.1[i] == '\n');
                }
            }
            assert(!has_newline(Seq::<char>::empty()));
        } else {
            assert(!has_newline(p.1.push(s.last()))) by {
                if has_newline(p.1.push(s.last())) {
                    let i = choose|i: int| 0 <= i < p.1.push(s.last()).len() && p.1.push(s.last())[i] == '\n';
                    if i < p.1.len() {
                        assert(p.1[i] == '\n');
                    }
                }
            }
        }
    }
}

pub proof fn lemma_trim_start_keeps_last(s: Seq<char>)
    requires
        s.len() > 0,
        !is_ws(s.last()),
    ensures
        trim_start(s).len() > 0,
        trim_start(s).last() == s.last(),
    decreases s.len(),
{
    if is_ws(s[0]) {
        assert(s.len() >= 2) by {
            if s.len() == 1 {
                assert(s[0] == s.last());
            }
        }
        assert(s.drop_first().last() == s.last());
        lemma_trim_start_keeps_last(s.drop_first());
    }
}

/// A text that ends with a character other than whitespace keeps something after `trim`.
pub proof fn lemma_trim_nonempty(s: Seq<char>)
    requires
        s.len() > 0,
        !is_ws(s.last()),
    ensures
        trim(s).len() > 0,
{
    lemma_trim_start_keeps_last(s);
}

pub proof fn lemma_no_newline_sub(s: Seq<char>, a: int, b: int)
    requires
        0 <= a <= b <= s.len(),
        !has_newline(s),
    ensures
        !has_newline(s.subrange(a, b)),
{
    if has_newline(s.subrange(a, b)) {
        let i = choose|i: int| 0 <= i < s.subrange(a, b).len() && s.subrange(a, b)[i] == '\n';
        assert(s[a + i] == '\n');
    }
}

} // verus!
