use vstd::prelude::*;

verus! {

fn text(s: &str) -> (r: String)
    ensures
        r@ == s@,
{
    String::from_str(s)
}

/// The arguments of `ssh-keygen` that create an ed25519 key pair at `key_path` with the
/// comment `email` and no passphrase.
pub fn keygen_args(email: &str, key_path: &str) -> (r: Vec<String>)
    ensures
        r@.map_values(|a: String| a@) == seq!["-t"@, "ed25519"@, "-C"@, email@, "-f"@, key_path@, "-N"@, ""@],
{
    let mut r: Vec<String> = Vec::new();
    r.push(text("-t"));
    r.push(text("ed25519"));
    r.push(text("-C"));
    r.push(text(email));
    r.push(text("-f"));
    r.push(text(key_path));
    r.push(text("-N"));
    r.push(text(""));
    assert(r@.map_values(|a: String| a@) =~= seq!["-t"@, "ed25519"@, "-C"@, email@, "-f"@, key_path@, "-N"@, ""@]);
    r
}

/// The arguments of `ssh-keygen` that print the public key of `key_path` with an empty
/// passphrase: they fail exactly when the key needs a passphrase.
pub fn passphrase_probe_args(key_path: &str) -> (r: Vec<String>)
    ensures
        r@.map_values(|a: String| a@) == seq!["-y"@, "-P"@, ""@, "-f"@, key_path@],
{
    let mut r: Vec<String> = Vec::new();
    r.push(text("-y"));
    r.push(text("-P"));
    r.push(text(""));
    r.push(text("-f"));
    r.push(text(key_path));
    assert(r@.map_values(|a: String| a@) =~= seq!["-y"@, "-P"@, ""@, "-f"@, key_path@]);
    r
}

/// A character as written inside a single-quoted shell word: a `'` closes the quotes, adds an
/// escaped quote and opens them again; every other character stands for itself.
pub open spec fn quoted_char(c: char) -> Seq<char> {
    if c == '\'' {
        seq!['\'', '\\', '\'', '\'']
    } else {
        seq![c]
    }
}

/// The inside of the single-quoted shell word for `s`.
pub open spec fn quote_body(s: Seq<char>) -> Seq<char>
    decreases s.len(),
{
    if s.len() == 0 {
        seq![]
    } else {
        quote_body(s.drop_last()) + quoted_char(s.last())
    }
}

/// The text a shell reads from the inside of a single-quoted word: `'\''` stands for a quote,
/// every other character for itself.
pub open spec fn unquote_body(q: Seq<char>) -> Seq<char>
    decreases q.len(),
{
    if q.len() == 0 {
        seq![]
    } else if q.len() >= 4 && q.take(4) == seq!['\'', '\\', '\'', '\''] {
        seq!['\''] + unquote_body(q.skip(4))
    } else {
        seq![q[0]] + unquote_body(q.drop_first())
    }
}

/// The `SSH_ASKPASS` script for a passphrase: it prints the passphrase and a line feed with
/// `printf`, the passphrase given as one single-quoted word.
pub open spec fn askpass_text(password: Seq<char>) -> Seq<char> {
    "#!/bin/sh\nprintf '%s\\n' '"@ + quote_body(password) + "'\n"@
}

pub proof fn lemma_quote_body_append(a: Seq<char>, b: Seq<char>)
    ensures
        quote_body(a + b) == quote_body(a) + quote_body(b),
    decreases b.len(),
{
    if b.len() == 0 {
        assert(a + b =~= a);
        assert(quote_body(a) + quote_body(b) =~= quote_body(a));
    } else {
        lemma_quote_body_append(a, b.drop_last());
        assert((a + b).drop_last() =~= a + b.drop_last());
        assert((a + b).last() == b.last());
        assert(quote_body(a) + quote_body(b.drop_last()) + quoted_char(b.last()) =~= quote_body(a) + (
        quote_body(b.drop_last()) + quoted_char(b.last())));
    }
}

pub proof fn lemma_unquote_front(c: char, rest: Seq<char>)
    ensures
        unquote_body(quoted_char(c) + rest) == seq![c] + unquote_body(rest),
{
    let q = quoted_char(c) + rest;
    if c == '\'' {
        assert(q.take(4) =~= seq!['\'', '\\', '\'', '\'']);
        assert(q.skip(4) =~= rest);
    } else {
        assert(q[0] == c);
        assert(q.take(4) != seq!['\'', '\\', '\'', '\''] || q.len() < 4) by {
            if q.len() >= 4 {
                assert(q.take(4)[0] == c);
            }
        }
        assert(q.drop_first() =~= rest);
    }
}

/// Reading the single-quoted word written for a passphrase gives the passphrase back, whatever
/// characters it holds.
pub proof fn law_quoting_round_trip(s: Seq<char>)
    ensures
        unquote_body(quote_body(s)) == s,
    decreases s.len(),
{
    if s.len() > 0 {
        let rest = s.drop_first();
        assert(s =~= seq![s[0]] + rest);
        lemma_quote_body_append(seq![s[0]], rest);
        assert(seq![s[0]].drop_last() =~= Seq::<char>::empty());
        assert(seq![s[0]].last() == s[0]);
        assert(quote_body(Seq::<char>::empty()) == Seq::<char>::empty());
        assert(quote_body(seq![s[0]]) =~= quoted_char(s[0]));
        lemma_unquote_front(s[0], quote_body(rest));
        law_quoting_round_trip(rest);
    }
}

/// The script given to `ssh-add` as `SSH_ASKPASS`: it prints the passphrase, quoted so that
/// the shell takes every character of it literally (see [`askpass_text`]).
pub fn askpass_script(password: &str) -> (r: String)
    ensures
        r@ == askpass_text(password@),
{
    let cs = crate::text::chars_of(password);
    let mut out: Vec<char> = Vec::new();
    crate::text::append_str(&mut out, "#!/bin/sh\nprintf '%s\\n' '");
    let ghost start = out@;
    for i in 0..cs.len()
        invariant
            cs@ == password@,
            out@ == start + quote_body(cs@.take(i as int)),
    {
        assert(cs@.take(i + 1).drop_last() =~= cs@.take(i as int));
        assert(cs@.take(i + 1).last() == cs@[i as int]);
        if cs[i] == '\'' {
            out.push('\'');
            out.push('\\');
            out.push('\'');
            out.push('\'');
        } else {
            out.push(cs[i]);
        }
        assert(out@ =~= start + quote_body(cs@.take(i + 1)));
    }
    assert(cs@.take(cs.len() as int) =~= cs@);
    crate::text::append_str(&mut out, "'\n");
    crate::text::string_of(&out)
}

} // verus!
