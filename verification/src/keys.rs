use vstd::prelude::*;
use crate::order::{lex_le, sort_by_key, with_key, SortKey};
use crate::stdlib::{file_name_of, path_file_name};
use crate::text::chars_of;

verus! {

broadcast use vstd::string::group_string_axioms;

/// A key pair found in `~/.ssh`: a private key file and its `.pub` file, with their contents.
pub struct SshKey {
    pub name: String,
    pub private_path: String,
    pub public_path: String,
    pub private_content: String,
    pub public_content: String,
}

pub ghost struct SshKeyView {
    pub name: Seq<char>,
    pub private_path: Seq<char>,
    pub public_path: Seq<char>,
    pub private_content: Seq<char>,
    pub public_content: Seq<char>,
}

impl View for SshKey {
    type V = SshKeyView;

    open spec fn view(&self) -> SshKeyView {
        SshKeyView {
            name: self.name@,
            private_path: self.private_path@,
            public_path: self.public_path@,
            private_content: self.private_content@,
            public_content: self.public_content@,
        }
    }
}

pub open spec fn key_views(v: Seq<SshKey>) -> Seq<SshKeyView> {
    v.map_values(|k: SshKey| k@)
}

impl SortKey for SshKey {
    open spec fn sort_key(&self) -> Seq<char> {
        self.name@
    }

    fn key_chars(&self) -> (v: Vec<char>) {
        chars_of(self.name.as_str())
    }
}

pub open spec fn unknown_name() -> Seq<char> {
    seq!['U', 'n', 'k', 'n', 'o', 'w', 'n']
}

/// The name a key is listed under: the file name of its private key, or `Unknown`.
pub open spec fn key_name(private_path: Seq<char>) -> Seq<char> {
    match path_file_name(private_path) {
        Some(n) => n,
        None => unknown_name(),
    }
}

/// The key built from two files and their contents; none when both files are empty.
pub open spec fn key_of(
    private_path: Seq<char>,
    public_path: Seq<char>,
    private_content: Seq<char>,
    public_content: Seq<char>,
) -> Option<SshKeyView> {
    if private_content.len() == 0 && public_content.len() == 0 {
        None
    } else {
        Some(
            SshKeyView {
                name: key_name(private_path),
                private_path,
                public_path,
                private_content,
                public_content,
            },
        )
    }
}

fn unknown() -> (s: String)
    ensures
        s@ == unknown_name(),
{
    proof {
        reveal_strlit("Unknown");
    }
    let s = String::from_str("Unknown");
    assert(s@ =~= unknown_name());
    s
}

impl SshKey {
    /// The key for a private key file and its public key file, given their contents (an
    /// unreadable file counts as empty); none when both are empty.
    pub fn new(
        private_path: String,
        public_path: String,
        private_content: String,
        public_content: String,
    ) -> (r: Option<SshKey>)
        ensures
            match r {
                Some(k) => key_of(private_path@, public_path@, private_content@, public_content@)
                    == Some(k@),
                None => key_of(private_path@, public_path@, private_content@, public_content@) is None,
            },
    {
        let name = match file_name_of(private_path.as_str()) {
            Some(n) => n,
            None => unknown(),
        };
        if private_content.as_str().is_empty() && public_content.as_str().is_empty() {
            return None;
        }
        Some(SshKey { name, private_path, public_path, private_content, public_content })
    }
}

/// The files of one key pair found in `~/.ssh`: a `.pub` file whose private key file exists,
/// and what reading each gave (empty when it could not be read).
pub struct KeyFiles {
    pub private_path: String,
    pub public_path: String,
    pub private_content: String,
    pub public_content: String,
}

pub open spec fn files_key(f: KeyFiles) -> Option<SshKeyView> {
    key_of(f.private_path@, f.public_path@, f.private_content@, f.public_content@)
}

/// The keys built from the files found, in the order found.
pub open spec fn keys_found(fs: Seq<KeyFiles>) -> Seq<SshKeyView>
    decreases fs.len(),
{
    if fs.len() == 0 {
        seq![]
    } else {
        match files_key(fs.last()) {
            Some(k) => keys_found(fs.drop_last()).push(k),
            None => keys_found(fs.drop_last()),
        }
    }
}

pub open spec fn sorted_by_name(s: Seq<SshKeyView>) -> bool {
    forall|i: int, j: int| 0 <= i < j < s.len() ==> lex_le(#[trigger] s[i].name, #[trigger] s[j].name)
}

/// The keys named `n`, in order.
pub open spec fn named(s: Seq<SshKeyView>, n: Seq<char>) -> Seq<SshKeyView>
    decreases s.len(),
{
    if s.len() == 0 {
        seq![]
    } else if s.last().name == n {
        named(s.drop_last(), n).push(s.last())
    } else {
        named(s.drop_last(), n)
    }
}

pub proof fn lemma_named_with_key(s: Seq<SshKey>, n: Seq<char>)
    ensures
        key_views(with_key(s, n)) == named(key_views(s), n),
    decreases s.len(),
{
    if s.len() > 0 {
        lemma_named_with_key(s.drop_last(), n);
        assert(key_views(s).drop_last() =~= key_views(s.drop_last()));
        assert(key_views(s).last() == s.last()@);
        if s.last().sort_key() == n {
            assert(key_views(with_key(s.drop_last(), n).push(s.last())) =~= key_views(
                with_key(s.drop_last(), n),
            ).push(s.last()@));
        }
    } else {
        assert(key_views(Seq::<SshKey>::empty()) =~= Seq::<SshKeyView>::empty());
    }
}

/// The keys found, sorted by name; keys of equal names keep the order they were found in.
pub fn collect_ssh_keys(found: Vec<KeyFiles>) -> (r: Vec<SshKey>)
    ensures
        sorted_by_name(key_views(r@)),
        forall|n: Seq<char>| #[trigger] named(key_views(r@), n) == named(keys_found(found@), n),
{
    let ghost fs = found@;
    let mut keys: Vec<SshKey> = Vec::new();
    let mut found = found;
    let mut rest: Vec<KeyFiles> = Vec::new();
    // take the files in order
    while found.len() > 0
        invariant
            fs == found@ + rest@.reverse(),
        decreases found.len(),
    {
        let ghost before = found@;
        let f = found.pop().unwrap();
        rest.push(f);
        assert(fs =~= found@ + rest@.reverse()) by {
            assert(before =~= found@.push(f));
            assert(rest@.reverse() =~= seq![f] + (rest@.drop_last()).reverse());
        }
    }
    assert(rest@.reverse() =~= fs);
    let total = rest.len();
    let mut i: usize = 0;
    while rest.len() > 0
        invariant
            rest@.reverse() == fs.skip(i as int),
            i + rest@.len() == fs.len(),
            fs.len() == total,
            key_views(keys@) == keys_found(fs.take(i as int)),
        decreases rest.len(),
    {
        let ghost before = rest@;
        let f = rest.pop().unwrap();
        assert(f == fs[i as int]) by {
            assert(before.reverse()[0] == before.last());
        }
        assert(fs.take(i + 1).drop_last() =~= fs.take(i as int));
        assert(rest@.reverse() =~= fs.skip(i + 1)) by {
            assert(before == rest@.push(f));
            assert forall|j: int| 0 <= j < rest@.len() implies rest@.reverse()[j] == fs.skip(i + 1)[j] by {
                assert(before.reverse()[j + 1] == fs.skip(i as int)[j + 1]);
            }
        }
        let ghost kv = keys@;
        match SshKey::new(f.private_path, f.public_path, f.private_content, f.public_content) {
            Some(k) => {
                keys.push(k);
                assert(key_views(keys@) =~= key_views(kv).push(k@));
            },
            None => {},
        }
        i += 1;
    }
    assert(fs.take(fs.len() as int) =~= fs);
    let sorted = sort_by_key(keys);
    proof {
        assert forall|n: Seq<char>| #[trigger] named(key_views(sorted@), n) == named(keys_found(fs), n) by {
            lemma_named_with_key(sorted@, n);
            lemma_named_with_key(keys@, n);
            assert(with_key(sorted@, n) == with_key(keys@, n));
        }
        assert forall|a: int, b: int| 0 <= a < b < key_views(sorted@).len() implies lex_le(#[trigger] key_views(sorted@)[a].name, #[trigger] key_views(sorted@)[b].name) by {
            assert(lex_le(sorted@[a].sort_key(), sorted@[b].sort_key()));
        }
    }
    sorted
}

} // verus!
