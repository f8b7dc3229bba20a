use vstd::prelude::*;

verus! {

/// The texts of the documents open in the editor, by URI.
pub struct DocumentStore {
    entries: Vec<(String, String)>,
}

/// The map that a list of (URI, text) entries stands for; a later entry wins.
pub open spec fn entries_map(s: Seq<(String, String)>) -> Map<Seq<char>, Seq<char>>
    decreases s.len(),
{
    if s.len() == 0 {
        Map::empty()
    } else {
        entries_map(s.drop_last()).insert(s.last().0@, s.last().1@)
    }
}

pub open spec fn keys_distinct(s: Seq<(String, String)>) -> bool {
    forall|i: int, j: int| 0 <= i < j < s.len() ==> s[i].0@ != s[j].0@
}

proof fn lemma_entries_map(s: Seq<(String, String)>)
    requires
        keys_distinct(s),
    ensures
        forall|k: Seq<char>|
            #![trigger entries_map(s).contains_key(k)]
            entries_map(s).contains_key(k) <==> exists|i: int| 0 <= i < s.len() && s[i].0@ == k,
        forall|i: int| 0 <= i < s.len() ==> #[trigger] entries_map(s)[s[i].0@] == s[i].1@,
    decreases s.len(),
{
    if s.len() > 0 {
        let p = s.drop_last();
        lemma_entries_map(p);
        assert forall|k: Seq<char>| entries_map(s).contains_key(k) implies exists|i: int|
            0 <= i < s.len() && s[i].0@ == k by {
            if k != s.last().0@ {
                assert(entries_map(p).contains_key(k));
                let i = choose|i: int| 0 <= i < p.len() && p[i].0@ == k;
                assert(s[i] == p[i]);
            } else {
                assert(s[s.len() - 1].0@ == k);
            }
        }
        assert forall|k: Seq<char>| (exists|i: int| 0 <= i < s.len() && s[i].0@ == k) implies
            entries_map(s).contains_key(k) by {
            let i = choose|i: int| 0 <= i < s.len() && s[i].0@ == k;
            if i < s.len() - 1 {
                assert(p[i] == s[i]);
                assert(entries_map(p).contains_key(k));
            }
        }
        assert forall|i: int| 0 <= i < s.len() implies #[trigger] entries_map(s)[s[i].0@]
            == s[i].1@ by {
            if i < s.len() - 1 {
                assert(s[i] == p[i]);
                assert(s[i].0@ != s[s.len() - 1].0@);
                assert(entries_map(p)[p[i].0@] == p[i].1@);
            }
        }
    }
}

impl DocumentStore {
    #[verifier::type_invariant]
    spec fn wf(self) -> bool {
        keys_distinct(self.entries@)
    }

    /// An empty store.
    pub fn new() -> (r: DocumentStore)
        ensures
            r@ == Map::<Seq<char>, Seq<char>>::empty(),
    {
        DocumentStore { entries: Vec::new() }
    }

    /// Keeps `text` as the text of the document `uri`, replacing what was kept before.
    pub fn insert(&mut self, uri: String, text: String)
        ensures
            final(self)@ == old(self)@.insert(uri@, text@),
    {
        proof {
            use_type_invariant(&*self);
        }
        let mut entries: Vec<(String, String)> = Vec::new();
        std::mem::swap(&mut entries, &mut self.entries);
        let ghost old_entries = entries@;
        let n = entries.len();
        let mut i: usize = 0;
        while i < n
            invariant
                n == old_entries.len(),
                old_entries == entries@,
                keys_distinct(old_entries),
                i <= n,
                forall|j: int| 0 <= j < i ==> old_entries[j].0@ != uri@,
            ensures
                i <= n,
                i < n ==> old_entries[i as int].0@ == uri@,
                forall|j: int| 0 <= j < i ==> old_entries[j].0@ != uri@,
            decreases n - i,
        {
            if entries[i].0 == uri {
                break;
            }
            i = i + 1;
        }
        proof {
            lemma_entries_map(old_entries);
        }
        if i < n {
            let ghost new_entries = old_entries.update(i as int, (uri, text));
            proof {
                assert(keys_distinct(new_entries));
                lemma_entries_map(new_entries);
                let m0 = entries_map(old_entries).insert(uri@, text@);
                let m1 = entries_map(new_entries);
                assert(new_entries[i as int].0@ == uri@);
                assert(m1.contains_key(uri@));
                assert forall|k: Seq<char>| #[trigger] m1.contains_key(k) <==> m0.contains_key(k) by {
                    if k != uri@ {
                        if m1.contains_key(k) {
                            let j = choose|j: int| 0 <= j < new_entries.len() && new_entries[j].0@ == k;
                            assert(old_entries[j] == new_entries[j]);
                            assert(entries_map(old_entries).contains_key(k));
                        }
                        if entries_map(old_entries).contains_key(k) {
                            let j = choose|j: int| 0 <= j < old_entries.len() && old_entries[j].0@ == k;
                            assert(old_entries[j] == new_entries[j]);
                            assert(m1.contains_key(k));
                        }
                    }
                }
                assert forall|k: Seq<char>| #[trigger] m1.contains_key(k) implies m1[k] == m0[k] by {
                    if k != uri@ {
                        let j = choose|j: int| 0 <= j < new_entries.len() && new_entries[j].0@ == k;
                        assert(old_entries[j] == new_entries[j]);
                        assert(m1[new_entries[j].0@] == new_entries[j].1@);
                        assert(entries_map(old_entries)[old_entries[j].0@] == old_entries[j].1@);
                    } else {
                        assert(m1[new_entries[i as int].0@] == new_entries[i as int].1@);
                    }
                }
                assert(m1 =~= m0);
            }
            entries.set(i, (uri, text));
        } else {
            let ghost new_entries = old_entries.push((uri, text));
            proof {
                assert(new_entries.drop_last() =~= old_entries);
                assert(keys_distinct(new_entries));
            }
            entries.push((uri, text));
        }
        self.entries = entries;
    }

    /// The text kept for the document `uri`, if any.
    pub fn get(&self, uri: &String) -> (r: Option<String>)
        ensures
            r is Some <==> self@.contains_key(uri@),
            r matches Some(t) ==> t@ == self@[uri@],
    {
        proof {
            use_type_invariant(self);
        }
        let n = self.entries.len();
        let mut i: usize = 0;
        while i < n
            invariant
                n == self.entries@.len(),
                i <= n,
                forall|j: int| 0 <= j < i ==> self.entries@[j].0@ != uri@,
            ensures
                i <= n,
                i < n ==> self.entries@[i as int].0@ == uri@,
                forall|j: int| 0 <= j < i ==> self.entries@[j].0@ != uri@,
            decreases n - i,
        {
            if self.entries[i].0 == *uri {
                break;
            }
            i = i + 1;
        }
        proof {
            lemma_entries_map(self.entries@);
        }
        if i < n {
            Some(self.entries[i].1.clone())
        } else {
            None
        }
    }
}

impl View for DocumentStore {
    type V = Map<Seq<char>, Seq<char>>;

    closed spec fn view(&self) -> Map<Seq<char>, Seq<char>> {
        entries_map(self.entries@)
    }
}

/// What the store gives back after a write: the text just kept for `uri`, and for every other
/// document what it held before.
pub proof fn lemma_read_after_write(
    before: Map<Seq<char>, Seq<char>>,
    after: Map<Seq<char>, Seq<char>>,
    uri: Seq<char>,
    text: Seq<char>,
    other: Seq<char>,
)
    requires
        after == before.insert(uri, text),
    ensures
        after.contains_key(uri) && after[uri] == text,
        other != uri ==> (after.contains_key(other) <==> before.contains_key(other)),
        other != uri && before.contains_key(other) ==> after[other] == before[other],
{
}

} // verus!
