use vstd::prelude::*;
use vstd::string::*;
use crate::text::views;

verus! {

/// `key` is one of the keys of `pairs`.
pub open spec fn has_key(pairs: Seq<(Seq<char>, Seq<char>)>, key: Seq<char>) -> bool {
    exists|i: int| 0 <= i < pairs.len() && #[trigger] pairs[i].0 == key
}

/// The keys of `pairs`, in order.
pub open spec fn keys_of(pairs: Seq<(Seq<char>, Seq<char>)>) -> Seq<Seq<char>> {
    pairs.map_values(|p: (Seq<char>, Seq<char>)| p.0)
}

/// No key stands twice.
pub open spec fn keys_unique(pairs: Seq<(Seq<char>, Seq<char>)>) -> bool {
    forall|i: int, j: int| 0 <= i < j < pairs.len() ==> pairs[i].0 != pairs[j].0
}

/// The canonical form of `term`: the value of its entry when it is a key,
/// otherwise the term itself.
pub open spec fn resolved(pairs: Seq<(Seq<char>, Seq<char>)>, term: Seq<char>) -> Seq<char> {
    if has_key(pairs, term) {
        pairs[choose|i: int| 0 <= i < pairs.len() && #[trigger] pairs[i].0 == term].1
    } else {
        term
    }
}

/// The pairs after setting `key` to `value`: an existing entry keeps its
/// place, a new one goes last.
pub open spec fn inserted(
    pairs: Seq<(Seq<char>, Seq<char>)>,
    key: Seq<char>,
    value: Seq<char>,
) -> Seq<(Seq<char>, Seq<char>)> {
    if has_key(pairs, key) {
        pairs.update(choose|i: int| 0 <= i < pairs.len() && #[trigger] pairs[i].0 == key, (key, value))
    } else {
        pairs.push((key, value))
    }
}

/// With unique keys, the entry found at `i` is the one that resolves `pairs[i].0`.
pub proof fn lemma_resolved_at(pairs: Seq<(Seq<char>, Seq<char>)>, i: int)
    requires
        keys_unique(pairs),
        0 <= i < pairs.len(),
    ensures
        resolved(pairs, pairs[i].0) == pairs[i].1,
        (choose|j: int| 0 <= j < pairs.len() && #[trigger] pairs[j].0 == pairs[i].0) == i,
{
    assert(has_key(pairs, pairs[i].0));
    let j = choose|j: int| 0 <= j < pairs.len() && #[trigger] pairs[j].0 == pairs[i].0;
    if j < i {
        assert(pairs[j].0 != pairs[i].0);
    } else if i < j {
        assert(pairs[i].0 != pairs[j].0);
    }
}

/// Alternate spellings of template names and the names they stand for.
pub struct AliasTable {
    entries: Vec<(String, String)>,
}

impl View for AliasTable {
    type V = Seq<(Seq<char>, Seq<char>)>;

    /// The entries in the order in which their keys were first inserted.
    closed spec fn view(&self) -> Self::V {
        self.entries@.map_values(|e: (String, String)| (e.0@, e.1@))
    }
}

impl AliasTable {
    pub open spec fn wf(&self) -> bool {
        keys_unique(self@)
    }

    pub fn new() -> (r: Self)
        ensures
            r@ == Seq::<(Seq<char>, Seq<char>)>::empty(),
            r.wf(),
    {
        let r = AliasTable { entries: Vec::new() };
        assert(r@ =~= Seq::<(Seq<char>, Seq<char>)>::empty());
        r
    }

    /// The aliases known out of the box.
    pub fn known() -> (r: Self)
        ensures
            r.wf(),
            r@ == seq![
                ("vscode"@, "visualstudiocode"@),
                ("c#"@, "csharp"@),
            ],
    {
        let mut r = AliasTable::new();
        r.insert(String::from_str("vscode"), String::from_str("visualstudiocode"));
        assert(r@ =~= seq![("vscode"@, "visualstudiocode"@)]);
        proof {
            reveal_strlit("vscode");
            reveal_strlit("c#");
            assert("vscode"@.len() == 6 && "c#"@.len() == 2);
            assert(r@[0].0 != "c#"@);
            assert(!has_key(r@, "c#"@));
        }
        r.insert(String::from_str("c#"), String::from_str("csharp"));
        assert(r@ =~= seq![("vscode"@, "visualstudiocode"@), ("c#"@, "csharp"@)]);
        r
    }

    /// Where `key` stands in the table, if it does.
    fn find(&self, key: &String) -> (r: Option<usize>)
        ensures
            match r {
                Some(i) => i < self@.len() && self@[i as int].0 == key@,
                None => !has_key(self@, key@),
            },
    {
        let mut i: usize = 0;
        while i < self.entries.len()
            invariant
                i <= self@.len(),
                self@.len() == self.entries@.len(),
                forall|k: int| 0 <= k < i ==> self@[k].0 != key@,
            decreases self.entries@.len() - i,
        {
            if self.entries[i].0 == *key {
                return Some(i);
            }
            i = i + 1;
        }
        None
    }

    /// Sets `key` to stand for `value`.
    pub fn insert(&mut self, key: String, value: String)
        requires
            old(self).wf(),
        ensures
            final(self).wf(),
            final(self)@ == inserted(old(self)@, key@, value@),
    {
        match self.find(&key) {
            Some(i) => {
                proof {
                    lemma_resolved_at(self@, i as int);
                }
                let ghost k = key@;
                let ghost v = value@;
                self.entries.set(i, (key, value));
                assert(self@ =~= inserted(old(self)@, k, v));
            },
            None => {
                let ghost k = key@;
                let ghost v = value@;
                self.entries.push((key, value));
                assert(self@ =~= inserted(old(self)@, k, v));
            },
        }
    }

    /// The canonical form of `term`: the name it stands for when it is an
    /// alias (compared exactly), otherwise `term` unchanged.
    pub fn resolve(&self, term: &str) -> (r: String)
        requires
            self.wf(),
        ensures
            r@ == resolved(self@, term@),
            !has_key(self@, term@) ==> r@ == term@,
    {
        let t = String::from_str(term);
        match self.find(&t) {
            Some(i) => {
                proof {
                    lemma_resolved_at(self@, i as int);
                }
                self.entries[i].1.clone()
            },
            None => t,
        }
    }

    /// The keys, in table order.
    pub fn keys(&self) -> (r: Vec<String>)
        ensures
            views(r@) == keys_of(self@),
    {
        let mut r: Vec<String> = Vec::new();
        let mut i: usize = 0;
        while i < self.entries.len()
            invariant
                i <= self@.len(),
                self@.len() == self.entries@.len(),
                r@.len() == i,
                forall|k: int| 0 <= k < i ==> #[trigger] r@[k]@ == self@[k].0,
            decreases self.entries@.len() - i,
        {
            r.push(self.entries[i].0.clone());
            i = i + 1;
        }
        assert(views(r@) =~= keys_of(self@));
        r
    }
}

} // verus!
