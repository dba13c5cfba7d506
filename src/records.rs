use vstd::prelude::*;
use vstd::map::*;

verus! {

/// Name and branch of one stored record.
pub type Entry = (String, String);

/// The names of `s` are pairwise distinct.
pub open spec fn names_unique(s: Seq<Entry>) -> bool {
    forall|i: int, j: int|
        0 <= i < s.len() && 0 <= j < s.len() && i != j ==> #[trigger] s[i].0@ != #[trigger] s[j].0@
}

/// `name` is the name of some entry of `s`.
pub open spec fn has_name(s: Seq<Entry>, name: Seq<char>) -> bool {
    exists|i: int| 0 <= i < s.len() && #[trigger] s[i].0@ == name
}

/// The mapping from name to branch that the entries of `s` describe.
pub open spec fn map_of(s: Seq<Entry>) -> Map<Seq<char>, Seq<char>> {
    Map::new(
        |name: Seq<char>| has_name(s, name),
        |name: Seq<char>| s[choose|i: int| 0 <= i < s.len() && #[trigger] s[i].0@ == name].1@,
    )
}

/// In entries with distinct names, each entry gives the branch of its name.
proof fn lemma_map_of_at(s: Seq<Entry>, j: int)
    requires
        names_unique(s),
        0 <= j < s.len(),
    ensures
        map_of(s).contains_key(s[j].0@),
        map_of(s)[s[j].0@] == s[j].1@,
{
    let name = s[j].0@;
    assert(has_name(s, name));
    let i = choose|i: int| 0 <= i < s.len() && #[trigger] s[i].0@ == name;
    assert(i == j);
}

/// Appending an entry under a new name adds that name to the mapping.
proof fn lemma_map_of_push(s: Seq<Entry>, e: Entry)
    requires
        names_unique(s),
        !has_name(s, e.0@),
    ensures
        names_unique(s.push(e)),
        map_of(s.push(e)) == map_of(s).insert(e.0@, e.1@),
{
    let t = s.push(e);
    assert(names_unique(t)) by {
        assert forall|i: int, j: int|
            0 <= i < t.len() && 0 <= j < t.len() && i != j implies #[trigger] t[i].0@ != #[trigger] t[j].0@ by {
            if i < s.len() && j == s.len() {
                assert(s[i].0@ == t[i].0@);
            } else if j < s.len() && i == s.len() {
                assert(s[j].0@ == t[j].0@);
            }
        }
    }
    let m = map_of(s).insert(e.0@, e.1@);
    assert forall|k: Seq<char>| #[trigger] map_of(t).contains_key(k) == m.contains_key(k) by {
        if has_name(s, k) {
            let i = choose|i: int| 0 <= i < s.len() && #[trigger] s[i].0@ == k;
            assert(t[i].0@ == k);
        }
        if has_name(t, k) && k != e.0@ {
            let i = choose|i: int| 0 <= i < t.len() && #[trigger] t[i].0@ == k;
            assert(s[i].0@ == k);
        }
        if k == e.0@ {
            assert(t[s.len() as int].0@ == k);
        }
    }
    assert forall|k: Seq<char>| #[trigger] map_of(t).contains_key(k) implies map_of(t)[k] == m[k] by {
        let i = choose|i: int| 0 <= i < t.len() && #[trigger] t[i].0@ == k;
        lemma_map_of_at(t, i);
        if i < s.len() {
            lemma_map_of_at(s, i);
        }
    }
    assert_maps_equal!(map_of(t), m);
}

/// Removing the entry at `j` by moving the last entry into its place removes
/// its name from the mapping.
proof fn lemma_map_of_swap_remove(s: Seq<Entry>, j: int)
    requires
        names_unique(s),
        0 <= j < s.len(),
    ensures
        names_unique(s.update(j, s.last()).drop_last()),
        map_of(s.update(j, s.last()).drop_last()) == map_of(s).remove(s[j].0@),
{
    let t = s.update(j, s.last()).drop_last();
    let last = s.len() - 1;
    // Position in `s` of the entry that stands at `i` in `t`.
    let src = |i: int| if i == j { last } else { i };
    assert forall|i: int| 0 <= i < t.len() implies #[trigger] t[i] == s[src(i)] && src(i) != j by {}
    assert(names_unique(t)) by {
        assert forall|i: int, k: int|
            0 <= i < t.len() && 0 <= k < t.len() && i != k implies #[trigger] t[i].0@ != #[trigger] t[k].0@ by {
            assert(t[i] == s[src(i)]);
            assert(t[k] == s[src(k)]);
        }
    }
    let name = s[j].0@;
    let m = map_of(s).remove(name);
    assert forall|k: Seq<char>| #[trigger] map_of(t).contains_key(k) == m.contains_key(k) by {
        if has_name(t, k) {
            let i = choose|i: int| 0 <= i < t.len() && #[trigger] t[i].0@ == k;
            assert(t[i] == s[src(i)]);
            assert(s[j].0@ == name);
        }
        if has_name(s, k) && k != name {
            let i = choose|i: int| 0 <= i < s.len() && #[trigger] s[i].0@ == k;
            if i == last {
                assert(t[j].0@ == k);
            } else {
                assert(t[i].0@ == k);
            }
        }
    }
    assert forall|k: Seq<char>| #[trigger] map_of(t).contains_key(k) implies map_of(t)[k] == m[k] by {
        let i = choose|i: int| 0 <= i < t.len() && #[trigger] t[i].0@ == k;
        assert(t[i] == s[src(i)]);
        lemma_map_of_at(t, i);
        lemma_map_of_at(s, src(i));
    }
    assert_maps_equal!(map_of(t), m);
}

/// Position of the entry named `name`, if there is one.
fn position(entries: &Vec<Entry>, name: &String) -> (r: Option<usize>)
    ensures
        match r {
            Some(i) => i < entries.len() && entries@[i as int].0@ == name@,
            None => !has_name(entries@, name@),
        },
{
    let mut i: usize = 0;
    while i < entries.len()
        invariant
            i <= entries.len(),
            forall|k: int| 0 <= k < i ==> #[trigger] entries@[k].0@ != name@,
        decreases entries.len() - i,
    {
        if entries[i].0 == *name {
            return Some(i);
        }
        i += 1;
    }
    None
}

/// A mapping from student name to branch, at most one branch per name.
pub struct Records {
    entries: Vec<Entry>,
}

impl View for Records {
    type V = Map<Seq<char>, Seq<char>>;

    closed spec fn view(&self) -> Map<Seq<char>, Seq<char>> {
        map_of(self.entries@)
    }
}

impl Records {
    #[verifier::type_invariant]
    spec fn inv(self) -> bool {
        names_unique(self.entries@)
    }

    /// An empty mapping.
    pub fn new() -> (r: Records)
        ensures
            r@ == Map::<Seq<char>, Seq<char>>::empty(),
    {
        let r = Records { entries: Vec::new() };
        proof { assert_maps_equal!(r@, Map::<Seq<char>, Seq<char>>::empty()); }
        r
    }

    /// Inserts the record, or replaces the branch of an existing record of that name.
    pub fn put(&mut self, name: String, branch: String)
        ensures
            final(self)@ == old(self)@.insert(name@, branch@),
    {
        proof { use_type_invariant(&*self); }
        let mut entries: Vec<Entry> = Vec::new();
        std::mem::swap(&mut entries, &mut self.entries);
        let ghost before = entries@;
        match position(&entries, &name) {
            Some(i) => {
                proof { lemma_map_of_swap_remove(entries@, i as int); }
                entries.swap_remove(i);
                proof {
                    let s = entries@;
                    assert(!has_name(s, name@)) by {
                        if has_name(s, name@) {
                            let k = choose|k: int| 0 <= k < s.len() && #[trigger] s[k].0@ == name@;
                            lemma_map_of_at(s, k);
                        }
                    }
                }
            },
            None => {},
        }
        proof {
            lemma_map_of_push(entries@, (name, branch));
            assert_maps_equal!(
                map_of(before).remove(name@).insert(name@, branch@),
                map_of(before).insert(name@, branch@)
            );
            assert(!has_name(before, name@) ==> map_of(before).remove(name@) =~= map_of(before));
        }
        entries.push((name, branch));
        self.entries = entries;
    }

    /// Removes the record of that name; a name that is absent leaves the mapping as it was.
    pub fn delete(&mut self, name: &String)
        ensures
            final(self)@ == old(self)@.remove(name@),
    {
        proof { use_type_invariant(&*self); }
        let mut entries: Vec<Entry> = Vec::new();
        std::mem::swap(&mut entries, &mut self.entries);
        match position(&entries, name) {
            Some(i) => {
                proof { lemma_map_of_swap_remove(entries@, i as int); }
                entries.swap_remove(i);
            },
            None => {
                proof { assert_maps_equal!(map_of(entries@).remove(name@), map_of(entries@)); }
            },
        }
        self.entries = entries;
    }

    /// The entries, one per name, in no particular order.
    pub fn to_vec(&self) -> (r: Vec<Entry>)
        ensures
            names_unique(r@),
            map_of(r@) == self@,
    {
        proof { use_type_invariant(&*self); }
        let mut r: Vec<Entry> = Vec::new();
        let mut i: usize = 0;
        while i < self.entries.len()
            invariant
                i <= self.entries.len(),
                r@ == self.entries@.subrange(0, i as int),
            decreases self.entries.len() - i,
        {
            let name = self.entries[i].0.clone();
            let branch = self.entries[i].1.clone();
            r.push((name, branch));
            i += 1;
        }
        proof { assert(r@ =~= self.entries@); }
        r
    }

    /// An independent copy of the mapping as it is now.
    pub fn snapshot(&self) -> (r: Records)
        ensures
            r@ == self@,
    {
        Records { entries: self.to_vec() }
    }

    /// The branch recorded for `name`, if any.
    pub fn get(&self, name: &String) -> (r: Option<String>)
        ensures
            r is Some <==> self@.contains_key(name@),
            r matches Some(b) ==> b@ == self@[name@],
    {
        proof { use_type_invariant(&*self); }
        match position(&self.entries, name) {
            Some(i) => {
                proof { lemma_map_of_at(self.entries@, i as int); }
                Some(self.entries[i].1.clone())
            },
            None => None,
        }
    }
}

} // verus!
