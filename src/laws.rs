use vstd::prelude::*;
use crate::handler::{Id, Item, Reply, Request, Status, applied, is_message, spec_check_body, REMOVED_TEXT};

verus! {

/// Two create-or-replace requests for one name leave one record of that
/// name, holding the second branch.
pub proof fn upsert_last_wins(
    m0: Map<Seq<char>, Seq<char>>,
    name: String,
    branch1: String,
    branch2: String,
    m1: Map<Seq<char>, Seq<char>>,
    m2: Map<Seq<char>, Seq<char>>,
    r1: Reply,
    r2: Reply,
)
    requires
        applied(m0, Request::Upsert(Item { name: name, branch: branch1 }), m1, r1),
        applied(m1, Request::Upsert(Item { name: name, branch: branch2 }), m2, r2),
    ensures
        m2 == m0.insert(name@, branch2@),
        m2.contains_key(name@),
        m2[name@] == branch2@,
{
    assert(m2 =~= m0.insert(name@, branch2@));
}

/// Deleting a name that is absent succeeds and changes nothing.
pub proof fn delete_absent_is_noop(
    m0: Map<Seq<char>, Seq<char>>,
    name: String,
    m1: Map<Seq<char>, Seq<char>>,
    r: Reply,
)
    requires
        !m0.contains_key(name@),
        applied(m0, Request::Remove(Id { name: name }), m1, r),
    ensures
        m1 == m0,
        is_message(r, Status::Success, REMOVED_TEXT@),
{
    assert(m1 =~= m0);
}

/// A listing taken after a create-or-replace holds the record it wrote.
pub proof fn listing_shows_prior_put(
    m0: Map<Seq<char>, Seq<char>>,
    item: Item,
    m1: Map<Seq<char>, Seq<char>>,
    r1: Reply,
    m2: Map<Seq<char>, Seq<char>>,
    r2: Reply,
)
    requires
        applied(m0, Request::Upsert(item), m1, r1),
        applied(m1, Request::List, m2, r2),
    ensures
        r2 matches Reply::Listing(copy) && copy@.contains_key(item.name@)
            && copy@[item.name@] == item.branch@,
{
}

/// A listing taken before a create-or-replace does not show it, while the
/// mapping afterwards does.
pub proof fn listing_is_isolated(
    m0: Map<Seq<char>, Seq<char>>,
    item: Item,
    r0: Reply,
    m1: Map<Seq<char>, Seq<char>>,
    m2: Map<Seq<char>, Seq<char>>,
    r2: Reply,
)
    requires
        !m0.contains_key(item.name@),
        applied(m0, Request::List, m1, r0),
        applied(m1, Request::Upsert(item), m2, r2),
    ensures
        r0 matches Reply::Listing(copy) && copy@ == m0 && !copy@.contains_key(item.name@),
        m2.contains_key(item.name@),
{
}

/// Create-or-replace, then delete, of one name: the listing in between shows
/// the record, the listing after does not.
pub proof fn put_then_delete_round_trip(
    m0: Map<Seq<char>, Seq<char>>,
    item: Item,
    id: Id,
    m1: Map<Seq<char>, Seq<char>>,
    r1: Reply,
    m2: Map<Seq<char>, Seq<char>>,
    r2: Reply,
    m3: Map<Seq<char>, Seq<char>>,
    r3: Reply,
    m4: Map<Seq<char>, Seq<char>>,
    r4: Reply,
)
    requires
        id.name@ == item.name@,
        applied(m0, Request::Upsert(item), m1, r1),
        applied(m1, Request::List, m2, r2),
        applied(m2, Request::Remove(id), m3, r3),
        applied(m3, Request::List, m4, r4),
    ensures
        r2 matches Reply::Listing(copy) && copy@.contains_key(item.name@)
            && copy@[item.name@] == item.branch@,
        r4 matches Reply::Listing(copy) && !copy@.contains_key(item.name@),
{
}

/// The mapping that `m` becomes after a `put` of each pair of `s`, in order.
pub open spec fn put_all(m: Map<Seq<char>, Seq<char>>, s: Seq<(Seq<char>, Seq<char>)>) -> Map<
    Seq<char>,
    Seq<char>,
>
    decreases s.len(),
{
    if s.len() == 0 {
        m
    } else {
        put_all(m, s.drop_last()).insert(s.last().0, s.last().1)
    }
}

/// The names of the pairs of `s` are pairwise distinct.
pub open spec fn distinct_names(s: Seq<(Seq<char>, Seq<char>)>) -> bool {
    forall|i: int, j: int|
        0 <= i < s.len() && 0 <= j < s.len() && i != j ==> #[trigger] s[i].0 != #[trigger] s[j].0
}

/// Puts of distinct names, starting from an empty mapping, leave exactly
/// those records.
pub proof fn distinct_puts_hold_exactly_their_records(s: Seq<(Seq<char>, Seq<char>)>)
    requires
        distinct_names(s),
    ensures
        forall|k: Seq<char>|
            #[trigger] put_all(Map::empty(), s).contains_key(k) <==> exists|i: int|
                0 <= i < s.len() && #[trigger] s[i].0 == k,
        forall|i: int|
            0 <= i < s.len() ==> #[trigger] put_all(Map::empty(), s)[s[i].0] == s[i].1,
    decreases s.len(),
{
    if s.len() > 0 {
        let t = s.drop_last();
        assert(distinct_names(t)) by {
            assert forall|i: int, j: int|
                0 <= i < t.len() && 0 <= j < t.len() && i != j implies #[trigger] t[i].0 != #[trigger] t[j].0 by {
                assert(t[i] == s[i] && t[j] == s[j]);
            }
        }
        distinct_puts_hold_exactly_their_records(t);
        let m = put_all(Map::empty(), s);
        assert(m == put_all(Map::empty(), t).insert(s.last().0, s.last().1));
        assert forall|k: Seq<char>| #[trigger] m.contains_key(k) implies exists|i: int|
            0 <= i < s.len() && #[trigger] s[i].0 == k by {
            if k != s.last().0 {
                let i = choose|i: int| 0 <= i < t.len() && #[trigger] t[i].0 == k;
                assert(s[i].0 == k);
            } else {
                assert(s[s.len() - 1].0 == k);
            }
        }
        assert forall|k: Seq<char>| (exists|i: int| 0 <= i < s.len() && #[trigger] s[i].0 == k) implies #[trigger] m.contains_key(k) by {
            let i = choose|i: int| 0 <= i < s.len() && #[trigger] s[i].0 == k;
            if i < t.len() {
                assert(t[i].0 == k);
            }
        }
        assert forall|i: int| 0 <= i < s.len() implies #[trigger] m[s[i].0] == s[i].1 by {
            if i < t.len() {
                assert(t[i] == s[i]);
                assert(s[i].0 != s[s.len() - 1].0);
            }
        }
    }
}

/// Puts of distinct names end in the same mapping whatever order they
/// complete in: `s1` and `s2` hold the same puts, in two orders.
pub proof fn distinct_puts_converge(
    s1: Seq<(Seq<char>, Seq<char>)>,
    s2: Seq<(Seq<char>, Seq<char>)>,
)
    requires
        distinct_names(s1),
        distinct_names(s2),
        forall|x: (Seq<char>, Seq<char>)| s1.contains(x) <==> s2.contains(x),
    ensures
        put_all(Map::empty(), s2) == put_all(Map::empty(), s1),
{
    distinct_puts_hold_exactly_their_records(s1);
    distinct_puts_hold_exactly_their_records(s2);
    let m1 = put_all(Map::empty(), s1);
    let m2 = put_all(Map::empty(), s2);
    assert forall|k: Seq<char>| #[trigger] m1.contains_key(k) == m2.contains_key(k) by {
        if m1.contains_key(k) {
            let i = choose|i: int| 0 <= i < s1.len() && #[trigger] s1[i].0 == k;
            assert(s1.contains(s1[i]));
            let j = choose|j: int| 0 <= j < s2.len() && s2[j] == s1[i];
            assert(s2[j].0 == k);
        }
        if m2.contains_key(k) {
            let j = choose|j: int| 0 <= j < s2.len() && #[trigger] s2[j].0 == k;
            assert(s2.contains(s2[j]));
            let i = choose|i: int| 0 <= i < s1.len() && s1[i] == s2[j];
            assert(s1[i].0 == k);
        }
    }
    assert forall|k: Seq<char>| #[trigger] m1.contains_key(k) implies m1[k] == m2[k] by {
        let i = choose|i: int| 0 <= i < s1.len() && #[trigger] s1[i].0 == k;
        assert(s1.contains(s1[i]));
        let j = choose|j: int| 0 <= j < s2.len() && s2[j] == s1[i];
        assert(m2[s2[j].0] == s2[j].1);
    }
    assert(m1 =~= m2);
}

/// A refused request gets a reply whose status blames the client.
pub proof fn refused_body_is_client_error(content_length: Option<u64>, decoded: Option<Request>)
    requires
        spec_check_body(content_length, decoded) is Err,
    ensures
        400 <= Reply::Rejected(spec_check_body(content_length, decoded)->Err_0).spec_status().spec_code() < 500,
{
}

} // verus!
