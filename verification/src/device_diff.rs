//! Turns two point-in-time device enumerations into an added/removed delta.
//!
//! Exists for backends whose device-change notification cannot tell what changed, only
//! that something did. Those backends enumerate the devices again and compare the
//! result with the last-seen snapshot, to recover which endpoints were added and which
//! were removed.
//!
//! One flat set of [`EndpointId`]s covers both capture and render devices: a decision
//! matches a lost or new endpoint against a binding's pinned endpoint whatever its
//! direction, so the two sides need no snapshots of their own.

use crate::rebinding::EndpointId;
use vstd::prelude::*;

verus! {

/// Whether `a` comes before `b` because of position `i`: they agree up to there, and
/// there `a` ends or has the smaller character.
pub open spec fn before_at(a: Seq<char>, b: Seq<char>, i: int) -> bool {
    &&& 0 <= i <= a.len()
    &&& i < b.len()
    &&& forall|j: int| 0 <= j < i ==> a[j] == b[j]
    &&& i < a.len() ==> a[i] < b[i]
}

/// Dictionary order on text, by character.
pub open spec fn text_before(a: Seq<char>, b: Seq<char>) -> bool {
    exists|i: int| before_at(a, b, i)
}

/// Whether the ids of a list stand in strictly ascending order; none occurs twice then.
pub open spec fn ascending(ids: Seq<EndpointId>) -> bool {
    forall|i: int, j: int|
        #![trigger ids[i], ids[j]]
        0 <= i < j < ids.len() ==> text_before(ids[i]@, ids[j]@)
}

/// The set of ids that a list holds.
pub open spec fn ids_of(ids: Seq<EndpointId>) -> Set<Seq<char>> {
    Set::new(|text: Seq<char>| exists|i: int| 0 <= i < ids.len() && #[trigger] ids[i]@ == text)
}

pub proof fn lemma_before_is_transitive(a: Seq<char>, b: Seq<char>, c: Seq<char>)
    requires
        text_before(a, b),
        text_before(b, c),
    ensures
        text_before(a, c),
{
    let i = choose|i: int| before_at(a, b, i);
    let k = choose|k: int| before_at(b, c, k);
    if i <= k {
        assert(before_at(a, c, i));
    } else {
        assert(before_at(a, c, k));
    }
}

pub proof fn lemma_before_is_irreflexive(a: Seq<char>)
    ensures
        !text_before(a, a),
{
}

/// How one text stands to another in dictionary order.
enum TextOrder {
    Before,
    Same,
    After,
}

fn text_order(a: &str, b: &str) -> (order: TextOrder)
    ensures
        match order {
            TextOrder::Before => text_before(a@, b@),
            TextOrder::Same => a@ == b@,
            TextOrder::After => text_before(b@, a@),
        },
{
    let n: usize = a.unicode_len();
    let m: usize = b.unicode_len();
    let mut i: usize = 0;
    while i < n && i < m && a.get_char(i) == b.get_char(i)
        invariant
            n == a@.len(),
            m == b@.len(),
            i <= n,
            i <= m,
            forall|j: int| 0 <= j < i ==> a@[j] == b@[j],
        decreases n - i,
    {
        i = i + 1;
    }
    if i == n {
        if i == m {
            assert(a@ =~= b@);
            TextOrder::Same
        } else {
            assert(before_at(a@, b@, i as int));
            TextOrder::Before
        }
    } else if i == m {
        assert(before_at(b@, a@, i as int));
        TextOrder::After
    } else if a.get_char(i) < b.get_char(i) {
        assert(before_at(a@, b@, i as int));
        TextOrder::Before
    } else {
        assert(before_at(b@, a@, i as int));
        TextOrder::After
    }
}

/// The set of device ids observed as present at some point in time.
#[derive(Debug, PartialEq, Eq)]
pub struct DeviceSnapshot {
    present: Vec<EndpointId>,
}

impl View for DeviceSnapshot {
    type V = Set<Seq<char>>;

    closed spec fn view(&self) -> Set<Seq<char>> {
        ids_of(self.present@)
    }
}

impl Default for DeviceSnapshot {
    fn default() -> (snapshot: Self)
        ensures
            snapshot@ == Set::<Seq<char>>::empty(),
    {
        let snapshot = DeviceSnapshot { present: Vec::new() };
        assert(snapshot@ =~= Set::empty());
        snapshot
    }
}

impl Clone for DeviceSnapshot {
    fn clone(&self) -> (copy: Self)
        ensures
            copy@ == self@,
    {
        proof {
            use_type_invariant(self);
        }
        let present: Vec<EndpointId> = self.present.clone();
        assert(present@ =~= self.present@);
        DeviceSnapshot { present }
    }
}

impl DeviceSnapshot {
    #[verifier::type_invariant]
    spec fn sorted(&self) -> bool {
        ascending(self.present@)
    }

    pub fn from_ids(ids: Vec<EndpointId>) -> (snapshot: Self)
        ensures
            snapshot@ == ids_of(ids@),
    {
        let mut present: Vec<EndpointId> = Vec::new();
        let mut i: usize = 0;
        while i < ids.len()
            invariant
                i <= ids.len(),
                ascending(present@),
                ids_of(present@) == ids_of(ids@.take(i as int)),
            decreases ids.len() - i,
        {
            insert_id(&mut present, ids[i].clone());
            proof {
                let before = ids@.take(i as int);
                let after = ids@.take(i + 1);
                assert(after =~= before.push(ids@[i as int]));
                assert(ids_of(present@) =~= ids_of(after)) by {
                    assert forall|text: Seq<char>| ids_of(after).contains(text) implies ids_of(
                        before,
                    ).insert(ids@[i as int]@).contains(text) by {
                        let k = choose|k: int| 0 <= k < after.len() && #[trigger] after[k]@ == text;
                        if k < i {
                            assert(before[k]@ == text);
                        }
                    }
                    assert forall|text: Seq<char>|
                        ids_of(before).insert(ids@[i as int]@).contains(text) implies ids_of(
                        after,
                    ).contains(text) by {
                        if text == ids@[i as int]@ {
                            assert(after[i as int]@ == text);
                        } else {
                            let k = choose|k: int|
                                0 <= k < before.len() && #[trigger] before[k]@ == text;
                            assert(after[k]@ == text);
                        }
                    }
                }
            }
            i = i + 1;
        }
        assert(ids@.take(i as int) =~= ids@);
        DeviceSnapshot { present }
    }

    /// Compares `self` (the snapshot seen before) with `next`, and then rolls `self`
    /// forward to `next`, so that the following call compares with that. Both lists of
    /// the delta are in ascending order.
    pub fn diff_and_update(&mut self, next: DeviceSnapshot) -> (delta: DeviceDelta)
        ensures
            final(self)@ == next@,
            ascending(delta.added@),
            ids_of(delta.added@) == next@.difference(old(self)@),
            ascending(delta.removed@),
            ids_of(delta.removed@) == old(self)@.difference(next@),
    {
        proof {
            use_type_invariant(&*self);
            use_type_invariant(&next);
        }
        let added: Vec<EndpointId> = missing_from(&next.present, &self.present);
        let removed: Vec<EndpointId> = missing_from(&self.present, &next.present);
        *self = next;
        DeviceDelta { added, removed }
    }
}

/// The ids that appeared and disappeared between one [`DeviceSnapshot`] and the next.
#[derive(Debug, PartialEq, Eq)]
pub struct DeviceDelta {
    pub added: Vec<EndpointId>,
    pub removed: Vec<EndpointId>,
}

impl Default for DeviceDelta {
    fn default() -> (delta: Self)
        ensures
            delta.added@ == Seq::<EndpointId>::empty(),
            delta.removed@ == Seq::<EndpointId>::empty(),
    {
        DeviceDelta { added: Vec::new(), removed: Vec::new() }
    }
}

impl Clone for DeviceDelta {
    fn clone(&self) -> (copy: Self)
        ensures
            copy.added@ == self.added@,
            copy.removed@ == self.removed@,
    {
        let added: Vec<EndpointId> = self.added.clone();
        let removed: Vec<EndpointId> = self.removed.clone();
        assert(added@ =~= self.added@);
        assert(removed@ =~= self.removed@);
        DeviceDelta { added, removed }
    }
}

impl DeviceDelta {
    pub fn is_empty(&self) -> (empty: bool)
        ensures
            empty == (self.added@.len() == 0 && self.removed@.len() == 0),
    {
        self.added.len() == 0 && self.removed.len() == 0
    }
}

/// Puts an id into its place in an ascending list, unless it is there already.
fn insert_id(ids: &mut Vec<EndpointId>, id: EndpointId)
    requires
        ascending(old(ids)@),
    ensures
        ascending(final(ids)@),
        ids_of(final(ids)@) == ids_of(old(ids)@).insert(id@),
{
    let ghost before = ids@;
    let mut at: usize = 0;
    while at < ids.len()
        invariant
            ids@ == before,
            before == old(ids)@,
            ascending(before),
            at <= before.len(),
            forall|k: int| 0 <= k < at ==> text_before(#[trigger] before[k]@, id@),
        decreases before.len() - at,
    {
        match text_order(ids[at].0.as_str(), id.0.as_str()) {
            TextOrder::Before => {
                at = at + 1;
            },
            TextOrder::Same => {
                assert(ids_of(before) =~= ids_of(before).insert(id@)) by {
                    assert(before[at as int]@ == id@);
                }
                return ;
            },
            TextOrder::After => {
                proof {
                    assert forall|k: int| at <= k < before.len() implies text_before(
                        id@,
                        #[trigger] before[k]@,
                    ) by {
                        if k > at {
                            assert(text_before(before[at as int]@, before[k]@));
                            lemma_before_is_transitive(id@, before[at as int]@, before[k]@);
                        }
                    }
                    lemma_inserted(before, at as int, id);
                }
                ids.insert(at, id);
                return ;
            },
        }
    }
    proof {
        lemma_inserted(before, at as int, id);
    }
    ids.insert(at, id);
}

proof fn lemma_inserted(ids: Seq<EndpointId>, at: int, id: EndpointId)
    requires
        ascending(ids),
        0 <= at <= ids.len(),
        forall|k: int| 0 <= k < at ==> text_before(#[trigger] ids[k]@, id@),
        forall|k: int| at <= k < ids.len() ==> text_before(id@, #[trigger] ids[k]@),
    ensures
        ascending(ids.insert(at, id)),
        ids_of(ids.insert(at, id)) == ids_of(ids).insert(id@),
{
    let after = ids.insert(at, id);
    assert forall|i: int, j: int| #![trigger after[i], after[j]]
        0 <= i < j < after.len() implies text_before(after[i]@, after[j]@) by {
        let x = if i < at {
            i
        } else {
            i - 1
        };
        let y = if j < at {
            j
        } else {
            j - 1
        };
        if i != at {
            assert(after[i] == ids[x]);
        }
        if j != at {
            assert(after[j] == ids[y]);
        }
    }
    assert forall|text: Seq<char>| ids_of(after).contains(text) implies ids_of(ids).insert(
        id@,
    ).contains(text) by {
        let k = choose|k: int| 0 <= k < after.len() && #[trigger] after[k]@ == text;
        if k < at {
            assert(ids[k]@ == text);
        } else if k > at {
            assert(ids[k - 1]@ == text);
        }
    }
    assert forall|text: Seq<char>| ids_of(ids).insert(id@).contains(text) implies ids_of(
        after,
    ).contains(text) by {
        if text == id@ {
            assert(after[at]@ == text);
        } else {
            let k = choose|k: int| 0 <= k < ids.len() && #[trigger] ids[k]@ == text;
            if k < at {
                assert(after[k]@ == text);
            } else {
                assert(after[k + 1]@ == text);
            }
        }
    }
    assert(ids_of(after) =~= ids_of(ids).insert(id@));
}

fn holds_id(ids: &Vec<EndpointId>, id: &EndpointId) -> (found: bool)
    ensures
        found == ids_of(ids@).contains(id@),
{
    let mut i: usize = 0;
    while i < ids.len()
        invariant
            i <= ids.len(),
            forall|k: int| 0 <= k < i ==> #[trigger] ids@[k]@ != id@,
        decreases ids.len() - i,
    {
        if ids[i].0 == id.0 {
            assert(ids@[i as int]@ == id@);
            return true;
        }
        i = i + 1;
    }
    false
}

/// The ids of `ids` that `others` does not hold, in the order in which they stand.
fn missing_from(ids: &Vec<EndpointId>, others: &Vec<EndpointId>) -> (missing: Vec<EndpointId>)
    requires
        ascending(ids@),
    ensures
        ascending(missing@),
        ids_of(missing@) == ids_of(ids@).difference(ids_of(others@)),
{
    let mut missing: Vec<EndpointId> = Vec::new();
    let ghost mut sources: Seq<int> = Seq::empty();
    let mut i: usize = 0;
    while i < ids.len()
        invariant
            i <= ids.len(),
            ascending(ids@),
            sources.len() == missing@.len(),
            forall|k: int|
                #![trigger missing@[k]]
                #![trigger sources[k]]
                0 <= k < sources.len() ==> 0 <= sources[k] < i && missing@[k]
                    == ids@[sources[k]] && !ids_of(others@).contains(missing@[k]@),
            forall|j: int, k: int|
                #![trigger sources[j], sources[k]]
                0 <= j < k < sources.len() ==> sources[j] < sources[k],
            forall|k: int|
                0 <= k < i && !ids_of(others@).contains(#[trigger] ids@[k]@) ==> ids_of(
                    missing@,
                ).contains(ids@[k]@),
        decreases ids.len() - i,
    {
        let ghost earlier = missing@;
        if !holds_id(others, &ids[i]) {
            missing.push(ids[i].clone());
            proof {
                sources = sources.push(i as int);
                assert(missing@[earlier.len() as int]@ == ids@[i as int]@);
                assert forall|text: Seq<char>| ids_of(earlier).contains(text) implies ids_of(
                    missing@,
                ).contains(text) by {
                    let k = choose|k: int| 0 <= k < earlier.len() && #[trigger] earlier[k]@ == text;
                    assert(missing@[k]@ == text);
                }
            }
        }
        i = i + 1;
    }
    proof {
        assert forall|j: int, k: int| #![trigger missing@[j], missing@[k]]
            0 <= j < k < missing@.len() implies text_before(missing@[j]@, missing@[k]@) by {
            assert(sources[j] < sources[k]);
            assert(text_before(ids@[sources[j]]@, ids@[sources[k]]@));
        }
        assert forall|text: Seq<char>| ids_of(missing@).contains(text) implies ids_of(
            ids@,
        ).difference(ids_of(others@)).contains(text) by {
            let k = choose|k: int| 0 <= k < missing@.len() && #[trigger] missing@[k]@ == text;
            assert(ids@[sources[k]]@ == text);
        }
        assert forall|text: Seq<char>|
            ids_of(ids@).difference(ids_of(others@)).contains(text) implies ids_of(
            missing@,
        ).contains(text) by {
            let k = choose|k: int| 0 <= k < ids@.len() && #[trigger] ids@[k]@ == text;
            assert(ids_of(missing@).contains(ids@[k]@));
        }
        assert(ids_of(missing@) =~= ids_of(ids@).difference(ids_of(others@)));
    }
    missing
}

/// An ascending list is determined by the set of ids that it holds: there is one way
/// only to report a delta.
pub proof fn law_ascending_lists_are_determined(a: Seq<EndpointId>, b: Seq<EndpointId>)
    requires
        ascending(a),
        ascending(b),
        ids_of(a) == ids_of(b),
    ensures
        a.len() == b.len(),
        forall|i: int| 0 <= i < a.len() ==> #[trigger] a[i]@ == b[i]@,
    decreases a.len(),
{
    if a.len() == 0 {
        if b.len() > 0 {
            assert(ids_of(b).contains(b[0]@));
        }
    } else if b.len() == 0 {
        assert(ids_of(a).contains(a[0]@));
    } else {
        let x = a.last()@;
        let y = b.last()@;
        assert(ids_of(a).contains(x)) by {
            assert(a[a.len() - 1]@ == x);
        }
        assert(ids_of(b).contains(y)) by {
            assert(b[b.len() - 1]@ == y);
        }
        let i = choose|i: int| 0 <= i < b.len() && #[trigger] b[i]@ == x;
        let k = choose|k: int| 0 <= k < a.len() && #[trigger] a[k]@ == y;
        if i < b.len() - 1 && k < a.len() - 1 {
            assert(text_before(b[i]@, b[b.len() - 1]@));
            assert(text_before(a[k]@, a[a.len() - 1]@));
            lemma_before_is_transitive(x, y, x);
            lemma_before_is_irreflexive(x);
        }
        assert(x == y);
        lemma_without_last(a);
        lemma_without_last(b);
        law_ascending_lists_are_determined(a.drop_last(), b.drop_last());
        assert forall|i: int| 0 <= i < a.len() implies #[trigger] a[i]@ == b[i]@ by {
            if i < a.len() - 1 {
                assert(a.drop_last()[i]@ == b.drop_last()[i]@);
            }
        }
    }
}

proof fn lemma_without_last(a: Seq<EndpointId>)
    requires
        ascending(a),
        a.len() > 0,
    ensures
        ascending(a.drop_last()),
        ids_of(a.drop_last()) == ids_of(a).remove(a.last()@),
{
    let short = a.drop_last();
    assert forall|i: int, j: int| #![trigger short[i], short[j]]
        0 <= i < j < short.len() implies text_before(short[i]@, short[j]@) by {
        assert(text_before(a[i]@, a[j]@));
    }
    assert forall|text: Seq<char>| ids_of(short).contains(text) implies ids_of(a).remove(
        a.last()@,
    ).contains(text) by {
        let k = choose|k: int| 0 <= k < short.len() && #[trigger] short[k]@ == text;
        assert(a[k]@ == text);
        assert(text_before(a[k]@, a[a.len() - 1]@));
        lemma_before_is_irreflexive(text);
    }
    assert forall|text: Seq<char>| ids_of(a).remove(a.last()@).contains(text) implies ids_of(
        short,
    ).contains(text) by {
        let k = choose|k: int| 0 <= k < a.len() && #[trigger] a[k]@ == text;
        assert(short[k]@ == text);
    }
    assert(ids_of(short) =~= ids_of(a).remove(a.last()@));
}

/// A delta between two snapshots of the same devices is empty, and a delta from the
/// empty snapshot removes nothing.
pub proof fn law_no_spurious_changes(before: Set<Seq<char>>, next: Set<Seq<char>>, delta: DeviceDelta)
    requires
        ids_of(delta.added@) == next.difference(before),
        ids_of(delta.removed@) == before.difference(next),
    ensures
        before == next ==> delta.added@.len() == 0 && delta.removed@.len() == 0,
        before == Set::<Seq<char>>::empty() ==> delta.removed@.len() == 0,
        before == Set::<Seq<char>>::empty() ==> ids_of(delta.added@) == next,
{
    if delta.added@.len() > 0 {
        assert(delta.added@[0]@ == delta.added@[0]@);
        assert(ids_of(delta.added@).contains(delta.added@[0]@));
    }
    if delta.removed@.len() > 0 {
        assert(ids_of(delta.removed@).contains(delta.removed@[0]@));
    }
    if before == Set::<Seq<char>>::empty() {
        assert(next.difference(before) =~= next);
    }
}

/// What is removed on the way from one snapshot to another is exactly what is added on
/// the way back.
pub proof fn law_unplugging_is_undone_by_replugging(
    full: Set<Seq<char>>,
    reduced: Set<Seq<char>>,
    away: DeviceDelta,
    back: DeviceDelta,
)
    requires
        ascending(away.removed@),
        ids_of(away.removed@) == full.difference(reduced),
        ascending(back.added@),
        ids_of(back.added@) == full.difference(reduced),
    ensures
        away.removed@.len() == back.added@.len(),
        forall|i: int| 0 <= i < away.removed@.len() ==> #[trigger] away.removed@[i]@
            == back.added@[i]@,
{
    law_ascending_lists_are_determined(away.removed@, back.added@);
}

/// Ids are ordered as in a dictionary: of two that begin alike, the one with the smaller
/// character where they part comes first, and one that ends there comes before one that
/// goes on. Of two different ids, one comes first.
pub proof fn law_ids_are_ordered_as_in_a_dictionary(
    alike: Seq<char>,
    c: char,
    d: char,
    first: Seq<char>,
    second: Seq<char>,
    a: Seq<char>,
    b: Seq<char>,
)
    requires
        c < d,
    ensures
        text_before(alike.push(c) + first, alike.push(d) + second),
        !text_before(alike.push(d) + second, alike.push(c) + first),
        text_before(alike, alike.push(c) + first),
        !text_before(alike.push(c) + first, alike),
        a == b || text_before(a, b) || text_before(b, a),
        text_before(a, b) ==> !text_before(b, a),
{
    let lesser = alike.push(c) + first;
    let greater = alike.push(d) + second;
    let at = alike.len() as int;
    assert(lesser[at] == c && greater[at] == d);
    assert forall|j: int| 0 <= j < at implies lesser[j] == greater[j] && alike[j] == lesser[j] by {
        assert(lesser[j] == alike[j]);
        assert(greater[j] == alike[j]);
    }
    assert(before_at(lesser, greater, at));
    assert(before_at(alike, lesser, at));
    lemma_before_is_one_way(lesser, greater);
    lemma_before_is_one_way(alike, lesser);
    lemma_before_is_total(a, b, 0);
    if text_before(a, b) {
        lemma_before_is_one_way(a, b);
    }
}

proof fn lemma_before_is_one_way(a: Seq<char>, b: Seq<char>)
    requires
        text_before(a, b),
    ensures
        !text_before(b, a),
{
    if text_before(b, a) {
        lemma_before_is_transitive(a, b, a);
        lemma_before_is_irreflexive(a);
    }
}

proof fn lemma_before_is_total(a: Seq<char>, b: Seq<char>, upto: int)
    requires
        0 <= upto <= a.len(),
        upto <= b.len(),
        forall|j: int| 0 <= j < upto ==> a[j] == b[j],
    ensures
        a == b || text_before(a, b) || text_before(b, a),
    decreases a.len() - upto,
{
    if upto == a.len() {
        if upto == b.len() {
            assert(a =~= b);
        } else {
            assert(before_at(a, b, upto));
        }
    } else if upto == b.len() {
        assert(before_at(b, a, upto));
    } else if a[upto] == b[upto] {
        lemma_before_is_total(a, b, upto + 1);
    } else if a[upto] < b[upto] {
        assert(before_at(a, b, upto));
    } else {
        assert(before_at(b, a, upto));
    }
}

} // verus!
