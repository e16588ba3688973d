//! The network: an unordered set of in-flight envelopes.
//!
//! Set (not multiset) semantics are deliberate: two identical envelopes
//! collapse, which models a duplicating network's ability to resurrect any
//! envelope it has ever carried. The set is stored as a duplicate-free vector
//! so that iteration order is deterministic, while equality between networks
//! compares the underlying sets.

use vstd::prelude::*;
use vstd::relations::{sorted_by, total_ordering};
use vstd::seq_lib::lemma_sorted_unique;

use crate::actor::{Data, DataOrd, Id};

verus! {

/// Indicates the source and destination for a message.
#[derive(Clone, Debug, Hash, PartialEq, Eq, PartialOrd, Ord)]
pub struct Envelope<Msg> {
    pub src: Id,
    pub dst: Id,
    pub msg: Msg,
}

impl<Msg: Data> Data for Envelope<Msg> {
    fn dup(&self) -> (r: Self) {
        Envelope { src: self.src, dst: self.dst, msg: self.msg.dup() }
    }

    fn eq_val(&self, other: &Self) -> (r: bool) {
        self.src == other.src && self.dst == other.dst && self.msg.eq_val(&other.msg)
    }
}

/// The sequence after inserting `e`: unchanged when an equal envelope is
/// already present, extended at the end otherwise.
pub open spec fn net_insert<Msg>(net: Seq<Envelope<Msg>>, e: Envelope<Msg>) -> Seq<
    Envelope<Msg>,
> {
    if net.contains(e) {
        net
    } else {
        net.push(e)
    }
}

/// The position of the first envelope of `s` equal to `e` (meaningful only
/// when one is present).
pub open spec fn net_first_index<Msg>(s: Seq<Envelope<Msg>>, e: Envelope<Msg>) -> int
    decreases s.len(),
{
    if s.len() == 0 {
        0
    } else if s[0] == e {
        0
    } else {
        1 + net_first_index(s.drop_first(), e)
    }
}

/// The sequence after removing the first envelope equal to `e`: unchanged
/// when no equal envelope is present.
pub open spec fn net_remove<Msg>(net: Seq<Envelope<Msg>>, e: Envelope<Msg>) -> Seq<
    Envelope<Msg>,
> {
    if net.contains(e) {
        net.remove(net_first_index(net, e))
    } else {
        net
    }
}

/// The duplicate-free sequence that keeps the first occurrence of every
/// envelope of `s`, in first-occurrence order.
pub open spec fn net_dedup<Msg>(s: Seq<Envelope<Msg>>) -> Seq<Envelope<Msg>>
    decreases s.len(),
{
    if s.len() == 0 {
        Seq::empty()
    } else {
        net_insert(net_dedup(s.drop_last()), s.last())
    }
}

/// When `e` first occurs at position `i`, `net_first_index` names `i`.
pub proof fn lemma_net_first_index<Msg>(s: Seq<Envelope<Msg>>, e: Envelope<Msg>, i: int)
    requires
        0 <= i < s.len(),
        s[i] == e,
        forall|j: int| 0 <= j < i ==> s[j] != e,
    ensures
        net_first_index(s, e) == i,
    decreases i,
{
    if i > 0 {
        lemma_net_first_index(s.drop_first(), e, i - 1);
    }
}

/// Inserting an envelope adds it to the carried set; inserting one that is
/// already present leaves the sequence — not merely the set — unchanged.
pub proof fn lemma_net_insert_set<Msg>(net: Seq<Envelope<Msg>>, e: Envelope<Msg>)
    ensures
        net_insert(net, e).to_set() == net.to_set().insert(e),
        net.contains(e) ==> net_insert(net, e) == net,
        net_insert(net, e).contains(e),
        forall|x: Envelope<Msg>|
            #[trigger] net_insert(net, e).contains(x) <==> (net.contains(x) || x == e),
{
    if net.contains(e) {
        assert(net_insert(net, e).to_set() =~= net.to_set().insert(e));
    } else {
        assert forall|x: Envelope<Msg>|
            #[trigger] net.push(e).contains(x) <==> (net.contains(x) || x == e) by {
            if net.contains(x) {
                let i = choose|i: int| 0 <= i < net.len() && net[i] == x;
                assert(net.push(e)[i] == x);
            }
            if x == e {
                assert(net.push(e)[net.len() as int] == x);
            }
            if net.push(e).contains(x) {
                let i = choose|i: int| 0 <= i < net.push(e).len() && net.push(e)[i] == x;
                if i < net.len() {
                    assert(net[i] == x);
                }
            }
        }
        assert(net_insert(net, e).to_set() =~= net.to_set().insert(e));
    }
}

/// Insertion preserves freedom from duplicates.
pub proof fn lemma_net_insert_no_dup<Msg>(net: Seq<Envelope<Msg>>, e: Envelope<Msg>)
    requires
        net.no_duplicates(),
    ensures
        net_insert(net, e).no_duplicates(),
{
    if !net.contains(e) {
        assert forall|i: int, j: int|
            0 <= i < j < net.push(e).len() implies net.push(e)[i] != net.push(e)[j] by {
            if j < net.len() {
                assert(net[i] != net[j]);
            } else {
                assert(net.push(e)[j] == e);
                assert(net.push(e)[i] == net[i]);
                assert(net.contains(net[i]));
            }
        }
    }
}

/// On a duplicate-free network, removal removes exactly the requested
/// envelope from the carried set.
pub proof fn lemma_net_remove_set<Msg>(net: Seq<Envelope<Msg>>, e: Envelope<Msg>)
    requires
        net.no_duplicates(),
    ensures
        net_remove(net, e).to_set() == net.to_set().remove(e),
        net_remove(net, e).no_duplicates(),
        !net_remove(net, e).contains(e),
        forall|x: Envelope<Msg>|
            #[trigger] net_remove(net, e).contains(x) <==> (net.contains(x) && x != e),
        net.contains(e) ==> net_remove(net, e).len() == net.len() - 1,
{
    if net.contains(e) {
        let i0 = choose|j: int| 0 <= j < net.len() && net[j] == e;
        assert forall|j: int| 0 <= j < i0 implies net[j] != e by {
            if net[j] == e {
                assert(false);
            }
        }
        let i = net_first_index(net, e);
        lemma_net_first_index(net, e, i0);
        let r = net.remove(i);
        assert(net[i] == e);
        assert forall|x: Envelope<Msg>| #[trigger] r.contains(x) implies (net.contains(x) && x
            != e) by {
            let j = choose|j: int| 0 <= j < r.len() && r[j] == x;
            if j < i {
                assert(net[j] == x);
            } else {
                assert(net[j + 1] == x);
            }
        }
        assert forall|x: Envelope<Msg>| net.contains(x) && x != e implies #[trigger] r.contains(
            x,
        ) by {
            let j = choose|j: int| 0 <= j < net.len() && net[j] == x;
            if j < i {
                assert(r[j] == x);
            } else {
                assert(j != i);
                assert(r[j - 1] == x);
            }
        }
        assert(r.no_duplicates());
        assert(net_remove(net, e).to_set() =~= net.to_set().remove(e));
    } else {
        assert(net_remove(net, e).to_set() =~= net.to_set().remove(e));
    }
}

/// Deduplication is free of duplicates and carries exactly the original set.
pub proof fn lemma_net_dedup<Msg>(s: Seq<Envelope<Msg>>)
    ensures
        net_dedup(s).no_duplicates(),
        net_dedup(s).to_set() == s.to_set(),
    decreases s.len(),
{
    if s.len() == 0 {
        assert(net_dedup(s).to_set() =~= s.to_set());
    } else {
        lemma_net_dedup(s.drop_last());
        lemma_net_insert_no_dup(net_dedup(s.drop_last()), s.last());
        lemma_net_insert_set(net_dedup(s.drop_last()), s.last());
        assert(s.drop_last().push(s.last()) =~= s);
        assert(s.drop_last().to_set().insert(s.last()) =~= s.to_set()) by {
            assert forall|x: Envelope<Msg>| s.to_set().contains(x) implies
                s.drop_last().to_set().insert(s.last()).contains(x) by {
                let j = choose|j: int| 0 <= j < s.len() && s[j] == x;
                if j < s.len() - 1 {
                    assert(s.drop_last()[j] == x);
                }
            }
        }
    }
}

/// A network of in-flight envelopes with set semantics and a deterministic
/// iteration order.
pub struct Network<Msg> {
    envelopes: Vec<Envelope<Msg>>,
}

impl<Msg> View for Network<Msg> {
    type V = Seq<Envelope<Msg>>;

    closed spec fn view(&self) -> Seq<Envelope<Msg>> {
        self.envelopes@
    }
}

impl<Msg> Network<Msg> {
    /// Constructs an empty network.
    pub fn new() -> (r: Self)
        ensures
            r@ == Seq::<Envelope<Msg>>::empty(),
    {
        Network { envelopes: Vec::new() }
    }

    /// The number of carried envelopes.
    pub fn len(&self) -> (r: usize)
        ensures
            r == self@.len(),
    {
        self.envelopes.len()
    }

    /// Reads the envelope at position `i` of the iteration order.
    pub fn index(&self, i: usize) -> (r: &Envelope<Msg>)
        requires
            i < self@.len(),
        ensures
            *r == self@[i as int],
    {
        &self.envelopes[i]
    }
}

impl<Msg: Data> Network<Msg> {
    /// Whether an equal envelope is carried.
    pub fn contains(&self, e: &Envelope<Msg>) -> (r: bool)
        ensures
            r == self@.contains(*e),
    {
        let mut i: usize = 0;
        while i < self.envelopes.len()
            invariant
                0 <= i <= self@.len(),
                forall|j: int| 0 <= j < i ==> self@[j] != *e,
            decreases self@.len() - i,
        {
            if self.envelopes[i].eq_val(e) {
                return true;
            }
            i += 1;
        }
        false
    }

    /// Inserts an envelope; an insertion of an envelope equal to one already
    /// carried leaves the network unchanged.
    pub fn insert(&mut self, e: Envelope<Msg>)
        ensures
            final(self)@ == net_insert(old(self)@, e),
    {
        if !self.contains(&e) {
            self.envelopes.push(e);
        }
    }

    /// Removes the first envelope equal to `e`, if one is carried.
    pub fn remove(&mut self, e: &Envelope<Msg>)
        ensures
            final(self)@ == net_remove(old(self)@, *e),
    {
        let ghost net = self@;
        let mut i: usize = 0;
        while i < self.envelopes.len()
            invariant
                0 <= i <= net.len(),
                old(self)@ == net,
                self@ == net,
                forall|j: int| 0 <= j < i ==> net[j] != *e,
            decreases net.len() - i,
        {
            if self.envelopes[i].eq_val(e) {
                proof {
                    assert(net[i as int] == *e);
                    assert(net.contains(*e));
                    lemma_net_first_index(net, *e, i as int);
                }
                self.envelopes.remove(i);
                proof {
                    assert(self@ == net.remove(i as int));
                    assert(net_remove(net, *e) == net.remove(i as int));
                }
                return ;
            }
            i += 1;
        }
        proof {
            assert(!net.contains(*e));
        }
    }

    /// Builds a network carrying the set of the given envelopes, keeping the
    /// first occurrence of each.
    pub fn from_vec(v: Vec<Envelope<Msg>>) -> (r: Self)
        ensures
            r@ == net_dedup(v@),
    {
        let mut r = Network { envelopes: Vec::new() };
        let mut i: usize = 0;
        while i < v.len()
            invariant
                0 <= i <= v@.len(),
                r@ == net_dedup(v@.take(i as int)),
            decreases v@.len() - i,
        {
            proof {
                assert(v@.take(i + 1).drop_last() =~= v@.take(i as int));
                assert(v@.take(i + 1).last() == v@[i as int]);
            }
            r.insert(v[i].dup());
            i += 1;
        }
        proof {
            assert(v@.take(v@.len() as int) =~= v@);
        }
        r
    }

    /// Returns a copy carrying the same envelopes in the same order.
    pub fn duplicate(&self) -> (r: Self)
        ensures
            r@ == self@,
    {
        let mut envelopes: Vec<Envelope<Msg>> = Vec::new();
        let mut i: usize = 0;
        while i < self.envelopes.len()
            invariant
                0 <= i <= self@.len(),
                envelopes@ == self@.take(i as int),
            decreases self@.len() - i,
        {
            proof {
                assert(self@.take(i + 1) =~= self@.take(i as int).push(self@[i as int]));
            }
            envelopes.push(self.envelopes[i].dup());
            i += 1;
        }
        proof {
            assert(self@.take(self@.len() as int) =~= self@);
        }
        Network { envelopes }
    }

    /// Whether two networks carry the same set of envelopes, regardless of
    /// iteration order.
    pub fn set_eq(&self, other: &Network<Msg>) -> (r: bool)
        ensures
            r == (self@.to_set() == other@.to_set()),
    {
        let mut i: usize = 0;
        while i < self.envelopes.len()
            invariant
                0 <= i <= self@.len(),
                forall|j: int| 0 <= j < i ==> other@.to_set().contains(#[trigger] self@[j]),
            decreases self@.len() - i,
        {
            if !other.contains(&self.envelopes[i]) {
                proof {
                    assert(self@.to_set().contains(self@[i as int]));
                    assert(!other@.to_set().contains(self@[i as int]));
                }
                return false;
            }
            i += 1;
        }
        let mut k: usize = 0;
        while k < other.envelopes.len()
            invariant
                0 <= k <= other@.len(),
                forall|j: int| 0 <= j < self@.len() ==> other@.to_set().contains(#[trigger] self@[j]),
                forall|j: int| 0 <= j < k ==> self@.to_set().contains(#[trigger] other@[j]),
            decreases other@.len() - k,
        {
            if !self.contains(other.index(k)) {
                proof {
                    assert(other@.to_set().contains(other@[k as int]));
                    assert(!self@.to_set().contains(other@[k as int]));
                }
                return false;
            }
            k += 1;
        }
        proof {
            assert forall|x: Envelope<Msg>| self@.to_set().contains(x) implies
                other@.to_set().contains(x) by {
                let j = choose|j: int| 0 <= j < self@.len() && self@[j] == x;
                assert(other@.to_set().contains(self@[j]));
            }
            assert forall|x: Envelope<Msg>| other@.to_set().contains(x) implies
                self@.to_set().contains(x) by {
                let j = choose|j: int| 0 <= j < other@.len() && other@[j] == x;
                assert(self@.to_set().contains(other@[j]));
            }
            assert(self@.to_set() =~= other@.to_set());
        }
        true
    }
}

} // verus!

verus! {

/// Envelopes ordered lexicographically by source, destination, and message.
pub open spec fn envelope_le<Msg: DataOrd>(a: Envelope<Msg>, b: Envelope<Msg>) -> bool {
    if a.src.0 != b.src.0 {
        a.src.0 < b.src.0
    } else if a.dst.0 != b.dst.0 {
        a.dst.0 < b.dst.0
    } else {
        a.msg.le_spec(&b.msg)
    }
}

/// The envelope order is reflexive.
pub proof fn lemma_envelope_le_refl<Msg: DataOrd>(a: Envelope<Msg>)
    ensures
        envelope_le(a, a),
{
    Msg::lemma_total(&a.msg, &a.msg);
}

/// The envelope order relates every pair.
pub proof fn lemma_envelope_le_total<Msg: DataOrd>(a: Envelope<Msg>, b: Envelope<Msg>)
    ensures
        envelope_le(a, b) || envelope_le(b, a),
{
    Msg::lemma_total(&a.msg, &b.msg);
}

/// Mutually ordered envelopes are equal.
pub proof fn lemma_envelope_le_antisym<Msg: DataOrd>(a: Envelope<Msg>, b: Envelope<Msg>)
    requires
        envelope_le(a, b),
        envelope_le(b, a),
    ensures
        a == b,
{
    Msg::lemma_antisymmetric(&a.msg, &b.msg);
}

/// The envelope order is transitive.
pub proof fn lemma_envelope_le_trans<Msg: DataOrd>(
    a: Envelope<Msg>,
    b: Envelope<Msg>,
    c: Envelope<Msg>,
)
    requires
        envelope_le(a, b),
        envelope_le(b, c),
    ensures
        envelope_le(a, c),
{
    if a.src.0 == b.src.0 && b.src.0 == c.src.0 && a.dst.0 == b.dst.0 && b.dst.0 == c.dst.0 {
        Msg::lemma_transitive(&a.msg, &b.msg, &c.msg);
    }
}

/// The envelope order is a total order.
pub proof fn lemma_envelope_le_total_ordering<Msg: DataOrd>()
    ensures
        total_ordering(|a: Envelope<Msg>, b: Envelope<Msg>| envelope_le(a, b)),
{
    let leq = |a: Envelope<Msg>, b: Envelope<Msg>| envelope_le(a, b);
    assert forall|a: Envelope<Msg>| #[trigger] leq(a, a) by {
        lemma_envelope_le_refl(a);
    }
    assert forall|a: Envelope<Msg>, b: Envelope<Msg>| #[trigger] leq(a, b) && #[trigger] leq(b, a)
        implies a == b by {
        lemma_envelope_le_antisym(a, b);
    }
    assert forall|a: Envelope<Msg>, b: Envelope<Msg>, c: Envelope<Msg>|
        #[trigger] leq(a, b) && #[trigger] leq(b, c) implies leq(a, c) by {
        lemma_envelope_le_trans(a, b, c);
    }
    assert forall|a: Envelope<Msg>, b: Envelope<Msg>| #[trigger] leq(a, b) || #[trigger] leq(
        b,
        a,
    ) by {
        lemma_envelope_le_total(a, b);
    }
}

impl<Msg: DataOrd> Network<Msg> {
    /// The carried envelopes in ascending [`envelope_le`] order: a canonical
    /// form of the network. By [`lemma_canonical_form_unique`], two networks
    /// carrying equal sets yield equal sorted views, so this is the building
    /// block of a fingerprint consistent with snapshot equality.
    pub fn sorted_envelopes(&self) -> (r: Vec<Envelope<Msg>>)
        ensures
            r@.to_set() == self@.to_set(),
            r@.no_duplicates(),
            sorted_by(r@, |a: Envelope<Msg>, b: Envelope<Msg>| envelope_le(a, b)),
    {
        let ghost leq = |a: Envelope<Msg>, b: Envelope<Msg>| envelope_le(a, b);
        proof {
            assert(net_dedup(Seq::<Envelope<Msg>>::empty()) =~= Seq::<Envelope<Msg>>::empty());
        }
        let mut dedup: Network<Msg> = Network::new();
        let mut i: usize = 0;
        while i < self.len()
            invariant
                0 <= i <= self@.len(),
                dedup@ == net_dedup(self@.take(i as int)),
            decreases self@.len() - i,
        {
            proof {
                assert(self@.take(i + 1).drop_last() =~= self@.take(i as int));
                assert(self@.take(i + 1).last() == self@[i as int]);
            }
            dedup.insert(self.index(i).dup());
            i += 1;
        }
        proof {
            assert(self@.take(self@.len() as int) =~= self@);
            lemma_net_dedup(self@);
        }
        let mut remaining = dedup;
        let mut r: Vec<Envelope<Msg>> = Vec::new();
        while remaining.len() > 0
            invariant
                remaining@.no_duplicates(),
                r@.no_duplicates(),
                sorted_by(r@, leq),
                leq == (|a: Envelope<Msg>, b: Envelope<Msg>| envelope_le(a, b)),
                r@.to_set().union(remaining@.to_set()) == self@.to_set(),
                forall|k: int| 0 <= k < r@.len() ==> !remaining@.contains(#[trigger] r@[k]),
                forall|k: int, e: Envelope<Msg>| #![trigger envelope_le(r@[k], e)]
                    0 <= k < r@.len() && remaining@.contains(e) ==> envelope_le(r@[k], e),
            decreases remaining@.len(),
        {
            let mut best: usize = 0;
            let mut j: usize = 1;
            proof {
                lemma_envelope_le_refl(remaining@[0]);
            }
            while j < remaining.len()
                invariant
                    0 <= best < j <= remaining@.len(),
                    remaining@.len() > 0,
                    forall|k: int|
                        0 <= k < j ==> envelope_le(
                            remaining@[best as int],
                            #[trigger] remaining@[k],
                        ),
                decreases remaining@.len() - j,
            {
                let keep_best = remaining.index(best).le_val_env(remaining.index(j));
                if keep_best {
                    proof {
                        assert(envelope_le(remaining@[best as int], remaining@[j as int]));
                    }
                } else {
                    proof {
                        lemma_envelope_le_total(remaining@[best as int], remaining@[j as int]);
                        lemma_envelope_le_refl(remaining@[j as int]);
                        assert forall|k: int| 0 <= k < j implies envelope_le(
                            remaining@[j as int],
                            #[trigger] remaining@[k],
                        ) by {
                            lemma_envelope_le_trans(
                                remaining@[j as int],
                                remaining@[best as int],
                                remaining@[k],
                            );
                        }
                    }
                    best = j;
                }
                j += 1;
            }
            let min = remaining.index(best).dup();
            let ghost before = remaining@;
            proof {
                assert(before.contains(before[best as int]));
                lemma_net_remove_set(before, min);
            }
            remaining.remove(&min);
            let ghost old_r = r@;
            r.push(min);
            proof {
                // The new element extends the set by `min` and keeps the
                // sequence sorted, duplicate-free, and below what remains.
                assert forall|k: int, e: Envelope<Msg>| #![trigger envelope_le(r@[k], e)]
                    0 <= k < r@.len() && remaining@.contains(e) implies envelope_le(
                    r@[k],
                    e,
                ) by {
                    assert(before.contains(e));
                    if k < r@.len() - 1 {
                        assert(old_r[k] == r@[k]);
                        assert(envelope_le(old_r[k], e));
                    } else {
                        let ke = choose|ke: int| 0 <= ke < before.len() && before[ke] == e;
                        assert(envelope_le(before[best as int], before[ke]));
                    }
                }
                assert forall|a: int, b: int| 0 <= a < b < r@.len() implies leq(r@[a], r@[b]) by {
                    if b < r@.len() - 1 {
                        assert(old_r[a] == r@[a] && old_r[b] == r@[b]);
                        assert(leq(old_r[a], old_r[b]));
                    } else {
                        assert(r@[b] == min);
                        assert(before.contains(min));
                        assert(envelope_le(old_r[a], min));
                    }
                }
                assert(sorted_by(r@, leq));
                assert forall|a: int, b: int| 0 <= a < b < r@.len() implies r@[a] != r@[b] by {
                    if b == r@.len() - 1 {
                        assert(before.contains(min));
                        assert(!before.contains(old_r[a]));
                    } else {
                        assert(old_r[a] == r@[a] && old_r[b] == r@[b]);
                    }
                }
                assert(r@.to_set().union(remaining@.to_set()) =~= self@.to_set()) by {
                    assert forall|x: Envelope<Msg>| #[trigger] r@.to_set().contains(x) implies
                        old_r.to_set().contains(x) || x == min by {
                        let k = choose|k: int| 0 <= k < r@.len() && r@[k] == x;
                        if k < r@.len() - 1 {
                            assert(old_r[k] == x);
                        }
                    }
                    assert(r@.to_set().contains(min)) by {
                        assert(r@[r@.len() - 1] == min);
                    }
                    assert forall|x: Envelope<Msg>| #[trigger] old_r.to_set().contains(x) implies
                        r@.to_set().contains(x) by {
                        let k = choose|k: int| 0 <= k < old_r.len() && old_r[k] == x;
                        assert(r@[k] == x);
                    }
                }
                assert forall|k: int| 0 <= k < r@.len() implies !remaining@.contains(
                    #[trigger] r@[k],
                ) by {
                    if k < r@.len() - 1 {
                        assert(old_r[k] == r@[k]);
                        if remaining@.contains(r@[k]) {
                            assert(before.contains(r@[k]));
                        }
                    }
                }
            }
        }
        proof {
            assert(r@.to_set() =~= self@.to_set());
        }
        r
    }
}

impl<Msg: DataOrd> Envelope<Msg> {
    /// Decides the envelope order.
    fn le_val_env(&self, other: &Envelope<Msg>) -> (r: bool)
        ensures
            r == envelope_le(*self, *other),
    {
        if self.src.0 != other.src.0 {
            self.src.0 < other.src.0
        } else if self.dst.0 != other.dst.0 {
            self.dst.0 < other.dst.0
        } else {
            self.msg.le_val(&other.msg)
        }
    }
}

/// Canonicality: two duplicate-free, sorted envelope sequences carrying the
/// same set are the same sequence — so the sorted view of a network is a
/// fingerprint consistent with network set equality.
pub proof fn lemma_canonical_form_unique<Msg: DataOrd>(x: Seq<Envelope<Msg>>, y: Seq<Envelope<Msg>>)
    requires
        x.no_duplicates(),
        y.no_duplicates(),
        sorted_by(x, |a: Envelope<Msg>, b: Envelope<Msg>| envelope_le(a, b)),
        sorted_by(y, |a: Envelope<Msg>, b: Envelope<Msg>| envelope_le(a, b)),
        x.to_set() == y.to_set(),
    ensures
        x == y,
{
    lemma_envelope_le_total_ordering::<Msg>();
    x.lemma_multiset_has_no_duplicates();
    y.lemma_multiset_has_no_duplicates();
    assert(x.to_multiset() =~= y.to_multiset()) by {
        broadcast use vstd::seq_lib::group_to_multiset_ensures;

        assert forall|e: Envelope<Msg>| #![trigger x.to_multiset().count(e)]
            x.to_multiset().count(e) == y.to_multiset().count(e) by {
            if x.contains(e) {
                assert(x.to_set().contains(e));
                assert(y.to_set().contains(e));
                assert(y.contains(e));
            } else if y.contains(e) {
                assert(y.to_set().contains(e));
                assert(x.to_set().contains(e));
            } else {
                assert(x.to_multiset().count(e) == 0);
                assert(y.to_multiset().count(e) == 0);
            }
        }
    }
    lemma_sorted_unique(x, y, |a: Envelope<Msg>, b: Envelope<Msg>| envelope_le(a, b));
}

} // verus!
