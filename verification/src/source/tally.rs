//! One status for the producer out of the reports of its consumers.
//!
//! The producer is on program if any consumer reports program, and on
//! preview if any reports preview. The order in which the reports are
//! combined does not matter.

use crate::io::frame::text::Tally;
use vstd::prelude::*;

verus! {

/// The reports of `tallies` combined, flag by flag.
pub open spec fn spec_aggregate(tallies: Seq<Tally>) -> Tally
    decreases tallies.len(),
{
    if tallies.len() == 0 {
        Tally::spec_off()
    } else {
        spec_aggregate(tallies.drop_last()).spec_merge(tallies.last())
    }
}

/// Combines the reports of `tallies`.
pub fn aggregate(tallies: &Vec<Tally>) -> (tally: Tally)
    ensures
        tally == spec_aggregate(tallies@),
{
    let mut tally = Tally::off();
    let mut i: usize = 0;
    while i < tallies.len()
        invariant
            i <= tallies@.len(),
            tally == spec_aggregate(tallies@.take(i as int)),
        decreases tallies@.len() - i,
    {
        assert(tallies@.take(i + 1).drop_last() =~= tallies@.take(i as int));
        tally = tally.merge(tallies[i]);
        i += 1;
    }
    assert(tallies@.take(i as int) =~= tallies@);
    tally
}

/// Combining two reports does not depend on which comes first.
pub proof fn lemma_merge_commutative(a: Tally, b: Tally)
    ensures
        a.spec_merge(b) == b.spec_merge(a),
{
}

/// Combining three reports does not depend on how they are grouped.
pub proof fn lemma_merge_associative(a: Tally, b: Tally, c: Tally)
    ensures
        a.spec_merge(b).spec_merge(c) == a.spec_merge(b.spec_merge(c)),
{
}

/// Off air changes no report it is combined with.
pub proof fn lemma_merge_identity(a: Tally)
    ensures
        a.spec_merge(Tally::spec_off()) == a,
        Tally::spec_off().spec_merge(a) == a,
{
}

/// The combined status is on program exactly when some report is, and on
/// preview exactly when some report is.
pub proof fn lemma_aggregate_is_any(tallies: Seq<Tally>)
    ensures
        spec_aggregate(tallies).program <==> exists|i: int|
            0 <= i < tallies.len() && (#[trigger] tallies[i]).program,
        spec_aggregate(tallies).preview <==> exists|i: int|
            0 <= i < tallies.len() && (#[trigger] tallies[i]).preview,
    decreases tallies.len(),
{
    if tallies.len() > 0 {
        let front = tallies.drop_last();
        lemma_aggregate_is_any(front);
        let n = tallies.len() - 1;
        if spec_aggregate(front).program {
            let i = choose|i: int| 0 <= i < front.len() && (#[trigger] front[i]).program;
            assert(tallies[i].program);
        }
        if spec_aggregate(front).preview {
            let i = choose|i: int| 0 <= i < front.len() && (#[trigger] front[i]).preview;
            assert(tallies[i].preview);
        }
        if tallies.last().program {
            assert(tallies[n].program);
        }
        if tallies.last().preview {
            assert(tallies[n].preview);
        }
        if exists|i: int| 0 <= i < tallies.len() && (#[trigger] tallies[i]).program {
            let i = choose|i: int| 0 <= i < tallies.len() && (#[trigger] tallies[i]).program;
            if i < n {
                assert(front[i].program);
            }
        }
        if exists|i: int| 0 <= i < tallies.len() && (#[trigger] tallies[i]).preview {
            let i = choose|i: int| 0 <= i < tallies.len() && (#[trigger] tallies[i]).preview;
            if i < n {
                assert(front[i].preview);
            }
        }
    }
}

/// The combined status of two runs of reports is the combination of their
/// combined statuses.
pub proof fn lemma_aggregate_concat(a: Seq<Tally>, b: Seq<Tally>)
    ensures
        spec_aggregate(a + b) == spec_aggregate(a).spec_merge(spec_aggregate(b)),
    decreases b.len(),
{
    if b.len() == 0 {
        assert(a + b =~= a);
    } else {
        assert((a + b).drop_last() =~= a + b.drop_last());
        lemma_aggregate_concat(a, b.drop_last());
    }
}

/// Runs with the same reports, each as often, have the same members.
proof fn lemma_same_members(a: Seq<Tally>, b: Seq<Tally>, x: Tally)
    requires
        a.to_multiset() == b.to_multiset(),
        a.contains(x),
    ensures
        b.contains(x),
{
    a.to_multiset_ensures();
    b.to_multiset_ensures();
    assert(a.to_multiset().count(x) > 0);
    assert(b.to_multiset().count(x) > 0);
}

/// The combined status does not depend on the order in which the reports
/// arrive: two runs with the same reports, each as often, combine to the
/// same status.
pub proof fn lemma_aggregate_order(a: Seq<Tally>, b: Seq<Tally>)
    requires
        a.to_multiset() == b.to_multiset(),
    ensures
        spec_aggregate(a) == spec_aggregate(b),
{
    lemma_aggregate_is_any(a);
    lemma_aggregate_is_any(b);
    if spec_aggregate(a).program {
        let i = choose|i: int| 0 <= i < a.len() && (#[trigger] a[i]).program;
        assert(a.contains(a[i]));
        lemma_same_members(a, b, a[i]);
        let j = choose|j: int| 0 <= j < b.len() && b[j] == a[i];
        assert(b[j].program);
    }
    if spec_aggregate(b).program {
        let i = choose|i: int| 0 <= i < b.len() && (#[trigger] b[i]).program;
        assert(b.contains(b[i]));
        lemma_same_members(b, a, b[i]);
        let j = choose|j: int| 0 <= j < a.len() && a[j] == b[i];
        assert(a[j].program);
    }
    if spec_aggregate(a).preview {
        let i = choose|i: int| 0 <= i < a.len() && (#[trigger] a[i]).preview;
        assert(a.contains(a[i]));
        lemma_same_members(a, b, a[i]);
        let j = choose|j: int| 0 <= j < b.len() && b[j] == a[i];
        assert(b[j].preview);
    }
    if spec_aggregate(b).preview {
        let i = choose|i: int| 0 <= i < b.len() && (#[trigger] b[i]).preview;
        assert(b.contains(b[i]));
        lemma_same_members(b, a, b[i]);
        let j = choose|j: int| 0 <= j < a.len() && a[j] == b[i];
        assert(a[j].preview);
    }
}

} // verus!
