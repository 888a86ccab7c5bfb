//! The supply of pieces: a bag that holds each kind once, in a random
//! order, and is refilled when it runs empty.
use vstd::prelude::*;
use rand::prelude::SliceRandom;
use rand::rngs::ThreadRng;
use super::piece::Kind;

verus! {

broadcast use {vstd::seq_lib::group_to_multiset_ensures, vstd::multiset::group_multiset_axioms};

/// The generator of `rand` that belongs to the current thread.
#[verifier::external_type_specification]
#[verifier::external_body]
pub struct ExThreadRng(ThreadRng);

/// `rand::thread_rng`: a handle to the random number generator of the
/// current thread. Nothing is claimed of the generator. The call fails
/// only where the system cannot seed the generator.
#[verifier::external_body]
pub(crate) fn thread_generator() -> ThreadRng {
    rand::thread_rng()
}

/// `SliceRandom::shuffle` of `rand`: reorders the kinds in place by a
/// series of swaps that the generator picks. The claim is that the kinds
/// are the same as before, each as often as before; their order is
/// left open.
#[verifier::external_body]
pub(crate) fn shuffle(kinds: &mut Vec<Kind>, rng: &mut ThreadRng)
    ensures
        final(kinds)@.to_multiset() == old(kinds)@.to_multiset(),
{
    kinds.shuffle(rng);
}

/// The seven kinds, in the order of `Kind::ALL`.
pub open spec fn all_kinds() -> Seq<Kind> {
    seq![Kind::O, Kind::I, Kind::T, Kind::L, Kind::J, Kind::S, Kind::Z]
}

/// A full bag holds the seven kinds, each once, in any order.
pub open spec fn is_full_bag(bag: Seq<Kind>) -> bool {
    bag.to_multiset() == all_kinds().to_multiset()
}

/// A bag in use holds no kind twice.
pub open spec fn is_bag(bag: Seq<Kind>) -> bool {
    forall|k: Kind| bag.to_multiset().count(k) <= 1
}

/// One draw: the last kind of the bag leaves it. An empty bag is first
/// refilled with a full bag in some order.
pub open spec fn draw_step(before: Seq<Kind>, kind: Kind, after: Seq<Kind>) -> bool {
    if before.len() > 0 {
        before == after.push(kind)
    } else {
        is_full_bag(after.push(kind))
    }
}

/// A run of draws, with the bag before the first draw, between the draws
/// and after the last: `bags[i]` is the bag before `drawn[i]` is drawn.
pub open spec fn run_of_draws(bags: Seq<Seq<Kind>>, drawn: Seq<Kind>) -> bool {
    &&& bags.len() == drawn.len() + 1
    &&& forall|i: int|
        0 <= i < drawn.len() ==> draw_step(#[trigger] bags[i], drawn[i], bags[i + 1])
}

/// Some run of draws takes the bag from `before` to `after` and hands out
/// `drawn`, in this order.
pub open spec fn supplies(before: Seq<Kind>, drawn: Seq<Kind>, after: Seq<Kind>) -> bool {
    exists|bags: Seq<Seq<Kind>>|
        #[trigger] run_of_draws(bags, drawn) && bags.first() == before && bags.last() == after
}

/// The list of all kinds holds each kind exactly once.
pub proof fn lemma_all_kinds_once()
    ensures
        all_kinds().len() == 7,
        forall|k: Kind| all_kinds().to_multiset().count(k) == 1,
{
    let s0 = Seq::<Kind>::empty();
    let s1 = s0.push(Kind::O);
    let s2 = s1.push(Kind::I);
    let s3 = s2.push(Kind::T);
    let s4 = s3.push(Kind::L);
    let s5 = s4.push(Kind::J);
    let s6 = s5.push(Kind::S);
    let s7 = s6.push(Kind::Z);
    assert(s7 =~= all_kinds());
    assert(s0.to_multiset() =~= vstd::multiset::Multiset::empty());
    assert forall|k: Kind| all_kinds().to_multiset().count(k) == 1 by {
        assert(s1.to_multiset().count(k) == if k == Kind::O { 1nat } else { 0 });
        assert(s2.to_multiset().count(k) == s1.to_multiset().count(k) + if k == Kind::I { 1nat } else { 0 });
        assert(s3.to_multiset().count(k) == s2.to_multiset().count(k) + if k == Kind::T { 1nat } else { 0 });
        assert(s4.to_multiset().count(k) == s3.to_multiset().count(k) + if k == Kind::L { 1nat } else { 0 });
        assert(s5.to_multiset().count(k) == s4.to_multiset().count(k) + if k == Kind::J { 1nat } else { 0 });
        assert(s6.to_multiset().count(k) == s5.to_multiset().count(k) + if k == Kind::S { 1nat } else { 0 });
        assert(s7.to_multiset().count(k) == s6.to_multiset().count(k) + if k == Kind::Z { 1nat } else { 0 });
    }
}

/// A full bag has seven kinds, each exactly once.
pub proof fn lemma_full_bag(bag: Seq<Kind>)
    ensures
        is_full_bag(bag) <==> forall|k: Kind| bag.to_multiset().count(k) == 1,
        is_full_bag(bag) ==> bag.len() == 7 && is_bag(bag),
{
    lemma_all_kinds_once();
    assert(bag.len() == bag.to_multiset().len());
    assert(all_kinds().len() == all_kinds().to_multiset().len());
    if forall|k: Kind| bag.to_multiset().count(k) == 1 {
        assert(bag.to_multiset() =~= all_kinds().to_multiset());
    }
}

/// Taking the last kind out of a bag leaves a bag.
pub proof fn lemma_draw_keeps_bag(before: Seq<Kind>, kind: Kind, after: Seq<Kind>)
    requires
        is_bag(before),
        draw_step(before, kind, after),
    ensures
        is_bag(after),
{
    lemma_full_bag(after.push(kind));
    assert forall|k: Kind| after.to_multiset().count(k) <= 1 by {
        assert(after.push(kind).to_multiset().count(k) <= 1);
    }
}

/// Draws from a bag that holds no kind twice leave such a bag.
pub proof fn lemma_supplies_keep_bag(before: Seq<Kind>, drawn: Seq<Kind>, after: Seq<Kind>)
    requires
        is_bag(before),
        supplies(before, drawn, after),
    ensures
        is_bag(after),
{
    let bags = choose|bags: Seq<Seq<Kind>>|
        #[trigger] run_of_draws(bags, drawn) && bags.first() == before && bags.last() == after;
    lemma_run_keeps_bag(bags, drawn, drawn.len() as int);
}

/// In a run of draws that starts on a bag that holds no kind twice, every
/// bag is such a bag.
pub proof fn lemma_run_keeps_bag(bags: Seq<Seq<Kind>>, drawn: Seq<Kind>, n: int)
    requires
        run_of_draws(bags, drawn),
        is_bag(bags[0]),
        0 <= n <= drawn.len(),
    ensures
        is_bag(bags[n]),
    decreases n,
{
    if n > 0 {
        lemma_run_keeps_bag(bags, drawn, n - 1);
        assert(draw_step(bags[n - 1], drawn[n - 1], bags[n]));
        lemma_draw_keeps_bag(bags[n - 1], drawn[n - 1], bags[n]);
    }
}

/// A run of draws followed by one more draw is a run of draws.
pub proof fn lemma_supplies_push(
    before: Seq<Kind>,
    drawn: Seq<Kind>,
    mid: Seq<Kind>,
    kind: Kind,
    after: Seq<Kind>,
)
    requires
        supplies(before, drawn, mid),
        draw_step(mid, kind, after),
    ensures
        supplies(before, drawn.push(kind), after),
{
    let bags = choose|bags: Seq<Seq<Kind>>|
        #[trigger] run_of_draws(bags, drawn) && bags.first() == before && bags.last() == mid;
    let longer = bags.push(after);
    assert forall|i: int| 0 <= i < drawn.push(kind).len() implies draw_step(
        #[trigger] longer[i],
        drawn.push(kind)[i],
        longer[i + 1],
    ) by {
        if i < drawn.len() {
            assert(draw_step(bags[i], drawn[i], bags[i + 1]));
        }
    }
    assert(run_of_draws(longer, drawn.push(kind)));
}

/// No draw at all leaves the bag as it is.
pub proof fn lemma_supplies_nothing(bag: Seq<Kind>)
    ensures
        supplies(bag, Seq::<Kind>::empty(), bag),
{
    assert(run_of_draws(seq![bag], Seq::<Kind>::empty()));
}

/// While the bag does not run empty, the kinds come out from its end: the
/// bag before the `n`-th draw, followed by the first `n` kinds drawn, the
/// last drawn first, is the bag at the start.
pub proof fn lemma_draws_without_refill(bags: Seq<Seq<Kind>>, drawn: Seq<Kind>, n: int)
    requires
        run_of_draws(bags, drawn),
        0 <= n <= drawn.len(),
        bags[0].len() >= n,
    ensures
        bags[0] == bags[n] + drawn.take(n).reverse(),
    decreases n,
{
    if n == 0 {
        assert(bags[0] =~= bags[0] + drawn.take(0).reverse());
    } else {
        lemma_draws_without_refill(bags, drawn, n - 1);
        assert(draw_step(bags[n - 1], drawn[n - 1], bags[n]));
        assert(bags[n - 1].len() == bags[0].len() - (n - 1));
        assert(bags[0] =~= bags[n] + drawn.take(n).reverse());
    }
}

/// A sequence read backwards holds the same items as often.
pub proof fn lemma_reverse_same_items(s: Seq<Kind>)
    ensures
        s.reverse().to_multiset() == s.to_multiset(),
    decreases s.len(),
{
    if s.len() == 0 {
        assert(s.reverse() =~= s);
    } else {
        let rest = s.drop_last();
        lemma_reverse_same_items(rest);
        assert(s =~= rest.push(s.last()));
        assert(s.reverse() =~= rest.reverse().insert(0, s.last()));
        vstd::seq_lib::to_multiset_insert(rest.reverse(), 0, s.last());
        assert(s.reverse().to_multiset() =~= s.to_multiset());
    }
}

/// Seven draws in a row that start on an empty bag hand out each kind
/// exactly once, and leave the bag empty again. So the stream of pieces
/// falls into runs of seven, each a rearrangement of the seven kinds.
pub proof fn lemma_seven_draws_hold_each_kind_once(bags: Seq<Seq<Kind>>, drawn: Seq<Kind>)
    requires
        run_of_draws(bags, drawn),
        drawn.len() == 7,
        bags[0].len() == 0,
    ensures
        forall|k: Kind| drawn.to_multiset().count(k) == 1,
        bags[7].len() == 0,
{
    assert(draw_step(bags[0], drawn[0], bags[1]));
    let full = bags[1].push(drawn[0]);
    lemma_full_bag(full);
    let later = bags.drop_first();
    let rest = drawn.drop_first();
    assert(run_of_draws(later, rest)) by {
        assert forall|i: int| 0 <= i < rest.len() implies draw_step(
            #[trigger] later[i],
            rest[i],
            later[i + 1],
        ) by {
            assert(draw_step(bags[i + 1], drawn[i + 1], bags[i + 2]));
        }
    }
    lemma_draws_without_refill(later, rest, 6);
    assert(rest.take(6) =~= rest);
    assert(bags[7] == later[6]);
    assert(bags[7].len() == 0);
    assert(bags[1] =~= rest.reverse());
    assert(full =~= drawn.reverse());
    lemma_reverse_same_items(drawn);
    lemma_full_bag(drawn);
}

/// Part of a run of draws is a run of draws.
pub proof fn lemma_part_of_run(bags: Seq<Seq<Kind>>, drawn: Seq<Kind>, from: int, to: int)
    requires
        run_of_draws(bags, drawn),
        0 <= from <= to <= drawn.len(),
    ensures
        run_of_draws(bags.subrange(from, to + 1), drawn.subrange(from, to)),
{
    let part_bags = bags.subrange(from, to + 1);
    let part = drawn.subrange(from, to);
    assert forall|i: int| 0 <= i < part.len() implies draw_step(
        #[trigger] part_bags[i],
        part[i],
        part_bags[i + 1],
    ) by {
        assert(draw_step(bags[from + i], drawn[from + i], bags[from + i + 1]));
    }
}

/// The `k`-th run of seven in a stream of draws, counted from zero.
pub open spec fn run_of_seven(drawn: Seq<Kind>, k: int) -> Seq<Kind> {
    drawn.subrange(7 * k, 7 * (k + 1))
}

/// A stream of draws that starts on an empty bag falls into runs of seven:
/// the `k`-th run of seven holds each kind exactly once, and the bag is
/// empty before and after it.
pub proof fn lemma_runs_of_seven(bags: Seq<Seq<Kind>>, drawn: Seq<Kind>, k: int)
    requires
        run_of_draws(bags, drawn),
        bags[0].len() == 0,
        0 <= k,
        7 * (k + 1) <= drawn.len(),
    ensures
        bags[7 * k].len() == 0,
        bags[7 * (k + 1)].len() == 0,
        forall|kind: Kind| run_of_seven(drawn, k).to_multiset().count(kind) == 1,
    decreases k,
{
    if k > 0 {
        lemma_runs_of_seven(bags, drawn, k - 1);
    }
    lemma_part_of_run(bags, drawn, 7 * k, 7 * (k + 1));
    let part_bags = bags.subrange(7 * k, 7 * (k + 1) + 1);
    let part = drawn.subrange(7 * k, 7 * (k + 1));
    assert(part_bags[0] == bags[7 * k]);
    lemma_seven_draws_hold_each_kind_once(part_bags, part);
    assert(part_bags[7] == bags[7 * (k + 1)]);
}

/// In a stream of draws that starts on an empty bag, a kind that is drawn
/// is drawn again among the next thirteen draws: at most twelve other
/// draws lie between two draws of the same kind.
pub proof fn lemma_kind_returns(bags: Seq<Seq<Kind>>, drawn: Seq<Kind>, i: int)
    requires
        run_of_draws(bags, drawn),
        bags[0].len() == 0,
        0 <= i,
        7 * (i / 7 + 2) <= drawn.len(),
    ensures
        exists|j: int| i < j <= i + 13 && #[trigger] drawn[j] == drawn[i],
{
    let k = i / 7;
    lemma_runs_of_seven(bags, drawn, k + 1);
    let next = run_of_seven(drawn, k + 1);
    assert(next.to_multiset().count(drawn[i]) == 1);
    assert(next.contains(drawn[i]));
    let m = choose|m: int| 0 <= m < next.len() && next[m] == drawn[i];
    let j = 7 * (k + 1) + m;
    assert(drawn[j] == drawn[i]);
    assert(i < j <= i + 13);
}

} // verus!
