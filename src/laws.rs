//! What a whole run of the merge yields. A run is the list of what the polled
//! sources gave in each cycle; each source is a finite sequence of items that
//! may answer "not ready" at any poll.
use vstd::prelude::*;

use crate::either_or_both::EitherOrBoth;
use crate::either_or_none::EitherOrNone;
use crate::zip_longest::{Polled, polls_left, polls_right, step};

verus! {

/// The sequence that merging `l` and `r` yields: pairs while both have items,
/// then the rest of the longer one.
pub open spec fn zip_longest_seq<L, R>(l: Seq<L>, r: Seq<R>) -> Seq<EitherOrBoth<L, R>> {
    Seq::new(
        if l.len() >= r.len() { l.len() } else { r.len() },
        |i: int|
            if i < l.len() && i < r.len() {
                EitherOrBoth::Both(l[i], r[i])
            } else if i < l.len() {
                EitherOrBoth::Left(l[i])
            } else {
                EitherOrBoth::Right(r[i])
            },
    )
}

/// The left items carried by a sequence of results, in order.
pub open spec fn left_payloads<L, R>(s: Seq<EitherOrBoth<L, R>>) -> Seq<L>
    decreases s.len(),
{
    if s.len() == 0 {
        Seq::empty()
    } else {
        let rest = left_payloads(s.drop_last());
        match s.last() {
            EitherOrBoth::Both(a, _) => rest.push(a),
            EitherOrBoth::Left(a) => rest.push(a),
            EitherOrBoth::Right(_) => rest,
        }
    }
}

/// The right items carried by a sequence of results, in order.
pub open spec fn right_payloads<L, R>(s: Seq<EitherOrBoth<L, R>>) -> Seq<R>
    decreases s.len(),
{
    if s.len() == 0 {
        Seq::empty()
    } else {
        let rest = right_payloads(s.drop_last());
        match s.last() {
            EitherOrBoth::Both(_, b) => rest.push(b),
            EitherOrBoth::Right(b) => rest.push(b),
            EitherOrBoth::Left(_) => rest,
        }
    }
}

/// What a source with `items`, of which `taken` have been handed out, may
/// answer to a poll; `polled` says whether the cycle polls it at all.
pub open spec fn answers<T>(items: Seq<T>, taken: nat, polled: bool, o: Option<Polled<T>>) -> bool {
    match o {
        None => !polled,
        Some(Polled::Item(x)) => polled && taken < items.len() && x == items[taken as int],
        Some(Polled::Done) => polled && taken == items.len(),
        Some(Polled::Pending) => polled,
    }
}

/// The count of items taken from a source after it answered `o`.
pub open spec fn taken_after<T>(taken: nat, o: Option<Polled<T>>) -> nat {
    match o {
        Some(Polled::Item(_)) => taken + 1,
        _ => taken,
    }
}

/// Where a run stands: the slot, how many items each side has handed out,
/// what the merge has yielded, and whether its last cycle yielded completion.
pub struct RunState<L, R> {
    pub slot: EitherOrNone<L, R>,
    pub taken_left: nat,
    pub taken_right: nat,
    pub emitted: Seq<EitherOrBoth<L, R>>,
    pub finished: bool,
}

/// The state after the cycles of `run`, from a fresh merge.
pub open spec fn replay<L, R>(run: Seq<(Option<Polled<L>>, Option<Polled<R>>)>) -> RunState<L, R>
    decreases run.len(),
{
    if run.len() == 0 {
        RunState {
            slot: EitherOrNone::Empty,
            taken_left: 0,
            taken_right: 0,
            emitted: Seq::empty(),
            finished: false,
        }
    } else {
        let st = replay(run.drop_last());
        let (lo, ro) = run.last();
        let (slot, p) = step(st.slot, lo, ro);
        RunState {
            slot,
            taken_left: taken_after(st.taken_left, lo),
            taken_right: taken_after(st.taken_right, ro),
            emitted: match p {
                Polled::Item(e) => st.emitted.push(e),
                _ => st.emitted,
            },
            finished: p is Done,
        }
    }
}

/// Each cycle of `run` polls what the merge asks for, and each answer is one
/// that the sources `l` and `r` could give.
pub open spec fn valid_run<L, R>(
    l: Seq<L>,
    r: Seq<R>,
    run: Seq<(Option<Polled<L>>, Option<Polled<R>>)>,
) -> bool
    decreases run.len(),
{
    run.len() == 0 || {
        let st = replay(run.drop_last());
        let (lo, ro) = run.last();
        &&& valid_run(l, r, run.drop_last())
        &&& answers(l, st.taken_left, polls_left(st.slot), lo)
        &&& answers(r, st.taken_right, polls_right(st.slot), ro)
    }
}

/// A valid run whose last cycle yielded completion.
pub open spec fn completed_run<L, R>(
    l: Seq<L>,
    r: Seq<R>,
    run: Seq<(Option<Polled<L>>, Option<Polled<R>>)>,
) -> bool {
    valid_run(l, r, run) && run.len() > 0 && replay(run).finished
}

/// Where the counts of taken items may stand: equal, or apart only once the
/// side that lags has ended.
pub open spec fn in_step<L, R>(l: Seq<L>, r: Seq<R>, a: nat, b: nat) -> bool {
    &&& a <= l.len()
    &&& b <= r.len()
    &&& a == b || (a < b && a == l.len()) || (b < a && b == r.len())
}

/// What holds of a run at every cycle: what was yielded is the merge of what
/// was taken, less the one item that waits in the slot.
pub open spec fn consistent<L, R>(l: Seq<L>, r: Seq<R>, st: RunState<L, R>) -> bool {
    let a = st.taken_left;
    let b = st.taken_right;
    &&& st.finished ==> (a == l.len() && b == r.len() && st.slot is Empty)
    &&& match st.slot {
        EitherOrNone::Empty => in_step(l, r, a, b) && st.emitted == zip_longest_seq(
            l.take(a as int),
            r.take(b as int),
        ),
        EitherOrNone::Left(x) => 0 < a <= l.len() && in_step(l, r, (a - 1) as nat, b) && x == l[a - 1]
            && st.emitted == zip_longest_seq(l.take(a - 1), r.take(b as int)),
        EitherOrNone::Right(y) => 0 < b <= r.len() && in_step(l, r, a, (b - 1) as nat) && y == r[b - 1]
            && st.emitted == zip_longest_seq(l.take(a as int), r.take(b - 1)),
    }
}

proof fn lemma_extend_both<L, R>(l: Seq<L>, r: Seq<R>, a: int)
    requires
        0 <= a < l.len(),
        a < r.len(),
    ensures
        zip_longest_seq(l.take(a + 1), r.take(a + 1)) == zip_longest_seq(l.take(a), r.take(a)).push(
            EitherOrBoth::Both(l[a], r[a]),
        ),
{
    assert(zip_longest_seq(l.take(a + 1), r.take(a + 1)) =~= zip_longest_seq(l.take(a), r.take(a)).push(
        EitherOrBoth::Both(l[a], r[a]),
    ));
}

proof fn lemma_extend_left<L, R>(l: Seq<L>, r: Seq<R>, a: int, b: int)
    requires
        0 <= a < l.len(),
        b == r.len(),
        b <= a,
    ensures
        zip_longest_seq(l.take(a + 1), r.take(b)) == zip_longest_seq(l.take(a), r.take(b)).push(
            EitherOrBoth::Left(l[a]),
        ),
{
    assert(zip_longest_seq(l.take(a + 1), r.take(b)) =~= zip_longest_seq(l.take(a), r.take(b)).push(
        EitherOrBoth::Left(l[a]),
    ));
}

proof fn lemma_extend_right<L, R>(l: Seq<L>, r: Seq<R>, a: int, b: int)
    requires
        0 <= b < r.len(),
        a == l.len(),
        a <= b,
    ensures
        zip_longest_seq(l.take(a), r.take(b + 1)) == zip_longest_seq(l.take(a), r.take(b)).push(
            EitherOrBoth::Right(r[b]),
        ),
{
    assert(zip_longest_seq(l.take(a), r.take(b + 1)) =~= zip_longest_seq(l.take(a), r.take(b)).push(
        EitherOrBoth::Right(r[b]),
    ));
}

proof fn lemma_step_consistent<L, R>(
    l: Seq<L>,
    r: Seq<R>,
    run: Seq<(Option<Polled<L>>, Option<Polled<R>>)>,
)
    requires
        run.len() > 0,
        consistent(l, r, replay(run.drop_last())),
        answers(l, replay(run.drop_last()).taken_left, polls_left(replay(run.drop_last()).slot), run.last().0),
        answers(r, replay(run.drop_last()).taken_right, polls_right(replay(run.drop_last()).slot), run.last().1),
    ensures
        consistent(l, r, replay(run)),
{
    let st = replay(run.drop_last());
    let a = st.taken_left as int;
    let b = st.taken_right as int;
    let (lo, ro) = run.last();
    match st.slot {
        EitherOrNone::Empty => {
            match (lo, ro) {
                (Some(Polled::Item(x)), Some(Polled::Item(y))) => lemma_extend_both(l, r, a),
                (Some(Polled::Done), Some(Polled::Item(y))) => lemma_extend_right(l, r, a, b),
                (Some(Polled::Item(x)), Some(Polled::Done)) => lemma_extend_left(l, r, a, b),
                (Some(Polled::Done), Some(Polled::Done)) => {
                    assert(l.take(a) =~= l);
                    assert(r.take(b) =~= r);
                },
                _ => {},
            }
        },
        EitherOrNone::Left(x) => {
            match ro {
                Some(Polled::Item(y)) => lemma_extend_both(l, r, a - 1),
                Some(Polled::Done) => lemma_extend_left(l, r, a - 1, b),
                _ => {},
            }
        },
        EitherOrNone::Right(y) => {
            match lo {
                Some(Polled::Item(x)) => lemma_extend_both(l, r, a),
                Some(Polled::Done) => lemma_extend_right(l, r, a, b - 1),
                _ => {},
            }
        },
    }
}

proof fn lemma_run_consistent<L, R>(
    l: Seq<L>,
    r: Seq<R>,
    run: Seq<(Option<Polled<L>>, Option<Polled<R>>)>,
)
    requires
        valid_run(l, r, run),
    ensures
        consistent(l, r, replay(run)),
    decreases run.len(),
{
    if run.len() == 0 {
        assert(zip_longest_seq(l.take(0), r.take(0)) =~= Seq::empty());
    } else {
        lemma_run_consistent(l, r, run.drop_last());
        lemma_step_consistent(l, r, run);
    }
}

/// A run that completes has yielded exactly the positional merge of the two
/// sources, whatever cycles the sources were not ready in.
pub proof fn lemma_completed_run_yields_zip<L, R>(
    l: Seq<L>,
    r: Seq<R>,
    run: Seq<(Option<Polled<L>>, Option<Polled<R>>)>,
)
    requires
        completed_run(l, r, run),
    ensures
        replay(run).emitted == zip_longest_seq(l, r),
{
    lemma_run_consistent(l, r, run);
    assert(l.take(l.len() as int) =~= l);
    assert(r.take(r.len() as int) =~= r);
}

/// A completed run yields as many results as the longer source has items.
pub proof fn lemma_run_length<L, R>(
    l: Seq<L>,
    r: Seq<R>,
    run: Seq<(Option<Polled<L>>, Option<Polled<R>>)>,
)
    requires
        completed_run(l, r, run),
    ensures
        replay(run).emitted.len() == if l.len() >= r.len() { l.len() } else { r.len() },
{
    lemma_completed_run_yields_zip(l, r, run);
}

/// When both sources have the same length, every result is a pair, and the
/// pairs come in the order of the sources.
pub proof fn lemma_equal_length<L, R>(
    l: Seq<L>,
    r: Seq<R>,
    run: Seq<(Option<Polled<L>>, Option<Polled<R>>)>,
)
    requires
        completed_run(l, r, run),
        l.len() == r.len(),
    ensures
        replay(run).emitted.len() == l.len(),
        forall|i: int|
            0 <= i < l.len() ==> #[trigger] replay(run).emitted[i] == EitherOrBoth::<L, R>::Both(
                l[i],
                r[i],
            ),
{
    lemma_completed_run_yields_zip(l, r, run);
}

/// When the left source is longer, pairs come first, in order, then the rest
/// of the left items alone, in order.
pub proof fn lemma_left_longer<L, R>(
    l: Seq<L>,
    r: Seq<R>,
    run: Seq<(Option<Polled<L>>, Option<Polled<R>>)>,
)
    requires
        completed_run(l, r, run),
        l.len() > r.len(),
    ensures
        replay(run).emitted.len() == l.len(),
        forall|i: int|
            0 <= i < r.len() ==> #[trigger] replay(run).emitted[i] == EitherOrBoth::<L, R>::Both(
                l[i],
                r[i],
            ),
        forall|i: int|
            r.len() <= i < l.len() ==> #[trigger] replay(run).emitted[i] == EitherOrBoth::<
                L,
                R,
            >::Left(l[i]),
{
    lemma_completed_run_yields_zip(l, r, run);
}

/// When the right source is longer, pairs come first, in order, then the rest
/// of the right items alone, in order.
pub proof fn lemma_right_longer<L, R>(
    l: Seq<L>,
    r: Seq<R>,
    run: Seq<(Option<Polled<L>>, Option<Polled<R>>)>,
)
    requires
        completed_run(l, r, run),
        r.len() > l.len(),
    ensures
        replay(run).emitted.len() == r.len(),
        forall|i: int|
            0 <= i < l.len() ==> #[trigger] replay(run).emitted[i] == EitherOrBoth::<L, R>::Both(
                l[i],
                r[i],
            ),
        forall|i: int|
            l.len() <= i < r.len() ==> #[trigger] replay(run).emitted[i] == EitherOrBoth::<
                L,
                R,
            >::Right(r[i]),
{
    lemma_completed_run_yields_zip(l, r, run);
}

proof fn lemma_payloads_of_zip<L, R>(l: Seq<L>, r: Seq<R>, k: int)
    requires
        0 <= k <= zip_longest_seq(l, r).len(),
    ensures
        left_payloads(zip_longest_seq(l, r).take(k)) == l.take(if k <= l.len() { k } else { l.len() as int }),
        right_payloads(zip_longest_seq(l, r).take(k)) == r.take(if k <= r.len() { k } else { r.len() as int }),
    decreases k,
{
    let z = zip_longest_seq(l, r);
    if k == 0 {
        assert(l.take(0) =~= Seq::empty());
        assert(r.take(0) =~= Seq::empty());
    } else {
        lemma_payloads_of_zip(l, r, k - 1);
        assert(z.take(k).drop_last() =~= z.take(k - 1));
        if k <= l.len() {
            assert(l.take(k) =~= l.take(k - 1).push(l[k - 1]));
        }
        if k <= r.len() {
            assert(r.take(k) =~= r.take(k - 1).push(r[k - 1]));
        }
    }
}

/// Nothing is lost or repeated: the left items carried by the results of a
/// completed run are the left source, in order, and so on the right.
pub proof fn lemma_no_loss<L, R>(
    l: Seq<L>,
    r: Seq<R>,
    run: Seq<(Option<Polled<L>>, Option<Polled<R>>)>,
)
    requires
        completed_run(l, r, run),
    ensures
        left_payloads(replay(run).emitted) == l,
        right_payloads(replay(run).emitted) == r,
{
    lemma_completed_run_yields_zip(l, r, run);
    let z = zip_longest_seq(l, r);
    lemma_payloads_of_zip(l, r, z.len() as int);
    assert(z.take(z.len() as int) =~= z);
    assert(l.take(l.len() as int) =~= l);
    assert(r.take(r.len() as int) =~= r);
}

/// Once a cycle yields completion, the next cycle polls both sources, and
/// when they again report their end, as ended sources do, it yields
/// completion again.
pub proof fn lemma_done_stays_done<L, R>(
    s: EitherOrNone<L, R>,
    l: Option<Polled<L>>,
    r: Option<Polled<R>>,
)
    requires
        step(s, l, r).1 is Done,
    ensures
        polls_left(step(s, l, r).0),
        polls_right(step(s, l, r).0),
        step(step(s, l, r).0, Some(Polled::Done), Some(Polled::Done)) == (
            EitherOrNone::<L, R>::Empty,
            Polled::<EitherOrBoth<L, R>>::Done,
        ),
{
}

/// The slot holds at most one item, and a source whose item waits in it is
/// not polled: an item is put in the slot only in a cycle that starts empty
/// and where the other source was not ready, and stays there untouched until
/// the other source answers.
pub proof fn lemma_single_buffer<L, R>(
    s: EitherOrNone<L, R>,
    l: Option<Polled<L>>,
    r: Option<Polled<R>>,
)
    requires
        l is Some <==> polls_left(s),
        r is Some <==> polls_right(s),
    ensures
        s is Left ==> l is None,
        s is Right ==> r is None,
        match step(s, l, r).0 {
            EitherOrNone::Left(x) => s == EitherOrNone::<L, R>::Left(x) || (s is Empty && l == Some(
                Polled::Item(x),
            ) && r == Some(Polled::<R>::Pending)),
            EitherOrNone::Right(y) => s == EitherOrNone::<L, R>::Right(y) || (s is Empty && r
                == Some(Polled::Item(y)) && l == Some(Polled::<L>::Pending)),
            EitherOrNone::Empty => true,
        },
        !(s is Empty) && step(s, l, r).1 is Item ==> step(s, l, r).0 is Empty,
{
}

} // verus!
