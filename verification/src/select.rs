//! Picking out of a row of things those that pass a test, by position.
use vstd::prelude::*;

verus! {

/// The positions at which `flags` holds `true`, in increasing order.
pub open spec fn chosen(flags: Seq<bool>) -> Seq<int>
    decreases flags.len(),
{
    if flags.len() == 0 {
        Seq::empty()
    } else if flags.last() {
        chosen(flags.drop_last()).push(flags.len() - 1)
    } else {
        chosen(flags.drop_last())
    }
}

/// How many positions before `at` hold `true`.
pub open spec fn rank(flags: Seq<bool>, at: int) -> nat {
    chosen(flags.take(at)).len()
}

/// A row of machine indices, read as a row of integers.
pub open spec fn indices(row: Seq<usize>) -> Seq<int> {
    Seq::new(row.len(), |k: int| row[k] as int)
}

/// Every chosen position lies within the row and holds `true`.
pub proof fn lemma_chosen_sound(flags: Seq<bool>, k: int)
    requires
        0 <= k < chosen(flags).len(),
    ensures
        0 <= chosen(flags)[k] < flags.len(),
        flags[chosen(flags)[k]],
    decreases flags.len(),
{
    if flags.len() > 0 {
        if k < chosen(flags.drop_last()).len() {
            lemma_chosen_sound(flags.drop_last(), k);
        }
    }
}

/// No more positions are chosen than the row is long.
pub proof fn lemma_chosen_len(flags: Seq<bool>)
    ensures
        chosen(flags).len() <= flags.len(),
    decreases flags.len(),
{
    if flags.len() > 0 {
        lemma_chosen_len(flags.drop_last());
    }
}

/// The chosen positions increase strictly, so none occurs twice.
pub proof fn lemma_chosen_increasing(flags: Seq<bool>, j: int, k: int)
    requires
        0 <= j < k < chosen(flags).len(),
    ensures
        chosen(flags)[j] < chosen(flags)[k],
    decreases flags.len(),
{
    if flags.len() > 0 {
        let shorter = flags.drop_last();
        if k < chosen(shorter).len() {
            lemma_chosen_increasing(shorter, j, k);
        } else {
            lemma_chosen_sound(shorter, j);
        }
    }
}

/// Every position that holds `true` is chosen, and stands in the choice at
/// its rank.
pub proof fn lemma_chosen_complete(flags: Seq<bool>, at: int)
    requires
        0 <= at < flags.len(),
        flags[at],
    ensures
        rank(flags, at) < chosen(flags).len(),
        chosen(flags)[rank(flags, at) as int] == at,
    decreases flags.len(),
{
    let shorter = flags.drop_last();
    if at == flags.len() - 1 {
        assert(flags.take(at) =~= shorter);
    } else {
        assert(shorter.take(at) =~= flags.take(at));
        lemma_chosen_complete(shorter, at);
    }
}

/// Taking one more position into account adds that position to the choice
/// where it holds `true`, and changes nothing where it does not.
pub proof fn lemma_chosen_step(flags: Seq<bool>, at: int)
    requires
        0 <= at < flags.len(),
    ensures
        chosen(flags.take(at + 1)) == if flags[at] {
            chosen(flags.take(at)).push(at)
        } else {
            chosen(flags.take(at))
        },
{
    assert(flags.take(at + 1).drop_last() =~= flags.take(at));
}

/// Where every position but `hole` holds `true`, the choice is the row of
/// all positions with `hole` left out.
pub proof fn lemma_chosen_all_but(flags: Seq<bool>, hole: int)
    requires
        0 <= hole < flags.len(),
        forall|i: int| 0 <= i < flags.len() ==> flags[i] == (i != hole),
    ensures
        chosen(flags) == Seq::new(
            (flags.len() - 1) as nat,
            |k: int|
                if k < hole {
                    k
                } else {
                    k + 1
                },
        ),
{
    let n = flags.len() as int;
    lemma_chosen_upto(flags, hole, n);
    assert(flags.take(n) =~= flags);
}

/// The choice among the first `upto` positions of a row in which just
/// `hole` holds `false`.
proof fn lemma_chosen_upto(flags: Seq<bool>, hole: int, upto: int)
    requires
        0 <= hole < flags.len(),
        0 <= upto <= flags.len(),
        forall|i: int| 0 <= i < flags.len() ==> flags[i] == (i != hole),
    ensures
        chosen(flags.take(upto)) == Seq::new(
            (if upto <= hole {
                upto
            } else {
                upto - 1
            }) as nat,
            |k: int|
                if k < hole {
                    k
                } else {
                    k + 1
                },
        ),
    decreases upto,
{
    if upto > 0 {
        lemma_chosen_upto(flags, hole, upto - 1);
        lemma_chosen_step(flags, upto - 1);
    }
    assert(chosen(flags.take(upto)) =~= Seq::new(
        (if upto <= hole {
            upto
        } else {
            upto - 1
        }) as nat,
        |k: int|
            if k < hole {
                k
            } else {
                k + 1
            },
    ));
}

} // verus!
