//! Which of a list of entities touch the player.

use vstd::prelude::*;

verus! {

/// Positions of the `true` flags, in increasing order.
pub open spec fn touched(flags: Seq<bool>) -> Seq<usize>
    decreases flags.len(),
{
    if flags.len() == 0 {
        Seq::empty()
    } else {
        let rest = touched(flags.drop_last());
        if flags.last() {
            rest.push((flags.len() - 1) as usize)
        } else {
            rest
        }
    }
}

/// Whether any flag is set.
pub open spec fn any_set(flags: Seq<bool>) -> bool {
    exists|i: int| 0 <= i < flags.len() && #[trigger] flags[i]
}

/// `touched` lists exactly the set flags, each once, in increasing order.
pub proof fn lemma_touched(flags: Seq<bool>)
    requires
        flags.len() <= usize::MAX,
    ensures
        forall|k: int| 0 <= k < touched(flags).len() ==> {
            &&& (#[trigger] touched(flags)[k]) < flags.len()
            &&& flags[touched(flags)[k] as int]
        },
        forall|k: int, l: int| 0 <= k < l < touched(flags).len() ==>
            (#[trigger] touched(flags)[k]) < (#[trigger] touched(flags)[l]),
        forall|i: int| 0 <= i < flags.len() && #[trigger] flags[i] ==> touched(flags).contains(i as usize),
        touched(flags).len() <= flags.len(),
        touched(flags).len() == 0 <==> !any_set(flags),
    decreases flags.len(),
{
    if flags.len() > 0 {
        let init = flags.drop_last();
        lemma_touched(init);
        let t = touched(flags);
        let ti = touched(init);
        assert forall|k: int| 0 <= k < ti.len() implies t[k] == ti[k] && ti[k] < init.len() by {}
        assert forall|k: int, l: int| 0 <= k < l < t.len() implies (#[trigger] t[k]) < (#[trigger] t[l]) by {
            if l == ti.len() {
                assert(t[l] == (flags.len() - 1) as usize);
            }
        }
        assert forall|i: int| 0 <= i < flags.len() && #[trigger] flags[i] implies touched(flags).contains(i as usize) by {
            if i < flags.len() - 1 {
                assert(init[i]);
                let k = choose|k: int| 0 <= k < touched(init).len() && touched(init)[k] == i as usize;
                assert(touched(flags)[k] == i as usize);
            } else {
                assert(touched(flags)[touched(flags).len() - 1] == i as usize);
            }
        }
        if any_set(flags) {
            let i = choose|i: int| 0 <= i < flags.len() && #[trigger] flags[i];
            assert(touched(flags).contains(i as usize));
        }
        if !any_set(flags) {
            assert(!any_set(init)) by {
                if any_set(init) {
                    let i = choose|i: int| 0 <= i < init.len() && #[trigger] init[i];
                    assert(flags[i]);
                }
            }
        }
    }
}

/// Indices of the set flags, in increasing order.
pub(crate) fn touched_indices(flags: &Vec<bool>) -> (indices: Vec<usize>)
    ensures
        indices@ == touched(flags@),
{
    let mut indices: Vec<usize> = Vec::new();
    let mut i: usize = 0;
    while i < flags.len()
        invariant
            i <= flags@.len(),
            indices@ == touched(flags@.take(i as int)),
        decreases flags@.len() - i,
    {
        assert(flags@.take(i + 1).drop_last() =~= flags@.take(i as int));
        if flags[i] {
            indices.push(i);
        }
        i = i + 1;
    }
    assert(flags@.take(i as int) =~= flags@);
    indices
}

/// Whether any flag is set.
pub(crate) fn any_contact(flags: &Vec<bool>) -> (b: bool)
    ensures
        b == any_set(flags@),
{
    let mut i: usize = 0;
    while i < flags.len()
        invariant
            i <= flags@.len(),
            forall|j: int| 0 <= j < i ==> !(#[trigger] flags@[j]),
        decreases flags@.len() - i,
    {
        if flags[i] {
            return true;
        }
        i = i + 1;
    }
    false
}

} // verus!
