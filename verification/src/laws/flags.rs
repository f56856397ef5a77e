//! The launch flags that commands set.

use crate::session::{flag_value, with_flag, without_flag};
use vstd::prelude::*;

verus! {

/// No flag is set twice.
pub open spec fn unique_flags(flags: Seq<(Seq<char>, Seq<char>)>) -> bool {
    forall|i: int, j: int| 0 <= i < j < flags.len() ==> flags[i].0 != flags[j].0
}

/// Leaving out a flag leaves out nothing else, and brings nothing in.
pub proof fn lemma_without_flag(flags: Seq<(Seq<char>, Seq<char>)>, flag: Seq<char>)
    ensures
        forall|i: int|
            0 <= i < without_flag(flags, flag).len() ==> {
                &&& (#[trigger] without_flag(flags, flag)[i]).0 != flag
                &&& flags.contains(without_flag(flags, flag)[i])
            },
        unique_flags(flags) ==> unique_flags(without_flag(flags, flag)),
    decreases flags.len(),
{
    reveal(Seq::filter);
    let kept = without_flag(flags, flag);
    if flags.len() > 0 {
        let before = flags.drop_last();
        lemma_without_flag(before, flag);
        let kept_before = without_flag(before, flag);
        assert forall|i: int| 0 <= i < kept.len() implies (#[trigger] kept[i]).0 != flag
            && flags.contains(kept[i]) by {
            if i < kept_before.len() {
                assert(kept[i] == kept_before[i]);
                let j = choose|j: int| 0 <= j < before.len() && before[j] == kept_before[i];
                assert(flags[j] == kept[i]);
            } else {
                assert(flags[flags.len() - 1] == kept[i]);
            }
        }
        if unique_flags(flags) {
            assert(unique_flags(before));
            assert forall|i: int, j: int| 0 <= i < j < kept.len() implies kept[i].0
                != kept[j].0 by {
                if j == kept_before.len() {
                    let k = choose|k: int| 0 <= k < before.len() && before[k] == kept_before[i];
                    assert(flags[k] == kept[i]);
                    assert(flags[flags.len() - 1] == kept[j]);
                }
            }
        }
    }
}

proof fn lemma_flag_value_push(
    flags: Seq<(Seq<char>, Seq<char>)>,
    pair: (Seq<char>, Seq<char>),
    flag: Seq<char>,
)
    ensures
        flag_value(flags.push(pair), flag) == match flag_value(flags, flag) {
            Some(value) => Some(value),
            None => if pair.0 == flag {
                Some(pair.1)
            } else {
                None
            },
        },
    decreases flags.len(),
{
    reveal_with_fuel(flag_value, 2);
    if flags.len() > 0 {
        assert(flags.push(pair).drop_first() =~= flags.drop_first().push(pair));
        lemma_flag_value_push(flags.drop_first(), pair, flag);
    }
}

proof fn lemma_flag_value_without(
    flags: Seq<(Seq<char>, Seq<char>)>,
    dropped: Seq<char>,
    flag: Seq<char>,
)
    ensures
        flag_value(without_flag(flags, dropped), flag) == if flag == dropped {
            None
        } else {
            flag_value(flags, flag)
        },
    decreases flags.len(),
{
    reveal(Seq::filter);
    if flags.len() > 0 {
        let before = flags.drop_last();
        lemma_flag_value_without(before, dropped, flag);
        assert(flags =~= before.push(flags.last()));
        lemma_flag_value_push(before, flags.last(), flag);
        lemma_flag_value_push(without_flag(before, dropped), flags.last(), flag);
    }
}

/// A flag that is set has the value it was set to, whatever it was before; every other flag keeps
/// its value; and where no flag was set twice, none is.
pub proof fn law_set_flag(
    flags: Seq<(Seq<char>, Seq<char>)>,
    flag: Seq<char>,
    value: Seq<char>,
    other: Seq<char>,
)
    ensures
        flag_value(with_flag(flags, flag, value), flag) == Some(value),
        other != flag ==> flag_value(with_flag(flags, flag, value), other) == flag_value(
            flags,
            other,
        ),
        unique_flags(flags) ==> unique_flags(with_flag(flags, flag, value)),
{
    lemma_without_flag(flags, flag);
    lemma_flag_value_without(flags, flag, flag);
    lemma_flag_value_without(flags, flag, other);
    lemma_flag_value_push(without_flag(flags, flag), (flag, value), flag);
    lemma_flag_value_push(without_flag(flags, flag), (flag, value), other);
}

/// A flag that is set stands last. Before it stand the other flags, each as it was and in their
/// order: one more of them stands behind those that were there, and the flag itself no more.
pub proof fn law_set_flag_is_last(
    flags: Seq<(Seq<char>, Seq<char>)>,
    more: (Seq<char>, Seq<char>),
    flag: Seq<char>,
    value: Seq<char>,
)
    ensures
        with_flag(Seq::empty(), flag, value) == seq![(flag, value)],
        with_flag(flags, flag, value).len() > 0,
        with_flag(flags, flag, value).last() == (flag, value),
        more.0 == flag ==> with_flag(flags.push(more), flag, value) == with_flag(
            flags,
            flag,
            value,
        ),
        more.0 != flag ==> with_flag(flags.push(more), flag, value) == with_flag(
            flags,
            flag,
            value,
        ).drop_last().push(more).push((flag, value)),
{
    reveal(Seq::filter);
    assert(flags.push(more).drop_last() =~= flags);
    assert(with_flag(flags, flag, value).drop_last() =~= without_flag(flags, flag));
    assert(with_flag(Seq::empty(), flag, value) =~= seq![(flag, value)]);
}

proof fn lemma_without_absent(flags: Seq<(Seq<char>, Seq<char>)>, flag: Seq<char>)
    requires
        forall|i: int| 0 <= i < flags.len() ==> (#[trigger] flags[i]).0 != flag,
    ensures
        without_flag(flags, flag) == flags,
    decreases flags.len(),
{
    reveal(Seq::filter);
    if flags.len() > 0 {
        lemma_without_absent(flags.drop_last(), flag);
        assert(flags.drop_last().push(flags.last()) =~= flags);
    }
}

/// A flag that is set again is replaced: the first value leaves no trace.
pub proof fn law_set_flag_again(
    flags: Seq<(Seq<char>, Seq<char>)>,
    flag: Seq<char>,
    first: Seq<char>,
    second: Seq<char>,
)
    ensures
        with_flag(with_flag(flags, flag, first), flag, second) == with_flag(flags, flag, second),
{
    let kept = without_flag(flags, flag);
    lemma_without_flag(flags, flag);
    lemma_without_absent(kept, flag);
    assert(without_flag(kept.push((flag, first)), flag) == kept) by {
        reveal(Seq::filter);
        assert(kept.push((flag, first)).drop_last() =~= kept);
    }
}

} // verus!
