//! The modifiers of a state word: Shift, Lock, Control and Mod1 to Mod5, each
//! with its bit, always listed in that order.

use vstd::prelude::*;
use vstd::string::StringExecFns;
use crate::event::texts;

verus! {

/// How many modifiers the display server knows.
pub const MODIFIER_COUNT: usize = 8;

/// The bit of the state word that stands for the `i`-th modifier.
pub open spec fn modifier_mask(i: int) -> u32 {
    if i == 0 {
        0x01
    } else if i == 1 {
        0x02
    } else if i == 2 {
        0x04
    } else if i == 3 {
        0x08
    } else if i == 4 {
        0x10
    } else if i == 5 {
        0x20
    } else if i == 6 {
        0x40
    } else {
        0x80
    }
}

/// The name of the `i`-th modifier, in the canonical order.
pub open spec fn modifier_name(i: int) -> Seq<char> {
    if i == 0 {
        "Shift"@
    } else if i == 1 {
        "Lock"@
    } else if i == 2 {
        "Control"@
    } else if i == 3 {
        "Mod1"@
    } else if i == 4 {
        "Mod2"@
    } else if i == 5 {
        "Mod3"@
    } else if i == 6 {
        "Mod4"@
    } else {
        "Mod5"@
    }
}

/// Whether the state word has the `i`-th modifier's bit set.
pub open spec fn is_held(state: u32, i: int) -> bool {
    state & modifier_mask(i) != 0
}

/// The indices below `n` of the modifiers that `state` holds, ascending.
pub open spec fn held_below(state: u32, n: nat) -> Seq<int>
    decreases n,
{
    if n == 0 {
        Seq::empty()
    } else if is_held(state, n - 1) {
        held_below(state, (n - 1) as nat).push(n - 1)
    } else {
        held_below(state, (n - 1) as nat)
    }
}

/// The names of the modifiers that `state` holds, in the canonical order.
pub open spec fn active_modifiers(state: u32) -> Seq<Seq<char>> {
    held_below(state, MODIFIER_COUNT as nat).map_values(|i: int| modifier_name(i))
}

/// The mask of the `i`-th modifier.
pub fn mask_at(i: usize) -> (mask: u32)
    requires
        i < MODIFIER_COUNT,
    ensures
        mask == modifier_mask(i as int),
{
    if i == 0 {
        0x01
    } else if i == 1 {
        0x02
    } else if i == 2 {
        0x04
    } else if i == 3 {
        0x08
    } else if i == 4 {
        0x10
    } else if i == 5 {
        0x20
    } else if i == 6 {
        0x40
    } else {
        0x80
    }
}

/// The name of the `i`-th modifier.
pub fn name_at(i: usize) -> (name: String)
    requires
        i < MODIFIER_COUNT,
    ensures
        name@ == modifier_name(i as int),
{
    if i == 0 {
        String::from_str("Shift")
    } else if i == 1 {
        String::from_str("Lock")
    } else if i == 2 {
        String::from_str("Control")
    } else if i == 3 {
        String::from_str("Mod1")
    } else if i == 4 {
        String::from_str("Mod2")
    } else if i == 5 {
        String::from_str("Mod3")
    } else if i == 6 {
        String::from_str("Mod4")
    } else {
        String::from_str("Mod5")
    }
}

/// The names of the modifiers held in `state`: each of Shift, Lock, Control,
/// Mod1 to Mod5 whose bit is set, in that order.
pub fn modifier_names(state: u32) -> (names: Vec<String>)
    ensures
        texts(names@) == active_modifiers(state),
        names@.len() == active_modifiers(state).len(),
        forall|i: int| 0 <= i < names@.len() ==> (#[trigger] names@[i])@ == active_modifiers(state)[i],
{
    let mut names: Vec<String> = Vec::new();
    let mut i: usize = 0;
    while i < MODIFIER_COUNT
        invariant
            i <= MODIFIER_COUNT,
            texts(names@) == held_below(state, i as nat).map_values(|k: int| modifier_name(k)),
        decreases MODIFIER_COUNT - i,
    {
        let ghost before = names@;
        if state & mask_at(i) != 0 {
            names.push(name_at(i));
            assert(texts(names@) =~= texts(before).push(modifier_name(i as int)));
        }
        assert(held_below(state, (i + 1) as nat) == if is_held(state, i as int) {
            held_below(state, i as nat).push(i as int)
        } else {
            held_below(state, i as nat)
        });
        assert(held_below(state, i as nat).push(i as int).map_values(
            |k: int| modifier_name(k),
        ) =~= held_below(state, i as nat).map_values(|k: int| modifier_name(k)).push(
            modifier_name(i as int),
        ));
        i += 1;
    }
    assert forall|i: int| 0 <= i < names@.len() implies (#[trigger] names@[i])@
        == active_modifiers(state)[i] by {
        assert(texts(names@)[i] == names@[i]@);
    }
    names
}

/// The held indices are exactly the set bits, each once and in ascending
/// order: the modifier list is the canonical list without the modifiers that
/// are not held.
pub proof fn lemma_held_below(state: u32, n: nat)
    ensures
        forall|k: int| #[trigger]
            held_below(state, n).contains(k) <==> 0 <= k < n && is_held(state, k),
        forall|a: int, b: int|
            0 <= a < b < held_below(state, n).len() ==> held_below(state, n)[a] < held_below(
                state,
                n,
            )[b],
        held_below(state, n).len() <= n,
    decreases n,
{
    if n > 0 {
        let prev = held_below(state, (n - 1) as nat);
        lemma_held_below(state, (n - 1) as nat);
        if is_held(state, n - 1) {
            let cur = prev.push(n - 1);
            assert forall|k: int| #[trigger] cur.contains(k) <==> 0 <= k < n && is_held(state, k) by {
                if cur.contains(k) {
                    let j = choose|j: int| 0 <= j < cur.len() && cur[j] == k;
                    if j < prev.len() {
                        assert(prev.contains(k));
                    }
                }
                if 0 <= k < n && is_held(state, k) {
                    if k == n - 1 {
                        assert(cur[prev.len() as int] == k);
                    } else {
                        assert(prev.contains(k));
                        let j = choose|j: int| 0 <= j < prev.len() && prev[j] == k;
                        assert(cur[j] == k);
                    }
                }
            }
            assert forall|a: int, b: int| 0 <= a < b < cur.len() implies cur[a] < cur[b] by {
                assert(prev.contains(cur[a]));
                if b < prev.len() {
                } else {
                }
            }
        }
    }
}

/// The modifier list of a state word names exactly the modifiers whose bits
/// are set, each once, in the canonical order.
pub proof fn lemma_modifiers_canonical(state: u32)
    ensures
        active_modifiers(state).len() == held_below(state, MODIFIER_COUNT as nat).len(),
        active_modifiers(state).len() <= MODIFIER_COUNT,
        forall|j: int|
            0 <= j < active_modifiers(state).len() ==> #[trigger] active_modifiers(state)[j]
                == modifier_name(held_below(state, MODIFIER_COUNT as nat)[j]),
        forall|k: int| #[trigger]
            held_below(state, MODIFIER_COUNT as nat).contains(k) <==> 0 <= k < MODIFIER_COUNT
                && is_held(state, k),
        forall|a: int, b: int|
            0 <= a < b < held_below(state, MODIFIER_COUNT as nat).len() ==> held_below(
                state,
                MODIFIER_COUNT as nat,
            )[a] < held_below(state, MODIFIER_COUNT as nat)[b],
{
    lemma_held_below(state, MODIFIER_COUNT as nat);
}

} // verus!
