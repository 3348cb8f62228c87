//! A layer's filter stack as the Layers panel edits it: effects switched
//! on and off, moved, removed, or baked into the pixels.
use vstd::prelude::*;

verus! {

/// An edit the panel makes to the active layer's filter stack.
#[derive(Clone, Copy, Debug, PartialEq, Eq, Structural)]
pub enum StackChange {
    Toggle(usize),
    Up(usize),
    Down(usize),
    Remove(usize),
    Bake,
}

/// One effect of a stack, as far as these edits read it: the filter and
/// whether it is on.
#[derive(Debug)]
pub struct StackEffect {
    pub id: String,
    pub enabled: bool,
}

/// What an edit asks of the layer: its stack baked away (its pixels
/// stay), the changed stack rendered and installed, or nothing, for a
/// change that names no effect of the stack.
#[derive(Clone, Copy, Debug, PartialEq, Eq, Structural)]
pub enum StackEdit {
    Bake,
    Install,
    Nothing,
}

/// `s` with its elements `i` and `j` exchanged.
pub open spec fn swapped<T>(s: Seq<T>, i: int, j: int) -> Seq<T> {
    s.update(i, s[j]).update(j, s[i])
}

/// The stack after change `c`, or none when `c` names no effect of it (or
/// bakes it).
pub open spec fn changed_stack(s: Seq<StackEffect>, c: StackChange) -> Option<Seq<StackEffect>> {
    match c {
        StackChange::Toggle(i) => if i < s.len() {
            Some(s.update(i as int, StackEffect { enabled: !s[i as int].enabled, ..s[i as int] }))
        } else {
            None
        },
        StackChange::Up(i) => if 0 < i < s.len() {
            Some(swapped(s, i as int, i - 1))
        } else {
            None
        },
        StackChange::Down(i) => if i + 1 < s.len() {
            Some(swapped(s, i as int, i + 1))
        } else {
            None
        },
        StackChange::Remove(i) => if i < s.len() {
            Some(s.remove(i as int))
        } else {
            None
        },
        StackChange::Bake => None,
    }
}

fn swap_effects(effects: &mut Vec<StackEffect>, i: usize, j: usize)
    requires
        i < old(effects)@.len(),
        j < old(effects)@.len(),
        i != j,
    ensures
        final(effects)@ == swapped(old(effects)@, i as int, j as int),
{
    let (lo, hi) = if i < j {
        (i, j)
    } else {
        (j, i)
    };
    let b = effects.remove(hi);
    let a = effects.remove(lo);
    effects.insert(lo, b);
    effects.insert(hi, a);
    assert(effects@ =~= swapped(old(effects)@, i as int, j as int));
}

/// Apply change `change` to a stack's effects: Bake empties the stack,
/// leaving the pixels; a change naming an effect of the stack edits it;
/// any other changes nothing.
pub fn change_stack(effects: &mut Vec<StackEffect>, change: StackChange) -> (r: StackEdit)
    ensures
        match change {
            StackChange::Bake => r == StackEdit::Bake && final(effects)@.len() == 0,
            _ => match changed_stack(old(effects)@, change) {
                Some(s) => r == StackEdit::Install && final(effects)@ == s,
                None => r == StackEdit::Nothing && final(effects)@ == old(effects)@,
            },
        },
{
    let len = effects.len();
    match change {
        StackChange::Bake => {
            effects.clear();
            StackEdit::Bake
        },
        StackChange::Toggle(i) => {
            if i < len {
                let e = effects.remove(i);
                let flipped = StackEffect { id: e.id, enabled: !e.enabled };
                effects.insert(i, flipped);
                assert(effects@ =~= old(effects)@.update(
                    i as int,
                    StackEffect { enabled: !old(effects)@[i as int].enabled, ..old(effects)@[i as int] },
                ));
                StackEdit::Install
            } else {
                StackEdit::Nothing
            }
        },
        StackChange::Up(i) => {
            if i > 0 && i < len {
                swap_effects(effects, i, i - 1);
                StackEdit::Install
            } else {
                StackEdit::Nothing
            }
        },
        StackChange::Down(i) => {
            if i < len && i + 1 < len {
                swap_effects(effects, i, i + 1);
                StackEdit::Install
            } else {
                StackEdit::Nothing
            }
        },
        StackChange::Remove(i) => {
            if i < len {
                effects.remove(i);
                StackEdit::Install
            } else {
                StackEdit::Nothing
            }
        },
    }
}

/// Switching an effect twice leaves the stack as it was.
pub proof fn lemma_toggle_twice(s: Seq<StackEffect>, i: usize)
    requires
        i < s.len(),
    ensures
        changed_stack(changed_stack(s, StackChange::Toggle(i))->0, StackChange::Toggle(i)) == Some(s),
{
    let t = changed_stack(s, StackChange::Toggle(i))->0;
    let u = changed_stack(t, StackChange::Toggle(i))->0;
    assert(u =~= s);
}

/// Moving an effect up and then down again, or down and then up, leaves
/// the stack as it was.
pub proof fn lemma_up_then_down(s: Seq<StackEffect>, i: usize)
    requires
        0 < i < s.len(),
    ensures
        changed_stack(changed_stack(s, StackChange::Up(i))->0, StackChange::Down((i - 1) as usize)) == Some(s),
{
    let t = changed_stack(s, StackChange::Up(i))->0;
    let u = changed_stack(t, StackChange::Down((i - 1) as usize))->0;
    assert(u =~= s);
}

pub proof fn lemma_down_then_up(s: Seq<StackEffect>, i: usize)
    requires
        i + 1 < s.len(),
        i < usize::MAX,
    ensures
        changed_stack(changed_stack(s, StackChange::Down(i))->0, StackChange::Up((i + 1) as usize)) == Some(s),
{
    let t = changed_stack(s, StackChange::Down(i))->0;
    let u = changed_stack(t, StackChange::Up((i + 1) as usize))->0;
    assert(u =~= s);
}

/// Moving and switching keep the stack's effects, only reordered or
/// flipped on or off: as many, with the same filters.
pub proof fn lemma_moves_keep_filters(s: Seq<StackEffect>, c: StackChange)
    requires
        c is Up || c is Down || c is Toggle,
        changed_stack(s, c) is Some,
    ensures
        changed_stack(s, c)->0.len() == s.len(),
        changed_stack(s, c)->0.map_values(|e: StackEffect| e.id).to_multiset() == s.map_values(|e: StackEffect| e.id).to_multiset(),
{
    let t = changed_stack(s, c)->0;
    let ids = |e: StackEffect| e.id;
    match c {
        StackChange::Toggle(i) => {
            assert(t.map_values(ids) =~= s.map_values(ids));
        },
        StackChange::Up(i) => {
            lemma_swap_multiset(s.map_values(ids), i as int, i - 1);
            assert(t.map_values(ids) =~= swapped(s.map_values(ids), i as int, i - 1));
        },
        StackChange::Down(i) => {
            lemma_swap_multiset(s.map_values(ids), i as int, i + 1);
            assert(t.map_values(ids) =~= swapped(s.map_values(ids), i as int, i + 1));
        },
        _ => {},
    }
}

proof fn lemma_swap_multiset<T>(s: Seq<T>, i: int, j: int)
    requires
        0 <= i < s.len(),
        0 <= j < s.len(),
    ensures
        swapped(s, i, j).to_multiset() == s.to_multiset(),
{
    broadcast use vstd::seq_lib::group_to_multiset_ensures;
    broadcast use vstd::multiset::group_multiset_axioms;
    let a = s.update(i, s[j]);
    let b = a.update(j, s[i]);
    assert(a.to_multiset() == s.to_multiset().insert(s[j]).remove(s[i]));
    assert(b.to_multiset() == a.to_multiset().insert(s[i]).remove(a[j]));
    assert(s.to_multiset().count(s[i]) > 0);
    assert(b.to_multiset() =~= s.to_multiset());
}

/// What each change does to the stack, effect by effect. Removing effect
/// `i` keeps the effects before it in place and moves each one after it
/// up by one; switching effect `i` flips only its switch; moving effect
/// `i` up or down exchanges it with its neighbour and leaves every other
/// effect in place. A change naming no effect of the stack (or moving the
/// first up or the last down) changes nothing.
pub proof fn lemma_stack_changes(s: Seq<StackEffect>, i: usize)
    ensures
        i < s.len() ==> (changed_stack(s, StackChange::Remove(i)) matches Some(t) && t.len() == s.len() - 1
            && (forall|j: int| 0 <= j < i ==> #[trigger] t[j] == s[j])
            && (forall|j: int| i <= j < s.len() - 1 ==> #[trigger] t[j] == s[j + 1])),
        i < s.len() ==> (changed_stack(s, StackChange::Toggle(i)) matches Some(t) && t.len() == s.len()
            && t[i as int].id == s[i as int].id && t[i as int].enabled == !s[i as int].enabled
            && (forall|j: int| 0 <= j < s.len() && j != i ==> #[trigger] t[j] == s[j])),
        0 < i < s.len() ==> (changed_stack(s, StackChange::Up(i)) matches Some(t) && t.len() == s.len()
            && t[i - 1] == s[i as int] && t[i as int] == s[i - 1]
            && (forall|j: int| 0 <= j < s.len() && j != i && j != i - 1 ==> #[trigger] t[j] == s[j])),
        i + 1 < s.len() ==> (changed_stack(s, StackChange::Down(i)) matches Some(t) && t.len() == s.len()
            && t[i + 1] == s[i as int] && t[i as int] == s[i + 1]
            && (forall|j: int| 0 <= j < s.len() && j != i && j != i + 1 ==> #[trigger] t[j] == s[j])),
        i >= s.len() ==> changed_stack(s, StackChange::Remove(i)) is None && changed_stack(s, StackChange::Toggle(i)) is None,
        (i == 0 || i >= s.len()) ==> changed_stack(s, StackChange::Up(i)) is None,
        i + 1 >= s.len() ==> changed_stack(s, StackChange::Down(i)) is None,
{
}

} // verus!
