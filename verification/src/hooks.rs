//! The hook registry: named extension points, each holding the scripted
//! callbacks registered for it in order.
//!
//! The core never calls a script.  A callback is an opaque handle (the
//! host keeps the real callable under that number); dispatching a hook
//! means asking the registry for the handles in registration order and
//! letting the host invoke them.  Helpers filter what the host hands
//! back for the collecting dispatch forms.

use vstd::prelude::*;

use crate::text::str_eq;

verus! {

/// The callbacks of one hook name, in registration order.
pub struct HookSlot {
    pub name: String,
    pub callbacks: Vec<u64>,
}

pub struct HookRegistry {
    pub slots: Vec<HookSlot>,
}

/// What a list of slots holds, abstractly: hook names with their
/// callback handles in registration order.
pub open spec fn slots_view(slots: Seq<HookSlot>) -> Seq<(Seq<char>, Seq<u64>)> {
    slots.map(|i: int, s: HookSlot| (s.name@, s.callbacks@))
}

/// What a registry holds, abstractly.
pub open spec fn registry_view(r: &HookRegistry) -> Seq<(Seq<char>, Seq<u64>)> {
    slots_view(r.slots@)
}

/// The callbacks registered under `name`, in registration order.
pub open spec fn hooks_of(v: Seq<(Seq<char>, Seq<u64>)>, name: Seq<char>) -> Seq<u64>
    decreases v.len(),
{
    if v.len() == 0 {
        Seq::empty()
    } else if v[0].0 == name {
        v[0].1
    } else {
        hooks_of(v.drop_first(), name)
    }
}

/// Slot names are unique, so each hook name has one callback list.
pub open spec fn registry_wf(r: &HookRegistry) -> bool {
    forall|i: int, j: int|
        0 <= i < j < r.slots@.len() ==> (#[trigger] r.slots@[i].name@) != (#[trigger] r.slots@[
            j
        ].name@)
}

impl HookRegistry {
    pub fn new() -> (r: HookRegistry)
        ensures
            registry_wf(&r),
            registry_view(&r) == Seq::<(Seq<char>, Seq<u64>)>::empty(),
    {
        let r = HookRegistry { slots: Vec::new() };
        proof {
            assert(registry_view(&r) =~= Seq::<(Seq<char>, Seq<u64>)>::empty());
        }
        r
    }

    /// Append callback `hook` to the list registered under `name`.
    #[verifier::loop_isolation(false)]
    pub fn add(&mut self, name: &str, hook: u64)
        requires
            registry_wf(old(self)),
        ensures
            registry_wf(final(self)),
            hooks_of(registry_view(final(self)), name@) == hooks_of(
                registry_view(old(self)),
                name@,
            ).push(hook),
            forall|other: Seq<char>|
                other != name@ ==> #[trigger] hooks_of(registry_view(final(self)), other)
                    == hooks_of(registry_view(old(self)), other),
    {
        let ghost before = slots_view(self.slots@);
        let n = self.slots.len();
        let mut i: usize = 0;
        while i < n
            invariant
                0 <= i <= n,
                n == self.slots@.len(),
                registry_wf(self),
                slots_view(self.slots@) == before,
                forall|j: int| 0 <= j < i ==> before[j].0 != name@,
            decreases n - i,
        {
            if str_eq(self.slots[i].name.as_str(), name) {
                let ghost slot_cb = self.slots@[i as int].callbacks@;
                proof {
                    lemma_hooks_of_at(before, name@, i as int);
                }
                let mut cbs = take_callbacks(&mut self.slots, i);
                cbs.push(hook);
                put_callbacks(&mut self.slots, i, cbs);
                proof {
                    let after = slots_view(self.slots@);
                    assert(after =~= before.update(i as int, (name@, slot_cb.push(hook))));
                    lemma_hooks_of_at(after, name@, i as int);
                    assert forall|other: Seq<char>| other != name@ implies #[trigger] hooks_of(
                        after,
                        other,
                    ) == hooks_of(before, other) by {
                        lemma_hooks_of_other(before, after, other, i as int);
                    }
                    assert(hooks_of(slots_view(self.slots@), name@) == hooks_of(before,
                        name@).push(hook));
                    assert forall|j1: int, j2: int|
                        0 <= j1 < j2 < self.slots@.len() implies (#[trigger] self.slots@[
                        j1
                    ].name@) != (#[trigger] self.slots@[j2].name@) by {
                        assert(after[j1].0 == self.slots@[j1].name@);
                        assert(after[j2].0 == self.slots@[j2].name@);
                        assert(before[j1].0 == old(self).slots@[j1].name@);
                        assert(before[j2].0 == old(self).slots@[j2].name@);
                    }
                }
                return ;
            }
            i = i + 1;
        }
        let mut cbs: Vec<u64> = Vec::new();
        cbs.push(hook);
        let nm = string_from(name);
        self.slots.push(HookSlot { name: nm, callbacks: cbs });
        proof {
            let after = slots_view(self.slots@);
            assert(after =~= before.push((name@, seq![hook])));
            lemma_hooks_of_append(before, name@, seq![hook]);
            lemma_hooks_of_absent(before, name@);
            assert(hooks_of(before, name@) =~= Seq::<u64>::empty());
            assert(hooks_of(after, name@) =~= hooks_of(before, name@).push(hook));
            assert forall|other: Seq<char>| other != name@ implies #[trigger] hooks_of(
                after,
                other,
            ) == hooks_of(before, other) by {
                lemma_hooks_of_push_other(before, name@, seq![hook], other);
            }
            assert forall|j1: int, j2: int|
                0 <= j1 < j2 < self.slots@.len() implies (#[trigger] self.slots@[j1].name@) != (
            #[trigger] self.slots@[j2].name@) by {
                assert(after[j1].0 == self.slots@[j1].name@);
                assert(after[j2].0 == self.slots@[j2].name@);
                if j2 < before.len() {
                    assert(before[j1].0 == old(self).slots@[j1].name@);
                    assert(before[j2].0 == old(self).slots@[j2].name@);
                } else {
                    assert(before[j1].0 != name@);
                }
            }
        }
    }

    /// The callbacks to invoke for one dispatch of `name`, in
    /// registration order.
    #[verifier::loop_isolation(false)]
    pub fn plan(&self, name: &str) -> (r: Vec<u64>)
        requires
            registry_wf(self),
        ensures
            r@ == hooks_of(registry_view(self), name@),
    {
        let ghost v = slots_view(self.slots@);
        let n = self.slots.len();
        let mut i: usize = 0;
        while i < n
            invariant
                0 <= i <= n,
                n == self.slots@.len(),
                v == slots_view(self.slots@),
                forall|j: int| 0 <= j < i ==> v[j].0 != name@,
            decreases n - i,
        {
            if str_eq(self.slots[i].name.as_str(), name) {
                proof {
                    lemma_hooks_of_at(v, name@, i as int);
                }
                let r = clone_ids(&self.slots[i].callbacks);
                return r;
            }
            i = i + 1;
        }
        proof {
            lemma_hooks_of_absent(v, name@);
        }
        Vec::new()
    }

    /// Remove the callbacks of `name` and hand them out — the dispatch
    /// plan of a hook that runs once.
    #[verifier::loop_isolation(false)]
    pub fn take(&mut self, name: &str) -> (r: Vec<u64>)
        requires
            registry_wf(old(self)),
        ensures
            registry_wf(final(self)),
            r@ == hooks_of(registry_view(old(self)), name@),
            hooks_of(registry_view(final(self)), name@) == Seq::<u64>::empty(),
            forall|other: Seq<char>|
                other != name@ ==> #[trigger] hooks_of(registry_view(final(self)), other)
                    == hooks_of(registry_view(old(self)), other),
    {
        let ghost before = slots_view(self.slots@);
        let n = self.slots.len();
        let mut i: usize = 0;
        while i < n
            invariant
                0 <= i <= n,
                n == self.slots@.len(),
                registry_wf(self),
                slots_view(self.slots@) == before,
                forall|j: int| 0 <= j < i ==> before[j].0 != name@,
            decreases n - i,
        {
            if str_eq(self.slots[i].name.as_str(), name) {
                proof {
                    lemma_hooks_of_at(before, name@, i as int);
                    assert forall|j1: int, j2: int| 0 <= j1 < j2 < before.len() implies (
                    #[trigger] before[j1].0) != (#[trigger] before[j2].0) by {
                        assert(before[j1].0 == self.slots@[j1].name@);
                        assert(before[j2].0 == self.slots@[j2].name@);
                    }
                }
                let slot = self.slots.remove(i);
                proof {
                    assert(slot.callbacks@ == before[i as int].1);
                    assert(slot.callbacks@ == hooks_of(before, name@));

                    let after = slots_view(self.slots@);
                    assert(after =~= before.remove(i as int));
                    lemma_hooks_of_remove(before, name@, i as int);
                    assert(hooks_of(after, name@) == Seq::<u64>::empty());

                    assert forall|j1: int, j2: int|
                        0 <= j1 < j2 < self.slots@.len() implies (#[trigger] self.slots@[
                        j1
                    ].name@) != (#[trigger] self.slots@[j2].name@) by {
                        let b1: int = if j1 < i { j1 } else { j1 + 1 };
                        let b2: int = if j2 < i { j2 } else { j2 + 1 };
                        assert(self.slots@[j1].name@ == before[b1].0);
                        assert(self.slots@[j2].name@ == before[b2].0);
                    }
                }
                return slot.callbacks;
            }
            i = i + 1;
        }
        proof {
            lemma_hooks_of_absent(before, name@);
        }
        Vec::new()
    }
}

/// Move the callback vector out of slot `i`.
fn take_callbacks(slots: &mut Vec<HookSlot>, i: usize) -> (r: Vec<u64>)
    requires
        i < old(slots)@.len(),
    ensures
        r == old(slots)@[i as int].callbacks,
        final(slots)@.len() == old(slots)@.len(),
        final(slots)@[i as int].name == old(slots)@[i as int].name,
        final(slots)@[i as int].callbacks@ == Seq::<u64>::empty(),
        forall|j: int|
            0 <= j < old(slots)@.len() && j != i ==> final(slots)@[j] == old(slots)@[j],
{
    let slot = slots.remove(i);
    slots.insert(i, HookSlot { name: slot.name, callbacks: Vec::new() });
    slot.callbacks
}

/// Put a callback vector back into slot `i`.
fn put_callbacks(slots: &mut Vec<HookSlot>, i: usize, cbs: Vec<u64>)
    requires
        i < old(slots)@.len(),
    ensures
        final(slots)@.len() == old(slots)@.len(),
        final(slots)@[i as int].name == old(slots)@[i as int].name,
        final(slots)@[i as int].callbacks == cbs,
        forall|j: int|
            0 <= j < old(slots)@.len() && j != i ==> final(slots)@[j] == old(slots)@[j],
{
    let slot = slots.remove(i);
    slots.insert(i, HookSlot { name: slot.name, callbacks: cbs });
}

/// Copy a callback vector.
fn clone_ids(v: &Vec<u64>) -> (r: Vec<u64>)
    ensures
        r@ == v@,
{
    let r = v.clone();
    proof {
        assert(r@ =~= v@);
    }
    r
}

/// Copy a string slice into an owned string.
fn string_from(s: &str) -> (r: String)
    ensures
        r@ == s@,
{
    String::from_str(s)
}

/// When slot `i` is the first with `name`, `hooks_of` reads it.
proof fn lemma_hooks_of_at(v: Seq<(Seq<char>, Seq<u64>)>, name: Seq<char>, i: int)
    requires
        0 <= i < v.len(),
        v[i].0 == name,
        forall|j: int| 0 <= j < i ==> v[j].0 != name,
    ensures
        hooks_of(v, name) == v[i].1,
    decreases i,
{
    if i > 0 {
        assert(forall|j: int| 0 <= j < i - 1 ==> v.drop_first()[j].0 != name);
        lemma_hooks_of_at(v.drop_first(), name, i - 1);
    }
}

/// A name no slot carries has no callbacks.
proof fn lemma_hooks_of_absent(v: Seq<(Seq<char>, Seq<u64>)>, name: Seq<char>)
    requires
        forall|j: int| 0 <= j < v.len() ==> v[j].0 != name,
    ensures
        hooks_of(v, name) == Seq::<u64>::empty(),
    decreases v.len(),
{
    if v.len() > 0 {
        lemma_hooks_of_absent(v.drop_first(), name);
    }
}

/// Updating slot `i` does not change other names' callbacks.
proof fn lemma_hooks_of_other(
    before: Seq<(Seq<char>, Seq<u64>)>,
    after: Seq<(Seq<char>, Seq<u64>)>,
    other: Seq<char>,
    i: int,
)
    requires
        0 <= i < before.len(),
        after.len() == before.len(),
        forall|j: int| 0 <= j < before.len() && j != i ==> after[j] == before[j],
        after[i].0 == before[i].0,
        before[i].0 != other,
    ensures
        hooks_of(after, other) == hooks_of(before, other),
    decreases before.len(),
{
    if before.len() > 0 {
        if i == 0 {
            assert(after.drop_first() =~= before.drop_first());
        } else if before[0].0 == other {
            assert(after[0] == before[0]);
        } else {
            assert(after[0].0 == before[0].0);
            assert(forall|j: int|
                0 <= j < before.drop_first().len() && j != i - 1 ==> after.drop_first()[j]
                    == before.drop_first()[j]);
            lemma_hooks_of_other(before.drop_first(), after.drop_first(), other, i - 1);
        }
    }
}

/// Appending a new slot only affects its own name.
proof fn lemma_hooks_of_append(v: Seq<(Seq<char>, Seq<u64>)>, name: Seq<char>, cbs: Seq<u64>)
    requires
        forall|j: int| 0 <= j < v.len() ==> v[j].0 != name,
    ensures
        hooks_of(v.push((name, cbs)), name) == cbs,
    decreases v.len(),
{
    if v.len() == 0 {
        assert(v.push((name, cbs))[0] == (name, cbs));
    } else {
        assert(v.push((name, cbs)).drop_first() =~= v.drop_first().push((name, cbs)));
        lemma_hooks_of_append(v.drop_first(), name, cbs);
    }
}

/// Appending a slot for `name` leaves other names' callbacks alone.
proof fn lemma_hooks_of_push_other(
    v: Seq<(Seq<char>, Seq<u64>)>,
    name: Seq<char>,
    cbs: Seq<u64>,
    other: Seq<char>,
)
    requires
        other != name,
    ensures
        hooks_of(v.push((name, cbs)), other) == hooks_of(v, other),
    decreases v.len(),
{
    if v.len() == 0 {
        assert(v.push((name, cbs))[0] == (name, cbs));
        assert(v.push((name, cbs)).drop_first() =~= v);
    } else {
        assert(v.push((name, cbs)).drop_first() =~= v.drop_first().push((name, cbs)));
        lemma_hooks_of_push_other(v.drop_first(), name, cbs, other);
    }
}

/// Removing the slot of `name` empties it and leaves the rest alone.
proof fn lemma_hooks_of_remove(v: Seq<(Seq<char>, Seq<u64>)>, name: Seq<char>, i: int)
    requires
        0 <= i < v.len(),
        v[i].0 == name,
        forall|j: int| 0 <= j < i ==> v[j].0 != name,
        forall|j1: int, j2: int|
            0 <= j1 < j2 < v.len() ==> (#[trigger] v[j1].0) != (#[trigger] v[j2].0),
    ensures
        hooks_of(v.remove(i), name) == Seq::<u64>::empty(),
        forall|other: Seq<char>|
            other != name ==> #[trigger] hooks_of(v.remove(i), other) == hooks_of(v, other),
    decreases v.len(),
{
    assert forall|j: int| 0 <= j < v.remove(i).len() implies v.remove(i)[j].0 != name by {
        if j < i {
        } else {
            assert(v.remove(i)[j] == v[j + 1]);
        }
    }
    lemma_hooks_of_absent(v.remove(i), name);
    assert forall|other: Seq<char>| other != name implies #[trigger] hooks_of(v.remove(i), other)
        == hooks_of(v, other) by {
        lemma_hooks_of_remove_other(v, name, i, other);
    }
}

proof fn lemma_hooks_of_remove_other(
    v: Seq<(Seq<char>, Seq<u64>)>,
    name: Seq<char>,
    i: int,
    other: Seq<char>,
)
    requires
        0 <= i < v.len(),
        v[i].0 == name,
        other != name,
    ensures
        hooks_of(v.remove(i), other) == hooks_of(v, other),
    decreases v.len(),
{
    if i == 0 {
        assert(v.remove(0) =~= v.drop_first());
    } else if v[0].0 == other {
        assert(v.remove(i)[0] == v[0]);
    } else {
        assert(v.remove(i)[0] == v[0]);
        assert(v.remove(i).drop_first() =~= v.drop_first().remove(i - 1));
        lemma_hooks_of_remove_other(v.drop_first(), name, i - 1, other);
    }
}

/// The payloads of the `Some` answers, in order — what a collecting hook
/// dispatch keeps of the callbacks' return values.
pub open spec fn collected<T>(s: Seq<Option<T>>) -> Seq<T>
    decreases s.len(),
{
    if s.len() == 0 {
        Seq::empty()
    } else {
        collected(s.drop_last()) + (match s.last() {
            Some(x) => seq![x],
            None => Seq::empty(),
        })
    }
}

/// Keep the string answers the callbacks returned, in order; `None` when
/// none answered.
pub fn collect_strings(results: &Vec<Option<String>>) -> (r: Option<Vec<String>>)
    ensures
        r is Some <==> collected(results.deep_view()).len() > 0,
        r is Some ==> r->0.deep_view() == collected(results.deep_view()),
{
    let mut out: Vec<String> = Vec::new();
    let n = results.len();
    let mut i: usize = 0;
    proof {
        assert(results.deep_view().take(0) =~= Seq::<Option<Seq<char>>>::empty());
        assert(out.deep_view() =~= collected(results.deep_view().take(0)));
    }
    while i < n
        invariant
            0 <= i <= n,
            n == results@.len(),
            results.deep_view().len() == n,
            out.deep_view() == collected(results.deep_view().take(i as int)),
        decreases n - i,
    {
        match read_opt_string(results, i) {
            Some(s) => {
                out.push(s);
            },
            None => {},
        }
        proof {
            assert(results.deep_view().take(i + 1 as int).drop_last() =~= results.deep_view().take(
                i as int,
            ));
            assert(results.deep_view().take(i + 1 as int).last() == results.deep_view()[i as int]);
            assert(out.deep_view() =~= collected(results.deep_view().take(i + 1 as int)));
        }
        i = i + 1;
    }
    proof {
        assert(results.deep_view().take(n as int) =~= results.deep_view());
    }
    if out.len() == 0 {
        None
    } else {
        Some(out)
    }
}

/// Read entry `i`, copying the string out.
fn read_opt_string(v: &Vec<Option<String>>, i: usize) -> (r: Option<String>)
    requires
        i < v@.len(),
    ensures
        r is Some <==> v.deep_view()[i as int] is Some,
        r is Some ==> r->0@ == v.deep_view()[i as int]->0,
{
    match &v[i] {
        Some(s) => Some(clone_string(s)),
        None => None,
    }
}

/// Copy a string.
fn clone_string(s: &String) -> (r: String)
    ensures
        r@ == s@,
{
    s.clone()
}

/// Keep the boolean answers the callbacks returned, in order; `None`
/// when none answered.
pub fn collect_bools(results: &Vec<Option<bool>>) -> (r: Option<Vec<bool>>)
    ensures
        r is Some <==> collected(results@).len() > 0,
        r is Some ==> r->0@ == collected(results@),
{
    let mut out: Vec<bool> = Vec::new();
    let n = results.len();
    let mut i: usize = 0;
    proof {
        assert(results@.take(0) =~= Seq::<Option<bool>>::empty());
        assert(out@ =~= collected(results@.take(0)));
    }
    while i < n
        invariant
            0 <= i <= n,
            n == results@.len(),
            out@ == collected(results@.take(i as int)),
        decreases n - i,
    {
        match results[i] {
            Some(b) => {
                out.push(b);
            },
            None => {},
        }
        proof {
            assert(results@.take(i + 1 as int).drop_last() =~= results@.take(i as int));
            assert(results@.take(i + 1 as int).last() == results@[i as int]);
            assert(out@ =~= collected(results@.take(i + 1 as int)));
        }
        i = i + 1;
    }
    proof {
        assert(results@.take(n as int) =~= results@);
    }
    if out.len() == 0 {
        None
    } else {
        Some(out)
    }
}

} // verus!
