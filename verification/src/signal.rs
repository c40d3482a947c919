//! Fine-grained reactive value store.
//!
//! A `Signal` is one owned mutable cell plus a pending-change flag that the
//! frame scheduler polls to decide whether to recompose.  `set` marks a
//! change only when the new value differs from the stored one; `update`
//! applies a mutation function and always marks a change.  The two entry
//! points deliberately have different notification semantics.

use vstd::prelude::*;

verus! {

/// Exec equality test that agrees with spec-level deep-view equality, used
/// by `Signal::set` to decide whether a write is a change.
pub trait SameValue: DeepView + Sized {
    fn same(&self, other: &Self) -> (r: bool)
        ensures
            r == (self.deep_view() == other.deep_view()),
    ;
}

impl SameValue for String {
    fn same(&self, other: &Self) -> (r: bool)
        ensures
            r == (self.deep_view() == other.deep_view()),
    {
        self.eq(other)
    }
}

impl SameValue for u64 {
    fn same(&self, other: &Self) -> (r: bool)
        ensures
            r == (self.deep_view() == other.deep_view()),
    {
        *self == *other
    }
}

/// One reactive cell: the current value, and whether a change notification
/// is pending for the next composition pass.
pub struct Signal<T> {
    pub value: T,
    pub dirty: bool,
}

/// The cell after `set(v)`: the value is replaced, and a change is pending
/// exactly if one already was or the new value differs from the old one.
pub open spec fn spec_set<T: DeepView>(s: Signal<T>, v: T) -> Signal<T> {
    Signal { value: v, dirty: s.dirty || s.value.deep_view() != v.deep_view() }
}

/// The cell after `update` produced the value `v`: a change is always
/// pending, even when `v` equals the old value.
pub open spec fn spec_update<T>(s: Signal<T>, v: T) -> Signal<T> {
    Signal { value: v, dirty: true }
}

impl<T> Signal<T> {
    /// A fresh cell holding `value`, with no change pending.
    pub fn new(value: T) -> (s: Self)
        ensures
            s.value == value,
            !s.dirty,
    {
        Signal { value, dirty: false }
    }

    /// Pure read of the current value; never affects notification state.
    pub fn get(&self) -> (r: &T)
        ensures
            *r == self.value,
    {
        &self.value
    }

    /// Applies the mutation function to the current value and stores the
    /// result; a change notification is always pended, whatever `f` returns.
    pub fn update<F: FnOnce(&T) -> T>(&mut self, f: F)
        requires
            call_requires(f, (&old(self).value,)),
        ensures
            call_ensures(f, (&old(self).value,), final(self).value),
            *final(self) == spec_update(*old(self), final(self).value),
    {
        let nv = f(&self.value);
        self.value = nv;
        self.dirty = true;
    }

    /// Stores an already-computed value with `update`'s notification
    /// semantics: a change is always pended, even for an equal value.
    pub fn replace_notify(&mut self, v: T)
        ensures
            *final(self) == spec_update(*old(self), v),
    {
        self.value = v;
        self.dirty = true;
    }

    /// Consumes the pending-change flag: the frame scheduler calls this once
    /// per pass to learn whether the cell changed since the last pass.
    pub fn take_dirty(&mut self) -> (was: bool)
        ensures
            was == old(self).dirty,
            !final(self).dirty,
            final(self).value == old(self).value,
    {
        let was = self.dirty;
        self.dirty = false;
        was
    }
}

impl<T: SameValue> Signal<T> {
    /// Replaces the value; pends a change notification only when the new
    /// value differs from the stored one (an equal write is a no-op for
    /// notification purposes).
    pub fn set(&mut self, v: T)
        ensures
            *final(self) == spec_set(*old(self), v),
    {
        let changed = !self.value.same(&v);
        self.value = v;
        if changed {
            self.dirty = true;
        }
    }
}

/// One write to a signal, as it looks from outside: either `set(v)`, or an
/// `update` whose mutation function produced `v`.
pub enum SignalWrite<T> {
    Assigned(T),
    Updated(T),
}

/// The value a write stores.
pub open spec fn spec_written_value<T>(w: SignalWrite<T>) -> T {
    match w {
        SignalWrite::Assigned(v) => v,
        SignalWrite::Updated(v) => v,
    }
}

/// The cell after one write.
pub open spec fn spec_apply_write<T: DeepView>(s: Signal<T>, w: SignalWrite<T>) -> Signal<T> {
    match w {
        SignalWrite::Assigned(v) => spec_set(s, v),
        SignalWrite::Updated(v) => spec_update(s, v),
    }
}

/// The cell after a whole sequence of writes, applied left to right.
pub open spec fn spec_apply_writes<T: DeepView>(s: Signal<T>, ws: Seq<SignalWrite<T>>) -> Signal<T>
    decreases ws.len(),
{
    if ws.len() == 0 {
        s
    } else {
        spec_apply_writes(spec_apply_write(s, ws[0]), ws.drop_first())
    }
}

/// After any sequence of `set`/`update` writes, a read returns the value of
/// the last write: writes are never lost or reordered.
pub proof fn lemma_last_write_wins<T: DeepView>(s: Signal<T>, ws: Seq<SignalWrite<T>>)
    requires
        ws.len() > 0,
    ensures
        spec_apply_writes(s, ws).value == spec_written_value(ws.last()),
    decreases ws.len(),
{
    if ws.len() == 1 {
        assert(ws.drop_first().len() == 0);
        assert(ws.last() == ws[0]);
        assert(spec_apply_writes(spec_apply_write(s, ws[0]), ws.drop_first())
            == spec_apply_write(s, ws[0]));
    } else {
        lemma_last_write_wins(spec_apply_write(s, ws[0]), ws.drop_first());
        assert(ws.drop_first().last() == ws.last());
    }
}

} // verus!
