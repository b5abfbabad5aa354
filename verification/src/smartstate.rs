//! Per-frame dirty-state tracking for widgets.
//!
//! A [`Smartstate`] is a small fingerprint of the visual state that produced a
//! widget's last redraw: either "unknown" (always forces a redraw) or a tagged
//! integer id. Two states compare equal only when both are valid and carry the
//! same id, so an unknown state is unequal to everything, including itself.

use vstd::prelude::*;
use vstd::std_specs::cmp::PartialEqSpec;

verus! {

/// A container for an optional value, primarily used with [`Smartstate`] to
/// toggle state tracking on or off per widget: a widget whose container is
/// empty simply skips every state comparison, and all container operations
/// are no-ops then.
pub struct Container<T> {
    inner: Option<T>,
}

impl<T> Container<T> {
    /// The held value, if any.
    pub closed spec fn spec_inner(&self) -> Option<T> {
        self.inner
    }

    /// Creates an empty container with no inner value.
    pub fn empty() -> (r: Self)
        ensures
            r.spec_inner() is None,
    {
        Self { inner: None }
    }

    /// Creates a new container holding the given value.
    pub fn new(inner: T) -> (r: Self)
        ensures
            r.spec_inner() == Some(inner),
    {
        Self { inner: Some(inner) }
    }

    /// Puts the given value into the container.
    pub fn set(&mut self, val: T)
        ensures
            final(self).spec_inner() == Some(val),
    {
        self.inner = Some(val);
    }

    /// Applies a modification function to the held value if there is one,
    /// and does nothing otherwise.
    pub fn modify<F: FnOnce(T) -> T>(&mut self, modify: F)
        requires
            old(self).spec_inner() is Some ==> call_requires(modify, (old(self).spec_inner()->0,)),
        ensures
            old(self).spec_inner() is None ==> final(self).spec_inner() is None,
            old(self).spec_inner() is Some ==> final(self).spec_inner() is Some && call_ensures(
                modify,
                (old(self).spec_inner()->0,),
                final(self).spec_inner()->0,
            ),
    {
        let cur = self.inner.take();
        match cur {
            Some(v) => {
                self.inner = Some(modify(v));
            },
            None => {},
        }
    }
}

impl<T: Clone> Container<T> {
    /// Returns a clone of the held value if there is one. Commonly used to
    /// record the previous state before updating.
    pub fn clone_inner(&self) -> (r: Option<T>)
        ensures
            r is Some <==> self.spec_inner() is Some,
            r is Some ==> vstd::pervasive::cloned::<T>(self.spec_inner()->0, r->0),
    {
        match &self.inner {
            Some(v) => Some(v.clone()),
            None => None,
        }
    }
}

impl<T: PartialEq> Container<T> {
    /// Compares the held value with another value; an empty container
    /// compares unequal to everything.
    pub fn eq_inner(&self, other: &T) -> (r: bool)
        ensures
            self.spec_inner() is None ==> !r,
            T::obeys_eq_spec() && self.spec_inner() is Some ==> r == self.spec_inner()->0.eq_spec(
                other,
            ),
    {
        match &self.inner {
            Some(v) => *v == *other,
            None => false,
        }
    }

    /// Compares the held value with an optional value: the comparison is
    /// false whenever either side is absent, and compares the two values
    /// otherwise.
    pub fn eq_option(&self, other: &Option<T>) -> (r: bool)
        ensures
            !(self.spec_inner() is Some && other is Some) ==> !r,
            T::obeys_eq_spec() && self.spec_inner() is Some && other is Some ==> r == self
                .spec_inner()->0.eq_spec(&other->0),
    {
        match (&self.inner, other) {
            (Some(a), Some(b)) => *a == *b,
            _ => false,
        }
    }
}

/// A minimal valid/id pair used to detect whether a widget's visual state
/// changed since the last frame.
#[derive(Clone, Copy, Debug)]
pub struct Smartstate(u32, bool);

impl Smartstate {
    /// The id recorded for this state.
    pub closed spec fn id(&self) -> u32 {
        self.0
    }

    /// Whether the state is known. An invalid state never equals any state.
    pub closed spec fn valid(&self) -> bool {
        self.1
    }

    /// Creates an empty state that will trigger a redraw.
    pub fn empty() -> (r: Self)
        ensures
            !r.valid(),
            r.id() == 0,
    {
        Self(0, false)
    }

    /// Creates a new state with the given state id.
    pub fn state(state: u32) -> (r: Self)
        ensures
            r.valid(),
            r.id() == state,
    {
        Self(state, true)
    }

    /// Sets the current state id and marks the state as valid.
    pub fn set_state(&mut self, state: u32)
        ensures
            final(self).valid(),
            final(self).id() == state,
    {
        self.0 = state;
        self.1 = true;
    }

    /// Returns true if this is an empty/invalid state.
    pub fn is_empty(&self) -> (r: bool)
        ensures
            r == !self.valid(),
    {
        !self.1
    }

    /// Returns true if this state is valid and matches the given state id.
    pub fn is_state(&self, state: u32) -> (r: bool)
        ensures
            r == (self.valid() && self.id() == state),
    {
        self.1 && self.0 == state
    }

    /// Forces a redraw by invalidating the state; the id is kept.
    pub fn force_redraw(&mut self)
        ensures
            !final(self).valid(),
            final(self).id() == old(self).id(),
    {
        self.1 = false;
    }
}

impl PartialEq for Smartstate {
    /// The redraw-decision equality: equal only when both states are valid
    /// and carry the same id. In particular two invalid states are unequal.
    fn eq(&self, other: &Self) -> (r: bool) {
        self.0 == other.0 && self.1 && other.1
    }
}

impl vstd::std_specs::cmp::PartialEqSpecImpl for Smartstate {
    open spec fn obeys_eq_spec() -> bool {
        true
    }

    open spec fn eq_spec(&self, other: &Smartstate) -> bool {
        self.id() == other.id() && self.valid() && other.valid()
    }
}

/// An invalid ("unknown") state is never equal to any state under the
/// redraw-decision equality, no matter which ids either side carries.
pub proof fn lemma_invalid_state_never_equal(a: Smartstate, b: Smartstate)
    requires
        !a.valid() || !b.valid(),
    ensures
        !a.eq_spec(&b),
        !b.eq_spec(&a),
{
}

/// Hands out [`Smartstate`]s to widgets in a strictly positional,
/// allocation-free manner: a fixed array of `N` states plus a cursor that is
/// reset once per frame and advanced by each [`nxt`](Self::nxt) call.
///
/// Widgets borrow individual cells by position, never by value, so writes
/// during the current frame are visible for the next frame's comparison.
/// The caller must make the same sequence of cursor calls in every frame:
/// if a conditionally present widget shifts how many `nxt` calls precede a
/// later widget, slot indices desynchronize silently and every comparison
/// after that point is meaningless. The provider cannot detect this.
///
/// Exceeding the capacity, or reading relative to the cursor before enough
/// `nxt` calls have been made, is a configuration defect, not a recoverable
/// runtime state: each access states the cursor positions it is callable at.
pub struct SmartstateProvider<const N: usize> {
    states: Vec<Smartstate>,
    pos: usize,
}

impl<const N: usize> SmartstateProvider<N> {
    /// The states in slot order.
    pub closed spec fn cells(&self) -> Seq<Smartstate> {
        self.states@
    }

    /// The cursor: the slot the next [`nxt`](Self::nxt) call hands out.
    pub closed spec fn cursor(&self) -> int {
        self.pos as int
    }

    /// Well-formedness: exactly `N` slots, and the cursor never exceeds `N`.
    pub open spec fn wf(&self) -> bool {
        self.cells().len() == N && 0 <= self.cursor() <= N
    }

    /// Creates a provider with `N` empty smartstates and the cursor at 0.
    pub fn new() -> (r: Self)
        ensures
            r.wf(),
            r.cursor() == 0,
            forall|i: int|
                0 <= i < N ==> (!#[trigger] r.cells()[i].valid() && r.cells()[i].id() == 0),
    {
        let mut states: Vec<Smartstate> = Vec::new();
        let mut i: usize = 0;
        while i < N
            invariant
                i <= N,
                states@.len() == i,
                forall|j: int|
                    0 <= j < i ==> (!#[trigger] states@[j].valid() && states@[j].id() == 0),
            decreases N - i,
        {
            states.push(Smartstate::empty());
            i += 1;
        }
        Self { states, pos: 0 }
    }

    /// Resets the cursor to 0. Must be called once at the start of each
    /// frame, before any cell access.
    pub fn restart_counter(&mut self)
        requires
            old(self).wf(),
        ensures
            final(self).wf(),
            final(self).cursor() == 0,
            final(self).cells() == old(self).cells(),
    {
        self.pos = 0;
    }

    /// The total number of slots, `N`.
    pub fn size(&self) -> (r: usize)
        ensures
            r == N,
    {
        N
    }

    /// The current cursor position.
    pub fn get_pos(&self) -> (r: usize)
        ensures
            r == self.cursor(),
    {
        self.pos
    }

    /// Borrows the state at the given offset from the cursor, without moving
    /// the cursor: `get_relative(0)` is [`peek`](Self::peek), and
    /// `get_relative(-2)` is [`prev`](Self::prev).
    pub fn get_relative(&mut self, pos: i32) -> (r: &mut Smartstate)
        requires
            old(self).wf(),
            0 <= old(self).cursor() + pos < N,
        ensures
            final(self).wf(),
            *r == old(self).cells()[old(self).cursor() + pos],
            final(self).cells() == old(self).cells().update(old(self).cursor() + pos, *final(r)),
            final(self).cursor() == old(self).cursor(),
    {
        let idx: usize = if pos >= 0 {
            self.pos + (pos as usize)
        } else {
            self.pos - ((-(pos as i64)) as usize)
        };
        &mut self.states[idx]
    }

    /// Borrows the state under the cursor and advances the cursor by one.
    /// Callable only while the cursor is below the capacity `N`.
    pub fn nxt(&mut self) -> (r: &mut Smartstate)
        requires
            old(self).wf(),
            old(self).cursor() < N,
        ensures
            final(self).wf(),
            *r == old(self).cells()[old(self).cursor()],
            final(self).cells() == old(self).cells().update(old(self).cursor(), *final(r)),
            final(self).cursor() == old(self).cursor() + 1,
    {
        let p = self.pos;
        self.pos = p + 1;
        &mut self.states[p]
    }

    /// Borrows the state handed out by the last [`nxt`](Self::nxt) call, at
    /// cursor - 1. Callable only after at least one `nxt` call this frame.
    pub fn current(&mut self) -> (r: &mut Smartstate)
        requires
            old(self).wf(),
            old(self).cursor() >= 1,
        ensures
            final(self).wf(),
            *r == old(self).cells()[old(self).cursor() - 1],
            final(self).cells() == old(self).cells().update(old(self).cursor() - 1, *final(r)),
            final(self).cursor() == old(self).cursor(),
    {
        &mut self.states[self.pos - 1]
    }

    /// Borrows the state handed out two [`nxt`](Self::nxt) calls ago, at
    /// cursor - 2. Callable only after at least two `nxt` calls this frame.
    pub fn prev(&mut self) -> (r: &mut Smartstate)
        requires
            old(self).wf(),
            old(self).cursor() >= 2,
        ensures
            final(self).wf(),
            *r == old(self).cells()[old(self).cursor() - 2],
            final(self).cells() == old(self).cells().update(old(self).cursor() - 2, *final(r)),
            final(self).cursor() == old(self).cursor(),
    {
        &mut self.states[self.pos - 2]
    }

    /// Borrows the state under the cursor without advancing the cursor.
    /// Callable only while the cursor is below the capacity `N`.
    pub fn peek(&mut self) -> (r: &mut Smartstate)
        requires
            old(self).wf(),
            old(self).cursor() < N,
        ensures
            final(self).wf(),
            *r == old(self).cells()[old(self).cursor()],
            final(self).cells() == old(self).cells().update(old(self).cursor(), *final(r)),
            final(self).cursor() == old(self).cursor(),
    {
        &mut self.states[self.pos]
    }

    /// Advances the cursor by one without touching any state.
    pub fn skip_one(&mut self)
        requires
            old(self).wf(),
            old(self).cursor() < N,
        ensures
            final(self).wf(),
            final(self).cells() == old(self).cells(),
            final(self).cursor() == old(self).cursor() + 1,
    {
        self.skip(1);
    }

    /// Advances the cursor by `n` without touching any state, reserving the
    /// slots so that later widgets' indices stay stable across frames.
    pub fn skip(&mut self, n: usize)
        requires
            old(self).wf(),
            old(self).cursor() + n <= N,
        ensures
            final(self).wf(),
            final(self).cells() == old(self).cells(),
            final(self).cursor() == old(self).cursor() + n,
    {
        self.pos = self.pos + n;
    }

    /// Borrows the state at a fixed slot, bypassing the cursor.
    pub fn get(&mut self, pos: usize) -> (r: &mut Smartstate)
        requires
            old(self).wf(),
            pos < N,
        ensures
            final(self).wf(),
            *r == old(self).cells()[pos as int],
            final(self).cells() == old(self).cells().update(pos as int, *final(r)),
            final(self).cursor() == old(self).cursor(),
    {
        &mut self.states[pos]
    }

    /// Marks every state in `range` invalid, keeping ids; the cursor and all
    /// states outside the range are untouched.
    pub fn force_redraw_range(&mut self, range: core::ops::Range<usize>)
        requires
            old(self).wf(),
            range.end <= N,
        ensures
            final(self).wf(),
            final(self).cursor() == old(self).cursor(),
            final(self).cells().len() == N,
            forall|i: int|
                range.start <= i < range.end ==> (!#[trigger] final(self).cells()[i].valid()
                    && final(self).cells()[i].id() == old(self).cells()[i].id()),
            forall|i: int|
                0 <= i < N && !(range.start <= i < range.end)
                    ==> final(self).cells()[i] == old(self).cells()[i],
    {
        if range.start >= range.end {
            return ;
        }
        let mut i: usize = range.start;
        while i < range.end
            invariant
                old(self).wf(),
                range.start <= i <= range.end,
                range.end <= N,
                self.pos == old(self).pos,
                self.states@.len() == N,
                forall|j: int|
                    range.start <= j < i ==> (!#[trigger] self.states@[j].valid()
                        && self.states@[j].id() == old(self).cells()[j].id()),
                forall|j: int|
                    0 <= j < N && !(range.start <= j < i)
                        ==> self.states@[j] == old(self).cells()[j],
            decreases range.end - i,
        {
            let mut cur = self.states[i];
            cur.force_redraw();
            self.states.set(i, cur);
            i += 1;
        }
    }

    /// Marks every state invalid, keeping ids: after this call every slot
    /// reports "unknown" and forces a redraw, whatever its prior id was.
    pub fn force_redraw_all(&mut self)
        requires
            old(self).wf(),
        ensures
            final(self).wf(),
            final(self).cursor() == old(self).cursor(),
            final(self).cells().len() == N,
            forall|i: int|
                0 <= i < N ==> (!#[trigger] final(self).cells()[i].valid()
                    && final(self).cells()[i].id() == old(self).cells()[i].id()),
    {
        self.force_redraw_range(0..self.states.len());
    }

    /// Marks every state at or after the given absolute slot invalid:
    /// `force_redraw_from(0)` is [`force_redraw_all`](Self::force_redraw_all).
    pub fn force_redraw_from(&mut self, pos: usize)
        requires
            old(self).wf(),
            pos <= N,
        ensures
            final(self).wf(),
            final(self).cursor() == old(self).cursor(),
            final(self).cells().len() == N,
            forall|i: int|
                pos <= i < N ==> (!#[trigger] final(self).cells()[i].valid()
                    && final(self).cells()[i].id() == old(self).cells()[i].id()),
            forall|i: int|
                0 <= i < pos ==> final(self).cells()[i] == old(self).cells()[i],
    {
        let n = self.states.len();
        self.force_redraw_range(pos..n);
    }

    /// Marks every state at or after the cursor plus `offset` invalid, for
    /// when an earlier widget's change must also repaint later siblings:
    /// `force_redraw_from_offset(0)` is
    /// [`force_redraw_remaining`](Self::force_redraw_remaining).
    pub fn force_redraw_from_offset(&mut self, offset: i32)
        requires
            old(self).wf(),
            0 <= old(self).cursor() + offset <= N,
        ensures
            final(self).wf(),
            final(self).cursor() == old(self).cursor(),
            final(self).cells().len() == N,
            forall|i: int|
                old(self).cursor() + offset <= i < N
                    ==> (!#[trigger] final(self).cells()[i].valid()
                    && final(self).cells()[i].id() == old(self).cells()[i].id()),
            forall|i: int|
                0 <= i < old(self).cursor() + offset
                    ==> final(self).cells()[i] == old(self).cells()[i],
    {
        let first: usize = if offset >= 0 {
            self.pos + (offset as usize)
        } else {
            self.pos - ((-(offset as i64)) as usize)
        };
        proof {
            assert(first as int == old(self).cursor() + offset);
        }
        self.force_redraw_from(first);
    }

    /// Marks every state at or after the cursor invalid.
    pub fn force_redraw_remaining(&mut self)
        requires
            old(self).wf(),
        ensures
            final(self).wf(),
            final(self).cursor() == old(self).cursor(),
            final(self).cells().len() == N,
            forall|i: int|
                old(self).cursor() <= i < N ==> (!#[trigger] final(self).cells()[i].valid()
                    && final(self).cells()[i].id() == old(self).cells()[i].id()),
            forall|i: int|
                0 <= i < old(self).cursor() ==> final(self).cells()[i] == old(self).cells()[i],
    {
        self.force_redraw_from_offset(0);
    }

    /// Marks every state in the given range, taken relative to the cursor,
    /// invalid: the slots from cursor + start up to cursor + end.
    pub fn force_redraw_range_relative(&mut self, range: core::ops::Range<i32>)
        requires
            old(self).wf(),
            range.start <= range.end,
            0 <= old(self).cursor() + range.start,
            old(self).cursor() + range.end <= N,
        ensures
            final(self).wf(),
            final(self).cursor() == old(self).cursor(),
            final(self).cells().len() == N,
            forall|i: int|
                old(self).cursor() + range.start <= i < old(self).cursor() + range.end
                    ==> (!(#[trigger] final(self).cells()[i]).valid()
                    && final(self).cells()[i].id() == old(self).cells()[i].id()),
            forall|i: int|
                0 <= i < N && !(old(self).cursor() + range.start <= i < old(self).cursor()
                    + range.end) ==> final(self).cells()[i] == old(self).cells()[i],
    {
        let first: usize = if range.start >= 0 {
            self.pos + (range.start as usize)
        } else {
            self.pos - ((-(range.start as i64)) as usize)
        };
        proof {
            assert(first as int == old(self).cursor() + range.start);
        }
        let count: usize = ((range.end as i64) - (range.start as i64)) as usize;
        proof {
            assert(count as int == range.end - range.start);
            assert(first + count == old(self).cursor() + range.end);
        }
        self.force_redraw_range(first..(first + count));
        proof {
            assert forall|i: int|
                old(self).cursor() + range.start <= i < old(self).cursor()
                    + range.end implies (!(#[trigger] self.cells()[i]).valid()
                && self.cells()[i].id() == old(self).cells()[i].id()) by {
                assert(first <= i < first + count);
                assert(!self.cells()[i].valid());
                assert(self.cells()[i].id() == old(self).cells()[i].id());
            }
        }
    }
}

impl<const N: usize> Default for SmartstateProvider<N> {
    /// A fresh provider, as [`SmartstateProvider::new`] yields it.
    fn default() -> (r: Self)
        ensures
            r.wf(),
            r.cursor() == 0,
            forall|i: int|
                0 <= i < N ==> (!#[trigger] r.cells()[i].valid() && r.cells()[i].id() == 0),
    {
        Self::new()
    }
}

} // verus!
