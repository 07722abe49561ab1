//! The `_NET_WM_STATE` states a client can carry, the operations that
//! change them, and the laws those operations obey: the stored list never
//! holds duplicates, adding is idempotent, and toggling twice restores the
//! list.

use vstd::prelude::*;

use crate::client::{eq_except_states, Client};
use crate::errors::Error;
use crate::requests::{is_replace_wm_state, XRequest};
use crate::util::Operation;

verus! {

/// A `_NET_WM_STATE` value the manager understands. `Tile` is the implicit
/// empty state: it is what `last_state` reports when nothing is stored, and
/// it is never stored itself.
#[derive(Clone, Copy, PartialEq, Eq, Structural, Debug)]
pub enum ClientState {
    Tile,
    Fullscreen,
    Maximized,
    Sticky,
    Hidden,
}

/// The state that wins when the manager must draw the client: the last
/// pushed one, or `Tile` when the list is empty.
pub open spec fn spec_last_state(ss: Seq<ClientState>) -> ClientState {
    if ss.len() == 0 {
        ClientState::Tile
    } else {
        ss.last()
    }
}

/// The state list after adding `s`: unchanged when `s` is already present
/// or is the never-stored `Tile`, else `s` appended.
pub open spec fn states_after_add(ss: Seq<ClientState>, s: ClientState) -> Seq<ClientState> {
    if s == ClientState::Tile || ss.contains(s) {
        ss
    } else {
        ss.push(s)
    }
}

/// The state list after removing every occurrence of `s`.
pub open spec fn states_after_remove(ss: Seq<ClientState>, s: ClientState) -> Seq<ClientState>
    decreases ss.len(),
{
    if ss.len() == 0 {
        ss
    } else {
        let rest = states_after_remove(ss.drop_last(), s);
        if ss.last() == s {
            rest
        } else {
            rest.push(ss.last())
        }
    }
}

/// The state list after toggling `s`: removed when present, added when not.
pub open spec fn states_after_toggle(ss: Seq<ClientState>, s: ClientState) -> Seq<ClientState> {
    if ss.contains(s) {
        states_after_remove(ss, s)
    } else {
        states_after_add(ss, s)
    }
}

/// What `add_state` sends to the server: one append of the state's atoms,
/// or nothing when the list did not change.
pub open spec fn add_state_emits(
    c: Client,
    s: ClientState,
    old_out: Seq<XRequest>,
    new_out: Seq<XRequest>,
) -> bool {
    if s != ClientState::Tile && !c.states@.contains(s) {
        new_out == old_out.push(XRequest::AppendWmState { window: c.id, state: s })
    } else {
        new_out == old_out
    }
}

/// What `remove_state` sends to the server: one rewrite of the property
/// from the remaining states, or nothing when the state was absent.
pub open spec fn remove_state_emits(
    c: Client,
    s: ClientState,
    old_out: Seq<XRequest>,
    new_out: Seq<XRequest>,
) -> bool {
    if c.states@.contains(s) {
        &&& new_out.len() == old_out.len() + 1
        &&& new_out.take(old_out.len() as int) == old_out
        &&& is_replace_wm_state(new_out.last(), c.id, states_after_remove(c.states@, s))
    } else {
        new_out == old_out
    }
}

/// The state list after the selected operation; an unknown selector
/// changes nothing.
pub open spec fn states_after_op(ss: Seq<ClientState>, s: ClientState, op: Operation) -> Seq<
    ClientState,
> {
    match op {
        Operation::Add => states_after_add(ss, s),
        Operation::Remove => states_after_remove(ss, s),
        Operation::Toggle => states_after_toggle(ss, s),
        Operation::Unknown => ss,
    }
}

/// What `set_state` sends to the server for the selected operation.
pub open spec fn set_state_emits(
    c: Client,
    s: ClientState,
    op: Operation,
    old_out: Seq<XRequest>,
    new_out: Seq<XRequest>,
) -> bool {
    match op {
        Operation::Add => add_state_emits(c, s, old_out, new_out),
        Operation::Remove => remove_state_emits(c, s, old_out, new_out),
        Operation::Toggle => if c.states@.contains(s) {
            remove_state_emits(c, s, old_out, new_out)
        } else {
            add_state_emits(c, s, old_out, new_out)
        },
        Operation::Unknown => new_out == old_out,
    }
}

/// Removing a state that is not in the list changes nothing.
pub proof fn lemma_remove_absent(ss: Seq<ClientState>, s: ClientState)
    requires
        !ss.contains(s),
    ensures
        states_after_remove(ss, s) == ss,
    decreases ss.len(),
{
    if ss.len() > 0 {
        assert(forall|i: int| 0 <= i < ss.len() - 1 ==> ss.drop_last()[i] == ss[i]);
        assert(!ss.drop_last().contains(s));
        lemma_remove_absent(ss.drop_last(), s);
        assert(states_after_remove(ss, s) =~= ss);
    } else {
        assert(states_after_remove(ss, s) =~= ss);
    }
}

/// Removing a state keeps the list duplicate-free and never introduces a
/// state that was not there.
pub proof fn lemma_remove_no_duplicates(ss: Seq<ClientState>, s: ClientState)
    requires
        ss.no_duplicates(),
    ensures
        states_after_remove(ss, s).no_duplicates(),
        forall|x: ClientState| #[trigger]
            states_after_remove(ss, s).contains(x) ==> ss.contains(x) && x != s,
    decreases ss.len(),
{
    if ss.len() > 0 {
        assert(forall|i: int| 0 <= i < ss.len() - 1 ==> ss.drop_last()[i] == ss[i]);
        assert(ss.drop_last().no_duplicates());
        lemma_remove_no_duplicates(ss.drop_last(), s);
        let rest = states_after_remove(ss.drop_last(), s);
        if ss.last() != s {
            assert(forall|x: ClientState| #[trigger] rest.push(ss.last()).contains(x) ==> (
            rest.contains(x) || x == ss.last())) by {
                assert(forall|i: int| 0 <= i < rest.len() ==> rest.push(ss.last())[i] == rest[i]);
            }
            assert(!rest.contains(ss.last())) by {
                if rest.contains(ss.last()) {
                    assert(ss.drop_last().contains(ss.last()));
                    let j = choose|j: int|
                        0 <= j < ss.drop_last().len() && ss.drop_last()[j] == ss.last();
                    assert(ss[j] == ss[ss.len() - 1]);
                }
            }
        }
    }
}

/// Adding a state is idempotent: adding it a second time leaves the same
/// state list as adding it once.
pub proof fn lemma_add_state_idempotent(ss: Seq<ClientState>, s: ClientState)
    ensures
        states_after_add(states_after_add(ss, s), s) == states_after_add(ss, s),
{
    if s != ClientState::Tile && !ss.contains(s) {
        assert(states_after_add(ss, s).contains(s)) by {
            assert(ss.push(s)[ss.len() as int] == s);
        }
    }
}

/// Toggling a state twice restores the state list, provided the state was
/// absent or was the most recently pushed one.
pub proof fn lemma_toggle_twice_restores(ss: Seq<ClientState>, s: ClientState)
    requires
        ss.no_duplicates(),
        !ss.contains(ClientState::Tile),
        ss.contains(s) ==> ss.last() == s,
    ensures
        states_after_toggle(states_after_toggle(ss, s), s) == ss,
{
    if s == ClientState::Tile {
        assert(states_after_toggle(ss, s) == ss);
    } else if ss.contains(s) {
        // The first toggle removes s, which by no-duplicates sits only at
        // the end; the second appends it again.
        assert(!ss.drop_last().contains(s)) by {
            assert(forall|i: int| 0 <= i < ss.len() - 1 ==> ss.drop_last()[i] == ss[i]);
            if ss.drop_last().contains(s) {
                let j = choose|j: int| 0 <= j < ss.drop_last().len() && ss.drop_last()[j] == s;
                assert(ss[j] == ss[ss.len() - 1]);
            }
        }
        lemma_remove_absent(ss.drop_last(), s);
        assert(states_after_remove(ss, s) == ss.drop_last());
        assert(states_after_toggle(ss, s) == ss.drop_last());
        assert(states_after_toggle(ss.drop_last(), s) == ss.drop_last().push(s));
        assert(ss.drop_last().push(s) =~= ss);
    } else {
        // The first toggle appends s; the second removes the single copy at
        // the end.
        let added = ss.push(s);
        assert(added.contains(s)) by {
            assert(added[ss.len() as int] == s);
        }
        assert(states_after_toggle(ss, s) == added);
        assert(added.drop_last() =~= ss);
        lemma_remove_absent(ss, s);
        assert(states_after_remove(added, s) == ss);
    }
}

impl Client {
    /// True iff the client currently carries the state `s`.
    pub fn has_state(&self, s: &ClientState) -> (r: bool)
        ensures
            r == self.states@.contains(*s),
    {
        let mut i: usize = 0;
        while i < self.states.len()
            invariant
                0 <= i <= self.states@.len(),
                forall|k: int| 0 <= k < i ==> self.states@[k] != *s,
            decreases self.states@.len() - i,
        {
            if self.states[i] == *s {
                return true;
            }
            i = i + 1;
        }
        false
    }

    /// The state that wins when the manager draws the client: the most
    /// recently added one, or `Tile` when none is stored.
    pub fn last_state(&self) -> (r: ClientState)
        ensures
            r == spec_last_state(self.states@),
    {
        if self.states.len() == 0 {
            ClientState::Tile
        } else {
            self.states[self.states.len() - 1]
        }
    }

    /// Appends `s` to the state list if it is not already present, and
    /// appends its atoms to the window's `_NET_WM_STATE` property. `Tile`
    /// is never stored.
    pub fn add_state(&mut self, s: ClientState, out: &mut Vec<XRequest>)
        ensures
            eq_except_states(*old(self), *final (self)),
            final (self).states@ == states_after_add(old(self).states@, s),
            add_state_emits(*old(self), s, old(out)@, final (out)@),
            old(self).wf() ==> final (self).wf(),
    {
        if s == ClientState::Tile || self.has_state(&s) {
            return ;
        }
        out.push(XRequest::AppendWmState { window: self.id, state: s });
        self.states.push(s);
        proof {
            if old(self).wf() {
                let ss = old(self).states@;
                assert(forall|i: int| 0 <= i < ss.len() ==> ss.push(s)[i] == ss[i]);
                assert(ss.push(s)[ss.len() as int] == s);
                assert(ss.push(s).no_duplicates());
                if ss.push(s).contains(ClientState::Tile) {
                    let j = choose|j: int|
                        0 <= j < ss.push(s).len() && ss.push(s)[j] == ClientState::Tile;
                    assert(j < ss.len() ==> ss.contains(ClientState::Tile));
                    assert(false);
                }
            }
        }
    }

    /// Removes `s` from the state list if present, and rewrites the
    /// window's `_NET_WM_STATE` property from the remaining states.
    pub fn remove_state(&mut self, s: ClientState, out: &mut Vec<XRequest>)
        ensures
            eq_except_states(*old(self), *final (self)),
            final (self).states@ == states_after_remove(old(self).states@, s),
            remove_state_emits(*old(self), s, old(out)@, final (out)@),
            old(self).wf() ==> final (self).wf(),
    {
        if !self.has_state(&s) {
            proof {
                lemma_remove_absent(self.states@, s);
            }
            return ;
        }

        let ghost orig = self.states@;
        let mut kept: Vec<ClientState> = Vec::new();
        let mut i: usize = 0;
        while i < self.states.len()
            invariant
                0 <= i <= self.states@.len(),
                kept@ == states_after_remove(self.states@.take(i as int), s),
            decreases self.states@.len() - i,
        {
            proof {
                let t = self.states@.take(i + 1int);
                assert(t.drop_last() =~= self.states@.take(i as int));
                assert(t.last() == self.states@[i as int]);
            }
            if self.states[i] != s {
                kept.push(self.states[i]);
            }
            i = i + 1;
        }
        proof {
            assert(self.states@.take(self.states@.len() as int) =~= self.states@);
        }

        self.states = kept;
        let mut copy: Vec<ClientState> = Vec::new();
        let mut k: usize = 0;
        while k < self.states.len()
            invariant
                0 <= k <= self.states@.len(),
                copy@ == self.states@.take(k as int),
            decreases self.states@.len() - k,
        {
            copy.push(self.states[k]);
            proof {
                assert(copy@ =~= self.states@.take(k + 1int));
            }
            k = k + 1;
        }
        proof {
            assert(copy@ =~= self.states@);
        }
        out.push(XRequest::ReplaceWmState { window: self.id, states: copy });
        proof {
            assert(out@.take(old(out)@.len() as int) =~= old(out)@);
            if old(self).wf() {
                lemma_remove_no_duplicates(orig, s);
                if self.states@.contains(ClientState::Tile) {
                    assert(orig.contains(ClientState::Tile));
                    assert(false);
                }
            }
        }
    }

    /// Applies the operation to the state: add, remove, or toggle. An
    /// unknown selector fails with `InvalidOperation` and changes nothing.
    pub fn set_state(&mut self, s: ClientState, operation: Operation, out: &mut Vec<XRequest>)
        -> (r: Result<(), Error>)
        ensures
            eq_except_states(*old(self), *final (self)),
            old(self).wf() ==> final (self).wf(),
            operation == Operation::Add ==> {
                &&& final (self).states@ == states_after_add(old(self).states@, s)
                &&& add_state_emits(*old(self), s, old(out)@, final (out)@)
            },
            operation == Operation::Remove ==> {
                &&& final (self).states@ == states_after_remove(old(self).states@, s)
                &&& remove_state_emits(*old(self), s, old(out)@, final (out)@)
            },
            operation == Operation::Toggle ==> {
                &&& final (self).states@ == states_after_toggle(old(self).states@, s)
                &&& (if old(self).states@.contains(s) {
                    remove_state_emits(*old(self), s, old(out)@, final (out)@)
                } else {
                    add_state_emits(*old(self), s, old(out)@, final (out)@)
                })
            },
            operation == Operation::Unknown ==> {
                &&& *final (self) == *old(self)
                &&& final (out)@ == old(out)@
                &&& r matches Err(e) && e is InvalidOperation
            },
            operation != Operation::Unknown ==> r is Ok,
    {
        match operation {
            Operation::Add => {
                self.add_state(s, out);
                Ok(())
            },
            Operation::Remove => {
                self.remove_state(s, out);
                Ok(())
            },
            Operation::Toggle => {
                if self.has_state(&s) {
                    self.remove_state(s, out);
                } else {
                    self.add_state(s, out);
                }
                Ok(())
            },
            Operation::Unknown => Err(Error::InvalidOperation),
        }
    }
}

} // verus!
