//! The actions the manager advertises to a client through
//! `_NET_WM_ALLOWED_ACTIONS`, kept as a duplicate-free list.

use vstd::prelude::*;

use crate::client::{eq_except_actions, Client};
use crate::requests::{is_set_allowed_actions, XRequest};

verus! {

/// An `_NET_WM_ALLOWED_ACTIONS` value the manager understands.
#[derive(Clone, Copy, PartialEq, Eq, Structural, Debug)]
pub enum ClientAction {
    Fullscreen,
    Maximize,
    ChangeTag,
    Resize,
    Move,
    Close,
}

/// The action list after a deduplicated append of `a`.
pub open spec fn actions_after_allow(aa: Seq<ClientAction>, a: ClientAction) -> Seq<ClientAction> {
    if aa.contains(a) {
        aa
    } else {
        aa.push(a)
    }
}

/// The action list after a deduplicated append of each entry of `add`, in
/// order.
pub open spec fn actions_after_allow_all(
    aa: Seq<ClientAction>,
    add: Seq<ClientAction>,
) -> Seq<ClientAction>
    decreases add.len(),
{
    if add.len() == 0 {
        aa
    } else {
        actions_after_allow(actions_after_allow_all(aa, add.drop_last()), add.last())
    }
}

/// A deduplicated append keeps the list duplicate-free.
pub proof fn lemma_allow_no_duplicates(aa: Seq<ClientAction>, a: ClientAction)
    requires
        aa.no_duplicates(),
    ensures
        actions_after_allow(aa, a).no_duplicates(),
        forall|x: ClientAction| #[trigger]
            actions_after_allow(aa, a).contains(x) ==> aa.contains(x) || x == a,
{
    if !aa.contains(a) {
        assert(forall|i: int| 0 <= i < aa.len() ==> aa.push(a)[i] == aa[i]);
        assert(aa.push(a)[aa.len() as int] == a);
        assert(aa.push(a).no_duplicates());
        assert(forall|x: ClientAction| #[trigger] aa.push(a).contains(x) ==> aa.contains(x) || x
            == a) by {
            assert(forall|i: int| 0 <= i < aa.len() ==> aa.push(a)[i] == aa[i]);
        }
    }
}

/// A deduplicated append of a whole list keeps the list duplicate-free.
pub proof fn lemma_allow_all_no_duplicates(aa: Seq<ClientAction>, add: Seq<ClientAction>)
    requires
        aa.no_duplicates(),
    ensures
        actions_after_allow_all(aa, add).no_duplicates(),
    decreases add.len(),
{
    if add.len() > 0 {
        lemma_allow_all_no_duplicates(aa, add.drop_last());
        lemma_allow_no_duplicates(actions_after_allow_all(aa, add.drop_last()), add.last());
    }
}

impl Client {
    /// True iff the client is currently offered the action `a`.
    pub fn allows_action(&self, a: &ClientAction) -> (r: bool)
        ensures
            r == self.allowed_actions@.contains(*a),
    {
        let mut i: usize = 0;
        while i < self.allowed_actions.len()
            invariant
                0 <= i <= self.allowed_actions@.len(),
                forall|k: int| 0 <= k < i ==> self.allowed_actions@[k] != *a,
            decreases self.allowed_actions@.len() - i,
        {
            if self.allowed_actions[i] == *a {
                return true;
            }
            i = i + 1;
        }
        false
    }

    /// Appends `a` to the allowed actions if it is not already present, and
    /// rewrites the window's `_NET_WM_ALLOWED_ACTIONS` property. Use
    /// `allow_actions` to add several actions at once.
    pub fn allow_action(&mut self, a: ClientAction, out: &mut Vec<XRequest>)
        ensures
            eq_except_actions(*old(self), *final (self)),
            final (self).allowed_actions@ == actions_after_allow(old(self).allowed_actions@, a),
            old(self).wf() ==> final (self).wf(),
            old(self).allowed_actions@.contains(a) ==> final (out)@ == old(out)@,
            !old(self).allowed_actions@.contains(a) ==> {
                &&& final (out)@.len() == old(out)@.len() + 1
                &&& final (out)@.take(old(out)@.len() as int) == old(out)@
                &&& is_set_allowed_actions(
                    final (out)@.last(),
                    old(self).id,
                    final (self).allowed_actions@,
                )
            },
    {
        if self.allows_action(&a) {
            return ;
        }
        self.allowed_actions.push(a);
        let copy = copy_actions(&self.allowed_actions);
        out.push(XRequest::SetAllowedActions { window: self.id, actions: copy });
        proof {
            assert(out@.take(old(out)@.len() as int) =~= old(out)@);
            if old(self).wf() {
                lemma_allow_no_duplicates(old(self).allowed_actions@, a);
            }
        }
    }

    /// Deduplicated append of each action in `actions`, followed by one
    /// rewrite of the window's `_NET_WM_ALLOWED_ACTIONS` property.
    pub fn allow_actions(&mut self, actions: Vec<ClientAction>, out: &mut Vec<XRequest>)
        ensures
            eq_except_actions(*old(self), *final (self)),
            final (self).allowed_actions@ == actions_after_allow_all(
                old(self).allowed_actions@,
                actions@,
            ),
            old(self).wf() ==> final (self).wf(),
            final (out)@.len() == old(out)@.len() + 1,
            final (out)@.take(old(out)@.len() as int) == old(out)@,
            is_set_allowed_actions(
                final (out)@.last(),
                old(self).id,
                final (self).allowed_actions@,
            ),
    {
        let ghost orig = self.allowed_actions@;
        let mut i: usize = 0;
        while i < actions.len()
            invariant
                0 <= i <= actions@.len(),
                self.allowed_actions@ == actions_after_allow_all(orig, actions@.take(i as int)),
                eq_except_actions(*old(self), *self),
                self.id == old(self).id,
            decreases actions@.len() - i,
        {
            proof {
                let t = actions@.take(i + 1int);
                assert(t.drop_last() =~= actions@.take(i as int));
                assert(t.last() == actions@[i as int]);
            }
            let a = actions[i];
            if !self.allows_action(&a) {
                self.allowed_actions.push(a);
            }
            i = i + 1;
        }
        proof {
            assert(actions@.take(actions@.len() as int) =~= actions@);
        }
        let copy = copy_actions(&self.allowed_actions);
        out.push(XRequest::SetAllowedActions { window: self.id, actions: copy });
        proof {
            assert(out@.take(old(out)@.len() as int) =~= old(out)@);
            if old(self).wf() {
                lemma_allow_all_no_duplicates(orig, actions@);
            }
        }
    }
}

/// An element-for-element copy of the action list.
fn copy_actions(v: &Vec<ClientAction>) -> (r: Vec<ClientAction>)
    ensures
        r@ == v@,
{
    let mut r: Vec<ClientAction> = Vec::new();
    let mut i: usize = 0;
    while i < v.len()
        invariant
            0 <= i <= v@.len(),
            r@ == v@.take(i as int),
        decreases v@.len() - i,
    {
        r.push(v[i]);
        proof {
            assert(r@ =~= v@.take(i + 1int));
        }
        i = i + 1;
    }
    proof {
        assert(v@.take(v@.len() as int) =~= v@);
    }
    r
}

} // verus!
