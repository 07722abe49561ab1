//! Keybindings and their dispatch. A binding is identified by the pair of
//! keycode and modifier mask; the keyboard maps each pair to the number of
//! a registered action. Resolving a key-symbol name to a keycode needs the
//! server's keymap and happens outside the core; the core receives the
//! resolved keycode.

use vstd::prelude::*;

verus! {

/// The pair that identifies a binding: the physical key and the modifier
/// mask held with it.
#[derive(Clone, Copy, PartialEq, Eq, Structural, Hash, Debug)]
pub struct KeyCombination {
    pub keycode: u8,
    pub modifier: u16,
}

/// One declared keybinding: the modifier mask, the key-symbol name to
/// resolve, and the descriptive metadata.
#[derive(Clone, Debug)]
pub struct Keybinding {
    /// The combined modifier mask that triggers the binding.
    pub modkeys: u16,
    /// The key-symbol name, such as "Return" or "h".
    pub key: String,
    /// What the binding does, for error reports.
    pub description: String,
    /// The group the binding belongs to.
    pub group: String,
}

impl Keybinding {
    /// Starts building a binding; finish with `KeybindingBuilder::build`.
    pub fn new() -> (r: KeybindingBuilder)
        ensures
            r.modkeys == 0,
            r.key@ == Seq::<char>::empty(),
            r.description@ == Seq::<char>::empty(),
            r.group@ == Seq::<char>::empty(),
    {
        KeybindingBuilder {
            modkeys: 0,
            key: String::new(),
            description: String::new(),
            group: String::new(),
        }
    }
}

/// The combined mask: the bitwise or of the modifiers.
pub open spec fn spec_mask_of(ms: Seq<u16>) -> u16
    decreases ms.len(),
{
    if ms.len() == 0 {
        0
    } else {
        spec_mask_of(ms.drop_last()) | ms.last()
    }
}

/// Builds a `Keybinding` step by step.
#[derive(Clone, Debug)]
pub struct KeybindingBuilder {
    pub modkeys: u16,
    pub key: String,
    pub description: String,
    pub group: String,
}

impl KeybindingBuilder {
    /// Sets the modifiers and the key that trigger the binding.
    pub fn on(self, modkeys: &[u16], keys: &str) -> (r: KeybindingBuilder)
        ensures
            r.modkeys == spec_mask_of(modkeys@),
            r.key@ == keys@,
            r.description == self.description,
            r.group == self.group,
    {
        let mut mask: u16 = 0;
        let mut i: usize = 0;
        while i < modkeys.len()
            invariant
                0 <= i <= modkeys@.len(),
                mask == spec_mask_of(modkeys@.take(i as int)),
            decreases modkeys@.len() - i,
        {
            proof {
                let t = modkeys@.take(i + 1int);
                assert(t.drop_last() =~= modkeys@.take(i as int));
                assert(t.last() == modkeys@[i as int]);
            }
            mask = mask | modkeys[i];
            i = i + 1;
        }
        proof {
            assert(modkeys@.take(modkeys@.len() as int) =~= modkeys@);
        }
        KeybindingBuilder {
            modkeys: mask,
            key: String::from_str(keys),
            description: self.description,
            group: self.group,
        }
    }

    /// Sets the group of the binding.
    pub fn group(self, group: &str) -> (r: KeybindingBuilder)
        ensures
            r.group@ == group@,
            r.modkeys == self.modkeys,
            r.key == self.key,
            r.description == self.description,
    {
        KeybindingBuilder {
            modkeys: self.modkeys,
            key: self.key,
            description: self.description,
            group: String::from_str(group),
        }
    }

    /// Sets the description of the binding.
    pub fn description(self, desc: &str) -> (r: KeybindingBuilder)
        ensures
            r.description@ == desc@,
            r.modkeys == self.modkeys,
            r.key == self.key,
            r.group == self.group,
    {
        KeybindingBuilder {
            modkeys: self.modkeys,
            key: self.key,
            description: String::from_str(desc),
            group: self.group,
        }
    }

    /// Finishes the build.
    pub fn build(self) -> (r: Keybinding)
        ensures
            r.modkeys == self.modkeys,
            r.key == self.key,
            r.description == self.description,
            r.group == self.group,
    {
        Keybinding {
            modkeys: self.modkeys,
            key: self.key,
            description: self.description,
            group: self.group,
        }
    }
}

/// The action bound to a combination: the number under which the action
/// was registered, or `None`.
pub open spec fn spec_lookup(bs: Seq<(KeyCombination, usize)>, c: KeyCombination) -> Option<
    usize,
>
    decreases bs.len(),
{
    if bs.len() == 0 {
        None
    } else if bs[0].0 == c {
        Some(bs[0].1)
    } else {
        spec_lookup(bs.drop_first(), c)
    }
}

/// Maps each grabbed key combination to the number of a registered
/// action. The binding list never holds a combination twice: binding an
/// existing combination replaces its action.
#[derive(Clone, Debug)]
pub struct Keyboard {
    pub bindings: Vec<(KeyCombination, usize)>,
}

impl Keyboard {
    /// No combination binds twice.
    pub open spec fn wf(self) -> bool {
        forall|i: int, j: int|
            0 <= i < j < self.bindings@.len() ==> self.bindings@[i].0 != self.bindings@[j].0
    }

    /// An empty dispatch table.
    pub fn new() -> (r: Keyboard)
        ensures
            r.bindings@ == Seq::<(KeyCombination, usize)>::empty(),
            r.wf(),
    {
        Keyboard { bindings: Vec::new() }
    }

    /// Binds the combination to action number `action`, replacing any
    /// earlier binding of the same combination.
    pub fn bind(&mut self, combination: KeyCombination, action: usize)
        requires
            old(self).wf(),
        ensures
            final (self).wf(),
            spec_lookup(final (self).bindings@, combination) == Some(action),
            forall|c: KeyCombination|
                c != combination ==> #[trigger] spec_lookup(final (self).bindings@, c)
                    == spec_lookup(old(self).bindings@, c),
    {
        let ghost orig = self.bindings@;
        let mut i: usize = 0;
        while i < self.bindings.len()
            invariant
                0 <= i <= self.bindings@.len(),
                self.bindings@ == orig,
                orig == old(self).bindings@,
                old(self).wf(),
                forall|k: int| 0 <= k < i ==> orig[k].0 != combination,
            decreases self.bindings@.len() - i,
        {
            if self.bindings[i].0 == combination {
                let ghost pre = self.bindings@;
                let _ = self.bindings.remove(i);
                self.bindings.insert(i, (combination, action));
                proof {
                    assert(self.bindings@ =~= orig.update(i as int, (combination, action)));
                    lemma_lookup_update(orig, i as int, combination, action);
                    assert(forall|k: int|
                        0 <= k < self.bindings@.len() ==> (#[trigger] self.bindings@[k]).0
                            == orig[k].0);
                    assert forall|a: int, b: int|
                        0 <= a < b < self.bindings@.len() implies self.bindings@[a].0
                        != self.bindings@[b].0 by {
                        assert(old(self).bindings@[a].0 != old(self).bindings@[b].0);
                        assert(self.bindings@[a].0 == orig[a].0);
                        assert(self.bindings@[b].0 == orig[b].0);
                    }
                    assert(spec_lookup(self.bindings@, combination) == spec_lookup(
                        orig.update(i as int, (combination, action)),
                        combination,
                    ));
                    assert forall|x: KeyCombination|
                        x != combination implies #[trigger] spec_lookup(self.bindings@, x)
                        == spec_lookup(old(self).bindings@, x) by {
                        assert(spec_lookup(self.bindings@, x) == spec_lookup(
                            orig.update(i as int, (combination, action)),
                            x,
                        ));
                        assert(spec_lookup(orig.update(i as int, (combination, action)), x)
                            == spec_lookup(orig, x));
                        assert(spec_lookup(orig, x) == spec_lookup(old(self).bindings@, x));
                    }
                }
                return ;
            }
            i = i + 1;
        }
        self.bindings.push((combination, action));
        proof {
            lemma_lookup_push(orig, combination, action);
        }
    }

    /// The action bound to the combination; `None` asks the caller to
    /// ignore the press.
    pub fn trigger(&self, combination: KeyCombination) -> (r: Option<usize>)
        ensures
            r == spec_lookup(self.bindings@, combination),
    {
        proof {
            assert(self.bindings@.skip(0) =~= self.bindings@);
        }
        let mut i: usize = 0;
        while i < self.bindings.len()
            invariant
                0 <= i <= self.bindings@.len(),
                spec_lookup(self.bindings@, combination) == spec_lookup(
                    self.bindings@.skip(i as int),
                    combination,
                ),
            decreases self.bindings@.len() - i,
        {
            proof {
                let s = self.bindings@.skip(i as int);
                assert(s[0] == self.bindings@[i as int]);
                assert(s.drop_first() =~= self.bindings@.skip(i + 1int));
            }
            if self.bindings[i].0 == combination {
                return Some(self.bindings[i].1);
            }
            i = i + 1;
        }
        proof {
            assert(self.bindings@.skip(self.bindings@.len() as int).len() == 0);
        }
        None
    }
}

/// Replacing the entry at the first occurrence of a combination rebinds
/// that combination and nothing else.
proof fn lemma_lookup_update(bs: Seq<(KeyCombination, usize)>, i: int, c: KeyCombination, a:
    usize)
    requires
        0 <= i < bs.len(),
        bs[i].0 == c,
        forall|k: int| 0 <= k < i ==> bs[k].0 != c,
    ensures
        spec_lookup(bs.update(i, (c, a)), c) == Some(a),
        forall|x: KeyCombination|
            x != c ==> #[trigger] spec_lookup(bs.update(i, (c, a)), x) == spec_lookup(bs, x),
    decreases bs.len(),
{
    let upd = bs.update(i, (c, a));
    if i == 0 {
        assert(upd[0] == (c, a));
        assert forall|x: KeyCombination| x != c implies #[trigger] spec_lookup(upd, x)
            == spec_lookup(bs, x) by {
            assert(upd.drop_first() =~= bs.drop_first());
        }
    } else {
        assert(upd[0] == bs[0]);
        assert(upd.drop_first() =~= bs.drop_first().update(i - 1, (c, a)));
        assert(forall|k: int| 0 <= k < bs.drop_first().len() ==> bs.drop_first()[k] == bs[k + 1]);
        lemma_lookup_update(bs.drop_first(), i - 1, c, a);
        assert(bs[0].0 != c);
        assert(spec_lookup(upd.drop_first(), c) == spec_lookup(
            bs.drop_first().update(i - 1, (c, a)),
            c,
        ));
        assert forall|x: KeyCombination| x != c implies #[trigger] spec_lookup(upd, x)
            == spec_lookup(bs, x) by {
            assert(spec_lookup(upd.drop_first(), x) == spec_lookup(
                bs.drop_first().update(i - 1, (c, a)),
                x,
            ));
            assert(spec_lookup(bs.drop_first().update(i - 1, (c, a)), x) == spec_lookup(
                bs.drop_first(),
                x,
            ));
        }
    }
}

/// Appending a fresh combination binds it and changes nothing else.
proof fn lemma_lookup_push(bs: Seq<(KeyCombination, usize)>, c: KeyCombination, a: usize)
    requires
        forall|k: int| 0 <= k < bs.len() ==> bs[k].0 != c,
    ensures
        spec_lookup(bs.push((c, a)), c) == Some(a),
        forall|x: KeyCombination|
            x != c ==> #[trigger] spec_lookup(bs.push((c, a)), x) == spec_lookup(bs, x),
    decreases bs.len(),
{
    let ext = bs.push((c, a));
    if bs.len() == 0 {
        assert(ext[0] == (c, a));
        assert forall|x: KeyCombination| x != c implies #[trigger] spec_lookup(ext, x)
            == spec_lookup(bs, x) by {
            assert(spec_lookup(bs, x) is None);
            assert(ext.drop_first() =~= Seq::<(KeyCombination, usize)>::empty());
            assert(spec_lookup(ext.drop_first(), x) == spec_lookup(
                Seq::<(KeyCombination, usize)>::empty(),
                x,
            ));
        }
    } else {
        assert(ext[0] == bs[0]);
        assert(ext.drop_first() =~= bs.drop_first().push((c, a)));
        assert(forall|k: int| 0 <= k < bs.drop_first().len() ==> bs.drop_first()[k] == bs[k + 1]);
        lemma_lookup_push(bs.drop_first(), c, a);
        assert(spec_lookup(ext.drop_first(), c) == spec_lookup(bs.drop_first().push((c, a)), c));
        assert forall|x: KeyCombination| x != c implies #[trigger] spec_lookup(ext, x)
            == spec_lookup(bs, x) by {
            assert(spec_lookup(ext.drop_first(), x) == spec_lookup(
                bs.drop_first().push((c, a)),
                x,
            ));
            assert(spec_lookup(bs.drop_first().push((c, a)), x) == spec_lookup(
                bs.drop_first(),
                x,
            ));
        }
    }
}

} // verus!
