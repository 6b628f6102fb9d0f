//! Modifiers: rules that rewrite the magnitude of a proposed attribute
//! change. A collection holds three independent facets — by attribute
//! identifier, by action name, and "complex" (condition-driven, given the
//! full resolution context) — applied in that order, each facet in
//! registration order.

use vstd::prelude::*;
use vstd::string::*;
use crate::arith::{sat64, sat_add, sat_div, sat_mul, trunc_div};
use crate::action::{Action, AttributeChange};
use crate::character::{lookup, AttrView, AttributeCollection, Status, StatusCollection};
use crate::text::{ascii_lower, spec_lower, str_eq};

verus! {

/// A magnitude rewrite. Addition and multiplication saturate at the `i64`
/// range; division truncates toward zero and leaves the value unchanged for
/// a zero divisor.
#[derive(Debug, Clone, Copy, PartialEq, Eq, Structural)]
pub enum Modifier {
    Add(i64),
    Mul(i64),
    Assign(i64),
    Div(i64),
}

/// What a modifier does to a value.
pub open spec fn modifier_apply(m: Modifier, v: i64) -> i64 {
    match m {
        Modifier::Add(a) => sat64(v + a),
        Modifier::Mul(f) => sat64(v * f),
        Modifier::Assign(s) => s,
        Modifier::Div(d) => if d == 0 {
            v
        } else {
            sat64(trunc_div(v as int, d as int))
        },
    }
}

impl Modifier {
    /// Rewrite `on`.
    pub fn apply(&self, on: i64) -> (r: i64)
        ensures
            r == modifier_apply(*self, on),
    {
        match self {
            Modifier::Add(a) => sat_add(on, *a),
            Modifier::Mul(f) => sat_mul(on, *f),
            Modifier::Assign(s) => *s,
            Modifier::Div(d) => {
                if *d == 0 {
                    on
                } else {
                    sat_div(on, *d)
                }
            },
        }
    }
}

impl Default for Modifier {
    /// The default modifier adds nothing: the identity rewrite.
    fn default() -> (r: Self)
        ensures
            r == Modifier::Add(0),
    {
        Modifier::Add(0)
    }
}

/// When a complex modifier fires. Conditions read the full resolution
/// context: both characters' state and the action being resolved.
pub enum ComplexCondition {
    /// Fires unconditionally.
    Always,
    /// Fires when the actor has the status.
    ActorHasStatus(Status),
    /// Fires when the receiver has the status.
    ReceiverHasStatus(Status),
    /// Fires when the resolved action carries exactly this (case-sensitive)
    /// name.
    ActionNamed(String),
    /// Fires when the receiver has the attribute and its value is at least
    /// the threshold.
    ReceiverAttributeAtLeast(String, i64),
}

/// An unconditional-facet modifier: a condition over the resolution context
/// and the rewrite applied when it holds.
pub struct ComplexModifier {
    pub condition: ComplexCondition,
    pub effect: Modifier,
}

/// Whether a complex modifier's condition holds in the given context.
pub open spec fn condition_holds(
    c: ComplexCondition,
    actor_attrs: Seq<(Seq<char>, AttrView)>,
    actor_statuses: Set<Seq<char>>,
    recv_attrs: Seq<(Seq<char>, AttrView)>,
    recv_statuses: Set<Seq<char>>,
    action_name: Seq<char>,
) -> bool {
    match c {
        ComplexCondition::Always => true,
        ComplexCondition::ActorHasStatus(s) => actor_statuses.contains(s@),
        ComplexCondition::ReceiverHasStatus(s) => recv_statuses.contains(s@),
        ComplexCondition::ActionNamed(n) => action_name == n@,
        ComplexCondition::ReceiverAttributeAtLeast(id, k) => lookup(recv_attrs, id@) matches Some(
            a,
        ) && a.value >= k,
    }
}

/// What a complex modifier does to a value in the given context.
pub open spec fn complex_apply(
    cm: ComplexModifier,
    v: i64,
    actor_attrs: Seq<(Seq<char>, AttrView)>,
    actor_statuses: Set<Seq<char>>,
    recv_attrs: Seq<(Seq<char>, AttrView)>,
    recv_statuses: Set<Seq<char>>,
    action_name: Seq<char>,
) -> i64 {
    if condition_holds(cm.condition, actor_attrs, actor_statuses, recv_attrs, recv_statuses,
        action_name) {
        modifier_apply(cm.effect, v)
    } else {
        v
    }
}

impl ComplexModifier {
    /// Rewrite `on` if the condition holds of the context; hand it back
    /// unchanged otherwise.
    pub fn apply_if_applicable(
        &self,
        on: i64,
        actor_attributes: &AttributeCollection,
        actor_statuses: &StatusCollection,
        receiver_attributes: &AttributeCollection,
        receiver_statuses: &StatusCollection,
        action_name: &str,
    ) -> (r: i64)
        ensures
            r == complex_apply(
                *self,
                on,
                actor_attributes@,
                actor_statuses@,
                receiver_attributes@,
                receiver_statuses@,
                action_name@,
            ),
    {
        let fires = match &self.condition {
            ComplexCondition::Always => true,
            ComplexCondition::ActorHasStatus(s) => actor_statuses.contains(s),
            ComplexCondition::ReceiverHasStatus(s) => receiver_statuses.contains(s),
            ComplexCondition::ActionNamed(n) => str_eq(n.as_str(), action_name),
            ComplexCondition::ReceiverAttributeAtLeast(id, k) => {
                match receiver_attributes.get_attribute_value(id) {
                    Some(v) => v >= *k,
                    None => false,
                }
            },
        };
        if fires {
            self.effect.apply(on)
        } else {
            on
        }
    }
}

// ===============
// Folds over registered modifiers
// ===============

/// The modifiers registered under `key`, in registration order.
pub open spec fn mods_for(s: Seq<(Seq<char>, Modifier)>, key: Seq<char>) -> Seq<Modifier>
    decreases s.len(),
{
    if s.len() == 0 {
        Seq::empty()
    } else {
        let rest = mods_for(s.drop_last(), key);
        if s.last().0 == key {
            rest.push(s.last().1)
        } else {
            rest
        }
    }
}

/// `v` rewritten by every modifier in `ms`, first to last.
pub open spec fn fold_mods(ms: Seq<Modifier>, v: i64) -> i64
    decreases ms.len(),
{
    if ms.len() == 0 {
        v
    } else {
        modifier_apply(ms.last(), fold_mods(ms.drop_last(), v))
    }
}

/// `v` rewritten by every complex modifier in `cs`, first to last.
pub open spec fn fold_complex(
    cs: Seq<ComplexModifier>,
    v: i64,
    actor_attrs: Seq<(Seq<char>, AttrView)>,
    actor_statuses: Set<Seq<char>>,
    recv_attrs: Seq<(Seq<char>, AttrView)>,
    recv_statuses: Set<Seq<char>>,
    action_name: Seq<char>,
) -> i64
    decreases cs.len(),
{
    if cs.len() == 0 {
        v
    } else {
        complex_apply(
            cs.last(),
            fold_complex(cs.drop_last(), v, actor_attrs, actor_statuses, recv_attrs, recv_statuses,
                action_name),
            actor_attrs,
            actor_statuses,
            recv_attrs,
            recv_statuses,
            action_name,
        )
    }
}

// ===============
// ModifierCollection
// ===============

/// The three facets of a character's modifiers. A character holds two of
/// these: an outgoing collection applied to changes it deals, and an
/// incoming collection applied to changes it receives; the rewrite
/// algorithm is the same for both.
pub struct ModifierCollection {
    by_attribute: Vec<(String, Modifier)>,
    by_action: Vec<(String, Modifier)>,
    complex: Vec<ComplexModifier>,
}

impl ModifierCollection {
    /// The by-attribute facet, in registration order.
    pub closed spec fn attribute_mods(self) -> Seq<(Seq<char>, Modifier)> {
        self.by_attribute@.map(|_i: int, p: (String, Modifier)| (p.0@, p.1))
    }

    /// The by-action-name facet, in registration order.
    pub closed spec fn action_mods(self) -> Seq<(Seq<char>, Modifier)> {
        self.by_action@.map(|_i: int, p: (String, Modifier)| (p.0@, p.1))
    }

    /// The complex facet, in registration order.
    pub closed spec fn complex_mods(self) -> Seq<ComplexModifier> {
        self.complex@
    }

    /// The whole rewrite this collection performs on a change of attribute
    /// `change_id` with magnitude `v`, for an action named `action_name`:
    /// the by-attribute facet, then the by-action facet, then the complex
    /// facet, each in registration order.
    pub open spec fn rewrite(
        self,
        change_id: Seq<char>,
        v: i64,
        action_name: Seq<char>,
        actor_attrs: Seq<(Seq<char>, AttrView)>,
        actor_statuses: Set<Seq<char>>,
        recv_attrs: Seq<(Seq<char>, AttrView)>,
        recv_statuses: Set<Seq<char>>,
    ) -> i64 {
        let v1 = fold_mods(mods_for(self.attribute_mods(), change_id), v);
        let v2 = fold_mods(mods_for(self.action_mods(), action_name), v1);
        fold_complex(self.complex_mods(), v2, actor_attrs, actor_statuses, recv_attrs,
            recv_statuses, action_name)
    }

    /// An empty collection: the identity rewrite.
    pub fn new() -> (r: Self)
        ensures
            r.attribute_mods() =~= Seq::<(Seq<char>, Modifier)>::empty(),
            r.action_mods() =~= Seq::<(Seq<char>, Modifier)>::empty(),
            r.complex_mods() =~= Seq::<ComplexModifier>::empty(),
    {
        ModifierCollection { by_attribute: Vec::new(), by_action: Vec::new(), complex: Vec::new() }
    }

    /// Register a modifier under an attribute identifier (normalized to
    /// lower case, as attribute identifiers are).
    pub fn add_attribute_modifier(&mut self, identifier: &str, modifier: Modifier)
        ensures
            final(self).attribute_mods() =~= old(self).attribute_mods().push(
                (spec_lower(identifier@), modifier),
            ),
            final(self).action_mods() == old(self).action_mods(),
            final(self).complex_mods() == old(self).complex_mods(),
    {
        self.by_attribute.push((ascii_lower(identifier), modifier));
    }

    /// Register a modifier under a (case-sensitive) action name.
    pub fn add_action_modifier(&mut self, name: &str, modifier: Modifier)
        ensures
            final(self).action_mods() =~= old(self).action_mods().push((name@, modifier)),
            final(self).attribute_mods() == old(self).attribute_mods(),
            final(self).complex_mods() == old(self).complex_mods(),
    {
        self.by_action.push((name.to_owned(), modifier));
    }

    /// Register a complex modifier.
    pub fn add_complex_modifier(&mut self, modifier: ComplexModifier)
        ensures
            final(self).complex_mods() =~= old(self).complex_mods().push(modifier),
            final(self).attribute_mods() == old(self).attribute_mods(),
            final(self).action_mods() == old(self).action_mods(),
    {
        self.complex.push(modifier);
    }
}

impl ModifierCollection {
    /// Rewrite a proposed attribute change through this collection's three
    /// facets in order: the modifiers registered under the change's
    /// attribute identifier, then those registered under the action's name,
    /// then every complex modifier — each facet in registration order. A
    /// facet with no matching modifiers is the identity.
    pub fn generate_attribute_change(
        &self,
        attribute_change: &AttributeChange,
        actor_attributes: &AttributeCollection,
        actor_statuses: &StatusCollection,
        receiver_attributes: &AttributeCollection,
        receiver_statuses: &StatusCollection,
        action: &Action,
    ) -> (r: AttributeChange)
        ensures
            r == (AttributeChange {
                identifier: attribute_change.identifier,
                change: self.rewrite(
                    attribute_change.identifier@,
                    attribute_change.change,
                    action.name@,
                    actor_attributes@,
                    actor_statuses@,
                    receiver_attributes@,
                    receiver_statuses@,
                ),
                op: attribute_change.op,
            }),
    {
        let ghost key = attribute_change.identifier@;
        let v0 = attribute_change.change;
        let mut value = v0;
        let n1 = self.by_attribute.len();
        let mut i: usize = 0;
        while i < n1
            invariant
                i <= n1,
                n1 == self.by_attribute@.len(),
                value == fold_mods(mods_for(self.attribute_mods().take(i as int), key), v0),
                key == attribute_change.identifier@,
            decreases n1 - i,
        {
            let ghost prefix = self.attribute_mods().take(i as int);
            let ghost entry = self.attribute_mods()[i as int];
            if str_eq(self.by_attribute[i].0.as_str(), attribute_change.identifier.as_str()) {
                value = self.by_attribute[i].1.apply(value);
                proof {
                    lemma_mods_for_push(prefix, entry, key);
                    lemma_fold_mods_push(mods_for(prefix, key), entry.1, v0);
                }
            } else {
                proof {
                    lemma_mods_for_push(prefix, entry, key);
                }
            }
            proof {
                assert(self.attribute_mods().take(i + 1) =~= prefix.push(entry));
            }
            i = i + 1;
        }
        proof {
            assert(self.attribute_mods().take(n1 as int) =~= self.attribute_mods());
        }
        let ghost v1 = value;
        let n2 = self.by_action.len();
        let mut j: usize = 0;
        while j < n2
            invariant
                j <= n2,
                n2 == self.by_action@.len(),
                value == fold_mods(mods_for(self.action_mods().take(j as int), action.name@), v1),
            decreases n2 - j,
        {
            let ghost prefix = self.action_mods().take(j as int);
            let ghost entry = self.action_mods()[j as int];
            if str_eq(self.by_action[j].0.as_str(), action.name.as_str()) {
                value = self.by_action[j].1.apply(value);
                proof {
                    lemma_mods_for_push(prefix, entry, action.name@);
                    lemma_fold_mods_push(mods_for(prefix, action.name@), entry.1, v1);
                }
            } else {
                proof {
                    lemma_mods_for_push(prefix, entry, action.name@);
                }
            }
            proof {
                assert(self.action_mods().take(j + 1) =~= prefix.push(entry));
            }
            j = j + 1;
        }
        proof {
            assert(self.action_mods().take(n2 as int) =~= self.action_mods());
        }
        let ghost v2 = value;
        let n3 = self.complex.len();
        let mut k: usize = 0;
        while k < n3
            invariant
                k <= n3,
                n3 == self.complex@.len(),
                value == fold_complex(
                    self.complex_mods().take(k as int),
                    v2,
                    actor_attributes@,
                    actor_statuses@,
                    receiver_attributes@,
                    receiver_statuses@,
                    action.name@,
                ),
            decreases n3 - k,
        {
            let ghost prefix = self.complex_mods().take(k as int);
            let ghost entry = self.complex_mods()[k as int];
            value = self.complex[k].apply_if_applicable(
                value,
                actor_attributes,
                actor_statuses,
                receiver_attributes,
                receiver_statuses,
                action.name.as_str(),
            );
            proof {
                lemma_fold_complex_push(
                    prefix,
                    entry,
                    v2,
                    actor_attributes@,
                    actor_statuses@,
                    receiver_attributes@,
                    receiver_statuses@,
                    action.name@,
                );
                assert(self.complex_mods().take(k + 1) =~= prefix.push(entry));
            }
            k = k + 1;
        }
        proof {
            assert(self.complex_mods().take(n3 as int) =~= self.complex_mods());
        }
        AttributeChange {
            identifier: attribute_change.identifier.clone(),
            change: value,
            op: attribute_change.op,
        }
    }
}

// ===============
// Fold lemmas
// ===============

/// A collection with no modifiers in any facet degenerates to the identity
/// rewrite, whatever the context.
pub proof fn lemma_empty_collection_identity(
    c: ModifierCollection,
    change_id: Seq<char>,
    v: i64,
    action_name: Seq<char>,
    actor_attrs: Seq<(Seq<char>, AttrView)>,
    actor_statuses: Set<Seq<char>>,
    recv_attrs: Seq<(Seq<char>, AttrView)>,
    recv_statuses: Set<Seq<char>>,
)
    requires
        c.attribute_mods().len() == 0,
        c.action_mods().len() == 0,
        c.complex_mods().len() == 0,
    ensures
        c.rewrite(change_id, v, action_name, actor_attrs, actor_statuses, recv_attrs,
            recv_statuses) == v,
{
}

/// Appending an entry extends the per-key selection iff the key matches.
pub proof fn lemma_mods_for_push(s: Seq<(Seq<char>, Modifier)>, p: (Seq<char>, Modifier), key: Seq<char>)
    ensures
        mods_for(s.push(p), key) == if p.0 == key {
            mods_for(s, key).push(p.1)
        } else {
            mods_for(s, key)
        },
{
    assert(s.push(p).drop_last() =~= s);
    assert(s.push(p).last() == p);
}

/// Folding over one more modifier applies it after the rest.
pub proof fn lemma_fold_mods_push(ms: Seq<Modifier>, m: Modifier, v: i64)
    ensures
        fold_mods(ms.push(m), v) == modifier_apply(m, fold_mods(ms, v)),
{
    assert(ms.push(m).drop_last() =~= ms);
    assert(ms.push(m).last() == m);
}

/// Folding over one more complex modifier applies it after the rest.
pub proof fn lemma_fold_complex_push(
    cs: Seq<ComplexModifier>,
    cm: ComplexModifier,
    v: i64,
    actor_attrs: Seq<(Seq<char>, AttrView)>,
    actor_statuses: Set<Seq<char>>,
    recv_attrs: Seq<(Seq<char>, AttrView)>,
    recv_statuses: Set<Seq<char>>,
    action_name: Seq<char>,
)
    ensures
        fold_complex(cs.push(cm), v, actor_attrs, actor_statuses, recv_attrs, recv_statuses,
            action_name) == complex_apply(
            cm,
            fold_complex(cs, v, actor_attrs, actor_statuses, recv_attrs, recv_statuses,
                action_name),
            actor_attrs,
            actor_statuses,
            recv_attrs,
            recv_statuses,
            action_name,
        ),
{
    assert(cs.push(cm).drop_last() =~= cs);
    assert(cs.push(cm).last() == cm);
}

} // verus!
