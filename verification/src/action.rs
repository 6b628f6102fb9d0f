//! Actions: declarative descriptions of attribute and status changes and of
//! who they address (the actor or the designated target), together with the
//! two-stage modifier resolution that rewrites attribute changes and the
//! application step that mutates the chosen characters' collections.

use vstd::prelude::*;
use vstd::string::*;
use crate::arith::{sat64, sat_add, sat_mul, spec_weighted_average, weighted_average};
use crate::character::{
    clamp, find_last, AttrView, AttributeCollection, Character, Status, StatusCollection,
};
use crate::text::{ascii_lower, spec_lower};

verus! {

// ===============
// Target & Changes
// ===============

/// Who a batch of changes addresses: the acting character or the designated
/// target.
#[derive(Debug, Copy, Clone, PartialEq, Eq, Structural, Hash)]
pub enum Target {
    Actor,
    Target,
}

/// How a change combines with the attribute's current value. `Average`
/// carries the weights of the current and the new value.
#[derive(Debug, Copy, Clone, PartialEq, Eq, Structural)]
pub enum AttributeChangeType {
    Add,
    Mul,
    Assign,
    Average(u32, u32),
}

/// A proposed change to one attribute: the attribute's identifier, the
/// magnitude, and the combining operation. Immutable once constructed; each
/// modifier stage produces a new instance.
pub struct AttributeChange {
    pub identifier: String,
    pub change: i64,
    pub op: AttributeChangeType,
}

impl Clone for AttributeChange {
    fn clone(&self) -> (r: Self)
        ensures
            r == *self,
    {
        AttributeChange { identifier: self.identifier.clone(), change: self.change, op: self.op }
    }
}

/// What applying `op` with magnitude `change` to a current value yields.
pub open spec fn change_result(op: AttributeChangeType, current: i64, change: i64) -> i64 {
    match op {
        AttributeChangeType::Add => sat64(current + change),
        AttributeChangeType::Mul => sat64(current * change),
        AttributeChangeType::Assign => change,
        AttributeChangeType::Average(wc, wn) => spec_weighted_average(current, change, wc, wn),
    }
}

/// An attribute view with `v` written through the bound clamp.
pub open spec fn attr_written(a: AttrView, v: i64) -> AttrView {
    AttrView { value: clamp(v as int, a.min, a.max) as i64, ..a }
}

/// What applying a change does to an attribute collection: the last entry
/// registered under the change's identifier is updated, a miss is a no-op.
pub open spec fn spec_apply_change(
    s: Seq<(Seq<char>, AttrView)>,
    ch: AttributeChange,
) -> Seq<(Seq<char>, AttrView)> {
    match find_last(s, ch.identifier@) {
        None => s,
        Some(i) => s.update(
            i,
            (s[i].0, attr_written(s[i].1, change_result(ch.op, s[i].1.value, ch.change))),
        ),
    }
}

impl AttributeChange {
    /// An additive change. The identifier is normalized to ASCII lower
    /// case on construction.
    pub fn new(identifier: &str, change: i64) -> (r: Self)
        ensures
            r.identifier@ == spec_lower(identifier@),
            r.change == change,
            r.op == AttributeChangeType::Add,
    {
        AttributeChange {
            identifier: ascii_lower(identifier),
            change,
            op: AttributeChangeType::Add,
        }
    }

    /// The same change under a different combining operation.
    pub fn with_op(self, op: AttributeChangeType) -> (r: Self)
        ensures
            r == (AttributeChange { op, ..self }),
    {
        AttributeChange { op, ..self }
    }

    /// The identifier of the attribute this change addresses.
    pub fn identifier(&self) -> (r: &String)
        ensures
            r == &self.identifier,
    {
        &self.identifier
    }

    /// Apply the change to the addressed attribute; a missing identifier is
    /// a silent no-op.
    pub fn apply(&self, attributes: &mut AttributeCollection)
        ensures
            final(attributes)@ =~= spec_apply_change(old(attributes)@, *self),
    {
        match attributes.get_attribute_mut(&self.identifier) {
            Some(a) => {
                let current = a.value();
                let new_value = match self.op {
                    AttributeChangeType::Add => sat_add(current, self.change),
                    AttributeChangeType::Mul => sat_mul(current, self.change),
                    AttributeChangeType::Assign => self.change,
                    AttributeChangeType::Average(wc, wn) => weighted_average(
                        current,
                        self.change,
                        wc,
                        wn,
                    ),
                };
                a.set_value(new_value);
            },
            None => {},
        }
    }

    /// Rewrite this change through the actor's outgoing collection, then
    /// the receiver's incoming collection.
    pub fn apply_modifiers(&self, actor: &Character, receiver: &Character, action: &Action) -> (r:
        Self)
        ensures
            r == spec_rewrite_change(*self, *actor, *receiver, action.name@),
    {
        let stage1 = actor.outgoing.generate_attribute_change(
            self,
            &actor.attributes,
            &actor.statuses,
            &receiver.attributes,
            &receiver.statuses,
            action,
        );
        receiver.incoming.generate_attribute_change(
            &stage1,
            &actor.attributes,
            &actor.statuses,
            &receiver.attributes,
            &receiver.statuses,
            action,
        )
    }
}

/// The doubly-rewritten change: the actor's outgoing rewrite, then the
/// receiver's incoming rewrite, both over the same resolution context.
pub open spec fn spec_rewrite_change(
    ch: AttributeChange,
    actor: Character,
    receiver: Character,
    action_name: Seq<char>,
) -> AttributeChange {
    let v1 = actor.outgoing.rewrite(
        ch.identifier@,
        ch.change,
        action_name,
        actor.attributes@,
        actor.statuses@,
        receiver.attributes@,
        receiver.statuses@,
    );
    let v2 = receiver.incoming.rewrite(
        ch.identifier@,
        v1,
        action_name,
        actor.attributes@,
        actor.statuses@,
        receiver.attributes@,
        receiver.statuses@,
    );
    AttributeChange { identifier: ch.identifier, change: v2, op: ch.op }
}

/// Granting or revoking a status.
pub enum StatusChange {
    Add(Status),
    Remove(Status),
}

impl Clone for StatusChange {
    fn clone(&self) -> (r: Self)
        ensures
            r == *self,
    {
        match self {
            StatusChange::Add(s) => StatusChange::Add(s.clone()),
            StatusChange::Remove(s) => StatusChange::Remove(s.clone()),
        }
    }
}

/// What a status change does to a status set.
pub open spec fn spec_apply_status(s: Set<Seq<char>>, sc: StatusChange) -> Set<Seq<char>> {
    match sc {
        StatusChange::Add(st) => s.insert(st@),
        StatusChange::Remove(st) => s.remove(st@),
    }
}

impl StatusChange {
    /// Apply the status change. Status changes never run through the
    /// modifier pipeline; they are applied verbatim.
    pub fn apply(&self, statuses: &mut StatusCollection)
        ensures
            final(statuses)@ == spec_apply_status(old(statuses)@, *self),
    {
        match self {
            StatusChange::Add(s) => statuses.add(s.clone()),
            StatusChange::Remove(s) => statuses.remove(s),
        }
    }
}

/// One element of an action: an attribute change or a status change.
pub enum ActionElement {
    AttributeChange(AttributeChange),
    StatusChange(StatusChange),
}

impl Clone for ActionElement {
    fn clone(&self) -> (r: Self)
        ensures
            r == *self,
    {
        match self {
            ActionElement::AttributeChange(a) => ActionElement::AttributeChange(a.clone()),
            ActionElement::StatusChange(s) => ActionElement::StatusChange(s.clone()),
        }
    }
}

/// What one element does to one character's collections.
pub open spec fn spec_apply_element(
    acol: Seq<(Seq<char>, AttrView)>,
    scol: Set<Seq<char>>,
    e: ActionElement,
) -> (Seq<(Seq<char>, AttrView)>, Set<Seq<char>>) {
    match e {
        ActionElement::AttributeChange(a) => (spec_apply_change(acol, a), scol),
        ActionElement::StatusChange(sc) => (acol, spec_apply_status(scol, sc)),
    }
}

/// What a batch of elements does to one character's collections, first to
/// last.
pub open spec fn spec_apply_elements(
    acol: Seq<(Seq<char>, AttrView)>,
    scol: Set<Seq<char>>,
    elems: Seq<ActionElement>,
) -> (Seq<(Seq<char>, AttrView)>, Set<Seq<char>>)
    decreases elems.len(),
{
    if elems.len() == 0 {
        (acol, scol)
    } else {
        let p = spec_apply_elements(acol, scol, elems.drop_last());
        spec_apply_element(p.0, p.1, elems.last())
    }
}

/// Folding over one more element applies it after the rest.
proof fn lemma_apply_elements_push(
    acol: Seq<(Seq<char>, AttrView)>,
    scol: Set<Seq<char>>,
    elems: Seq<ActionElement>,
    e: ActionElement,
)
    ensures
        spec_apply_elements(acol, scol, elems.push(e)) == spec_apply_element(
            spec_apply_elements(acol, scol, elems).0,
            spec_apply_elements(acol, scol, elems).1,
            e,
        ),
{
    assert(elems.push(e).drop_last() =~= elems);
    assert(elems.push(e).last() == e);
}

impl ActionElement {
    /// Apply this element to one character's collections.
    pub fn apply(&self, attributes: &mut AttributeCollection, statuses: &mut StatusCollection)
        ensures
            final(attributes)@ =~= spec_apply_element(old(attributes)@, old(statuses)@, *self).0,
            final(statuses)@ =~= spec_apply_element(old(attributes)@, old(statuses)@, *self).1,
    {
        match self {
            ActionElement::AttributeChange(a) => a.apply(attributes),
            ActionElement::StatusChange(s) => s.apply(statuses),
        }
    }
}

// ===============
// SimpleAction
// ===============

/// A batch of elements addressed as one unit to the actor or the target.
pub struct SimpleAction {
    pub target: Target,
    pub elements: Vec<ActionElement>,
}

/// One element after modifier rewriting: attribute changes are rewritten
/// through both stages, status changes pass unchanged.
pub open spec fn spec_rewrite_element(
    e: ActionElement,
    actor: Character,
    receiver: Character,
    action_name: Seq<char>,
) -> ActionElement {
    match e {
        ActionElement::AttributeChange(a) => ActionElement::AttributeChange(
            spec_rewrite_change(a, actor, receiver, action_name),
        ),
        other => other,
    }
}

/// A batch of elements after modifier rewriting, order kept.
pub open spec fn spec_rewrite_elements(
    elems: Seq<ActionElement>,
    actor: Character,
    receiver: Character,
    action_name: Seq<char>,
) -> Seq<ActionElement> {
    elems.map(|_i: int, e: ActionElement| spec_rewrite_element(e, actor, receiver, action_name))
}

impl SimpleAction {
    /// A batch with no elements.
    pub fn new_empty(target: Target) -> (r: Self)
        ensures
            r.target == target,
            r.elements@ =~= Seq::<ActionElement>::empty(),
    {
        SimpleAction { target, elements: Vec::new() }
    }

    /// A batch of the given elements.
    pub fn new(target: Target, elements: Vec<ActionElement>) -> (r: Self)
        ensures
            r.target == target,
            r.elements == elements,
    {
        SimpleAction { target, elements }
    }

    /// Re-address the batch.
    pub fn set_target(&mut self, target: Target)
        ensures
            final(self).target == target,
            final(self).elements == old(self).elements,
    {
        self.target = target;
    }

    /// The batch with every attribute change rewritten through the actor's
    /// outgoing and the receiver's incoming modifier collections; status
    /// changes pass unchanged.
    pub fn apply_modifiers(&self, actor: &Character, receiver: &Character, action: &Action) -> (r:
        SimpleAction)
        ensures
            r.target == self.target,
            r.elements@ =~= spec_rewrite_elements(self.elements@, *actor, *receiver, action.name@),
    {
        let mut result = SimpleAction::new_empty(self.target);
        let n = self.elements.len();
        let mut i: usize = 0;
        while i < n
            invariant
                i <= n,
                n == self.elements@.len(),
                result.target == self.target,
                result.elements@ =~= spec_rewrite_elements(
                    self.elements@.take(i as int),
                    *actor,
                    *receiver,
                    action.name@,
                ),
            decreases n - i,
        {
            match &self.elements[i] {
                ActionElement::AttributeChange(a) => {
                    result.elements.push(
                        ActionElement::AttributeChange(a.apply_modifiers(actor, receiver, action)),
                    );
                },
                other => {
                    result.elements.push(other.clone());
                },
            }
            proof {
                assert(self.elements@.take(i + 1) =~= self.elements@.take(i as int).push(
                    self.elements@[i as int],
                ));
                assert(result.elements@ =~= spec_rewrite_elements(
                    self.elements@.take(i + 1),
                    *actor,
                    *receiver,
                    action.name@,
                ));
            }
            i = i + 1;
        }
        proof {
            assert(self.elements@.take(n as int) =~= self.elements@);
        }
        result
    }

    /// Apply every element, in order, to one character's collections.
    pub fn apply(&self, attributes: &mut AttributeCollection, statuses: &mut StatusCollection)
        ensures
            final(attributes)@ =~= spec_apply_elements(
                old(attributes)@,
                old(statuses)@,
                self.elements@,
            ).0,
            final(statuses)@ =~= spec_apply_elements(
                old(attributes)@,
                old(statuses)@,
                self.elements@,
            ).1,
    {
        let n = self.elements.len();
        let mut i: usize = 0;
        while i < n
            invariant
                i <= n,
                n == self.elements@.len(),
                attributes@ =~= spec_apply_elements(
                    old(attributes)@,
                    old(statuses)@,
                    self.elements@.take(i as int),
                ).0,
                statuses@ =~= spec_apply_elements(
                    old(attributes)@,
                    old(statuses)@,
                    self.elements@.take(i as int),
                ).1,
            decreases n - i,
        {
            let ghost prefix = self.elements@.take(i as int);
            (&self.elements[i]).apply(attributes, statuses);
            proof {
                lemma_apply_elements_push(
                    old(attributes)@,
                    old(statuses)@,
                    prefix,
                    self.elements@[i as int],
                );
                assert(self.elements@.take(i + 1) =~= prefix.push(self.elements@[i as int]));
            }
            i = i + 1;
        }
        proof {
            assert(self.elements@.take(n as int) =~= self.elements@);
        }
    }
}

// ===============
// InnerAction & Action
// ===============

/// The composition shape of an action: a single addressed batch, an
/// actor-directed plus target-directed pair, or an uninterpreted extension
/// identified by a stable tag that the base engine passes through.
pub enum InnerAction {
    Simple(SimpleAction),
    SelfOther(SimpleAction, SimpleAction),
    Custom(String),
}

/// The character index a target designation resolves to.
pub open spec fn spec_resolve(t: Target, actor: int, target: int) -> int {
    match t {
        Target::Actor => actor,
        Target::Target => target,
    }
}

/// The attribute-collection views of a sequence of collections.
pub open spec fn acols_view(v: Seq<AttributeCollection>) -> Seq<Seq<(Seq<char>, AttrView)>> {
    v.map(|_i: int, c: AttributeCollection| c@)
}

/// The status-collection views of a sequence of collections.
pub open spec fn scols_view(v: Seq<StatusCollection>) -> Seq<Set<Seq<char>>> {
    v.map(|_i: int, c: StatusCollection| c@)
}

/// Apply a batch of elements to the collections at `idx`; an index outside
/// the slice is a silent no-op.
pub open spec fn spec_apply_at(
    acols: Seq<Seq<(Seq<char>, AttrView)>>,
    scols: Seq<Set<Seq<char>>>,
    idx: int,
    elems: Seq<ActionElement>,
) -> (Seq<Seq<(Seq<char>, AttrView)>>, Seq<Set<Seq<char>>>) {
    if 0 <= idx < acols.len() && idx < scols.len() {
        let p = spec_apply_elements(acols[idx], scols[idx], elems);
        (acols.update(idx, p.0), scols.update(idx, p.1))
    } else {
        (acols, scols)
    }
}

/// What applying an inner action does to the characters' collections:
/// `Simple` mutates only the index its own target designation resolves to;
/// `SelfOther` mutates the actor's collections with its first batch and
/// then the target's with its second, whatever each batch's own target
/// field says; `Custom` is uninterpreted and mutates nothing.
pub open spec fn spec_apply_inner(
    inner: InnerAction,
    acols: Seq<Seq<(Seq<char>, AttrView)>>,
    scols: Seq<Set<Seq<char>>>,
    actor: int,
    target: int,
) -> (Seq<Seq<(Seq<char>, AttrView)>>, Seq<Set<Seq<char>>>) {
    match inner {
        InnerAction::Simple(a) => spec_apply_at(
            acols,
            scols,
            spec_resolve(a.target, actor, target),
            a.elements@,
        ),
        InnerAction::SelfOther(a1, a2) => {
            let p = spec_apply_at(acols, scols, actor, a1.elements@);
            spec_apply_at(p.0, p.1, target, a2.elements@)
        },
        InnerAction::Custom(_) => (acols, scols),
    }
}

impl InnerAction {
    /// The action with every attribute change rewritten: a `Simple` batch
    /// resolves with (actor, receiver); the two halves of `SelfOther`
    /// resolve with (actor, actor) and (actor, receiver) respectively;
    /// `Custom` passes through unchanged.
    pub fn apply_modifiers(&self, actor: &Character, receiver: &Character, action: &Action) -> (r:
        Self)
        ensures
            match *self {
                InnerAction::Simple(a) => r matches InnerAction::Simple(ra) && ra.target
                    == a.target && ra.elements@ =~= spec_rewrite_elements(
                    a.elements@,
                    *actor,
                    *receiver,
                    action.name@,
                ),
                InnerAction::SelfOther(a1, a2) => r matches InnerAction::SelfOther(r1, r2)
                    && r1.target == a1.target && r1.elements@ =~= spec_rewrite_elements(
                    a1.elements@,
                    *actor,
                    *actor,
                    action.name@,
                ) && r2.target == a2.target && r2.elements@ =~= spec_rewrite_elements(
                    a2.elements@,
                    *actor,
                    *receiver,
                    action.name@,
                ),
                InnerAction::Custom(tag) => r matches InnerAction::Custom(rt) && rt@ == tag@,
            },
    {
        match self {
            InnerAction::Simple(a) => InnerAction::Simple(
                a.apply_modifiers(actor, receiver, action),
            ),
            InnerAction::SelfOther(a1, a2) => InnerAction::SelfOther(
                a1.apply_modifiers(actor, actor, action),
                a2.apply_modifiers(actor, receiver, action),
            ),
            InnerAction::Custom(tag) => InnerAction::Custom(tag.clone()),
        }
    }

    /// Mutate the chosen characters' collections. The two collection
    /// slices hold the same characters in the same order; an index outside
    /// them is a silent no-op, and a half-applied `SelfOther` is not rolled
    /// back.
    pub fn apply(
        &self,
        attribute_collections: &mut Vec<AttributeCollection>,
        status_collections: &mut Vec<StatusCollection>,
        actor: usize,
        target: usize,
    )
        requires
            old(attribute_collections)@.len() == old(status_collections)@.len(),
        ensures
            acols_view(final(attribute_collections)@) =~= spec_apply_inner(
                *self,
                acols_view(old(attribute_collections)@),
                scols_view(old(status_collections)@),
                actor as int,
                target as int,
            ).0,
            scols_view(final(status_collections)@) =~= spec_apply_inner(
                *self,
                acols_view(old(attribute_collections)@),
                scols_view(old(status_collections)@),
                actor as int,
                target as int,
            ).1,
            final(attribute_collections)@.len() == old(attribute_collections)@.len(),
            final(status_collections)@.len() == old(status_collections)@.len(),
    {
        match self {
            InnerAction::Simple(a) => {
                let idx = match a.target {
                    Target::Actor => actor,
                    Target::Target => target,
                };
                if idx < attribute_collections.len() {
                    a.apply(&mut attribute_collections[idx], &mut status_collections[idx]);
                }
            },
            InnerAction::SelfOther(a1, a2) => {
                if actor < attribute_collections.len() {
                    a1.apply(&mut attribute_collections[actor], &mut status_collections[actor]);
                }
                if target < attribute_collections.len() {
                    a2.apply(&mut attribute_collections[target], &mut status_collections[target]);
                }
            },
            InnerAction::Custom(_) => {},
        }
    }
}

/// A named action. The name is the case-sensitive key under which
/// by-action-name modifiers match.
pub struct Action {
    pub name: String,
    pub inner: InnerAction,
}

impl Action {
    /// An action with the given name and shape.
    pub fn new(name: String, inner: InnerAction) -> (r: Self)
        ensures
            r.name == name,
            r.inner == inner,
    {
        Action { name, inner }
    }

    /// The action's name.
    pub fn name(&self) -> (r: &str)
        ensures
            r@ == self.name@,
    {
        self.name.as_str()
    }

    /// The action's shape.
    pub fn inner(&self) -> (r: &InnerAction)
        ensures
            *r == self.inner,
    {
        &self.inner
    }

    /// The action's shape with every attribute change rewritten through
    /// the actor's outgoing and the receiver's incoming collections.
    pub fn apply_modifiers(&self, actor: &Character, receiver: &Character) -> (r: InnerAction)
        ensures
            match self.inner {
                InnerAction::Simple(a) => r matches InnerAction::Simple(ra) && ra.target
                    == a.target && ra.elements@ =~= spec_rewrite_elements(
                    a.elements@,
                    *actor,
                    *receiver,
                    self.name@,
                ),
                InnerAction::SelfOther(a1, a2) => r matches InnerAction::SelfOther(r1, r2)
                    && r1.target == a1.target && r1.elements@ =~= spec_rewrite_elements(
                    a1.elements@,
                    *actor,
                    *actor,
                    self.name@,
                ) && r2.target == a2.target && r2.elements@ =~= spec_rewrite_elements(
                    a2.elements@,
                    *actor,
                    *receiver,
                    self.name@,
                ),
                InnerAction::Custom(tag) => r matches InnerAction::Custom(rt) && rt@ == tag@,
            },
    {
        self.inner.apply_modifiers(actor, receiver, self)
    }
}

// ===============
// Laws
// ===============

/// A `Simple` action addressed to the actor never changes any collection at
/// a different character index.
pub proof fn lemma_simple_actor_frame(
    a: SimpleAction,
    acols: Seq<Seq<(Seq<char>, AttrView)>>,
    scols: Seq<Set<Seq<char>>>,
    actor: int,
    target: int,
    j: int,
)
    requires
        a.target == Target::Actor,
        0 <= j < acols.len(),
        j < scols.len(),
        j != actor,
    ensures
        spec_apply_inner(InnerAction::Simple(a), acols, scols, actor, target).0[j] == acols[j],
        spec_apply_inner(InnerAction::Simple(a), acols, scols, actor, target).1[j] == scols[j],
{
}

/// `SelfOther` applies its first batch to the actor and its second to the
/// designated target, independent of each batch's own target field.
pub proof fn lemma_self_other_ignores_sub_targets(
    a1: SimpleAction,
    a2: SimpleAction,
    t1: Target,
    t2: Target,
    acols: Seq<Seq<(Seq<char>, AttrView)>>,
    scols: Seq<Set<Seq<char>>>,
    actor: int,
    target: int,
)
    ensures
        spec_apply_inner(
            InnerAction::SelfOther(
                SimpleAction { target: t1, ..a1 },
                SimpleAction { target: t2, ..a2 },
            ),
            acols,
            scols,
            actor,
            target,
        ) == spec_apply_inner(InnerAction::SelfOther(a1, a2), acols, scols, actor, target),
{
}

} // verus!
