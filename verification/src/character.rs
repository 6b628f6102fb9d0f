//! Characters and their per-character state: named, bounded numeric
//! attributes and boolean statuses, each held in a small collection with
//! identifier-based lookup.

use vstd::prelude::*;
use vstd::string::*;
use crate::modifier::ModifierCollection;
use crate::text::{ascii_lower, spec_lower, str_eq};

verus! {

// ===============
// Attribute
// ===============

/// The mathematical content of an [`Attribute`]: its identifier, current
/// value, and optional bounds.
#[verifier::ext_equal]
pub struct AttrView {
    pub id: Seq<char>,
    pub value: i64,
    pub min: Option<i64>,
    pub max: Option<i64>,
}

/// Bounds are compatible when a set lower bound does not exceed a set upper
/// bound.
pub open spec fn bounds_ok(min: Option<i64>, max: Option<i64>) -> bool {
    match (min, max) {
        (Some(l), Some(h)) => l <= h,
        _ => true,
    }
}

/// `v` clamped into the configured bounds: raised to a set minimum, then
/// lowered to a set maximum.
pub open spec fn clamp(v: int, min: Option<i64>, max: Option<i64>) -> int {
    let raised = match min {
        Some(l) => if v < l { l as int } else { v },
        None => v,
    };
    match max {
        Some(h) => if raised > h { h as int } else { raised },
        None => raised,
    }
}

/// Whether an attribute's value lies within its set bounds.
pub open spec fn in_bounds(a: AttrView) -> bool {
    &&& (a.min matches Some(l) ==> l <= a.value)
    &&& (a.max matches Some(h) ==> a.value <= h)
}

/// A named, bounded numeric trait of a character. The value is clamped to
/// the configured bounds on every write and never on read.
pub struct Attribute {
    identifier: String,
    value: i64,
    min: Option<i64>,
    max: Option<i64>,
}

impl View for Attribute {
    type V = AttrView;

    closed spec fn view(&self) -> AttrView {
        AttrView { id: self.identifier@, value: self.value, min: self.min, max: self.max }
    }
}

impl Attribute {
    /// A fresh, unbounded attribute. The identifier is normalized to ASCII
    /// lower case on construction.
    pub fn new(identifier: &str, value: i64) -> (r: Self)
        ensures
            r@ == (AttrView { id: spec_lower(identifier@), value, min: None, max: None }),
    {
        Attribute { identifier: ascii_lower(identifier), value, min: None, max: None }
    }

    /// The same attribute with the given bounds; the current value is
    /// clamped into them so the bound invariant holds from here on.
    pub fn with_bounds(self, min: Option<i64>, max: Option<i64>) -> (r: Self)
        requires
            bounds_ok(min, max),
        ensures
            r@ == (AttrView {
                id: self@.id,
                value: clamp(self@.value as int, min, max) as i64,
                min,
                max,
            }),
            in_bounds(r@),
    {
        let mut a = self;
        a.min = min;
        a.max = max;
        let v = a.value;
        a.set_value(v);
        a
    }

    /// The current value.
    pub fn value(&self) -> (r: i64)
        ensures
            r == self@.value,
    {
        self.value
    }

    /// Write a value, clamping it into the configured bounds.
    pub fn set_value(&mut self, new_value: i64)
        ensures
            final(self)@ == (AttrView {
                value: clamp(new_value as int, old(self)@.min, old(self)@.max) as i64,
                ..old(self)@
            }),
            old(self)@.min is None && old(self)@.max is None ==> final(self)@.value == new_value,
            bounds_ok(old(self)@.min, old(self)@.max) ==> in_bounds(final(self)@),
    {
        let mut x = new_value;
        match self.min {
            Some(l) => {
                if x < l {
                    x = l;
                }
            },
            None => {},
        }
        match self.max {
            Some(h) => {
                if x > h {
                    x = h;
                }
            },
            None => {},
        }
        self.value = x;
    }

    /// The attribute with `value` written through [`Attribute::set_value`].
    pub fn with_value(self, value: i64) -> (r: Self)
        ensures
            r@ == (AttrView {
                value: clamp(value as int, self@.min, self@.max) as i64,
                ..self@
            }),
    {
        let mut a = self;
        a.set_value(value);
        a
    }
}

// ===============
// AttributeCollection
// ===============

/// The index of the last entry whose key equals `id`, if any. Lookups use
/// the last matching entry, so re-adding an identifier overwrites what a
/// lookup sees while the earlier entry stays in the backing storage.
pub open spec fn find_last(s: Seq<(Seq<char>, AttrView)>, id: Seq<char>) -> Option<int>
    decreases s.len(),
{
    if s.len() == 0 {
        None
    } else if s.last().0 == id {
        Some(s.len() - 1)
    } else {
        find_last(s.drop_last(), id)
    }
}

/// The attribute a lookup of `id` sees, if any.
pub open spec fn lookup(s: Seq<(Seq<char>, AttrView)>, id: Seq<char>) -> Option<AttrView> {
    match find_last(s, id) {
        Some(i) => Some(s[i].1),
        None => None,
    }
}

/// If `i` is a matching index with no later match, [`find_last`] returns it.
pub proof fn lemma_find_last_at(s: Seq<(Seq<char>, AttrView)>, id: Seq<char>, i: int)
    requires
        0 <= i < s.len(),
        s[i].0 == id,
        forall|j: int| i < j < s.len() ==> s[j].0 != id,
    ensures
        find_last(s, id) == Some(i),
    decreases s.len(),
{
    if i == s.len() - 1 {
    } else {
        assert(s.last().0 != id);
        assert(s.drop_last()[i] == s[i]);
        assert forall|j: int| i < j < s.len() - 1 implies s.drop_last()[j].0 != id by {
            assert(s.drop_last()[j] == s[j]);
        }
        lemma_find_last_at(s.drop_last(), id, i);
    }
}

/// If no entry matches, [`find_last`] finds nothing.
pub proof fn lemma_find_last_none(s: Seq<(Seq<char>, AttrView)>, id: Seq<char>)
    requires
        forall|j: int| 0 <= j < s.len() ==> s[j].0 != id,
    ensures
        find_last(s, id) is None,
    decreases s.len(),
{
    if s.len() > 0 {
        assert(s.last() == s[s.len() - 1]);
        assert forall|j: int| 0 <= j < s.len() - 1 implies s.drop_last()[j].0 != id by {
            assert(s.drop_last()[j] == s[j]);
        }
        lemma_find_last_none(s.drop_last(), id);
    }
}

/// A mapping from identifiers to attributes, backed by a list of key-value
/// entries where the last entry for a key wins.
pub struct AttributeCollection {
    entries: Vec<(String, Attribute)>,
}

impl View for AttributeCollection {
    type V = Seq<(Seq<char>, AttrView)>;

    closed spec fn view(&self) -> Seq<(Seq<char>, AttrView)> {
        self.entries@.map(|_i: int, p: (String, Attribute)| (p.0@, p.1@))
    }
}

impl AttributeCollection {
    /// An empty collection.
    pub fn new() -> (r: Self)
        ensures
            r@ =~= Seq::<(Seq<char>, AttrView)>::empty(),
    {
        AttributeCollection { entries: Vec::new() }
    }

    /// Register `attribute` under `identifier`; the key is normalized to
    /// ASCII lower case, as attribute identifiers are. A duplicate
    /// identifier overwrites what lookups see; the earlier attribute stays
    /// in storage.
    pub fn add_attribute(&mut self, identifier: String, attribute: Attribute)
        ensures
            final(self)@ == old(self)@.push((spec_lower(identifier@), attribute@)),
    {
        self.entries.push((ascii_lower(identifier.as_str()), attribute));
        proof {
            assert(final(self)@ =~= old(self)@.push((spec_lower(identifier@), attribute@)));
        }
    }

    /// The attribute registered under `identifier`, if any.
    pub fn get_attribute(&self, identifier: &String) -> (r: Option<&Attribute>)
        ensures
            match r {
                Some(a) => lookup(self@, identifier@) == Some(a@),
                None => lookup(self@, identifier@) is None,
            },
    {
        let n = self.entries.len();
        let mut i = n;
        while i > 0
            invariant
                i <= n,
                n == self.entries@.len(),
                forall|j: int| i <= j < n ==> self@[j].0 != identifier@,
            decreases i,
        {
            i = i - 1;
            if str_eq(self.entries[i].0.as_str(), identifier.as_str()) {
                proof {
                    assert(self@[i as int].0 == identifier@);
                    lemma_find_last_at(self@, identifier@, i as int);
                }
                return Some(&self.entries[i].1);
            }
        }
        proof {
            lemma_find_last_none(self@, identifier@);
        }
        None
    }

    /// The value of the attribute registered under `identifier`, if any.
    pub fn get_attribute_value(&self, identifier: &String) -> (r: Option<i64>)
        ensures
            match r {
                Some(v) => lookup(self@, identifier@) matches Some(a) && a.value == v,
                None => lookup(self@, identifier@) is None,
            },
    {
        match self.get_attribute(identifier) {
            Some(a) => Some(a.value()),
            None => None,
        }
    }

    /// Mutable access to the attribute registered under `identifier`, if
    /// any.
    pub fn get_attribute_mut(&mut self, identifier: &String) -> (r: Option<&mut Attribute>)
        ensures
            find_last(old(self)@, identifier@) is None ==> r.is_none() && *final(self) == *old(
                self,
            ),
            find_last(old(self)@, identifier@) matches Some(i) ==> r.is_some() && (*r.unwrap())@
                == old(self)@[i].1 && final(self)@ =~= old(self)@.update(
                i,
                (old(self)@[i].0, (*final(r.unwrap()))@),
            ),
    {
        let n = self.entries.len();
        let mut i = n;
        while i > 0
            invariant
                *self == *old(self),
                i <= n,
                n == self.entries@.len(),
                forall|j: int| i <= j < n ==> self@[j].0 != identifier@,
            decreases i,
        {
            i = i - 1;
            if str_eq(self.entries[i].0.as_str(), identifier.as_str()) {
                proof {
                    assert(self@[i as int].0 == identifier@);
                    lemma_find_last_at(self@, identifier@, i as int);
                }
                return Some(&mut self.entries[i].1);
            }
        }
        proof {
            lemma_find_last_none(self@, identifier@);
        }
        None
    }

    /// Write `value` to the attribute registered under `identifier`,
    /// clamping to its bounds; a miss is a silent no-op.
    pub fn set_attribute_value(&mut self, identifier: &String, value: i64)
        ensures
            match find_last(old(self)@, identifier@) {
                None => *final(self) == *old(self),
                Some(i) => final(self)@ == old(self)@.update(
                    i,
                    (
                        old(self)@[i].0,
                        AttrView {
                            value: clamp(value as int, old(self)@[i].1.min, old(self)@[i].1.max)
                                as i64,
                            ..old(self)@[i].1
                        },
                    ),
                ),
            },
    {
        match self.get_attribute_mut(identifier) {
            Some(a) => a.set_value(value),
            None => {},
        }
    }
}

// ===============
// Status
// ===============

/// A named boolean condition a character either has or lacks. The name is
/// normalized to ASCII lower case on construction.
pub struct Status {
    name: String,
}

impl View for Status {
    type V = Seq<char>;

    closed spec fn view(&self) -> Seq<char> {
        self.name@
    }
}

impl Status {
    /// A status with the given (lower-cased) name.
    pub fn new(name: &str) -> (r: Self)
        ensures
            r@ == spec_lower(name@),
    {
        Status { name: ascii_lower(name) }
    }
}

impl Clone for Status {
    fn clone(&self) -> (r: Self)
        ensures
            r == *self,
    {
        Status { name: self.name.clone() }
    }
}

/// A set of statuses; presence in the collection is the state.
pub struct StatusCollection {
    statuses: Vec<Status>,
}

impl View for StatusCollection {
    type V = Set<Seq<char>>;

    closed spec fn view(&self) -> Set<Seq<char>> {
        Set::new(
            |n: Seq<char>|
                exists|i: int| 0 <= i < self.statuses@.len() && self.statuses@[i]@ == n,
        )
    }
}

impl StatusCollection {
    /// An empty collection.
    pub fn new() -> (r: Self)
        ensures
            r@ =~= Set::<Seq<char>>::empty(),
    {
        StatusCollection { statuses: Vec::new() }
    }

    /// Whether the character has `status`.
    pub fn contains(&self, status: &Status) -> (r: bool)
        ensures
            r == self@.contains(status@),
    {
        let n = self.statuses.len();
        let mut i: usize = 0;
        while i < n
            invariant
                i <= n,
                n == self.statuses@.len(),
                forall|j: int| 0 <= j < i ==> self.statuses@[j]@ != status@,
            decreases n - i,
        {
            if str_eq(self.statuses[i].name.as_str(), status.name.as_str()) {
                return true;
            }
            i = i + 1;
        }
        false
    }

    /// Grant `status`; re-adding a present status is a no-op.
    pub fn add(&mut self, status: Status)
        ensures
            final(self)@ == old(self)@.insert(status@),
    {
        if !self.contains(&status) {
            let ghost sv = status@;
            self.statuses.push(status);
            proof {
                let n0 = old(self).statuses@.len();
                assert(self.statuses@[n0 as int]@ == sv);
                assert forall|n: Seq<char>| #[trigger] self@.contains(n) implies old(
                    self,
                )@.insert(sv).contains(n) by {
                    let i = choose|i: int|
                        0 <= i < self.statuses@.len() && self.statuses@[i]@ == n;
                    if i < n0 {
                        assert(old(self).statuses@[i]@ == n);
                    }
                }
                assert forall|n: Seq<char>| old(self)@.insert(sv).contains(n) implies #[trigger] self@.contains(
                    n,
                ) by {
                    if n == sv {
                        assert(self.statuses@[n0 as int]@ == n);
                    } else {
                        let i = choose|i: int|
                            0 <= i < old(self).statuses@.len() && old(self).statuses@[i]@ == n;
                        assert(self.statuses@[i]@ == n);
                    }
                }
                assert(final(self)@ =~= old(self)@.insert(sv));
            }
        } else {
            proof {
                assert(final(self)@ =~= old(self)@.insert(status@));
            }
        }
    }

    /// Revoke `status`; removing an absent status is a no-op.
    pub fn remove(&mut self, status: &Status)
        ensures
            final(self)@ == old(self)@.remove(status@),
    {
        let n = self.statuses.len();
        let mut kept: Vec<Status> = Vec::new();
        let mut i: usize = 0;
        while i < n
            invariant
                i <= n,
                n == self.statuses@.len(),
                forall|k: int| 0 <= k < kept@.len() ==> (#[trigger] kept@[k])@ != status@,
                forall|k: int| 0 <= k < kept@.len() ==> exists|j: int|
                    0 <= j < i && self.statuses@[j]@ == (#[trigger] kept@[k])@,
                forall|j: int|
                    0 <= j < i && (#[trigger] self.statuses@[j])@ != status@ ==> exists|k: int|
                        0 <= k < kept@.len() && kept@[k]@ == self.statuses@[j]@,
            decreases n - i,
        {
            let ghost kept0 = kept@;
            if !str_eq(self.statuses[i].name.as_str(), status.name.as_str()) {
                kept.push(self.statuses[i].clone());
                proof {
                    let k0 = kept@.len() - 1;
                    assert(kept@[k0]@ == self.statuses@[i as int]@);
                    assert forall|j: int|
                        0 <= j < i + 1 && (#[trigger] self.statuses@[j])@ != status@ implies exists|k: int|
                        0 <= k < kept@.len() && kept@[k]@ == self.statuses@[j]@ by {
                        if j == i {
                            assert(kept@[k0]@ == self.statuses@[j]@);
                        } else {
                            let k = choose|k: int|
                                0 <= k < kept0.len() && kept0[k]@ == self.statuses@[j]@;
                            assert(kept@[k]@ == self.statuses@[j]@);
                        }
                    }
                }
            }
            i = i + 1;
        }
        self.statuses = kept;
        proof {
            assert forall|m: Seq<char>| #[trigger] self@.contains(m) implies old(self)@.remove(
                status@,
            ).contains(m) by {
                let k = choose|k: int| 0 <= k < self.statuses@.len() && self.statuses@[k]@ == m;
                let j = choose|j: int|
                    0 <= j < old(self).statuses@.len() && old(self).statuses@[j]@
                        == self.statuses@[k]@;
                assert(old(self).statuses@[j]@ == m);
            }
            assert forall|m: Seq<char>| old(self)@.remove(status@).contains(m) implies #[trigger] self@.contains(
                m,
            ) by {
                let j = choose|j: int|
                    0 <= j < old(self).statuses@.len() && old(self).statuses@[j]@ == m;
                let k = choose|k: int|
                    0 <= k < self.statuses@.len() && self.statuses@[k]@ == old(self).statuses@[j]@;
                assert(self.statuses@[k]@ == m);
            }
            assert(final(self)@ =~= old(self)@.remove(status@));
        }
    }
}

// ===============
// Character
// ===============

/// The non-collection part of a character: its display name. Display names
/// keep their case.
pub struct CharacterBase {
    name: String,
}

impl View for CharacterBase {
    type V = Seq<char>;

    closed spec fn view(&self) -> Seq<char> {
        self.name@
    }
}

impl CharacterBase {
    /// The character's display name.
    pub fn name(&self) -> (r: &str)
        ensures
            r@ == self@,
    {
        self.name.as_str()
    }

    /// A bare character base with the given display name.
    pub fn new_base(name: &str) -> (r: Self)
        ensures
            r@ == name@,
    {
        CharacterBase { name: name.to_owned() }
    }

    /// A fresh character: a display name, empty attribute and status
    /// collections, and empty incoming and outgoing modifier collections.
    pub fn new(name: &str) -> (r: Character)
        ensures
            r.base@ == name@,
            r.attributes@ =~= Seq::<(Seq<char>, AttrView)>::empty(),
            r.statuses@ =~= Set::<Seq<char>>::empty(),
            r.incoming.attribute_mods() =~= Seq::<(Seq<char>, crate::modifier::Modifier)>::empty(),
            r.incoming.action_mods() =~= Seq::<(Seq<char>, crate::modifier::Modifier)>::empty(),
            r.incoming.complex_mods() =~= Seq::<crate::modifier::ComplexModifier>::empty(),
            r.outgoing.attribute_mods() =~= Seq::<(Seq<char>, crate::modifier::Modifier)>::empty(),
            r.outgoing.action_mods() =~= Seq::<(Seq<char>, crate::modifier::Modifier)>::empty(),
            r.outgoing.complex_mods() =~= Seq::<crate::modifier::ComplexModifier>::empty(),
    {
        Character {
            base: CharacterBase::new_base(name),
            attributes: AttributeCollection::new(),
            statuses: StatusCollection::new(),
            incoming: ModifierCollection::new(),
            outgoing: ModifierCollection::new(),
        }
    }
}

/// A whole character: its base, its attribute and status collections, and
/// its two modifier collections — incoming (applied to changes it receives)
/// and outgoing (applied to changes it deals).
pub struct Character {
    pub base: CharacterBase,
    pub attributes: AttributeCollection,
    pub statuses: StatusCollection,
    pub incoming: ModifierCollection,
    pub outgoing: ModifierCollection,
}

} // verus!
