//! Building action documents from structured data, and writing them back.
//!
//! A document node is either *simple* — an object with a `target` and a
//! `changes` array — or *complex* — an object with an `actions` array of
//! nested nodes. A top-level node must carry a non-empty name; nested nodes
//! need not.
//! The structured data is modeled by [`JsonVal`]; parsing text into that
//! model is the one step left to an outside parser.

use vstd::prelude::*;
use vstd::string::*;
use crate::action::Target;
use crate::text::{ascii_lower, spec_lower, str_eq};
use crate::Error;

verus! {

broadcast use vstd::string::group_string_axioms;

// ===============
// The structured-value model
// ===============

/// The library's model of a structured (JSON-like) value. A number that is
/// not a 64-bit integer is kept only as the fact that it was one.
#[derive(Debug)]
pub enum JsonVal {
    Null,
    Bool(bool),
    Int(i64),
    NonIntegral,
    Str(String),
    Arr(Vec<JsonVal>),
    Obj(Vec<(String, JsonVal)>),
}

/// The mathematical content of a [`JsonVal`].
#[verifier::ext_equal]
pub enum JsonView {
    Null,
    Bool(bool),
    Int(i64),
    NonIntegral,
    Str(Seq<char>),
    Arr(Seq<JsonView>),
    Obj(Seq<(Seq<char>, JsonView)>),
}

/// The view of a structured value.
pub open spec fn jview(v: JsonVal) -> JsonView
    decreases v,
{
    match v {
        JsonVal::Null => JsonView::Null,
        JsonVal::Bool(b) => JsonView::Bool(b),
        JsonVal::Int(i) => JsonView::Int(i),
        JsonVal::NonIntegral => JsonView::NonIntegral,
        JsonVal::Str(s) => JsonView::Str(s@),
        JsonVal::Arr(a) => JsonView::Arr(jview_seq(a@)),
        JsonVal::Obj(o) => JsonView::Obj(jview_obj(o@)),
    }
}

/// The views of a sequence of structured values.
pub open spec fn jview_seq(s: Seq<JsonVal>) -> Seq<JsonView>
    decreases s,
{
    if s.len() == 0 {
        Seq::empty()
    } else {
        jview_seq(s.drop_last()).push(jview(s.last()))
    }
}

/// The views of a sequence of key-value entries.
pub open spec fn jview_obj(s: Seq<(String, JsonVal)>) -> Seq<(Seq<char>, JsonView)>
    decreases s,
{
    if s.len() == 0 {
        Seq::empty()
    } else {
        jview_obj(s.drop_last()).push((s.last().0@, jview(s.last().1)))
    }
}

/// [`jview_seq`] is the element-wise view.
pub proof fn lemma_jview_seq(s: Seq<JsonVal>)
    ensures
        jview_seq(s).len() == s.len(),
        forall|i: int| 0 <= i < s.len() ==> jview_seq(s)[i] == jview(s[i]),
    decreases s,
{
    if s.len() > 0 {
        lemma_jview_seq(s.drop_last());
    }
}

/// [`jview_obj`] is the entry-wise view.
pub proof fn lemma_jview_obj(s: Seq<(String, JsonVal)>)
    ensures
        jview_obj(s).len() == s.len(),
        forall|i: int|
            0 <= i < s.len() ==> jview_obj(s)[i] == (s[i].0@, jview(s[i].1)),
    decreases s,
{
    if s.len() > 0 {
        lemma_jview_obj(s.drop_last());
    }
}

/// The value under the first entry with the given key, if any.
pub open spec fn obj_get(o: Seq<(Seq<char>, JsonView)>, key: Seq<char>) -> Option<JsonView>
    decreases o.len(),
{
    if o.len() == 0 {
        None
    } else if o[0].0 == key {
        Some(o[0].1)
    } else {
        obj_get(o.drop_first(), key)
    }
}

/// Whether the object has an entry with the given key.
pub open spec fn obj_has(o: Seq<(Seq<char>, JsonView)>, key: Seq<char>) -> bool {
    obj_get(o, key) is Some
}

/// A found entry is a component of the object.
pub proof fn lemma_obj_get_decreases(o: Seq<(Seq<char>, JsonView)>, key: Seq<char>)
    ensures
        obj_get(o, key) matches Some(x) ==> decreases_to!(o => x),
    decreases o.len(),
{
    if o.len() > 0 {
        if o[0].0 == key {
            assert(decreases_to!(o => o[0]));
            assert(decreases_to!(o[0] => o[0].1));
        } else {
            lemma_obj_get_decreases(o.drop_first(), key);
            assert(decreases_to!(o => o.drop_first()));
        }
    }
}

// ===============
// Action documents
// ===============

/// A named numeric change inside a simple document node. The name is
/// normalized to ASCII lower case on construction.
#[derive(Debug, PartialEq)]
pub struct ValueChange {
    pub name: String,
    pub change: i64,
}

impl ValueChange {
    /// A change of the given (lower-cased) attribute name and magnitude.
    pub fn new(name: &str, change: i64) -> (r: Self)
        ensures
            r.name@ == spec_lower(name@),
            r.change == change,
    {
        ValueChange { name: ascii_lower(name), change }
    }

    /// The attribute name this change addresses.
    pub fn name(&self) -> (r: &str)
        ensures
            r@ == self.name@,
    {
        self.name.as_str()
    }
}

impl Clone for ValueChange {
    fn clone(&self) -> (r: Self)
        ensures
            r == *self,
    {
        ValueChange { name: self.name.clone(), change: self.change }
    }
}

/// A simple document node: an optional name, a target designation, and a
/// batch of named changes.
#[derive(Debug)]
pub struct SimpleAction {
    pub name: Option<String>,
    pub target: Target,
    pub changes: Vec<ValueChange>,
}

impl SimpleAction {
    /// A named simple node.
    pub fn new(name: &str, target: Target, changes: Vec<ValueChange>) -> (r: Self)
        ensures
            r.name matches Some(n) && n@ == name@,
            r.target == target,
            r.changes == changes,
    {
        SimpleAction { name: Some(name.to_owned()), target, changes }
    }

    /// A simple node without a name, as nested nodes may be.
    pub fn new_anonymous(target: Target, changes: Vec<ValueChange>) -> (r: Self)
        ensures
            r.name is None,
            r.target == target,
            r.changes == changes,
    {
        SimpleAction { name: None, target, changes }
    }
}

/// A complex document node: an optional name and nested nodes.
#[derive(Debug)]
pub struct ComplexAction {
    pub name: Option<String>,
    pub actions: Vec<DeserializedAction>,
}

impl ComplexAction {
    /// A complex node of the given nested nodes.
    pub fn new(name: Option<String>, actions: Vec<DeserializedAction>) -> (r: Self)
        ensures
            r.name == name,
            r.actions == actions,
    {
        ComplexAction { name, actions }
    }
}

/// A document node as built from structured data.
#[derive(Debug)]
pub enum DeserializedAction {
    Complex(ComplexAction),
    Simple(SimpleAction),
}

impl DeserializedAction {
    /// The simple node this holds.
    pub fn unwrap_simple(self) -> (r: SimpleAction)
        requires
            self is Simple,
        ensures
            self == DeserializedAction::Simple(r),
    {
        match self {
            DeserializedAction::Simple(s) => s,
            DeserializedAction::Complex(_) => unreached(),
        }
    }

    /// The complex node this holds.
    pub fn unwrap_complex(self) -> (r: ComplexAction)
        requires
            self is Complex,
        ensures
            self == DeserializedAction::Complex(r),
    {
        match self {
            DeserializedAction::Complex(c) => c,
            DeserializedAction::Simple(_) => unreached(),
        }
    }
}

// ===============
// Document views
// ===============

/// The mathematical content of a [`ValueChange`].
#[verifier::ext_equal]
pub struct ChangeDoc {
    pub name: Seq<char>,
    pub change: i64,
}

/// The mathematical content of a document node.
#[verifier::ext_equal]
pub enum DocView {
    Simple { name: Option<Seq<char>>, target: Target, changes: Seq<ChangeDoc> },
    Complex { name: Option<Seq<char>>, actions: Seq<DocView> },
}

/// The view of an optional string.
pub open spec fn opt_str_view(o: Option<String>) -> Option<Seq<char>> {
    match o {
        Some(s) => Some(s@),
        None => None,
    }
}

/// The views of a batch of named changes.
pub open spec fn vcs_view(s: Seq<ValueChange>) -> Seq<ChangeDoc> {
    s.map(|_i: int, c: ValueChange| ChangeDoc { name: c.name@, change: c.change })
}

/// The view of a document node.
pub open spec fn doc_view(d: DeserializedAction) -> DocView
    decreases d,
{
    match d {
        DeserializedAction::Simple(s) => DocView::Simple {
            name: opt_str_view(s.name),
            target: s.target,
            changes: vcs_view(s.changes@),
        },
        DeserializedAction::Complex(c) => DocView::Complex {
            name: opt_str_view(c.name),
            actions: docs_view(c.actions@),
        },
    }
}

/// The views of a sequence of document nodes.
pub open spec fn docs_view(s: Seq<DeserializedAction>) -> Seq<DocView>
    decreases s,
{
    if s.len() == 0 {
        Seq::empty()
    } else {
        docs_view(s.drop_last()).push(doc_view(s.last()))
    }
}

// ===============
// Deserialization, specified
// ===============

/// Whether a value has the shape of a simple node: an object carrying
/// `target` and `changes` but no `actions`.
pub open spec fn spec_is_simple(v: JsonView) -> bool {
    v matches JsonView::Obj(o) && obj_has(o, "target"@) && obj_has(o, "changes"@) && !obj_has(
        o,
        "actions"@,
    )
}

/// The target designation a value names.
pub open spec fn spec_parse_target(v: JsonView) -> Result<Target, ()> {
    match v {
        JsonView::Str(s) => if s == "Actor"@ {
            Ok(Target::Actor)
        } else if s == "Target"@ {
            Ok(Target::Target)
        } else {
            Err(())
        },
        _ => Err(()),
    }
}

/// One named change read from an object with a string `name` and an
/// integer `change`.
pub open spec fn spec_parse_change(v: JsonView) -> Result<ChangeDoc, ()> {
    match v {
        JsonView::Obj(o) => match (obj_get(o, "name"@), obj_get(o, "change"@)) {
            (Some(JsonView::Str(n)), Some(JsonView::Int(c))) => Ok(
                ChangeDoc { name: n, change: c },
            ),
            _ => Err(()),
        },
        _ => Err(()),
    }
}

/// A batch of named changes; any malformed element fails the batch.
pub open spec fn spec_parse_changes(v: Seq<JsonView>) -> Result<Seq<ChangeDoc>, ()>
    decreases v.len(),
{
    if v.len() == 0 {
        Ok(Seq::empty())
    } else {
        match spec_parse_changes(v.drop_last()) {
            Ok(rest) => match spec_parse_change(v.last()) {
                Ok(c) => Ok(rest.push(c)),
                Err(()) => Err(()),
            },
            Err(()) => Err(()),
        }
    }
}

/// An optional name field: absent or null is no name, a string is a name,
/// anything else is malformed.
pub open spec fn spec_parse_opt_name(o: Seq<(Seq<char>, JsonView)>) -> Result<
    Option<Seq<char>>,
    (),
> {
    match obj_get(o, "name"@) {
        None => Ok(None),
        Some(JsonView::Null) => Ok(None),
        Some(JsonView::Str(s)) => Ok(Some(s)),
        Some(_) => Err(()),
    }
}

/// A simple node read from an object: optional `name`, required `target`
/// and `changes`.
pub open spec fn spec_parse_simple(v: JsonView) -> Result<DocView, ()> {
    match v {
        JsonView::Obj(o) => match (spec_parse_opt_name(o), obj_get(o, "target"@), obj_get(
            o,
            "changes"@,
        )) {
            (Ok(name), Some(tv), Some(JsonView::Arr(cs))) => match (spec_parse_target(tv),
            spec_parse_changes(cs)) {
                (Ok(t), Ok(ch)) => Ok(DocView::Simple { name, target: t, changes: ch }),
                _ => Err(()),
            },
            _ => Err(()),
        },
        _ => Err(()),
    }
}

/// A usable top-level name: present and non-empty.
pub open spec fn usable_name(n: Option<Seq<char>>) -> bool {
    n matches Some(s) && s.len() > 0
}

/// What building a document from a value yields. A simple-shaped value is
/// read as a simple node; any other object with an `actions` array is read
/// as a complex node of recursively-read children; a non-empty name is
/// required only where `require_name` says so, and children are read
/// without that requirement.
pub open spec fn spec_deserialize(v: JsonView, require_name: bool) -> Result<DocView, ()>
    decreases v,
{
    if spec_is_simple(v) {
        match spec_parse_simple(v) {
            Ok(doc) => if require_name && !usable_name(doc_name(doc)) {
                Err(())
            } else {
                Ok(doc)
            },
            Err(()) => Err(()),
        }
    } else {
        match v {
            JsonView::Obj(o) => {
                let name = match obj_get(o, "name"@) {
                    Some(JsonView::Str(s)) => Some(s),
                    _ => None,
                };
                if require_name && !usable_name(name) {
                    Err(())
                } else {
                    match obj_get(o, "actions"@) {
                        Some(arr) => match arr {
                            JsonView::Arr(items) => {
                                proof {
                                    lemma_obj_get_decreases(o, "actions"@);
                                }
                                match spec_deserialize_list(items) {
                                    Ok(ds) => Ok(DocView::Complex { name, actions: ds }),
                                    Err(()) => Err(()),
                                }
                            },
                            _ => Err(()),
                        },
                        None => Err(()),
                    }
                }
            },
            _ => Err(()),
        }
    }
}

/// A sequence of nested nodes, each read without the name requirement; any
/// malformed element fails the whole batch.
pub open spec fn spec_deserialize_list(items: Seq<JsonView>) -> Result<Seq<DocView>, ()>
    decreases items,
{
    if items.len() == 0 {
        Ok(Seq::empty())
    } else {
        match spec_deserialize_list(items.drop_last()) {
            Ok(rest) => match spec_deserialize(items.last(), false) {
                Ok(d) => Ok(rest.push(d)),
                Err(()) => Err(()),
            },
            Err(()) => Err(()),
        }
    }
}

// ===============
// Serialization, specified
// ===============

/// An optional name written back: a string when present, null otherwise.
pub open spec fn name_json(n: Option<Seq<char>>) -> JsonView {
    match n {
        Some(s) => JsonView::Str(s),
        None => JsonView::Null,
    }
}

/// The string a target designation is written as.
pub open spec fn target_text(t: Target) -> Seq<char> {
    match t {
        Target::Actor => "Actor"@,
        Target::Target => "Target"@,
    }
}

/// A batch of named changes written back.
pub open spec fn changes_json(cs: Seq<ChangeDoc>) -> Seq<JsonView> {
    cs.map(
        |_i: int, c: ChangeDoc|
            JsonView::Obj(
                seq![("name"@, JsonView::Str(c.name)), ("change"@, JsonView::Int(c.change))],
            ),
    )
}

/// What writing a document back yields: a simple node becomes an object
/// with `name`, `target` and `changes`; a complex node an object with
/// `name` and `actions`.
pub open spec fn spec_serialize(d: DocView) -> JsonView
    decreases d,
{
    match d {
        DocView::Simple { name, target, changes } => JsonView::Obj(
            seq![
                ("name"@, name_json(name)),
                ("target"@, JsonView::Str(target_text(target))),
                ("changes"@, JsonView::Arr(changes_json(changes))),
            ],
        ),
        DocView::Complex { name, actions } => JsonView::Obj(
            seq![("name"@, name_json(name)), ("actions"@, JsonView::Arr(spec_serialize_list(actions)))],
        ),
    }
}

/// A sequence of documents written back, in order.
pub open spec fn spec_serialize_list(ds: Seq<DocView>) -> Seq<JsonView>
    decreases ds,
{
    if ds.len() == 0 {
        Seq::empty()
    } else {
        spec_serialize_list(ds.drop_last()).push(spec_serialize(ds.last()))
    }
}

// ===============
// Lookup lemmas
// ===============

/// The first matching index is the one [`obj_get`] answers from.
pub proof fn lemma_obj_get_at(o: Seq<(Seq<char>, JsonView)>, key: Seq<char>, i: int)
    requires
        0 <= i < o.len(),
        o[i].0 == key,
        forall|j: int| 0 <= j < i ==> o[j].0 != key,
    ensures
        obj_get(o, key) == Some(o[i].1),
    decreases i,
{
    if i > 0 {
        assert forall|j: int| 0 <= j < i - 1 implies o.drop_first()[j].0 != key by {
            assert(o.drop_first()[j] == o[j + 1]);
        }
        assert(o.drop_first()[i - 1] == o[i]);
        lemma_obj_get_at(o.drop_first(), key, i - 1);
    }
}

/// With no matching entry, [`obj_get`] answers nothing.
pub proof fn lemma_obj_get_none(o: Seq<(Seq<char>, JsonView)>, key: Seq<char>)
    requires
        forall|j: int| 0 <= j < o.len() ==> o[j].0 != key,
    ensures
        obj_get(o, key) is None,
    decreases o.len(),
{
    if o.len() > 0 {
        assert forall|j: int| 0 <= j < o.len() - 1 implies o.drop_first()[j].0 != key by {
            assert(o.drop_first()[j] == o[j + 1]);
        }
        lemma_obj_get_none(o.drop_first(), key);
    }
}

// ===============
// Executable deserialization
// ===============

/// The index of the first entry with the given key, if any.
fn json_obj_find(o: &Vec<(String, JsonVal)>, key: &str) -> (r: Option<usize>)
    ensures
        match r {
            Some(i) => i < o@.len() && o@[i as int].0@ == key@ && obj_get(jview_obj(o@), key@)
                == Some(jview(o@[i as int].1)),
            None => obj_get(jview_obj(o@), key@) is None,
        },
{
    proof {
        lemma_jview_obj(o@);
    }
    let n = o.len();
    let mut i: usize = 0;
    while i < n
        invariant
            i <= n,
            n == o@.len(),
            forall|j: int| 0 <= j < i ==> o@[j].0@ != key@,
            jview_obj(o@).len() == o@.len(),
            forall|j: int| 0 <= j < o@.len() ==> jview_obj(o@)[j] == (o@[j].0@, jview(o@[j].1)),
        decreases n - i,
    {
        if str_eq(o[i].0.as_str(), key) {
            proof {
                lemma_obj_get_at(jview_obj(o@), key@, i as int);
            }
            return Some(i);
        }
        i = i + 1;
    }
    proof {
        lemma_obj_get_none(jview_obj(o@), key@);
    }
    None
}

/// Whether a value has the shape of a simple node.
fn is_simple_action(value: &JsonVal) -> (r: bool)
    ensures
        r == spec_is_simple(jview(*value)),
{
    match value {
        JsonVal::Obj(o) => {
            let t = json_obj_find(o, "target");
            let c = json_obj_find(o, "changes");
            let a = json_obj_find(o, "actions");
            t.is_some() && c.is_some() && a.is_none()
        },
        _ => false,
    }
}

/// The target designation a value names, or the structural error.
fn parse_target_value(v: &JsonVal) -> (r: Result<Target, Error>)
    ensures
        match spec_parse_target(jview(*v)) {
            Ok(t) => r == Ok::<Target, Error>(t),
            Err(()) => r == Err::<Target, Error>(Error::ToDo),
        },
{
    match v {
        JsonVal::Str(s) => {
            if str_eq(s.as_str(), "Actor") {
                Ok(Target::Actor)
            } else if str_eq(s.as_str(), "Target") {
                Ok(Target::Target)
            } else {
                Err(Error::ToDo)
            }
        },
        _ => Err(Error::ToDo),
    }
}

/// One named change read from a value, or the structural error.
fn parse_change_value(v: &JsonVal) -> (r: Result<ValueChange, Error>)
    ensures
        match spec_parse_change(jview(*v)) {
            Ok(c) => r matches Ok(vc) && vc.name@ == c.name && vc.change == c.change,
            Err(()) => r == Err::<ValueChange, Error>(Error::ToDo),
        },
{
    match v {
        JsonVal::Obj(o) => {
            let ni = json_obj_find(o, "name");
            let ci = json_obj_find(o, "change");
            match (ni, ci) {
                (Some(ni), Some(ci)) => {
                    match (&o[ni].1, &o[ci].1) {
                        (JsonVal::Str(n), JsonVal::Int(c)) => Ok(
                            ValueChange { name: n.clone(), change: *c },
                        ),
                        _ => Err(Error::ToDo),
                    }
                },
                _ => Err(Error::ToDo),
            }
        },
        _ => Err(Error::ToDo),
    }
}

/// Any malformed element fails the whole batch.
proof fn lemma_parse_changes_err(v: Seq<JsonView>, j: int)
    requires
        0 <= j < v.len(),
        spec_parse_change(v[j]) is Err,
    ensures
        spec_parse_changes(v) is Err,
    decreases v.len(),
{
    if j < v.len() - 1 {
        lemma_parse_changes_err(v.drop_last(), j);
    }
}

/// Reading one more change appends it to the batch.
proof fn lemma_parse_changes_push(v: Seq<JsonView>, x: JsonView)
    ensures
        spec_parse_changes(v.push(x)) == (match spec_parse_changes(v) {
            Ok(rest) => match spec_parse_change(x) {
                Ok(c) => Ok::<Seq<ChangeDoc>, ()>(rest.push(c)),
                Err(()) => Err::<Seq<ChangeDoc>, ()>(()),
            },
            Err(()) => Err::<Seq<ChangeDoc>, ()>(()),
        }),
{
    assert(v.push(x).drop_last() =~= v);
    assert(v.push(x).last() == x);
}

/// A batch of named changes read from an array of values.
fn parse_changes_values(items: &Vec<JsonVal>) -> (r: Result<Vec<ValueChange>, Error>)
    ensures
        match spec_parse_changes(jview_seq(items@)) {
            Ok(cs) => r matches Ok(v) && vcs_view(v@) =~= cs,
            Err(()) => r == Err::<Vec<ValueChange>, Error>(Error::ToDo),
        },
{
    proof {
        lemma_jview_seq(items@);
    }
    let n = items.len();
    let mut out: Vec<ValueChange> = Vec::new();
    let mut i: usize = 0;
    while i < n
        invariant
            i <= n,
            n == items@.len(),
            jview_seq(items@).len() == items@.len(),
            forall|j: int| 0 <= j < items@.len() ==> jview_seq(items@)[j] == jview(items@[j]),
            spec_parse_changes(jview_seq(items@).take(i as int)) matches Ok(cs) && cs =~= vcs_view(
                out@,
            ),
        decreases n - i,
    {
        let ghost prefix = jview_seq(items@).take(i as int);
        match parse_change_value(&items[i]) {
            Ok(vc) => {
                out.push(vc);
            },
            Err(_) => {
                proof {
                    lemma_parse_changes_err(jview_seq(items@), i as int);
                }
                return Err(Error::ToDo);
            },
        }
        proof {
            lemma_parse_changes_push(prefix, jview_seq(items@)[i as int]);
            assert(jview_seq(items@).take(i + 1) =~= prefix.push(jview_seq(items@)[i as int]));
            assert(spec_parse_changes(jview_seq(items@).take(i + 1)) matches Ok(cs) && cs
                =~= vcs_view(out@));
        }
        i = i + 1;
    }
    proof {
        assert(jview_seq(items@).take(n as int) =~= jview_seq(items@));
    }
    Ok(out)
}

/// A simple node read from a value, or the structural error.
fn deserialize_simple_action(value: &JsonVal) -> (r: Result<SimpleAction, Error>)
    ensures
        match spec_parse_simple(jview(*value)) {
            Ok(doc) => r matches Ok(sa) && doc_view(DeserializedAction::Simple(sa)) == doc,
            Err(()) => r == Err::<SimpleAction, Error>(Error::ToDo),
        },
{
    match value {
        JsonVal::Obj(o) => {
            let name: Option<String> = match json_obj_find(o, "name") {
                None => None,
                Some(i) => {
                    match &o[i].1 {
                        JsonVal::Null => None,
                        JsonVal::Str(s) => Some(s.clone()),
                        _ => {
                            return Err(Error::ToDo);
                        },
                    }
                },
            };
            let ti = json_obj_find(o, "target");
            let ci = json_obj_find(o, "changes");
            match (ti, ci) {
                (Some(ti), Some(ci)) => {
                    let target = match parse_target_value(&o[ti].1) {
                        Ok(t) => t,
                        Err(_) => {
                            return Err(Error::ToDo);
                        },
                    };
                    match &o[ci].1 {
                        JsonVal::Arr(items) => {
                            match parse_changes_values(items) {
                                Ok(changes) => Ok(SimpleAction { name, target, changes }),
                                Err(_) => Err(Error::ToDo),
                            }
                        },
                        _ => Err(Error::ToDo),
                    }
                },
                _ => Err(Error::ToDo),
            }
        },
        _ => Err(Error::ToDo),
    }
}

/// Viewing one more document appends its view.
proof fn lemma_docs_view_push(s: Seq<DeserializedAction>, d: DeserializedAction)
    ensures
        docs_view(s.push(d)) == docs_view(s).push(doc_view(d)),
{
    assert(s.push(d).drop_last() =~= s);
    assert(s.push(d).last() == d);
}

/// Any malformed element fails the whole batch of nested nodes.
proof fn lemma_deserialize_list_err(items: Seq<JsonView>, j: int)
    requires
        0 <= j < items.len(),
        spec_deserialize(items[j], false) is Err,
    ensures
        spec_deserialize_list(items) is Err,
    decreases items.len(),
{
    if j < items.len() - 1 {
        lemma_deserialize_list_err(items.drop_last(), j);
    }
}

/// Reading one more nested node appends it to the batch.
proof fn lemma_deserialize_list_push(items: Seq<JsonView>, x: JsonView)
    ensures
        spec_deserialize_list(items.push(x)) == (match spec_deserialize_list(items) {
            Ok(rest) => match spec_deserialize(x, false) {
                Ok(d) => Ok::<Seq<DocView>, ()>(rest.push(d)),
                Err(()) => Err::<Seq<DocView>, ()>(()),
            },
            Err(()) => Err::<Seq<DocView>, ()>(()),
        }),
{
    assert(items.push(x).drop_last() =~= items);
    assert(items.push(x).last() == x);
}

/// Build a document from a structured value: a simple-shaped value becomes
/// a simple node, any other object with an `actions` array a complex node
/// of recursively-read children. A non-empty name is required only at the
/// root; anything else is the structural error.
pub fn deserialize_action(value: &JsonVal, require_name: bool) -> (r: Result<
    DeserializedAction,
    Error,
>)
    ensures
        match spec_deserialize(jview(*value), require_name) {
            Ok(doc) => r matches Ok(d) && doc_view(d) == doc,
            Err(()) => r == Err::<DeserializedAction, Error>(Error::ToDo),
        },
    decreases *value,
{
    if is_simple_action(value) {
        match deserialize_simple_action(value) {
            Ok(sa) => {
                let name_ok = match &sa.name {
                    Some(n) => !n.as_str().is_empty(),
                    None => false,
                };
                if require_name && !name_ok {
                    Err(Error::ToDo)
                } else {
                    Ok(DeserializedAction::Simple(sa))
                }
            },
            Err(_) => Err(Error::ToDo),
        }
    } else {
        match value {
            JsonVal::Obj(o) => {
                let name: Option<String> = match json_obj_find(o, "name") {
                    Some(i) => {
                        match &o[i].1 {
                            JsonVal::Str(s) => Some(s.clone()),
                            _ => None,
                        }
                    },
                    None => None,
                };
                let name_ok = match &name {
                    Some(n) => !n.as_str().is_empty(),
                    None => false,
                };
                if require_name && !name_ok {
                    return Err(Error::ToDo);
                }
                match json_obj_find(o, "actions") {
                    Some(ai) => {
                        match &o[ai].1 {
                            JsonVal::Arr(items) => {
                                proof {
                                    lemma_jview_seq(items@);
                                }
                                let n = items.len();
                                let mut out: Vec<DeserializedAction> = Vec::new();
                                let mut k: usize = 0;
                                while k < n
                                    invariant
                                        k <= n,
                                        n == items@.len(),
                                        ai < o@.len(),
                                        o@[ai as int].1 matches JsonVal::Arr(its) && its == *items,
                                        *value matches JsonVal::Obj(ov) && ov == *o,
                                        obj_get(jview_obj(o@), "actions"@) == Some(
                                            jview(o@[ai as int].1),
                                        ),
                                        jview(o@[ai as int].1) == JsonView::Arr(
                                            jview_seq(items@),
                                        ),
                                        jview_seq(items@).len() == items@.len(),
                                        forall|j: int|
                                            0 <= j < items@.len() ==> jview_seq(items@)[j] == jview(
                                                items@[j],
                                            ),
                                        spec_deserialize_list(jview_seq(items@).take(k as int))
                                            matches Ok(ds) && ds =~= docs_view(out@),
                                    decreases n - k,
                                {
                                    let ghost prefix = jview_seq(items@).take(k as int);
                                    proof {
                                        assert(decreases_to!(*value => (*value)->Obj_0));
                                        assert(decreases_to!((*value)->Obj_0 => o@));
                                        assert(decreases_to!(o@ => o@[ai as int]));
                                        assert(decreases_to!(o@[ai as int] => o@[ai as int].1));
                                        assert(decreases_to!(o@[ai as int].1 => (o@[
                                            ai as int
                                        ].1)->Arr_0));
                                        assert(decreases_to!(*items => items@));
                                        assert(decreases_to!(items@ => items@[k as int]));
                                    }
                                    match deserialize_action(&items[k], false) {
                                        Ok(d) => {
                                            let ghost out0 = out@;
                                            let ghost dv = doc_view(d);
                                            out.push(d);
                                            proof {
                                                lemma_deserialize_list_push(
                                                    prefix,
                                                    jview_seq(items@)[k as int],
                                                );
                                                assert(jview_seq(items@).take(k + 1)
                                                    =~= prefix.push(jview_seq(items@)[k as int]));
                                                lemma_docs_view_push(out0, out@.last());
                                                assert(out@ =~= out0.push(out@.last()));
                                                assert(docs_view(out@) == docs_view(out0).push(
                                                    dv,
                                                ));
                                            }
                                        },
                                        Err(_) => {
                                            proof {
                                                lemma_deserialize_list_err(
                                                    jview_seq(items@),
                                                    k as int,
                                                );
                                                assert(jview(*value) == JsonView::Obj(
                                                    jview_obj(o@),
                                                ));
                                                assert(obj_get(jview_obj(o@), "actions"@)
                                                    == Some(JsonView::Arr(jview_seq(items@))));
                                                assert(spec_deserialize(
                                                    jview(*value),
                                                    require_name,
                                                ) is Err);
                                            }
                                            return Err(Error::ToDo);
                                        },
                                    }
                                    k = k + 1;
                                }
                                proof {
                                    assert(jview_seq(items@).take(n as int) =~= jview_seq(
                                        items@,
                                    ));
                                }
                                Ok(
                                    DeserializedAction::Complex(
                                        ComplexAction { name, actions: out },
                                    ),
                                )
                            },
                            _ => Err(Error::ToDo),
                        }
                    },
                    None => Err(Error::ToDo),
                }
            },
            _ => Err(Error::ToDo),
        }
    }
}

// ===============
// Executable serialization
// ===============

/// Viewing one more structured value appends its view.
proof fn lemma_jview_seq_push(s: Seq<JsonVal>, x: JsonVal)
    ensures
        jview_seq(s.push(x)) == jview_seq(s).push(jview(x)),
{
    assert(s.push(x).drop_last() =~= s);
    assert(s.push(x).last() == x);
}

/// Write a document back as a structured value.
pub fn serialize_action(action: &DeserializedAction) -> (r: JsonVal)
    ensures
        jview(r) == spec_serialize(doc_view(*action)),
    decreases *action,
{
    match action {
        DeserializedAction::Simple(sa) => {
            let n = sa.changes.len();
            let mut cjs: Vec<JsonVal> = Vec::new();
            let mut i: usize = 0;
            while i < n
                invariant
                    i <= n,
                    n == sa.changes@.len(),
                    jview_seq(cjs@) =~~= changes_json(vcs_view(sa.changes@.take(i as int))),
                decreases n - i,
            {
                let c = &sa.changes[i];
                let mut entry: Vec<(String, JsonVal)> = Vec::new();
                entry.push((String::from_str("name"), JsonVal::Str(c.name.clone())));
                entry.push((String::from_str("change"), JsonVal::Int(c.change)));
                let ghost cjs0 = cjs@;
                cjs.push(JsonVal::Obj(entry));
                proof {
                    lemma_jview_obj(entry@);
                    assert(jview_obj(entry@) =~= seq![
                        ("name"@, JsonView::Str(c.name@)),
                        ("change"@, JsonView::Int(c.change)),
                    ]);
                    lemma_jview_seq_push(cjs0, cjs@.last());
                    assert(cjs@ =~= cjs0.push(cjs@.last()));
                    assert(sa.changes@.take(i + 1) =~= sa.changes@.take(i as int).push(
                        sa.changes@[i as int],
                    ));
                    assert(jview_seq(cjs@) =~~= changes_json(vcs_view(sa.changes@.take(i + 1))));
                }
                i = i + 1;
            }
            proof {
                assert(sa.changes@.take(n as int) =~= sa.changes@);
            }
            let mut entries: Vec<(String, JsonVal)> = Vec::new();
            let name_val = match &sa.name {
                Some(nm) => JsonVal::Str(nm.clone()),
                None => JsonVal::Null,
            };
            entries.push((String::from_str("name"), name_val));
            let target_val = match sa.target {
                Target::Actor => String::from_str("Actor"),
                Target::Target => String::from_str("Target"),
            };
            entries.push((String::from_str("target"), JsonVal::Str(target_val)));
            entries.push((String::from_str("changes"), JsonVal::Arr(cjs)));
            let r = JsonVal::Obj(entries);
            proof {
                lemma_jview_obj(entries@);
                assert(jview_obj(entries@) =~~= seq![
                    ("name"@, name_json(opt_str_view(sa.name))),
                    ("target"@, JsonView::Str(target_text(sa.target))),
                    ("changes"@, JsonView::Arr(changes_json(vcs_view(sa.changes@)))),
                ]);
                assert(jview(r) =~~= spec_serialize(doc_view(*action)));
            }
            r
        },
        DeserializedAction::Complex(ca) => {
            let n = ca.actions.len();
            let mut items: Vec<JsonVal> = Vec::new();
            let mut i: usize = 0;
            while i < n
                invariant
                    i <= n,
                    n == ca.actions@.len(),
                    *action matches DeserializedAction::Complex(c) && c == *ca,
                    jview_seq(items@) =~~= spec_serialize_list(docs_view(ca.actions@.take(i as int))),
                decreases n - i,
            {
                proof {
                    assert(decreases_to!(*action => (*action)->Complex_0));
                    assert(decreases_to!((*action)->Complex_0 => ca.actions));
                    assert(decreases_to!(ca.actions => ca.actions@));
                    assert(decreases_to!(ca.actions@ => ca.actions@[i as int]));
                }
                let piece = serialize_action(&ca.actions[i]);
                let ghost items0 = items@;
                items.push(piece);
                proof {
                    lemma_jview_seq_push(items0, items@.last());
                    assert(items@ =~= items0.push(items@.last()));
                    assert(ca.actions@.take(i + 1) =~= ca.actions@.take(i as int).push(
                        ca.actions@[i as int],
                    ));
                    lemma_docs_view_push(
                        ca.actions@.take(i as int),
                        ca.actions@[i as int],
                    );
                    assert(docs_view(ca.actions@.take(i + 1)) == docs_view(
                        ca.actions@.take(i as int),
                    ).push(doc_view(ca.actions@[i as int])));
                    assert(spec_serialize_list(
                        docs_view(ca.actions@.take(i as int)).push(
                            doc_view(ca.actions@[i as int]),
                        ),
                    ) == spec_serialize_list(docs_view(ca.actions@.take(i as int))).push(
                        spec_serialize(doc_view(ca.actions@[i as int])),
                    )) by {
                        let s = docs_view(ca.actions@.take(i as int));
                        let d = doc_view(ca.actions@[i as int]);
                        assert(s.push(d).drop_last() =~= s);
                        assert(s.push(d).last() == d);
                    }
                    assert(jview_seq(items@) =~~= spec_serialize_list(
                        docs_view(ca.actions@.take(i + 1)),
                    ));
                }
                i = i + 1;
            }
            proof {
                assert(ca.actions@.take(n as int) =~= ca.actions@);
            }
            let mut entries: Vec<(String, JsonVal)> = Vec::new();
            let name_val = match &ca.name {
                Some(nm) => JsonVal::Str(nm.clone()),
                None => JsonVal::Null,
            };
            entries.push((String::from_str("name"), name_val));
            entries.push((String::from_str("actions"), JsonVal::Arr(items)));
            let r = JsonVal::Obj(entries);
            proof {
                lemma_jview_obj(entries@);
                assert(jview_obj(entries@) =~~= seq![
                    ("name"@, name_json(opt_str_view(ca.name))),
                    ("actions"@, JsonView::Arr(spec_serialize_list(docs_view(ca.actions@)))),
                ]);
                assert(jview(r) =~~= spec_serialize(doc_view(*action)));
            }
            r
        },
    }
}

// ===============
// Round trip
// ===============

/// The name a document node carries, if any.
pub open spec fn doc_name(d: DocView) -> Option<Seq<char>> {
    match d {
        DocView::Simple { name, .. } => name,
        DocView::Complex { name, .. } => name,
    }
}

/// A batch of changes written back reads back as itself.
proof fn lemma_parse_changes_round(cs: Seq<ChangeDoc>)
    ensures
        spec_parse_changes(changes_json(cs)) == Ok::<Seq<ChangeDoc>, ()>(cs),
    decreases cs.len(),
{
    reveal_strlit("name");
    reveal_strlit("change");
    reveal_with_fuel(obj_get, 4);
    assert("name"@.len() == 4);
    assert("change"@.len() == 6);
    if cs.len() == 0 {
        assert(changes_json(cs) =~= Seq::<JsonView>::empty());
        assert(cs =~= Seq::<ChangeDoc>::empty());
    } else {
        lemma_parse_changes_round(cs.drop_last());
        let js = changes_json(cs);
        assert(js.drop_last() =~= changes_json(cs.drop_last()));
        let c = cs.last();
        let e = seq![("name"@, JsonView::Str(c.name)), ("change"@, JsonView::Int(c.change))];
        assert(js.last() == JsonView::Obj(e));
        assert(e.drop_first() =~= seq![e[1]]);
        assert(obj_get(e, "name"@) == Some(JsonView::Str(c.name)));
        assert(obj_get(e, "change"@) == Some(JsonView::Int(c.change)));
        assert(spec_parse_change(js.last()) matches Ok(cd) && cd =~= c);
        assert(cs.drop_last().push(c) =~= cs);
    }
}

/// A sequence of nested nodes written back reads back as itself.
proof fn lemma_round_trip_list(ds: Seq<DocView>)
    ensures
        spec_deserialize_list(spec_serialize_list(ds)) == Ok::<Seq<DocView>, ()>(ds),
    decreases ds,
{
    if ds.len() == 0 {
        assert(spec_serialize_list(ds) =~= Seq::<JsonView>::empty());
        assert(ds =~= Seq::<DocView>::empty());
    } else {
        lemma_round_trip_list(ds.drop_last());
        lemma_round_trip_any(ds.last(), false);
        let js = spec_serialize_list(ds);
        assert(js.drop_last() =~= spec_serialize_list(ds.drop_last()));
        assert(js.last() == spec_serialize(ds.last()));
        assert(ds.drop_last().push(ds.last()) =~= ds);
    }
}

/// A document written back reads back as itself; the name requirement may
/// be demanded only where the document carries a non-empty name.
proof fn lemma_round_trip_any(d: DocView, require_name: bool)
    requires
        require_name ==> usable_name(doc_name(d)),
    ensures
        spec_deserialize(spec_serialize(d), require_name) == Ok::<DocView, ()>(d),
    decreases d,
{
    reveal_strlit("name");
    reveal_strlit("target");
    reveal_strlit("changes");
    reveal_strlit("actions");
    reveal_strlit("Actor");
    reveal_strlit("Target");
    reveal_with_fuel(obj_get, 5);
    assert("name"@.len() == 4);
    assert("target"@.len() == 6);
    assert("changes"@.len() == 7);
    assert("actions"@.len() == 7);
    assert("changes"@[0] == 'c');
    assert("actions"@[0] == 'a');
    assert("Actor"@.len() == 5);
    assert("Target"@.len() == 6);
    match d {
        DocView::Simple { name, target, changes } => {
            let o = seq![
                ("name"@, name_json(name)),
                ("target"@, JsonView::Str(target_text(target))),
                ("changes"@, JsonView::Arr(changes_json(changes))),
            ];
            assert(spec_serialize(d) == JsonView::Obj(o));
            let o1 = o.drop_first();
            let o2 = o1.drop_first();
            assert(o1 =~= seq![o[1], o[2]]);
            assert(o2 =~= seq![o[2]]);
            assert(o2.drop_first() =~= Seq::<(Seq<char>, JsonView)>::empty());
            assert(obj_get(o, "target"@) == Some(JsonView::Str(target_text(target))));
            assert(obj_get(o, "changes"@) == Some(JsonView::Arr(changes_json(changes))));
            assert(obj_get(o, "actions"@) is None);
            assert(spec_is_simple(spec_serialize(d)));
            assert(obj_get(o, "name"@) == Some(name_json(name)));
            assert(spec_parse_opt_name(o) == Ok::<Option<Seq<char>>, ()>(name));
            assert(spec_parse_target(JsonView::Str(target_text(target))) == Ok::<Target, ()>(
                target,
            ));
            lemma_parse_changes_round(changes);
            assert(spec_parse_simple(spec_serialize(d)) matches Ok(doc) && doc =~= d);
        },
        DocView::Complex { name, actions } => {
            let o = seq![
                ("name"@, name_json(name)),
                ("actions"@, JsonView::Arr(spec_serialize_list(actions))),
            ];
            assert(spec_serialize(d) == JsonView::Obj(o));
            let o1 = o.drop_first();
            assert(o1 =~= seq![o[1]]);
            assert(o1.drop_first() =~= Seq::<(Seq<char>, JsonView)>::empty());
            assert(obj_get(o, "target"@) is None);
            assert(!spec_is_simple(spec_serialize(d)));
            assert(obj_get(o, "name"@) == Some(name_json(name)));
            assert(obj_get(o, "actions"@) == Some(JsonView::Arr(spec_serialize_list(actions))));
            lemma_round_trip_list(actions);
            assert(spec_deserialize(spec_serialize(d), require_name) matches Ok(doc) && doc
                =~= d);
        },
    }
}

/// Writing a well-formed document back and reading it again yields an
/// equal document: the round trip is the identity on any tree whose root
/// carries a non-empty name, which is the only place the name requirement
/// binds.
pub proof fn lemma_round_trip(d: DocView)
    requires
        usable_name(doc_name(d)),
    ensures
        spec_deserialize(spec_serialize(d), true) == Ok::<DocView, ()>(d),
{
    lemma_round_trip_any(d, true);
}

// ===============
// The outside parser boundary
// ===============

/// Declares `serde_json::Value` so it can stand in trusted signatures.
#[verifier::external_type_specification]
#[verifier::external_body]
pub struct ExSerdeValue(serde_json::Value);

/// What a `serde_json::Value` holds, as the library's own value model.
pub uninterp spec fn json_value_model(v: serde_json::Value) -> JsonVal;

/// The library-model result of parsing a JSON text, if the text is valid
/// JSON. The result depends on the text alone.
pub uninterp spec fn parsed_json_text(s: Seq<char>) -> Option<JsonVal>;

/// Relies on `serde_json::Value`'s variants and accessors: mirrors a
/// parsed value into the library's model, one variant to one variant; a
/// number that is a 64-bit integer becomes `Int`, any other `NonIntegral`.
#[verifier::external_body]
fn json_value_to_model(v: &serde_json::Value) -> (r: JsonVal)
    ensures
        r == json_value_model(*v),
{
    match v {
        serde_json::Value::Null => JsonVal::Null,
        serde_json::Value::Bool(b) => JsonVal::Bool(*b),
        serde_json::Value::Number(n) => {
            if let Some(i) = n.as_i64() { JsonVal::Int(i) } else { JsonVal::NonIntegral }
        },
        serde_json::Value::String(s) => JsonVal::Str(s.clone()),
        serde_json::Value::Array(a) => JsonVal::Arr(a.iter().map(json_value_to_model).collect()),
        serde_json::Value::Object(o) => JsonVal::Obj(
            o.iter().map(|(k, x)| (k.clone(), json_value_to_model(x))).collect(),
        ),
    }
}

/// Relies on `serde_json::from_str`: parses a JSON text into a value, or
/// fails on malformed input; the result is a function of the text alone.
#[verifier::external_body]
fn parse_json_value(s: &str) -> (r: Option<serde_json::Value>)
    ensures
        match r {
            Some(v) => parsed_json_text(s@) == Some(json_value_model(v)),
            None => parsed_json_text(s@) is None,
        },
{
    serde_json::from_str::<serde_json::Value>(s).ok()
}

/// Parse a JSON text and build the top-level action document from it. The
/// text must be valid JSON and the root node must carry a non-empty name;
/// any failure is the structural error.
pub fn deserialize_action_from_str(text: &str) -> (r: Result<DeserializedAction, Error>)
    ensures
        match parsed_json_text(text@) {
            None => r == Err::<DeserializedAction, Error>(Error::ToDo),
            Some(v) => match spec_deserialize(jview(v), true) {
                Ok(doc) => r matches Ok(d) && doc_view(d) == doc,
                Err(()) => r == Err::<DeserializedAction, Error>(Error::ToDo),
            },
        },
{
    match parse_json_value(text) {
        Some(raw) => {
            let value = json_value_to_model(&raw);
            deserialize_action(&value, true)
        },
        None => Err(Error::ToDo),
    }
}

} // verus!
