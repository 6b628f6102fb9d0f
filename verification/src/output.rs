//! Human-readable output of an applied action: template texts with
//! `{actor}` / `{target}` placeholder substitution, and structural
//! composition of several sub-action descriptions.

use vstd::prelude::*;
use vstd::string::*;
use crate::character::CharacterBase;
use crate::text::{replace_all, spec_replace};

verus! {

/// A placeholder token a template may carry.
#[derive(Debug, Copy, Clone, PartialEq, Eq, Structural)]
pub enum Replace {
    Actor,
    Target,
    Undefined,
}

/// The literal token text a placeholder stands for; `Undefined` has none.
pub open spec fn token(r: Replace) -> Seq<char> {
    match r {
        Replace::Actor => "{actor}"@,
        Replace::Target => "{target}"@,
        Replace::Undefined => Seq::empty(),
    }
}

impl Replace {
    /// The literal token text of this placeholder.
    pub fn to_string(&self) -> (r: String)
        ensures
            r@ == token(*self),
    {
        match self {
            Replace::Actor => String::from_str("{actor}"),
            Replace::Target => String::from_str("{target}"),
            Replace::Undefined => String::new(),
        }
    }
}

/// A description of an applied action: a plain text, a template with
/// placeholders, or a sequence of descriptions rendered on separate lines.
#[derive(Debug)]
pub enum ActionText {
    Simple(String),
    Replace(String, Vec<Replace>),
    Multiple(Vec<ActionText>),
}

/// The display names of a character slice.
pub open spec fn names_of(cs: Seq<CharacterBase>) -> Seq<Seq<char>> {
    cs.map(|_i: int, c: CharacterBase| c@)
}

/// The actor's display name, if the index is in range.
pub open spec fn actor_name(names: Seq<Seq<char>>, actor: int) -> Option<Seq<char>> {
    if 0 <= actor < names.len() {
        Some(names[actor])
    } else {
        None
    }
}

/// The first target's display name, if there is one and it is in range.
pub open spec fn target_name(names: Seq<Seq<char>>, targets: Seq<usize>) -> Option<Seq<char>> {
    if targets.len() > 0 && (targets[0] as int) < names.len() {
        Some(names[targets[0] as int])
    } else {
        None
    }
}

/// One placeholder substituted into `s`: every occurrence of its token is
/// replaced by the resolved name; an unresolvable placeholder leaves `s`
/// untouched.
pub open spec fn spec_apply_token(
    s: Seq<char>,
    t: Replace,
    names: Seq<Seq<char>>,
    actor: int,
    targets: Seq<usize>,
) -> Seq<char> {
    let w = match t {
        Replace::Actor => actor_name(names, actor),
        Replace::Target => target_name(names, targets),
        Replace::Undefined => None,
    };
    match w {
        Some(name) => spec_replace(s, token(t), name),
        None => s,
    }
}

/// All placeholders substituted into `s`, first to last.
pub open spec fn spec_apply_tokens(
    s: Seq<char>,
    toks: Seq<Replace>,
    names: Seq<Seq<char>>,
    actor: int,
    targets: Seq<usize>,
) -> Seq<char>
    decreases toks.len(),
{
    if toks.len() == 0 {
        s
    } else {
        spec_apply_token(
            spec_apply_tokens(s, toks.drop_last(), names, actor, targets),
            toks.last(),
            names,
            actor,
            targets,
        )
    }
}

/// Substituting one more placeholder applies it after the rest.
proof fn lemma_apply_tokens_push(
    s: Seq<char>,
    toks: Seq<Replace>,
    t: Replace,
    names: Seq<Seq<char>>,
    actor: int,
    targets: Seq<usize>,
)
    ensures
        spec_apply_tokens(s, toks.push(t), names, actor, targets) == spec_apply_token(
            spec_apply_tokens(s, toks, names, actor, targets),
            t,
            names,
            actor,
            targets,
        ),
{
    assert(toks.push(t).drop_last() =~= toks);
    assert(toks.push(t).last() == t);
}

/// What rendering an [`ActionText`] yields: a plain text as it is, a
/// template with its placeholders substituted, and a sequence of
/// descriptions joined by newlines, in order.
pub open spec fn spec_format(
    t: ActionText,
    names: Seq<Seq<char>>,
    actor: int,
    targets: Seq<usize>,
) -> Seq<char>
    decreases t,
{
    match t {
        ActionText::Simple(s) => s@,
        ActionText::Replace(s, toks) => spec_apply_tokens(s@, toks@, names, actor, targets),
        ActionText::Multiple(v) => spec_format_all(v@, names, actor, targets),
    }
}

/// A sequence of descriptions rendered and joined by newlines.
pub open spec fn spec_format_all(
    v: Seq<ActionText>,
    names: Seq<Seq<char>>,
    actor: int,
    targets: Seq<usize>,
) -> Seq<char>
    decreases v,
{
    if v.len() == 0 {
        Seq::empty()
    } else if v.len() == 1 {
        spec_format(v[0], names, actor, targets)
    } else {
        spec_format_all(v.drop_last(), names, actor, targets) + "\n"@ + spec_format(
            v.last(),
            names,
            actor,
            targets,
        )
    }
}

/// Rendering one more description appends a newline and its rendering.
proof fn lemma_format_all_push(
    v: Seq<ActionText>,
    t: ActionText,
    names: Seq<Seq<char>>,
    actor: int,
    targets: Seq<usize>,
)
    ensures
        spec_format_all(v.push(t), names, actor, targets) == if v.len() == 0 {
            spec_format(t, names, actor, targets)
        } else {
            spec_format_all(v, names, actor, targets) + "\n"@ + spec_format(
                t,
                names,
                actor,
                targets,
            )
        },
{
    assert(v.push(t).drop_last() =~= v);
    assert(v.push(t).last() == t);
    if v.len() == 0 {
        assert(v.push(t)[0] == t);
    }
}

/// Relies on `itertools::concat`: extends the first vector with the items
/// of the second, keeping order.
#[verifier::external_body]
fn concat_texts(a: Vec<ActionText>, b: Vec<ActionText>) -> (r: Vec<ActionText>)
    ensures
        r@ == a@ + b@,
{
    itertools::concat(vec![a, b])
}

/// The flattened parts of one description: a `Multiple`'s items, or the
/// description itself as a single part.
pub open spec fn parts_of(t: ActionText) -> Seq<ActionText> {
    match t {
        ActionText::Multiple(v) => v@,
        other => seq![other],
    }
}

/// The items the combination of two descriptions holds: the left side's
/// parts followed by the right side's parts, so flattening keeps
/// left-to-right order.
pub open spec fn combined_items(a: ActionText, b: ActionText) -> Seq<ActionText> {
    parts_of(a) + parts_of(b)
}

impl ActionText {
    /// Merge two descriptions into one `Multiple` holding
    /// [`combined_items`] of the two: the left side's parts, then the
    /// right side's.
    pub fn combine(self, other: ActionText) -> (r: Self)
        ensures
            r matches ActionText::Multiple(items) && items@ =~= combined_items(self, other),
    {
        match (self, other) {
            (ActionText::Multiple(v), ActionText::Multiple(w)) => ActionText::Multiple(
                concat_texts(v, w),
            ),
            (ActionText::Multiple(mut v), b) => {
                v.push(b);
                ActionText::Multiple(v)
            },
            (a, ActionText::Multiple(v)) => {
                let mut front: Vec<ActionText> = Vec::new();
                front.push(a);
                ActionText::Multiple(concat_texts(front, v))
            },
            (a, b) => {
                let mut v: Vec<ActionText> = Vec::new();
                v.push(a);
                v.push(b);
                ActionText::Multiple(v)
            },
        }
    }

    /// Render this description against a character slice: `{actor}` and
    /// `{target}` are looked up by index, unresolvable placeholders stay
    /// untouched, and `Multiple` renders its parts joined by newlines.
    pub fn format(&self, characters: &[CharacterBase], actor: usize, targets: &[usize]) -> (r:
        String)
        ensures
            r@ == spec_format(*self, names_of(characters@), actor as int, targets@),
        decreases *self,
    {
        match self {
            ActionText::Simple(s) => s.clone(),
            ActionText::Replace(s, toks) => {
                let mut result = s.clone();
                let n = toks.len();
                let mut i: usize = 0;
                while i < n
                    invariant
                        i <= n,
                        n == toks@.len(),
                        result@ == spec_apply_tokens(
                            s@,
                            toks@.take(i as int),
                            names_of(characters@),
                            actor as int,
                            targets@,
                        ),
                    decreases n - i,
                {
                    let ghost prefix = toks@.take(i as int);
                    let tok = toks[i];
                    let with: Option<&str> = match tok {
                        Replace::Actor => {
                            if actor < characters.len() {
                                Some(characters[actor].name())
                            } else {
                                None
                            }
                        },
                        Replace::Target => {
                            if targets.len() > 0 && targets[0] < characters.len() {
                                Some(characters[targets[0]].name())
                            } else {
                                None
                            }
                        },
                        Replace::Undefined => None,
                    };
                    match with {
                        Some(name) => {
                            let pat = tok.to_string();
                            result = replace_all(result.as_str(), pat.as_str(), name);
                        },
                        None => {},
                    }
                    proof {
                        lemma_apply_tokens_push(
                            s@,
                            prefix,
                            tok,
                            names_of(characters@),
                            actor as int,
                            targets@,
                        );
                        assert(toks@.take(i + 1) =~= prefix.push(tok));
                    }
                    i = i + 1;
                }
                proof {
                    assert(toks@.take(n as int) =~= toks@);
                }
                result
            },
            ActionText::Multiple(v) => {
                let mut result = String::new();
                let n = v.len();
                let mut i: usize = 0;
                while i < n
                    invariant
                        i <= n,
                        n == v@.len(),
                        result@ == spec_format_all(
                            v@.take(i as int),
                            names_of(characters@),
                            actor as int,
                            targets@,
                        ),
                        forall|j: int|
                            0 <= j < v@.len() ==> decreases_to!(*self => v@[j]),
                    decreases n - i,
                {
                    let ghost prefix = v@.take(i as int);
                    let piece = (&v[i]).format(characters, actor, targets);
                    if i > 0 {
                        result.append("\n");
                    }
                    result.append(piece.as_str());
                    proof {
                        lemma_format_all_push(
                            prefix,
                            v@[i as int],
                            names_of(characters@),
                            actor as int,
                            targets@,
                        );
                        assert(v@.take(i + 1) =~= prefix.push(v@[i as int]));
                    }
                    i = i + 1;
                }
                proof {
                    assert(v@.take(n as int) =~= v@);
                }
                result
            },
        }
    }

    /// The raw template or text of a leaf description; a `Multiple` has
    /// none.
    pub fn extract_raw_string(&self) -> (r: Option<&str>)
        ensures
            match self {
                ActionText::Simple(s) => r matches Some(x) && x@ == s@,
                ActionText::Replace(s, _) => r matches Some(x) && x@ == s@,
                ActionText::Multiple(_) => r is None,
            },
    {
        match self {
            ActionText::Simple(s) => Some(s.as_str()),
            ActionText::Replace(s, _) => Some(s.as_str()),
            ActionText::Multiple(_) => None,
        }
    }
}

/// The rendered output of an applied action: an optional display name and
/// a description.
#[derive(Debug)]
pub struct ActionOutput {
    pub display_name: Option<String>,
    pub text: ActionText,
}

impl ActionOutput {
    /// An output with a plain text description.
    pub fn new(display_name: Option<&String>, text: &str) -> (r: ActionOutput)
        ensures
            display_name matches Some(n) ==> r.display_name == Some(*n),
            display_name is None ==> r.display_name is None,
            r.text matches ActionText::Simple(s) && s@ == text@,
    {
        ActionOutput {
            display_name: match display_name {
                Some(n) => Some(n.clone()),
                None => None,
            },
            text: ActionText::Simple(text.to_owned()),
        }
    }

    /// Merge two outputs: the left display name wins when present, else
    /// the right one is taken; the texts merge by [`ActionText::combine`].
    pub fn combine(self, other: ActionOutput) -> (r: ActionOutput)
        ensures
            self.display_name is Some ==> r.display_name == self.display_name,
            self.display_name is None ==> r.display_name == other.display_name,
            r.text matches ActionText::Multiple(items) && items@ =~= combined_items(
                self.text,
                other.text,
            ),
    {
        let display_name = match self.display_name {
            Some(n) => Some(n),
            None => other.display_name,
        };
        ActionOutput { display_name, text: self.text.combine(other.text) }
    }
}

// ===============
// Laws
// ===============

/// Combining descriptions is associative in rendered output: a
/// left-nested and a right-nested combination flatten to the same parts
/// in the same left-to-right order, so they render identically. The
/// intermediate values are constrained the way [`ActionText::combine`]
/// produces them.
pub proof fn lemma_combine_render_associative(
    a: ActionText,
    b: ActionText,
    c: ActionText,
    ab: ActionText,
    abc_left: ActionText,
    bc: ActionText,
    abc_right: ActionText,
    names: Seq<Seq<char>>,
    actor: int,
    targets: Seq<usize>,
)
    requires
        ab matches ActionText::Multiple(items) && items@ == combined_items(a, b),
        abc_left matches ActionText::Multiple(items) && items@ == combined_items(ab, c),
        bc matches ActionText::Multiple(items) && items@ == combined_items(b, c),
        abc_right matches ActionText::Multiple(items) && items@ == combined_items(a, bc),
    ensures
        spec_format(abc_left, names, actor, targets) == spec_format(
            abc_right,
            names,
            actor,
            targets,
        ),
{
    let left_items = abc_left->Multiple_0@;
    let right_items = abc_right->Multiple_0@;
    assert(left_items =~= right_items);
}

} // verus!
