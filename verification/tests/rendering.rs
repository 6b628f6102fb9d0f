use rules_engine::character::CharacterBase;
use rules_engine::output::{ActionOutput, ActionText, Replace};

fn bases(names: &[&str]) -> Vec<CharacterBase> {
    names.iter().map(|n| CharacterBase::new_base(n)).collect()
}

#[test]
fn test_format() {
    let initial_string = "aaa {target} bbb {actor}{target}";
    let text = ActionText::Replace(
        initial_string.to_string(),
        vec![Replace::Actor, Replace::Target],
    );
    let r = text.format(&bases(&["ACTOR", "TARGET"]), 0, &[1]);
    assert_eq!("aaa TARGET bbb ACTORTARGET", r.as_str());
}

#[test]
fn test_combine() {
    let a = ActionOutput::new(Some(&"a".to_string()), "text_a");
    let b = ActionOutput::new(Some(&"b".to_string()), "text_b");
    let ab = a.combine(b);
    assert_eq!(ab.display_name, Some("a".to_string()));
    let a = ActionOutput::new(Some(&"a".to_string()), "text_a");
    let b = ActionOutput::new(Some(&"b".to_string()), "text_b");
    let ba = b.combine(a);
    assert_eq!(ba.display_name, Some("b".to_string()));
}

#[test]
fn combine_takes_right_name_when_left_has_none() {
    let a = ActionOutput::new(None::<&String>, "text_a");
    let b = ActionOutput::new(Some(&"b".to_string()), "text_b");
    let ab = a.combine(b);
    assert_eq!(ab.display_name, Some("b".to_string()));
    let a = ActionOutput::new(None::<&String>, "text_a");
    let b = ActionOutput::new(None::<&String>, "text_b");
    assert_eq!(a.combine(b).display_name, None);
}

#[test]
fn combined_texts_render_in_order() {
    // Left-nested combination flattens in order; the newline join shows it.
    let chars = bases(&[]);
    let one = ActionText::Simple("one".to_string());
    let two = ActionText::Simple("two".to_string());
    let three = ActionText::Simple("three".to_string());
    let combined = one.combine(two).combine(three);
    assert_eq!(combined.format(&chars, 0, &[]), "one\ntwo\nthree");
}

#[test]
fn combining_two_multiples_concatenates() {
    let chars = bases(&[]);
    let left = ActionText::Simple("1".to_string()).combine(ActionText::Simple("2".to_string()));
    let right = ActionText::Simple("3".to_string()).combine(ActionText::Simple("4".to_string()));
    let all = left.combine(right);
    assert_eq!(all.format(&chars, 0, &[]), "1\n2\n3\n4");
}

#[test]
fn one_sided_multiples_keep_order() {
    // When exactly one side is a Multiple, the other side keeps its place:
    // flattening preserves left-to-right order.
    let chars = bases(&[]);
    let multi = ActionText::Simple("1".to_string()).combine(ActionText::Simple("2".to_string()));
    let head = ActionText::Simple("x".to_string());
    assert_eq!(head.combine(multi).format(&chars, 0, &[]), "x\n1\n2");
    let multi = ActionText::Simple("1".to_string()).combine(ActionText::Simple("2".to_string()));
    let tail = ActionText::Simple("y".to_string());
    assert_eq!(multi.combine(tail).format(&chars, 0, &[]), "1\n2\ny");
}

#[test]
fn combine_is_associative_in_rendered_output() {
    // (a . b) . c and a . (b . c) render identically, whatever the shapes.
    let chars = bases(&[]);
    let mk = |s: &str| ActionText::Simple(s.to_string());
    let left = mk("a").combine(mk("b")).combine(mk("c"));
    let right = mk("a").combine(mk("b").combine(mk("c")));
    assert_eq!(left.format(&chars, 0, &[]), right.format(&chars, 0, &[]));
    assert_eq!(left.format(&chars, 0, &[]), "a\nb\nc");
    // mixed shapes, including an empty Multiple in the middle
    let left = mk("x").combine(ActionText::Multiple(vec![])).combine(mk("y"));
    let right = mk("x").combine(ActionText::Multiple(vec![]).combine(mk("y")));
    assert_eq!(left.format(&chars, 0, &[]), right.format(&chars, 0, &[]));
    assert_eq!(left.format(&chars, 0, &[]), "x\ny");
}

#[test]
fn unresolvable_placeholders_stay() {
    // A target that does not exist leaves {target} untouched; an actor out
    // of range leaves {actor} untouched.
    let chars = bases(&["HERO"]);
    let text = ActionText::Replace(
        "{actor} vs {target}".to_string(),
        vec![Replace::Actor, Replace::Target, Replace::Undefined],
    );
    assert_eq!(text.format(&chars, 0, &[]), "HERO vs {target}");
    assert_eq!(text.format(&chars, 5, &[0]), "{actor} vs HERO");
}

#[test]
fn unlisted_placeholders_are_not_substituted() {
    // Only tokens named in the replacement list are substituted.
    let chars = bases(&["HERO", "OGRE"]);
    let text = ActionText::Replace(
        "{actor} vs {target}".to_string(),
        vec![Replace::Actor],
    );
    assert_eq!(text.format(&chars, 0, &[1]), "HERO vs {target}");
}

#[test]
fn extract_raw_string_returns_leaf_templates() {
    let simple = ActionText::Simple("hello".to_string());
    assert_eq!(simple.extract_raw_string(), Some("hello"));
    let replace = ActionText::Replace("{actor}!".to_string(), vec![Replace::Actor]);
    assert_eq!(replace.extract_raw_string(), Some("{actor}!"));
    let multi = ActionText::Multiple(vec![simple]);
    assert_eq!(multi.extract_raw_string(), None);
}
