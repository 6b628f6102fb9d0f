use rules_engine::action::{
    Action, ActionElement, AttributeChange, AttributeChangeType, InnerAction, SimpleAction, Target,
};
use rules_engine::character::{Attribute, AttributeCollection, CharacterBase, Status, StatusCollection};
use rules_engine::modifier::Modifier;

fn rage() -> String {
    "rage".to_string()
}

fn scene() -> (Vec<AttributeCollection>, Vec<StatusCollection>) {
    let mut a0 = AttributeCollection::new();
    a0.add_attribute(rage(), Attribute::new("rage", 0));
    let mut a1 = AttributeCollection::new();
    a1.add_attribute(rage(), Attribute::new("rage", 0));
    (vec![a0, a1], vec![StatusCollection::new(), StatusCollection::new()])
}

fn plus_five(target: Target) -> InnerAction {
    InnerAction::Simple(SimpleAction::new(
        target,
        vec![ActionElement::AttributeChange(AttributeChange::new("rage", 5))],
    ))
}

#[test]
fn test_action() {
    let (mut acols, mut scols) = scene();
    let action1 = plus_five(Target::Actor);
    let action2 = plus_five(Target::Target);
    action1.apply(&mut acols, &mut scols, 0, 1);
    assert_eq!(acols[0].get_attribute_value(&rage()), Some(5));
    assert_eq!(acols[1].get_attribute_value(&rage()), Some(0));
    action2.apply(&mut acols, &mut scols, 0, 1);
    assert_eq!(acols[0].get_attribute_value(&rage()), Some(5));
    assert_eq!(acols[1].get_attribute_value(&rage()), Some(5));
    action1.apply(&mut acols, &mut scols, 1, 1);
    assert_eq!(acols[0].get_attribute_value(&rage()), Some(5));
    assert_eq!(acols[1].get_attribute_value(&rage()), Some(10));
}

#[test]
fn test_modifiers() {
    let mut c0 = CharacterBase::new("C1");
    let c1 = CharacterBase::new("C2");
    c0.outgoing.add_attribute_modifier("rage", Modifier::Add(3));

    let mut acols = {
        let (a, s) = scene();
        drop(s);
        a
    };
    let mut scols = vec![StatusCollection::new(), StatusCollection::new()];

    // +5 self-addressed: the actor's outgoing stage raises it to 8; the
    // receiver has no incoming modifiers yet.
    let strike = Action::new("strike".to_string(), plus_five(Target::Actor));
    let resolved = strike.apply_modifiers(&c0, &c1);
    resolved.apply(&mut acols, &mut scols, 0, 1);
    assert_eq!(acols[0].get_attribute_value(&rage()), Some(8));

    // +5 to the target: outgoing raises it to 8, the receiver's fresh
    // incoming modifier divides it down to 1.
    let mut c1b = CharacterBase::new("C2");
    c1b.incoming.add_attribute_modifier("rage", Modifier::Div(5));
    let strike2 = Action::new("strike".to_string(), plus_five(Target::Target));
    let resolved2 = strike2.apply_modifiers(&c0, &c1b);
    resolved2.apply(&mut acols, &mut scols, 0, 1);
    assert_eq!(acols[1].get_attribute_value(&rage()), Some(1));
}

#[test]
fn self_other_mutates_both_roles() {
    // Two characters, rage 0 each; "Self+Other" adds 5 to self and 5 to the
    // other; applied twice with the roles swapped, both end at 10.
    let (mut acols, mut scols) = scene();
    let half = |target| {
        SimpleAction::new(
            target,
            vec![ActionElement::AttributeChange(AttributeChange::new("rage", 5))],
        )
    };
    let action = InnerAction::SelfOther(half(Target::Actor), half(Target::Target));
    action.apply(&mut acols, &mut scols, 0, 1);
    assert_eq!(acols[0].get_attribute_value(&rage()), Some(5));
    assert_eq!(acols[1].get_attribute_value(&rage()), Some(5));
    action.apply(&mut acols, &mut scols, 1, 0);
    assert_eq!(acols[0].get_attribute_value(&rage()), Some(10));
    assert_eq!(acols[1].get_attribute_value(&rage()), Some(10));
}

#[test]
fn self_other_ignores_sub_target_fields() {
    // The halves' own target fields are vestigial: flipping them changes
    // nothing about who is mutated.
    let (mut acols, mut scols) = scene();
    let half = |target| {
        SimpleAction::new(
            target,
            vec![ActionElement::AttributeChange(AttributeChange::new("rage", 5))],
        )
    };
    // first half claims Target, second claims Actor; still actor-then-target
    let action = InnerAction::SelfOther(half(Target::Target), half(Target::Actor));
    action.apply(&mut acols, &mut scols, 0, 1);
    assert_eq!(acols[0].get_attribute_value(&rage()), Some(5));
    assert_eq!(acols[1].get_attribute_value(&rage()), Some(5));
}

#[test]
fn out_of_range_target_is_a_no_op() {
    let (mut acols, mut scols) = scene();
    let action = plus_five(Target::Target);
    action.apply(&mut acols, &mut scols, 0, 7);
    assert_eq!(acols[0].get_attribute_value(&rage()), Some(0));
    assert_eq!(acols[1].get_attribute_value(&rage()), Some(0));
}

#[test]
fn set_value_clamps_to_bounds() {
    let mut a = Attribute::new("hp", 5).with_bounds(Some(0), Some(10));
    a.set_value(15);
    assert_eq!(a.value(), 10);
    a.set_value(-5);
    assert_eq!(a.value(), 0);
    a.set_value(7);
    assert_eq!(a.value(), 7);
    let mut free = Attribute::new("hp", 5);
    free.set_value(-123456);
    assert_eq!(free.value(), -123456);
    let built = Attribute::new("hp", 0).with_bounds(Some(0), Some(10)).with_value(99);
    assert_eq!(built.value(), 10);
}

#[test]
fn change_operations() {
    let mut col = AttributeCollection::new();
    col.add_attribute("hp".to_string(), Attribute::new("hp", 10));
    let hp = "hp".to_string();
    AttributeChange::new("hp", 4).apply(&mut col);
    assert_eq!(col.get_attribute_value(&hp), Some(14));
    AttributeChange::new("hp", 2)
        .with_op(AttributeChangeType::Mul)
        .apply(&mut col);
    assert_eq!(col.get_attribute_value(&hp), Some(28));
    AttributeChange::new("hp", 3)
        .with_op(AttributeChangeType::Assign)
        .apply(&mut col);
    assert_eq!(col.get_attribute_value(&hp), Some(3));
    // weighted average: current 3 with weight 3, incoming 20 with weight 1
    // -> (9 + 20) / 4 = 7 (truncated toward zero)
    AttributeChange::new("hp", 20)
        .with_op(AttributeChangeType::Average(3, 1))
        .apply(&mut col);
    assert_eq!(col.get_attribute_value(&hp), Some(7));
}

#[test]
fn addition_saturates() {
    let mut col = AttributeCollection::new();
    col.add_attribute("hp".to_string(), Attribute::new("hp", i64::MAX - 1));
    AttributeChange::new("hp", 100).apply(&mut col);
    assert_eq!(col.get_attribute_value(&"hp".to_string()), Some(i64::MAX));
}

#[test]
fn identifiers_are_lower_cased() {
    // AttributeChange::new lower-cases, so a change written with capitals
    // still reaches an attribute registered under the lower-case key.
    let mut col = AttributeCollection::new();
    col.add_attribute("rage".to_string(), Attribute::new("rage", 0));
    let change = AttributeChange::new("RaGe", 5);
    assert_eq!(change.identifier(), &"rage".to_string());
    change.apply(&mut col);
    assert_eq!(col.get_attribute_value(&rage()), Some(5));
}

#[test]
fn missing_identifier_is_a_no_op() {
    let mut col = AttributeCollection::new();
    col.add_attribute("hp".to_string(), Attribute::new("hp", 10));
    AttributeChange::new("mana", 5).apply(&mut col);
    assert_eq!(col.get_attribute_value(&"hp".to_string()), Some(10));
    assert_eq!(col.get_attribute_value(&"mana".to_string()), None);
    col.set_attribute_value(&"mana".to_string(), 3);
    assert_eq!(col.get_attribute_value(&"mana".to_string()), None);
}

#[test]
fn registration_keys_are_lower_cased() {
    // add_attribute normalizes its key, so a capitalized registration is
    // still found by a lower-cased change.
    let mut col = AttributeCollection::new();
    col.add_attribute("RAGE".to_string(), Attribute::new("RAGE", 0));
    AttributeChange::new("rage", 5).apply(&mut col);
    assert_eq!(col.get_attribute_value(&rage()), Some(5));
}

#[test]
fn duplicate_identifier_overwrites_lookup() {
    let mut col = AttributeCollection::new();
    col.add_attribute("hp".to_string(), Attribute::new("hp", 1));
    col.add_attribute("hp".to_string(), Attribute::new("hp", 7));
    assert_eq!(col.get_attribute_value(&"hp".to_string()), Some(7));
}

#[test]
fn statuses_are_a_set() {
    let mut statuses = StatusCollection::new();
    let stunned = Status::new("Stunned");
    assert!(!statuses.contains(&stunned));
    statuses.add(Status::new("stunned"));
    assert!(statuses.contains(&stunned));
    // re-adding is a no-op, removing once suffices
    statuses.add(Status::new("STUNNED"));
    statuses.remove(&stunned);
    assert!(!statuses.contains(&stunned));
    // removing an absent status is a no-op
    statuses.remove(&stunned);
    assert!(!statuses.contains(&stunned));
}
