use rules_engine::action::{Action, AttributeChange, InnerAction, SimpleAction, Target};
use rules_engine::character::{Attribute, CharacterBase, Character, Status};
use rules_engine::modifier::{ComplexCondition, ComplexModifier, Modifier};

fn named(name: &str) -> Action {
    Action::new(
        name.to_string(),
        InnerAction::Simple(SimpleAction::new_empty(Target::Target)),
    )
}

fn resolve(change: &AttributeChange, actor: &Character, receiver: &Character, action: &Action) -> i64 {
    change.apply_modifiers(actor, receiver, action).change
}

#[test]
fn two_stage_ordering() {
    // Outgoing [Add(3), Mul(2)] on x, incoming halving on x: a raw +1
    // resolves to ((1 + 3) * 2) / 2 = 4.
    let mut actor = CharacterBase::new("A");
    let mut receiver = CharacterBase::new("B");
    actor.outgoing.add_attribute_modifier("x", Modifier::Add(3));
    actor.outgoing.add_attribute_modifier("x", Modifier::Mul(2));
    receiver.incoming.add_attribute_modifier("x", Modifier::Div(2));
    let action = named("hit");
    let raw = AttributeChange::new("x", 1);
    assert_eq!(resolve(&raw, &actor, &receiver, &action), 4);
}

#[test]
fn facets_apply_in_order() {
    // By-attribute before by-action-name before complex, all outgoing:
    // ((1 + 1) * 3) + 10 = 16; any other facet order gives another value.
    let mut actor = CharacterBase::new("A");
    let receiver = CharacterBase::new("B");
    actor.outgoing.add_attribute_modifier("x", Modifier::Add(1));
    actor.outgoing.add_action_modifier("hit", Modifier::Mul(3));
    actor.outgoing.add_complex_modifier(ComplexModifier {
        condition: ComplexCondition::Always,
        effect: Modifier::Add(10),
    });
    let action = named("hit");
    let raw = AttributeChange::new("x", 1);
    assert_eq!(resolve(&raw, &actor, &receiver, &action), 16);
}

#[test]
fn registration_order_matters() {
    // Add then Mul is not Mul then Add.
    let mut a1 = CharacterBase::new("A");
    a1.outgoing.add_attribute_modifier("x", Modifier::Add(3));
    a1.outgoing.add_attribute_modifier("x", Modifier::Mul(2));
    let mut a2 = CharacterBase::new("A");
    a2.outgoing.add_attribute_modifier("x", Modifier::Mul(2));
    a2.outgoing.add_attribute_modifier("x", Modifier::Add(3));
    let receiver = CharacterBase::new("B");
    let action = named("hit");
    let raw = AttributeChange::new("x", 1);
    assert_eq!(resolve(&raw, &a1, &receiver, &action), 8);
    assert_eq!(resolve(&raw, &a2, &receiver, &action), 5);
}

#[test]
fn lookup_miss_is_identity() {
    // Modifiers under other attributes or other action names leave the
    // change alone; empty collections degenerate to the identity.
    let mut actor = CharacterBase::new("A");
    let receiver = CharacterBase::new("B");
    actor.outgoing.add_attribute_modifier("y", Modifier::Add(100));
    actor.outgoing.add_action_modifier("other", Modifier::Mul(9));
    let action = named("hit");
    let raw = AttributeChange::new("x", 1);
    assert_eq!(resolve(&raw, &actor, &receiver, &action), 1);
}

#[test]
fn action_names_are_case_sensitive() {
    let mut actor = CharacterBase::new("A");
    let receiver = CharacterBase::new("B");
    actor.outgoing.add_action_modifier("Hit", Modifier::Add(7));
    let raw = AttributeChange::new("x", 1);
    assert_eq!(resolve(&raw, &actor, &receiver, &named("hit")), 1);
    assert_eq!(resolve(&raw, &actor, &receiver, &named("Hit")), 8);
}

#[test]
fn complex_modifier_reads_receiver_status() {
    // A resistance that only matters while the receiver is shielded.
    let mut actor = CharacterBase::new("A");
    let mut receiver = CharacterBase::new("B");
    receiver.incoming.add_complex_modifier(ComplexModifier {
        condition: ComplexCondition::ReceiverHasStatus(Status::new("shielded")),
        effect: Modifier::Div(2),
    });
    let action = named("hit");
    let raw = AttributeChange::new("x", 10);
    assert_eq!(resolve(&raw, &actor, &receiver, &action), 10);
    receiver.statuses.add(Status::new("shielded"));
    assert_eq!(resolve(&raw, &actor, &receiver, &action), 5);
    // the other direction: an actor-side rage bonus
    actor.outgoing.add_complex_modifier(ComplexModifier {
        condition: ComplexCondition::ActorHasStatus(Status::new("enraged")),
        effect: Modifier::Mul(3),
    });
    assert_eq!(resolve(&raw, &actor, &receiver, &action), 5);
    actor.statuses.add(Status::new("enraged"));
    assert_eq!(resolve(&raw, &actor, &receiver, &action), 15);
}

#[test]
fn complex_modifier_reads_receiver_attribute() {
    let actor = CharacterBase::new("A");
    let mut receiver = CharacterBase::new("B");
    receiver.incoming.add_complex_modifier(ComplexModifier {
        condition: ComplexCondition::ReceiverAttributeAtLeast("armor".to_string(), 5),
        effect: Modifier::Add(-2),
    });
    let action = named("hit");
    let raw = AttributeChange::new("x", 10);
    // no armor attribute at all: the condition cannot fire
    assert_eq!(resolve(&raw, &actor, &receiver, &action), 10);
    receiver
        .attributes
        .add_attribute("armor".to_string(), Attribute::new("armor", 4));
    assert_eq!(resolve(&raw, &actor, &receiver, &action), 10);
    receiver.attributes.set_attribute_value(&"armor".to_string(), 6);
    assert_eq!(resolve(&raw, &actor, &receiver, &action), 8);
}

#[test]
fn assign_modifier_overrides() {
    let mut actor = CharacterBase::new("A");
    let receiver = CharacterBase::new("B");
    actor.outgoing.add_attribute_modifier("x", Modifier::Add(3));
    actor.outgoing.add_attribute_modifier("x", Modifier::Assign(2));
    let raw = AttributeChange::new("x", 1);
    assert_eq!(resolve(&raw, &actor, &receiver, &named("hit")), 2);
}

#[test]
fn zero_divisor_keeps_the_value() {
    let mut actor = CharacterBase::new("A");
    let receiver = CharacterBase::new("B");
    actor.outgoing.add_attribute_modifier("x", Modifier::Div(0));
    let raw = AttributeChange::new("x", 9);
    assert_eq!(resolve(&raw, &actor, &receiver, &named("hit")), 9);
}

#[test]
fn self_other_halves_resolve_against_their_roles() {
    // The self-directed half runs through (actor, actor): the receiver's
    // incoming collection is not consulted for it.
    let mut actor = CharacterBase::new("A");
    let mut receiver = CharacterBase::new("B");
    actor.incoming.add_attribute_modifier("x", Modifier::Add(1));
    receiver.incoming.add_attribute_modifier("x", Modifier::Add(100));
    let half = |t| {
        SimpleAction::new(
            t,
            vec![rules_engine::action::ActionElement::AttributeChange(AttributeChange::new(
                "x", 5,
            ))],
        )
    };
    let action = Action::new(
        "pact".to_string(),
        InnerAction::SelfOther(half(Target::Actor), half(Target::Target)),
    );
    let resolved = action.apply_modifiers(&actor, &receiver);
    match resolved {
        InnerAction::SelfOther(a1, a2) => {
            match (&a1.elements[0], &a2.elements[0]) {
                (
                    rules_engine::action::ActionElement::AttributeChange(c1),
                    rules_engine::action::ActionElement::AttributeChange(c2),
                ) => {
                    assert_eq!(c1.change, 6);
                    assert_eq!(c2.change, 105);
                },
                _ => panic!("expected attribute changes"),
            }
        },
        _ => panic!("expected a SelfOther action"),
    }
}
