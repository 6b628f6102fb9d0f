use rules_engine::action::Target;
use rules_engine::codec::{
    deserialize_action, deserialize_action_from_str, serialize_action, ComplexAction,
    DeserializedAction, JsonVal, SimpleAction, ValueChange,
};
use rules_engine::Error;

#[test]
fn test_deserialize() {
    let text = r#"
        {
            "name" : "SimpleAction",
            "target" : "Target",
            "changes" : [ {
                "name" : "a",
                "change" : 1
            }]
        }
    "#;
    let result = deserialize_action_from_str(text).unwrap().unwrap_simple();

    assert_eq!(result.name, Some("SimpleAction".to_string()));
    assert_eq!(result.changes, vec![ValueChange::new("a", 1)]);
    let text = r#"{
        "name" : "ComplexAction",
        "actions" : [
            {
                "target" : "Target",
                "changes" : []
            },
            {
                "name" : "InnerComplex",
                "actions" : []
            }
        ]
    }"#;
    let result = deserialize_action_from_str(text).unwrap().unwrap_complex();
    assert_eq!(result.name, Some("ComplexAction".to_string()));
    assert!(matches!(result.actions[0], DeserializedAction::Simple(_)));
    assert!(matches!(result.actions[1], DeserializedAction::Complex(_)));
}

#[test]
fn malformed_text_is_rejected() {
    assert!(matches!(deserialize_action_from_str("not json"), Err(Error::ToDo)));
    // an object that is neither simple-shaped nor carries an actions array
    assert!(matches!(
        deserialize_action_from_str(r#"{"name": "x"}"#),
        Err(Error::ToDo)
    ));
    // a non-object
    assert!(matches!(deserialize_action_from_str("[1, 2]"), Err(Error::ToDo)));
}

#[test]
fn top_level_name_is_required() {
    let nameless = r#"{"target": "Actor", "changes": []}"#;
    assert!(matches!(deserialize_action_from_str(nameless), Err(Error::ToDo)));
    // an empty root name is as good as none
    let empty_simple = r#"{"name": "", "target": "Actor", "changes": []}"#;
    assert!(matches!(deserialize_action_from_str(empty_simple), Err(Error::ToDo)));
    let empty_complex = r#"{"name": "", "actions": []}"#;
    assert!(matches!(deserialize_action_from_str(empty_complex), Err(Error::ToDo)));
    // the same shapes nested inside a named complex node are accepted
    let nested =
        r#"{"name": "outer", "actions": [{"target": "Actor", "changes": []}, {"name": "", "actions": []}]}"#;
    assert!(deserialize_action_from_str(nested).is_ok());
}

#[test]
fn malformed_pieces_are_rejected() {
    // an unknown target designation
    assert!(matches!(
        deserialize_action_from_str(r#"{"name": "x", "target": "Both", "changes": []}"#),
        Err(Error::ToDo)
    ));
    // a change whose magnitude is not an integer
    assert!(matches!(
        deserialize_action_from_str(
            r#"{"name": "x", "target": "Actor", "changes": [{"name": "a", "change": 1.5}]}"#
        ),
        Err(Error::ToDo)
    ));
    // a name of the wrong type on a simple node
    assert!(matches!(
        deserialize_action_from_str(r#"{"name": 3, "target": "Actor", "changes": []}"#),
        Err(Error::ToDo)
    ));
}

#[test]
fn deserialize_reads_the_value_model() {
    // The same document handed over as a structured value directly.
    let value = JsonVal::Obj(vec![
        ("name".to_string(), JsonVal::Str("strike".to_string())),
        ("target".to_string(), JsonVal::Str("Actor".to_string())),
        (
            "changes".to_string(),
            JsonVal::Arr(vec![JsonVal::Obj(vec![
                ("name".to_string(), JsonVal::Str("rage".to_string())),
                ("change".to_string(), JsonVal::Int(5)),
            ])]),
        ),
    ]);
    let result = deserialize_action(&value, true).unwrap().unwrap_simple();
    assert_eq!(result.name, Some("strike".to_string()));
    assert_eq!(result.target, Target::Actor);
    assert_eq!(result.changes, vec![ValueChange::new("rage", 5)]);
}

#[test]
fn round_trip_preserves_the_tree() {
    let tree = DeserializedAction::Complex(ComplexAction::new(
        Some("combo".to_string()),
        vec![
            DeserializedAction::Simple(SimpleAction::new(
                "first",
                Target::Actor,
                vec![ValueChange::new("rage", 2)],
            )),
            DeserializedAction::Complex(ComplexAction::new(
                None,
                vec![DeserializedAction::Simple(SimpleAction::new_anonymous(
                    Target::Target,
                    vec![ValueChange::new("hp", -3)],
                ))],
            )),
        ],
    ));
    let value = serialize_action(&tree);
    let back = deserialize_action(&value, true).unwrap().unwrap_complex();
    assert_eq!(back.name, Some("combo".to_string()));
    assert_eq!(back.actions.len(), 2);
    match &back.actions[0] {
        DeserializedAction::Simple(s) => {
            assert_eq!(s.name, Some("first".to_string()));
            assert_eq!(s.target, Target::Actor);
            assert_eq!(s.changes, vec![ValueChange::new("rage", 2)]);
        },
        _ => panic!("expected the simple half first"),
    }
    match &back.actions[1] {
        DeserializedAction::Complex(c) => {
            assert_eq!(c.name, None);
            assert_eq!(c.actions.len(), 1);
            match &c.actions[0] {
                DeserializedAction::Simple(s) => {
                    assert_eq!(s.name, None);
                    assert_eq!(s.target, Target::Target);
                    assert_eq!(s.changes, vec![ValueChange::new("hp", -3)]);
                },
                _ => panic!("expected a nested simple node"),
            }
        },
        _ => panic!("expected the complex half second"),
    }
}

#[test]
fn value_change_normalizes_its_name() {
    let c = ValueChange::new("RAGE", 1);
    assert_eq!(c.name(), "rage");
}
