use surreal_simple_querybuilder::foreign_key::Foreign;
use surreal_simple_querybuilder::foreign_key::ForeignKey;
use surreal_simple_querybuilder::foreign_key::IntoKey;
use surreal_simple_querybuilder::foreign_key::IntoKeyError;
use surreal_simple_querybuilder::foreign_key::KeySerializeControl;
use surreal_simple_querybuilder::node::Node;

#[test]
fn foreign_key_impl_eq() {
    #[derive(Clone, PartialEq, Debug)]
    struct TestA(pub &'static str);

    #[derive(Clone, Debug, PartialEq)]
    struct TestB {
        field: Foreign<TestA>,
    }

    // 0.
    // confirm comparison works as expected for a value vs a key
    assert_ne!(
        TestB {
            field: Foreign::new_value(TestA("lorem")),
        },
        TestB {
            field: Foreign::new_key("key".to_owned()),
        }
    );

    // 1.
    // confirm comparison works as expected for two different values
    assert_ne!(
        TestB {
            field: Foreign::new_value(TestA("lorem")),
        },
        TestB {
            field: Foreign::new_value(TestA("ipsum")),
        }
    );

    // 2.
    // confirm comparison works as expected for two identical values
    assert_eq!(
        TestB {
            field: Foreign::new_value(TestA("lorem")),
        },
        TestB {
            field: Foreign::new_value(TestA("lorem")),
        }
    );

    // 3.
    // confirm comparison works as expected for two identical keys
    assert_eq!(
        TestB {
            field: Foreign::new_key("key".to_owned())
        },
        TestB {
            field: Foreign::new_key("key".to_owned())
        }
    );

    // 4.
    // confirm two unloaded values are considered equal
    assert_eq!(
        TestB {
            field: Foreign::new()
        },
        TestB {
            field: Foreign::new()
        }
    );
}

/// A failsafe to ensure the Clone implementation is not removed from the
/// ForeignKey type by mistake. It also relies heavily on Eq.
#[test]
fn foreign_key_impl_clone() {
    #[derive(Clone, PartialEq, Debug)]
    struct TestA(pub &'static str);

    #[derive(Clone, Debug, PartialEq)]
    struct TestB {
        field: Foreign<TestA>,
    }

    let original = TestB {
        field: Foreign::new_value(TestA("lorem")),
    };

    let cloned = original.clone();

    assert_eq!(original, cloned);
}

#[test]
fn foreign_key_defaults_to_unloaded() {
    let f: Foreign<String> = Foreign::default();
    assert!(f.is_unloaded());
    assert!(!f.is_key());
    assert!(!f.is_loaded());
    assert!(!f.allows_value_serialize());

    let f: Foreign<String> = Foreign::new();
    assert!(f.is_unloaded());
}

#[test]
fn foreign_key_state_transitions_are_explicit() {
    let mut f: Foreign<String> = Foreign::new();
    f.set_key("Account:john".to_owned());
    assert!(f.is_key());
    assert_eq!(f.key(), Some(&"Account:john".to_owned()));

    f.set_value("john".to_owned());
    assert!(f.is_loaded());
    assert_eq!(f.value(), Some(&"john".to_owned()));

    f.unload();
    assert!(f.is_unloaded());
    assert_eq!(f.value(), None);
    assert_eq!(f.key(), None);
}

#[test]
fn foreign_key_take_resets_to_unloaded() {
    let mut f: Foreign<String> = Foreign::new_value("john".to_owned());
    assert_eq!(f.take_value(), Some("john".to_owned()));
    assert!(f.is_unloaded());
    assert_eq!(f.take_value(), None);

    let mut f: Foreign<String> = Foreign::new_key("Account:john".to_owned());
    assert_eq!(f.take_value(), None);
    assert!(f.is_key());
    assert_eq!(f.take_key(), Some("Account:john".to_owned()));
    assert!(f.is_unloaded());
    assert_eq!(f.take_key(), None);
}

#[test]
fn foreign_key_collapses_to_key() {
    // A key-shaped reference serializes as that very key.
    let f: Foreign<String> = Foreign::new_key("Account:john".to_owned());
    assert_eq!(f.to_key(), Ok(Some("Account:john".to_owned())));

    // A loaded value collapses to the key its IntoKey impl yields.
    let f: Foreign<Node<(), String>> = Foreign::new_value(Node::new("Account:john".to_owned(), ()));
    assert_eq!(f.to_key(), Ok(Some("Account:john".to_owned())));

    // An unloaded reference stands for an absent value.
    let f: Foreign<String> = Foreign::new();
    assert_eq!(f.to_key(), Ok(None));
}

#[test]
fn foreign_key_missing_id_surfaces_as_error() {
    // Reducing a loaded object that has no identifier yet must surface a
    // MissingId error, not a silent empty key.
    let f: Foreign<Node<(), String>> = Foreign::new_value(Node::anonymous(()));
    assert_eq!(f.to_key(), Err(IntoKeyError::MissingId));

    let mut f: Foreign<Node<(), String>> = Foreign::new_value(Node::anonymous(()));
    assert!(f.as_key().is_err());
    assert!(f.is_loaded());
}

#[test]
fn foreign_key_as_key_collapses_in_place() {
    let mut f: Foreign<Node<(), String>> =
        Foreign::new_value(Node::new("Account:john".to_owned(), ()));
    assert!(f.as_key().is_ok());
    assert!(f.is_key());
    assert_eq!(f.key(), Some(&"Account:john".to_owned()));

    let mut f: Foreign<Node<(), String>> = Foreign::new();
    assert!(f.as_key().is_ok());
    assert!(f.is_unloaded());
}

#[test]
fn foreign_key_serialization_policy_is_explicit() {
    let mut f: Foreign<String> = Foreign::new_value("john".to_owned());
    assert!(!f.allows_value_serialize());
    f.allow_value_serialize();
    assert!(f.allows_value_serialize());
    f.disallow_value_serialize();
    assert!(!f.allows_value_serialize());
}

#[test]
fn foreign_key_vectors_push_and_pop() {
    let mut f: ForeignKey<Vec<String>, Vec<String>> = ForeignKey::new();
    assert_eq!(f.len(), 0);
    assert_eq!(f.len_loaded(), None);

    f.push("a".to_owned()).unwrap();
    assert!(f.is_loaded());
    assert_eq!(f.len(), 1);
    assert_eq!(f.len_loaded(), Some(1));

    f.push("b".to_owned()).unwrap();
    assert_eq!(f.len(), 2);
    assert_eq!(f.pop(), Ok(Some("b".to_owned())));
    assert_eq!(f.len(), 1);

    let mut f: ForeignKey<Vec<String>, Vec<String>> =
        ForeignKey::new_key(vec!["k1".to_owned()]);
    f.push("k2".to_owned()).unwrap();
    assert!(f.is_key());
    assert_eq!(f.len(), 2);
    assert_eq!(f.pop(), Ok(Some("k2".to_owned())));
}

#[test]
fn foreign_key_map_carries_states_over() {
    let f: ForeignKey<u32, String> = ForeignKey::new_value(5);
    let mapped: ForeignKey<String, String> = f.map(|n| n.to_string());
    assert_eq!(mapped.value(), Some(&"5".to_owned()));

    let f: ForeignKey<u32, String> = ForeignKey::new_key("k".to_owned());
    let mapped: ForeignKey<String, String> = f.map(|n| n.to_string());
    assert_eq!(mapped.key(), Some(&"k".to_owned()));

    let f: ForeignKey<u32, String> = ForeignKey::new();
    let mapped: ForeignKey<String, String> = f.map(|n| n.to_string());
    assert!(mapped.is_unloaded());
}

#[test]
fn into_key_blanket_impls() {
    assert_eq!("a".into_key(), Ok("a".to_owned()));
    assert_eq!("a".to_owned().into_key(), Ok("a".to_owned()));
    assert_eq!(
        vec!["a".to_owned(), "b".to_owned()].into_key(),
        Ok(vec!["a".to_owned(), "b".to_owned()])
    );
    let missing: Option<String> = None;
    assert_eq!(IntoKey::<String>::into_key(&missing), Err(IntoKeyError::MissingId));
    let present: Option<String> = Some("a".to_owned());
    assert_eq!(IntoKey::<String>::into_key(&present), Ok("a".to_owned()));
}

#[test]
fn foreign_key_convert_through_from() {
    let f: ForeignKey<u32, String> = ForeignKey::new_value(5);
    let converted: ForeignKey<u64, String> = f.convert();
    assert_eq!(converted.value(), Some(&5u64));

    let f: ForeignKey<Vec<u32>, Vec<String>> = ForeignKey::new_value(vec![1, 2]);
    let converted: ForeignKey<Vec<u64>, Vec<String>> = f.convert_vec();
    assert_eq!(converted.value(), Some(&vec![1u64, 2u64]));

    let f: ForeignKey<Vec<u32>, Vec<String>> = ForeignKey::new_key(vec!["k".to_owned()]);
    let converted: ForeignKey<Vec<u64>, Vec<String>> = f.convert_vec();
    assert!(converted.is_key());
}
