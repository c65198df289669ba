use summer_web::context::ValidationContextRegistry;

#[derive(Clone, Debug, PartialEq)]
struct UserRules {
    min_name: usize,
    max_name: usize,
}

#[derive(Clone, Debug)]
struct PageRules {
    max_page_size: usize,
}

#[test]
fn registry_clone_preserves_typed_lookup() {
    let mut registry = ValidationContextRegistry::new();
    registry.insert(UserRules {
        min_name: 2,
        max_name: 50,
    });

    let cloned = registry.clone();
    let rules = cloned.get::<UserRules>().unwrap();

    assert_eq!(
        rules,
        &UserRules {
            min_name: 2,
            max_name: 50,
        }
    );
}

#[test]
fn validation_context_registry_is_available_for_validator() {
    let mut registry = ValidationContextRegistry::new();
    registry.insert(PageRules { max_page_size: 100 });

    let rules = registry.get::<PageRules>().expect("page rules");
    assert_eq!(rules.max_page_size, 100);
}

#[test]
fn empty_registry_holds_nothing() {
    let registry = ValidationContextRegistry::new();
    assert!(registry.get::<PageRules>().is_none());
    assert!(!registry.contains::<PageRules>());
    let default = ValidationContextRegistry::default();
    assert!(!default.contains::<UserRules>());
}

#[test]
fn insert_replaces_value_of_same_type_and_keeps_others() {
    let mut registry = ValidationContextRegistry::new();
    registry.insert(PageRules { max_page_size: 10 });
    registry.insert(UserRules { min_name: 1, max_name: 5 });
    registry.insert(PageRules { max_page_size: 20 });

    assert!(registry.contains::<PageRules>());
    assert!(registry.contains::<UserRules>());
    assert_eq!(registry.get::<PageRules>().unwrap().max_page_size, 20);
    assert_eq!(
        registry.get::<UserRules>(),
        Some(&UserRules { min_name: 1, max_name: 5 })
    );
    assert!(registry.get::<String>().is_none());
}
