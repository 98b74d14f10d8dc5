use rs_web_component::templates::{TemplateError, TemplateRegistry};

#[test]
fn registers_and_hands_out_copies() {
    let mut registry = TemplateRegistry::new();
    assert_eq!(registry.len(), 0);
    assert_eq!(registry.add_template("card".to_string(), "<div>card</div>".to_string()), Ok(()));
    assert_eq!(registry.add_template("row".to_string(), "<li></li>".to_string()), Ok(()));
    assert_eq!(registry.len(), 2);
    assert!(registry.contains(&"card".to_string()));
    assert!(!registry.contains(&"missing".to_string()));
    let mut copy = registry.get(&"card".to_string()).unwrap();
    assert_eq!(copy, "<div>card</div>");
    copy.push_str("changed");
    assert_eq!(registry.get(&"card".to_string()).unwrap(), "<div>card</div>");
    assert_eq!(registry.get(&"row".to_string()).unwrap(), "<li></li>");
    assert_eq!(registry.get(&"missing".to_string()), None);
}

#[test]
fn duplicate_id_is_refused_and_first_content_kept() {
    let mut registry = TemplateRegistry::new();
    assert_eq!(registry.add_template("card".to_string(), "first".to_string()), Ok(()));
    assert_eq!(
        registry.add_template("card".to_string(), "second".to_string()),
        Err(TemplateError::DuplicateId)
    );
    assert_eq!(registry.len(), 1);
    assert_eq!(registry.get(&"card".to_string()).unwrap(), "first");
    assert_eq!(
        registry.add_template("card".to_string(), "first".to_string()),
        Err(TemplateError::DuplicateId)
    );
    assert_eq!(registry.len(), 1);
}

#[test]
fn empty_id_and_content_are_ordinary() {
    let mut registry = TemplateRegistry::new();
    assert_eq!(registry.add_template(String::new(), String::new()), Ok(()));
    assert_eq!(registry.get(&String::new()), Some(String::new()));
    assert_eq!(
        registry.add_template(String::new(), "x".to_string()),
        Err(TemplateError::DuplicateId)
    );
    assert_eq!(registry.get(&String::new()), Some(String::new()));
}
