use romp::class::{Class, ClassDecl, ResolveError};
use romp::declare::Declarations;
use romp::field::Field;
use romp::registry::Registry;

fn field(name: &str, ty: &str) -> Field {
    Field { name: name.to_string(), ty: ty.to_string() }
}

fn new_class(
    reg: &mut Registry,
    name: &str,
    parent: Option<&str>,
    fields: Vec<Field>,
) -> Result<Class, ResolveError> {
    Class::new(name.to_string(), parent.map(|p| p.to_string()), fields, reg)
}

#[test]
fn lookup_on_empty_registry_finds_nothing() {
    let reg = Registry::new();
    assert!(reg.lookup(&"Person".to_string()).is_none());
    assert_eq!(reg.len(), 0);
}

#[test]
fn register_then_lookup_round_trip() {
    let mut reg = Registry::new();
    let c = new_class(&mut reg, "Person", None, vec![field("name", "String")]).unwrap();
    assert_eq!(c.name, "Person");
    assert!(c.ancestors.is_empty());
    let rec = reg.lookup(&"Person".to_string()).unwrap();
    assert_eq!(rec.name, "Person");
    assert_eq!(rec.parent, None);
    assert_eq!(rec.fields.len(), 1);
    assert_eq!(rec.fields[0].name, "name");
    assert_eq!(rec.fields[0].ty, "String");
    assert_eq!(reg.len(), 1);
}

#[test]
fn child_resolves_parent_from_earlier_batch() {
    let mut reg = Registry::new();
    new_class(&mut reg, "Person", None, vec![field("name", "String")]).unwrap();
    // a later, independent pass may extend the earlier class
    let child = new_class(&mut reg, "Character", Some("Person"), vec![field("role", "String")])
        .unwrap();
    assert_eq!(child.ancestors.len(), 1);
    assert_eq!(child.ancestors[0].name, "Person");
    assert_eq!(child.ancestors[0].fields[0].name, "name");
}

#[test]
fn three_level_chain_is_materialized_child_to_root() {
    let mut reg = Registry::new();
    new_class(&mut reg, "Grandparent", None, vec![field("g", "u64")]).unwrap();
    new_class(&mut reg, "Parent", Some("Grandparent"), vec![field("p", "u64")]).unwrap();
    let child = new_class(&mut reg, "Child", Some("Parent"), vec![field("c", "u64")]).unwrap();
    assert_eq!(child.ancestors.len(), 2);
    assert_eq!(child.ancestors[0].name, "Parent");
    assert_eq!(child.ancestors[1].name, "Grandparent");
    assert_eq!(child.ancestors[1].parent, None);
}

#[test]
fn unresolved_parent_in_fresh_registry_fails_with_no_output() {
    let mut reg = Registry::new();
    let decls = Declarations {
        classes: vec![ClassDecl {
            name: "B".to_string(),
            parent: Some("A".to_string()),
            fields: vec![field("x", "i32")],
        }],
    };
    match romp::declare(&decls, &mut reg) {
        Err(ResolveError::UnresolvedParent(n)) => assert_eq!(n, "A"),
        _ => panic!("expected an unresolved parent"),
    }
    // nothing was generated and nothing was registered
    assert!(reg.lookup(&"B".to_string()).is_none());
    assert_eq!(reg.len(), 0);
}

#[test]
fn unresolved_parent_reports_the_missing_name() {
    let mut reg = Registry::new();
    new_class(&mut reg, "Person", None, vec![field("name", "String")]).unwrap();
    match new_class(&mut reg, "Hero", Some("Persn"), vec![]) {
        Err(ResolveError::UnresolvedParent(n)) => assert_eq!(n, "Persn"),
        _ => panic!("expected an unresolved parent"),
    }
}

#[test]
fn reregistering_overwrites_and_later_children_see_the_new_definition() {
    let mut reg = Registry::new();
    new_class(&mut reg, "A", None, vec![field("old_field", "u8")]).unwrap();
    new_class(&mut reg, "A", None, vec![field("new_field", "u16")]).unwrap();
    let rec = reg.lookup(&"A".to_string()).unwrap();
    assert_eq!(rec.fields.len(), 1);
    assert_eq!(rec.fields[0].name, "new_field");
    assert_eq!(reg.len(), 1);
    let b = new_class(&mut reg, "B", Some("A"), vec![field("own", "u8")]).unwrap();
    assert_eq!(b.ancestors.len(), 1);
    assert_eq!(b.ancestors[0].fields[0].name, "new_field");
    assert_eq!(b.ancestors[0].fields[0].ty, "u16");
}

#[test]
fn parent_cycle_is_rejected_not_followed_forever() {
    let mut reg = Registry::new();
    new_class(&mut reg, "A", None, vec![]).unwrap();
    new_class(&mut reg, "B", Some("A"), vec![]).unwrap();
    // re-registering A as extending B closes a cycle in the registry
    new_class(&mut reg, "A", Some("B"), vec![]).unwrap();
    match new_class(&mut reg, "C", Some("A"), vec![field("x", "i32")]) {
        Err(ResolveError::ParentCycle(_)) => {},
        _ => panic!("expected the cycle to be rejected"),
    }
}

#[test]
fn batch_registers_each_class_before_the_next() {
    let mut reg = Registry::new();
    let decls = Declarations {
        classes: vec![
            ClassDecl {
                name: "Person".to_string(),
                parent: None,
                fields: vec![field("name", "String"), field("age", "i32")],
            },
            ClassDecl {
                name: "Character".to_string(),
                parent: Some("Person".to_string()),
                fields: vec![field("role", "String")],
            },
            ClassDecl {
                name: "Superhuman".to_string(),
                parent: Some("Character".to_string()),
                fields: vec![field("power", "String")],
            },
        ],
    };
    let codes = romp::declare(&decls, &mut reg).unwrap();
    assert_eq!(codes.len(), 3);
    assert_eq!(codes[0].struct_def.name, "Person");
    assert_eq!(codes[1].struct_def.name, "Character");
    assert_eq!(codes[2].struct_def.name, "Superhuman");
    assert_eq!(reg.len(), 3);
}

#[test]
fn batch_stops_at_the_first_failure() {
    let mut reg = Registry::new();
    let decls = Declarations {
        classes: vec![
            ClassDecl { name: "A".to_string(), parent: None, fields: vec![field("x", "u8")] },
            ClassDecl {
                name: "B".to_string(),
                parent: Some("Missing".to_string()),
                fields: vec![],
            },
            ClassDecl { name: "C".to_string(), parent: None, fields: vec![] },
        ],
    };
    match romp::declare(&decls, &mut reg) {
        Err(ResolveError::UnresolvedParent(n)) => assert_eq!(n, "Missing"),
        _ => panic!("expected an unresolved parent"),
    }
    // the first declaration was registered, the rest were not
    assert!(reg.lookup(&"A".to_string()).is_some());
    assert!(reg.lookup(&"B".to_string()).is_none());
    assert!(reg.lookup(&"C".to_string()).is_none());
}
