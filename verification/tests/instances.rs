use romp::class::Class;
use romp::field::Field;
use romp::registry::Registry;
use romp::semantics::construct_instance;

fn field(name: &str, ty: &str) -> Field {
    Field { name: name.to_string(), ty: ty.to_string() }
}

fn strings(vals: &[&str]) -> Vec<String> {
    vals.iter().map(|v| v.to_string()).collect()
}

fn three_level_child() -> Class {
    let mut reg = Registry::new();
    Class::new("Grandparent".to_string(), None, vec![field("g", "u64")], &mut reg).unwrap();
    Class::new(
        "Parent".to_string(),
        Some("Grandparent".to_string()),
        vec![field("p", "String")],
        &mut reg,
    )
    .unwrap();
    Class::new(
        "Child".to_string(),
        Some("Parent".to_string()),
        vec![field("c", "bool")],
        &mut reg,
    )
    .unwrap()
}

#[test]
fn set_then_get_on_a_parentless_class_round_trips() {
    let mut reg = Registry::new();
    let c = Class::new("Counter".to_string(), None, vec![field("count", "i32")], &mut reg)
        .unwrap();
    let mut inst = construct_instance(&c, &strings(&["0"]));
    let found = inst.set(&"count".to_string(), "41".to_string());
    assert!(found);
    assert_eq!(inst.get(&"count".to_string()), Some(&"41".to_string()));
}

#[test]
fn constructor_arguments_reach_each_level_of_the_chain() {
    let child = three_level_child();
    let inst = construct_instance(&child, &strings(&["gran", "par", "chi"]));
    // own accessor, then the delegated ones level by level
    assert_eq!(inst.get(&"c".to_string()), Some(&"chi".to_string()));
    assert_eq!(inst.get(&"p".to_string()), Some(&"par".to_string()));
    assert_eq!(inst.get(&"g".to_string()), Some(&"gran".to_string()));
}

#[test]
fn instance_layout_composes_the_parent_chain() {
    let child = three_level_child();
    let inst = construct_instance(&child, &strings(&["gran", "par", "chi"]));
    assert_eq!(inst.class, "Child");
    let parent = inst.parent.as_ref().unwrap();
    assert_eq!(parent.class, "Parent");
    let grand = parent.parent.as_ref().unwrap();
    assert_eq!(grand.class, "Grandparent");
    assert!(grand.parent.is_none());
    assert_eq!(grand.values.len(), 1);
    assert_eq!(grand.values[0].name, "g");
    assert_eq!(grand.values[0].value, "gran");
}

#[test]
fn delegated_write_is_transparent() {
    let child = three_level_child();
    let mut through_child = construct_instance(&child, &strings(&["gran", "par", "chi"]));
    // write a grandparent-declared field through the child-exposed setter
    let found = through_child.set(&"g".to_string(), "updated".to_string());
    assert!(found);
    // the child-exposed getter sees the value
    assert_eq!(through_child.get(&"g".to_string()), Some(&"updated".to_string()));
    // identical to constructing the grandparent directly with that value
    let mut reg = Registry::new();
    let grand = Class::new("Grandparent".to_string(), None, vec![field("g", "u64")], &mut reg)
        .unwrap();
    let direct = construct_instance(&grand, &strings(&["updated"]));
    assert_eq!(direct.get(&"g".to_string()), through_child.get(&"g".to_string()));
    // other levels were untouched
    assert_eq!(through_child.get(&"p".to_string()), Some(&"par".to_string()));
    assert_eq!(through_child.get(&"c".to_string()), Some(&"chi".to_string()));
}

#[test]
fn writing_an_unknown_field_changes_nothing() {
    let child = three_level_child();
    let mut inst = construct_instance(&child, &strings(&["gran", "par", "chi"]));
    let found = inst.set(&"missing".to_string(), "zzz".to_string());
    assert!(!found);
    assert_eq!(inst.get(&"missing".to_string()), None);
    assert_eq!(inst.get(&"g".to_string()), Some(&"gran".to_string()));
    assert_eq!(inst.get(&"p".to_string()), Some(&"par".to_string()));
    assert_eq!(inst.get(&"c".to_string()), Some(&"chi".to_string()));
}

#[test]
fn middle_level_write_keeps_neighbours() {
    let child = three_level_child();
    let mut inst = construct_instance(&child, &strings(&["gran", "par", "chi"]));
    assert!(inst.set(&"p".to_string(), "replaced".to_string()));
    assert_eq!(inst.get(&"p".to_string()), Some(&"replaced".to_string()));
    assert_eq!(inst.get(&"g".to_string()), Some(&"gran".to_string()));
    assert_eq!(inst.get(&"c".to_string()), Some(&"chi".to_string()));
}
