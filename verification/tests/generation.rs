use romp::class::{Class, ClassDecl};
use romp::emit::MethodBody;
use romp::field::Field;
use romp::registry::Registry;

fn field(name: &str, ty: &str) -> Field {
    Field { name: name.to_string(), ty: ty.to_string() }
}

fn chain_registry() -> (Registry, Class) {
    let mut reg = Registry::new();
    Class::new("Grandparent".to_string(), None, vec![field("g", "u64")], &mut reg).unwrap();
    Class::new(
        "Parent".to_string(),
        Some("Grandparent".to_string()),
        vec![field("p", "String")],
        &mut reg,
    )
    .unwrap();
    let child = Class::new(
        "Child".to_string(),
        Some("Parent".to_string()),
        vec![field("c", "bool")],
        &mut reg,
    )
    .unwrap();
    (reg, child)
}

#[test]
fn storage_layout_holds_own_fields_and_one_parent_slot() {
    let (_reg, child) = chain_registry();
    let code = child.generate();
    assert_eq!(code.struct_def.name, "Child");
    // exactly one reserved slot, typed as the immediate parent
    assert_eq!(code.struct_def.parent_slot, Some("Parent".to_string()));
    assert_eq!(code.struct_def.fields.len(), 1);
    assert_eq!(code.struct_def.fields[0].name, "c");
    assert_eq!(code.struct_def.fields[0].ty, "bool");
}

#[test]
fn root_class_storage_has_no_parent_slot() {
    let mut reg = Registry::new();
    let root = Class::new(
        "Point".to_string(),
        None,
        vec![field("x", "f-less"), field("y", "i64")],
        &mut reg,
    )
    .unwrap();
    let code = root.generate();
    assert_eq!(code.struct_def.parent_slot, None);
    assert!(code.constructor.parent_init.is_none());
    assert!(code.parent_impls.is_empty());
}

#[test]
fn constructor_parameters_are_root_first_then_descendants_then_own() {
    let (_reg, child) = chain_registry();
    let code = child.generate();
    let names: Vec<&str> = code.constructor.params.iter().map(|f| f.name.as_str()).collect();
    assert_eq!(names, vec!["g", "p", "c"]);
    let tys: Vec<&str> = code.constructor.params.iter().map(|f| f.ty.as_str()).collect();
    assert_eq!(tys, vec!["u64", "String", "bool"]);
}

#[test]
fn constructor_fills_the_parent_slot_with_the_ancestor_arguments() {
    let (_reg, child) = chain_registry();
    let code = child.generate();
    let init = code.constructor.parent_init.as_ref().unwrap();
    assert_eq!(init.class, "Parent");
    assert_eq!(init.args, vec!["g".to_string(), "p".to_string()]);
    assert_eq!(code.constructor.own_inits, vec!["c".to_string()]);
}

#[test]
fn capability_interface_declares_one_getter_and_setter_per_own_field() {
    let mut reg = Registry::new();
    let root = Class::new(
        "Pair".to_string(),
        None,
        vec![field("left", "u8"), field("right", "u8")],
        &mut reg,
    )
    .unwrap();
    let code = root.generate();
    assert_eq!(code.trait_def.class, "Pair");
    assert_eq!(code.trait_def.methods.len(), 4);
    let m = &code.trait_def.methods;
    assert!(!m[0].setter && m[0].field == "left" && m[0].body == MethodBody::Declaration);
    assert!(m[1].setter && m[1].field == "left" && m[1].body == MethodBody::Declaration);
    assert!(!m[2].setter && m[2].field == "right");
    assert!(m[3].setter && m[3].field == "right");
}

#[test]
fn own_interface_implementation_reads_and_writes_own_storage() {
    let (_reg, child) = chain_registry();
    let code = child.generate();
    assert_eq!(code.trait_impl.class, "Child");
    assert_eq!(code.trait_impl.target, "Child");
    assert_eq!(code.trait_impl.methods.len(), 2);
    assert!(code.trait_impl.methods.iter().all(|m| m.body == MethodBody::OwnField));
}

#[test]
fn every_ancestor_interface_is_implemented_by_delegation() {
    let (_reg, child) = chain_registry();
    let code = child.generate();
    assert_eq!(code.parent_impls.len(), 2);
    assert_eq!(code.parent_impls[0].class, "Parent");
    assert_eq!(code.parent_impls[0].target, "Child");
    assert_eq!(code.parent_impls[0].methods.len(), 2);
    assert_eq!(code.parent_impls[0].methods[0].field, "p");
    assert_eq!(code.parent_impls[1].class, "Grandparent");
    assert_eq!(code.parent_impls[1].methods[0].field, "g");
    assert!(code.parent_impls.iter().flat_map(|t| t.methods.iter()).all(|m| m.body
        == MethodBody::Delegate));
}

#[test]
fn field_accessor_builders_carry_name_type_and_style() {
    let f = field("count", "i32");
    let tg = f.make_trait_getter();
    assert!(!tg.setter);
    assert_eq!(tg.field, "count");
    assert_eq!(tg.ty, "i32");
    assert_eq!(tg.body, MethodBody::Declaration);
    let ts = f.make_trait_setter();
    assert!(ts.setter);
    assert_eq!(ts.body, MethodBody::Declaration);
    let fg = f.make_field_getter();
    assert_eq!(fg.body, MethodBody::OwnField);
    let fs = f.make_field_setter();
    assert!(fs.setter && fs.body == MethodBody::OwnField);
    let pg = f.make_parent_getter();
    assert_eq!(pg.body, MethodBody::Delegate);
    let ps = f.make_parent_setter();
    assert!(ps.setter && ps.body == MethodBody::Delegate);
}

#[test]
fn field_registry_round_trip_keeps_name_and_type() {
    let f = field("speed", "Vec<u8>");
    let rec = f.to_record();
    assert_eq!(rec.name, "speed");
    assert_eq!(rec.ty, "Vec<u8>");
    let back = Field::from_record(&rec);
    assert_eq!(back.name, "speed");
    assert_eq!(back.ty, "Vec<u8>");
}

#[test]
fn distinct_parameter_names_are_recognized() {
    let (_reg, child) = chain_registry();
    assert!(child.has_distinct_param_names());
}

#[test]
fn a_field_redeclared_along_the_chain_is_detected() {
    let mut reg = Registry::new();
    Class::new("Base".to_string(), None, vec![field("name", "String")], &mut reg).unwrap();
    // the child shadows an inherited field name
    let child = Class::new(
        "Shadowing".to_string(),
        Some("Base".to_string()),
        vec![field("name", "u8")],
        &mut reg,
    )
    .unwrap();
    assert!(!child.has_distinct_param_names());
}

#[test]
fn plain_generation_emits_storage_constructor_and_direct_accessors() {
    let decl = ClassDecl {
        name: "Foo".to_string(),
        parent: None,
        fields: vec![field("name", "String"), field("count", "i32")],
    };
    let code = decl.generate_plain();
    assert_eq!(code.struct_def.name, "Foo");
    assert_eq!(code.struct_def.parent_slot, None);
    assert_eq!(code.struct_def.fields.len(), 2);
    let names: Vec<&str> = code.constructor.params.iter().map(|f| f.name.as_str()).collect();
    assert_eq!(names, vec!["name", "count"]);
    assert!(code.constructor.parent_init.is_none());
    assert_eq!(code.constructor.own_inits, vec!["name".to_string(), "count".to_string()]);
    assert_eq!(code.methods.len(), 4);
    assert!(code.methods.iter().all(|m| m.body == MethodBody::OwnField));
}
