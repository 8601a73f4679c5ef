use sntk::instruction::{IrEnvironment, LiteralValue};
use sntk::symbol_table::{SymbolAttributes, SymbolEntry, SymbolTable};
use sntk::types::DataType;

fn number(n: f64) -> LiteralValue {
    LiteralValue::Number(n.to_bits())
}

fn entry(t: DataType) -> SymbolEntry {
    SymbolEntry { data_type: t, attributes: SymbolAttributes { function_return_type: None } }
}

#[test]
fn environment_binds_and_finds() {
    let mut env = IrEnvironment::new(None);
    assert_eq!(env.get(&"x".to_string()), None);
    env.set(&"x".to_string(), &number(1.0));
    env.set(&"y".to_string(), &number(2.0));
    assert_eq!(env.get(&"x".to_string()), Some(number(1.0)));
    assert_eq!(env.get(&"y".to_string()), Some(number(2.0)));
    env.set(&"x".to_string(), &number(3.0));
    assert_eq!(env.get(&"x".to_string()), Some(number(3.0)));
    assert_eq!(env.values.len(), 2);
}

#[test]
fn child_sees_the_parent_and_writes_to_itself() {
    let mut parent = IrEnvironment::new(None);
    parent.set(&"x".to_string(), &number(1.0));
    let mut child = IrEnvironment::new(Some(&parent));
    assert_eq!(child.get(&"x".to_string()), Some(number(1.0)));
    child.set(&"x".to_string(), &number(2.0));
    child.set(&"z".to_string(), &number(9.0));
    assert_eq!(child.get(&"x".to_string()), Some(number(2.0)));
    assert_eq!(parent.get(&"x".to_string()), Some(number(1.0)));
    assert_eq!(parent.get(&"z".to_string()), None);
}

#[test]
fn snapshot_does_not_see_later_writes_to_the_parent() {
    let mut parent = IrEnvironment::new(None);
    parent.set(&"x".to_string(), &number(1.0));
    let child = IrEnvironment::new(Some(&parent));
    parent.set(&"x".to_string(), &number(5.0));
    parent.set(&"late".to_string(), &number(6.0));
    assert_eq!(child.get(&"x".to_string()), Some(number(1.0)));
    assert_eq!(child.get(&"late".to_string()), None);
}

#[test]
fn symbol_table_looks_up_through_parents() {
    let mut outer = SymbolTable::new(None);
    outer.insert("x", entry(DataType::Number));
    let mut inner = SymbolTable::new(Some(outer));
    assert_eq!(inner.lookup("x"), Some(&entry(DataType::Number)));
    assert_eq!(inner.lookup("y"), None);
    inner.insert("x", entry(DataType::String));
    assert_eq!(inner.lookup("x"), Some(&entry(DataType::String)));
    let outer = inner.parent.as_ref().unwrap();
    assert_eq!(outer.lookup("x"), Some(&entry(DataType::Number)));
}

#[test]
fn insert_replaces_in_the_same_frame() {
    let mut table = SymbolTable::new(None);
    table.insert("x", entry(DataType::Number));
    table.insert("x", entry(DataType::Boolean));
    assert_eq!(table.entries.len(), 1);
    assert_eq!(table.lookup("x"), Some(&entry(DataType::Boolean)));
}

#[test]
fn lookup_mut_changes_the_entry_in_place() {
    let mut outer = SymbolTable::new(None);
    outer.insert("f", entry(DataType::Auto));
    let mut inner = SymbolTable::new(Some(outer));
    inner.insert("g", entry(DataType::Number));
    match inner.lookup_mut("f") {
        Some(found) => found.attributes.function_return_type = Some(DataType::Number),
        None => panic!("f is declared"),
    }
    assert_eq!(
        inner.lookup("f"),
        Some(&SymbolEntry {
            data_type: DataType::Auto,
            attributes: SymbolAttributes { function_return_type: Some(DataType::Number) },
        })
    );
    assert!(inner.lookup_mut("h").is_none());
    assert_eq!(inner.lookup("g"), Some(&entry(DataType::Number)));
}

#[test]
fn entry_of_a_function_notes_what_it_gives() {
    let f = DataType::Function(vec![DataType::Number], Box::new(DataType::String));
    let made = SymbolEntry::of(f);
    assert_eq!(made.attributes.function_return_type, Some(DataType::String));
    let n = SymbolEntry::of(DataType::Number);
    assert_eq!(n.attributes.function_return_type, None);
}

fn text(s: &str) -> String {
    s.to_string()
}

#[test]
fn type_equality_is_structural() {
    let n = || DataType::Number;
    let st = || DataType::String;
    let array = |t: DataType| DataType::Array(Box::new(t));
    assert!(n().equals(&n()));
    assert!(!n().equals(&st()));
    assert!(DataType::Auto.equals(&st()));
    assert!(DataType::Boolean.equals(&DataType::Auto));
    assert!(DataType::Generic(text("T")).equals(&DataType::Generic(text("T"))));
    assert!(!DataType::Generic(text("T")).equals(&DataType::Generic(text("U"))));
    assert!(!DataType::Generic(text("T")).equals(&n()));
    assert!(array(n()).equals(&array(n())));
    assert!(!array(n()).equals(&array(st())));
    assert!(array(DataType::Auto).equals(&array(st())));
    let f = DataType::Function(vec![n(), st()], Box::new(DataType::Boolean));
    assert!(f.equals(&DataType::Function(vec![n(), st()], Box::new(DataType::Boolean))));
    assert!(!f.equals(&DataType::Function(vec![n()], Box::new(DataType::Boolean))));
    assert!(!f.equals(&DataType::Function(vec![n(), n()], Box::new(DataType::Boolean))));
    assert!(!f.equals(&DataType::Function(vec![n(), st()], Box::new(DataType::Void))));
    assert!(f.equals(&DataType::Function(vec![DataType::Auto, st()], Box::new(DataType::Auto))));
    let a = DataType::Object(vec![(text("x"), n()), (text("y"), st())]);
    let b = DataType::Object(vec![(text("y"), st()), (text("x"), n())]);
    let c = DataType::Object(vec![(text("x"), n())]);
    let d = DataType::Object(vec![(text("x"), n()), (text("y"), DataType::Boolean)]);
    assert!(a.equals(&b));
    assert!(!a.equals(&c));
    assert!(!c.equals(&a));
    assert!(!a.equals(&d));
    assert!(!DataType::Void.equals(&n()));
}

#[test]
fn resolved_types_leave_nothing_to_infer() {
    let array = |t: DataType| DataType::Array(Box::new(t));
    assert!(DataType::Number.is_resolved());
    assert!(DataType::Void.is_resolved());
    assert!(DataType::Generic(text("T")).is_resolved());
    assert!(!DataType::Auto.is_resolved());
    assert!(!array(DataType::Auto).is_resolved());
    assert!(array(array(DataType::String)).is_resolved());
    assert!(DataType::Function(vec![DataType::Auto], Box::new(DataType::Number)).is_resolved());
    assert!(!DataType::Function(vec![DataType::Number], Box::new(DataType::Auto)).is_resolved());
    assert!(DataType::Object(vec![(text("a"), DataType::Number)]).is_resolved());
    assert!(!DataType::Object(vec![(text("a"), DataType::Number), (text("b"), DataType::Auto)])
        .is_resolved());
}
