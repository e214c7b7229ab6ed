use neovm_core::symbol::Obarray;
use neovm_core::value::{list_to_vec, HashTableTest, Value};
use neovm_core::window_cmds::state::{ensure_selected_frame_id, Ui};
use neovm_core::xfaces::{
    builtin_face_attributes_as_vector, builtin_frame_face_hash_table,
    ensure_face_new_frame_defaults_entry, ensure_startup_compat_variables,
    mirror_runtime_face_into_frame, register_bootstrap_vars,
};

fn session() -> Ui {
    let mut ui = Ui::new();
    let id = ui.buffers.create_buffer("*scratch*");
    ui.buffers.set_current(id);
    ui
}

fn entries(table: &Value) -> Vec<Value> {
    match table {
        Value::HashTable(_, l) => list_to_vec(l).expect("entries"),
        other => panic!("expected hash table, got {:?}", other),
    }
}

fn has_key(table: &Value, name: &str) -> bool {
    entries(table)
        .iter()
        .any(|e| e.car() == Value::symbol(name))
}

fn check_bootstrap_vars() {
    let mut obarray = Obarray::new();
    register_bootstrap_vars(&mut obarray);
    assert_eq!(
        obarray.symbol_value("face-default-stipple"),
        Some(Value::string("gray3"))
    );
    assert_eq!(
        obarray.symbol_value("face-near-same-color-threshold"),
        Some(Value::fixnum(30_000))
    );
    assert_eq!(
        obarray.symbol_value("face-font-lax-matched-attributes"),
        Some(Value::True)
    );
    let table = obarray
        .symbol_value("face--new-frame-defaults")
        .expect("face--new-frame-defaults");
    match table {
        Value::HashTable(test, _) => assert_eq!(test, HashTableTest::Eq),
        other => panic!("face--new-frame-defaults must be a hash table, got {:?}", other),
    }
}

#[test]
fn mod_register_bootstrap_vars_matches_gnu_defaults() {
    check_bootstrap_vars();
}

#[test]
fn xfaces_test_register_bootstrap_vars_matches_gnu_defaults() {
    check_bootstrap_vars();
}

fn check_empty_table() {
    let mut ui = session();
    let out = builtin_frame_face_hash_table(&mut ui, &vec![Value::Nil])
        .expect("live frame face hash table");
    assert_eq!(entries(&out).len(), 0);
    assert!(matches!(out, Value::HashTable(HashTableTest::Eq, _)));
}

#[test]
fn mod_frame_face_hash_table_eval_is_empty_before_any_face_realization() {
    check_empty_table();
}

#[test]
fn xfaces_test_frame_face_hash_table_eval_is_empty_before_any_face_realization() {
    check_empty_table();
}

fn check_stable_table() {
    let mut ui = session();
    let first =
        builtin_frame_face_hash_table(&mut ui, &vec![Value::Nil]).expect("first face hash table");
    let second =
        builtin_frame_face_hash_table(&mut ui, &vec![Value::Nil]).expect("second face hash table");
    assert_eq!(first, second);
}

#[test]
fn mod_frame_face_hash_table_eval_returns_stable_frame_owned_table() {
    check_stable_table();
}

#[test]
fn xfaces_test_frame_face_hash_table_eval_returns_stable_frame_owned_table() {
    check_stable_table();
}

#[test]
fn mirror_runtime_face_into_frame_uses_symbol_keys() {
    let mut ui = session();
    let frame_id = ensure_selected_frame_id(&mut ui);
    let face = builtin_face_attributes_as_vector(&vec![Value::Nil]).unwrap();
    let i = ui.frames.index_of(frame_id);
    mirror_runtime_face_into_frame(&mut ui.frames.list[i], "default", face);
    assert!(ui.frames.list[i].realized_face("default").is_some());
    let table = builtin_frame_face_hash_table(&mut ui, &vec![Value::Nil]).unwrap();
    assert!(has_key(&table, "default"));
    assert_eq!(entries(&table).len(), 1);
}

fn check_backfill() {
    let mut obarray = Obarray::new();
    ensure_startup_compat_variables(&mut obarray);
    assert_eq!(
        obarray.symbol_value("face-default-stipple"),
        Some(Value::string("gray3"))
    );
    let table = obarray
        .symbol_value("face--new-frame-defaults")
        .expect("face hash table backfilled");
    assert!(has_key(&table, "default"));
    assert!(has_key(&table, "mode-line"));
}

#[test]
fn mod_ensure_startup_compat_variables_backfills_missing_xfaces_state() {
    check_backfill();
}

#[test]
fn xfaces_test_ensure_startup_compat_variables_backfills_missing_xfaces_state() {
    check_backfill();
}

#[test]
fn backfill_keeps_values_that_are_there() {
    let mut obarray = Obarray::new();
    obarray.set_symbol_value("face-default-stipple", Value::string("mine"));
    ensure_startup_compat_variables(&mut obarray);
    assert_eq!(
        obarray.symbol_value("face-default-stipple"),
        Some(Value::string("mine"))
    );
    assert_eq!(obarray.symbol_value("tty-defined-color-alist"), None);
}

#[test]
fn defaults_entry_is_put_for_known_faces_only() {
    let mut obarray = Obarray::new();
    assert_eq!(
        ensure_face_new_frame_defaults_entry(&mut obarray, "default"),
        None
    );
    register_bootstrap_vars(&mut obarray);
    let table = ensure_face_new_frame_defaults_entry(&mut obarray, "mode-line").expect("table");
    assert!(has_key(&table, "mode-line"));
    let entry = entries(&table)
        .into_iter()
        .find(|e| e.car() == Value::symbol("default"))
        .expect("default");
    assert_eq!(entry.cdr().car(), Value::fixnum(0));
    assert_eq!(
        ensure_face_new_frame_defaults_entry(&mut obarray, "no-such-face"),
        None
    );
}

fn slots(plist: Vec<Value>) -> Vec<Value> {
    match builtin_face_attributes_as_vector(&vec![Value::list(plist)]).unwrap() {
        Value::Vector(l) => list_to_vec(&l).unwrap(),
        other => panic!("expected vector, got {:?}", other),
    }
}

#[test]
fn face_attributes_go_to_their_slots() {
    let v = slots(vec![
        Value::symbol(":family"),
        Value::string("Mono"),
        Value::symbol(":foreground"),
        Value::Nil,
        Value::symbol(":background"),
        Value::string("red"),
        Value::symbol(":box"),
        Value::True,
        Value::symbol(":font"),
        Value::string("x"),
        Value::symbol(":unknown"),
        Value::fixnum(1),
        Value::fixnum(3),
        Value::fixnum(4),
        Value::symbol(":extend"),
        Value::True,
        Value::symbol(":weight"),
    ]);
    assert_eq!(v.len(), 20);
    assert_eq!(v[0], Value::symbol("unspecified"));
    assert_eq!(v[1], Value::string("Mono"));
    assert_eq!(v[5], Value::symbol("unspecified"));
    assert_eq!(v[9], Value::symbol("unspecified"));
    assert_eq!(v[10], Value::string("red"));
    assert_eq!(v[14], Value::fixnum(1));
    assert_eq!(v[15], Value::symbol("unspecified"));
    assert_eq!(v[19], Value::True);
}

#[test]
fn face_attributes_of_no_list_are_unspecified() {
    match builtin_face_attributes_as_vector(&vec![Value::fixnum(1)]).unwrap() {
        Value::Vector(l) => {
            let v = list_to_vec(&l).unwrap();
            assert_eq!(v.len(), 20);
            assert!(v.iter().all(|x| *x == Value::symbol("unspecified")));
        }
        other => panic!("expected vector, got {:?}", other),
    }
    assert!(builtin_face_attributes_as_vector(&vec![]).is_err());
}
