use clippy_lints::camel::{camel_case_from, camel_case_until};
use clippy_lints::store::{get_trait_def_id, path_to_def, CrateData, CrateStore, DefLike, StoreItem};
use clippy_lints::ty::{same_tys, Ty};

#[test]
fn from_full() {
    assert_eq!(camel_case_from("AbcDef"), 0);
    assert_eq!(camel_case_from("Abc"), 0);
}

#[test]
fn from_partial() {
    assert_eq!(camel_case_from("abcDef"), 3);
    assert_eq!(camel_case_from("aDbc"), 1);
}

#[test]
fn from_not() {
    assert_eq!(camel_case_from("AbcDef_"), 7);
    assert_eq!(camel_case_from("AbcDD"), 5);
}

#[test]
fn from_caps() {
    assert_eq!(camel_case_from("ABCD"), 4);
}

#[test]
fn from_empty_and_after_other_characters() {
    assert_eq!(camel_case_from(""), 0);
    assert_eq!(camel_case_from("x_Def"), 2);
    assert_eq!(camel_case_from("9Def"), 1);
}

#[test]
fn until_full() {
    assert_eq!(camel_case_until("AbcDef"), 6);
    assert_eq!(camel_case_until("Abc"), 3);
}

#[test]
fn until_not() {
    assert_eq!(camel_case_until("abcDef"), 0);
    assert_eq!(camel_case_until("aDbc"), 0);
}

#[test]
fn until_partial() {
    assert_eq!(camel_case_until("AbcDef_"), 6);
    assert_eq!(camel_case_until("CallTypeC"), 8);
    assert_eq!(camel_case_until("AbcDD"), 3);
}

#[test]
fn until_caps() {
    assert_eq!(camel_case_until("ABCD"), 0);
}

#[test]
fn until_empty() {
    assert_eq!(camel_case_until(""), 0);
    assert_eq!(camel_case_until("A"), 0);
}

#[test]
fn positions_are_byte_offsets() {
    // `É` and `é` take two bytes each.
    assert_eq!(camel_case_until("ÉéDef"), 7);
    assert_eq!(camel_case_until("Éé_x"), 4);
    assert_eq!(camel_case_from("xÉé"), 1);
    assert_eq!(camel_case_from("éé"), 4);
    assert_eq!(camel_case_from("éÉ"), 4);
}

fn item(name: &str, def: DefLike, children: Vec<StoreItem>) -> StoreItem {
    StoreItem { name: name.to_string(), def, children }
}

fn store() -> CrateStore {
    let iterator = item("Iterator", DefLike::Trait(7), vec![item("next", DefLike::Def(8), vec![])]);
    let option = item(
        "Option",
        DefLike::Def(3),
        vec![item("Some", DefLike::Def(4), vec![item("0", DefLike::Field, vec![item("x", DefLike::Def(9), vec![])])])],
    );
    CrateStore {
        crates: vec![
            CrateData {
                name: "core".to_string(),
                items: vec![
                    item("iter", DefLike::Def(1), vec![item("iterator", DefLike::Def(2), vec![iterator])]),
                    item("option", DefLike::Def(5), vec![option]),
                    item("option", DefLike::Def(6), vec![item("Shadowed", DefLike::Def(10), vec![])]),
                ],
            },
            CrateData { name: "alloc".to_string(), items: vec![item("vec", DefLike::Impl(20), vec![])] },
        ],
    }
}

#[test]
fn paths_lead_to_definitions() {
    let store = store();
    assert_eq!(path_to_def(&store, &["core", "iter", "iterator", "Iterator"]), Some(DefLike::Trait(7)));
    assert_eq!(path_to_def(&store, &["core", "option", "Option", "Some"]), Some(DefLike::Def(4)));
    assert_eq!(path_to_def(&store, &["core", "option"]), Some(DefLike::Def(5)));
    assert_eq!(path_to_def(&store, &["alloc", "vec"]), Some(DefLike::Impl(20)));
    assert_eq!(path_to_def(&store, &["core", "option", "Option", "Some", "0"]), Some(DefLike::Field));
}

#[test]
fn paths_that_lead_nowhere_give_nothing() {
    let store = store();
    assert_eq!(path_to_def(&store, &["core"]), None);
    assert_eq!(path_to_def(&store, &[]), None);
    assert_eq!(path_to_def(&store, &["std", "iter"]), None);
    assert_eq!(path_to_def(&store, &["core", "iter", "Iterator"]), None);
    assert_eq!(path_to_def(&store, &["core", "missing", "Iterator"]), None);
    // Only the first item of a name is entered.
    assert_eq!(path_to_def(&store, &["core", "option", "Shadowed"]), None);
    // A field holds no further names.
    assert_eq!(path_to_def(&store, &["core", "option", "Option", "Some", "0", "x"]), None);
}

#[test]
fn traits_are_found_by_path() {
    let store = store();
    assert_eq!(get_trait_def_id(&store, &["core", "iter", "iterator", "Iterator"]), Some(7));
    assert_eq!(get_trait_def_id(&store, &["core", "option", "Option"]), None);
    assert_eq!(get_trait_def_id(&store, &["core", "nothing"]), None);
}

fn adt(path: &str, args: Vec<Ty>, copy: bool) -> Ty {
    Ty::Adt { path: path.to_string(), args, copy }
}

#[test]
fn types_are_compared_by_shape() {
    assert!(same_tys(&Ty::Int, &Ty::Int));
    assert!(!same_tys(&Ty::Int, &Ty::Uint));
    assert!(same_tys(&adt("a::V", vec![Ty::Int, Ty::Bool], false), &adt("a::V", vec![Ty::Int, Ty::Bool], true)));
    assert!(!same_tys(&adt("a::V", vec![Ty::Int], false), &adt("a::W", vec![Ty::Int], false)));
    assert!(!same_tys(&adt("a::V", vec![Ty::Int], false), &adt("a::V", vec![Ty::Uint], false)));
    assert!(!same_tys(&adt("a::V", vec![Ty::Int], false), &adt("a::V", vec![], false)));
    assert!(same_tys(&Ty::Ref(Box::new(Ty::Slice(Box::new(Ty::Int)))), &Ty::Ref(Box::new(Ty::Slice(Box::new(Ty::Int))))));
    assert!(!same_tys(&Ty::Ref(Box::new(Ty::Int)), &Ty::Int));
    assert!(same_tys(&Ty::Array(Box::new(Ty::Int), 3), &Ty::Array(Box::new(Ty::Int), 3)));
    assert!(!same_tys(&Ty::Array(Box::new(Ty::Int), 3), &Ty::Array(Box::new(Ty::Int), 4)));
    assert!(!same_tys(&Ty::FnDef { is_unsafe: true }, &Ty::FnDef { is_unsafe: false }));
    assert!(!same_tys(&Ty::FnDef { is_unsafe: true }, &Ty::FnPtr { is_unsafe: true }));
    assert!(same_tys(&Ty::Other, &Ty::Other));
}
