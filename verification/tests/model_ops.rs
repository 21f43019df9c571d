use dexedit::codec::parse_class_text;
use dexedit::edit::{add_class_def, delete_class_def, delete_methods_def};
use dexedit::model::Model;
use dexedit::query::{list_classes_model, search_model};
use dexedit::DexEditError;

fn model_of(texts: &[String]) -> Model {
    let classes = texts
        .iter()
        .map(|t| parse_class_text(t).expect("test class text parses"))
        .collect();
    Model { classes }
}

fn simple_class(desc: &str) -> String {
    format!(".class public {desc}\n.super Ljava/lang/Object;\n")
}

#[test]
fn model_search_truncates_mid_class() {
    let text = ".class public Lcom/example/Many;\n.super Ljava/lang/Object;\n\n.method public hit1()V\n    .registers 1\n    return-void\n.end method\n\n.method public hit2()V\n    .registers 1\n    return-void\n.end method\n\n.method public hit3()V\n    .registers 1\n    return-void\n.end method\n".to_string();
    let model = model_of(&[text]);
    let out = search_model(&model, "hit", "method", true, 2);
    assert_eq!(out.total, 2);
    assert_eq!(out.results.len(), 2);
    assert_eq!(out.results[0].member.as_deref(), Some("hit1"));
    assert_eq!(out.results[1].member.as_deref(), Some("hit2"));
}

#[test]
fn model_search_package_kind_reports_class_tag() {
    let model = model_of(&[simple_class("Lcom/example/A;")]);
    let out = search_model(&model, "example", "package", true, 10);
    assert_eq!(out.total, 1);
    assert_eq!(out.results[0].tag, "class");
}

#[test]
fn model_list_classes_empty_prefix_keeps_all() {
    let model = model_of(&[
        simple_class("La/A;"),
        simple_class("Lb/B;"),
    ]);
    let page = list_classes_model(&model, "", 0, 10);
    assert_eq!(page.total, 2);
    assert_eq!(page.names, vec!["a.A".to_string(), "b.B".to_string()]);
}

#[test]
fn model_delete_class_absent_leaves_model_unchanged() {
    let mut model = model_of(&[simple_class("La/A;"), simple_class("Lb/B;")]);
    let err = delete_class_def(&mut model, "c.C").unwrap_err();
    assert!(matches!(err, DexEditError::ClassNotFound));
    assert_eq!(model.classes.len(), 2);
    assert_eq!(model.classes[0].name, "a.A");
    assert_eq!(model.classes[1].name, "b.B");
}

#[test]
fn model_delete_class_purges_duplicate_names() {
    let mut model = model_of(&[
        simple_class("La/A;"),
        simple_class("Lb/B;"),
        simple_class("La/A;"),
    ]);
    delete_class_def(&mut model, "a.A").expect("delete succeeds");
    assert_eq!(model.classes.len(), 1);
    assert_eq!(model.classes[0].name, "b.B");
}

#[test]
fn model_add_class_appends_at_end() {
    let mut model = model_of(&[simple_class("La/A;")]);
    let new = parse_class_text(&simple_class("Lz/Z;")).expect("parses");
    add_class_def(&mut model, new);
    assert_eq!(model.classes.len(), 2);
    assert_eq!(model.classes[1].name, "z.Z");
}

#[test]
fn model_delete_methods_only_touches_first_matching_class() {
    let a = ".class public La/A;\n.super Ljava/lang/Object;\n\n.method public go()V\n    .registers 1\n    return-void\n.end method\n".to_string();
    let b = ".class public Lb/B;\n.super Ljava/lang/Object;\n\n.method public go()V\n    .registers 1\n    return-void\n.end method\n".to_string();
    let mut model = model_of(&[a, b]);
    delete_methods_def(&mut model, "a.A", "go", "").expect("delete succeeds");
    assert!(model.classes[0].methods.is_empty());
    assert_eq!(model.classes[1].methods.len(), 1);
}

#[test]
fn error_labels_name_each_kind() {
    assert_eq!(DexEditError::ClassNotFound.label(), "class not found");
    assert_eq!(DexEditError::MethodNotFound.label(), "method not found");
    assert_eq!(DexEditError::FieldNotFound.label(), "field not found");
    assert_eq!(
        DexEditError::Parse("x".to_string()).label(),
        "parse error"
    );
}
