use dexedit::ops::{
    add_class, add_field, add_method, delete_class, delete_field, delete_method, get_class_body,
    get_method, list_classes, list_methods, replace_class, search,
};
use dexedit::DexEditError;
use smali::dex::DexFile;
use smali::types::SmaliClass;

fn plain_class_text(desc: &str) -> String {
    format!(
        ".class public {desc}\n.super Ljava/lang/Object;\n\n.method public constructor <init>()V\n    .registers 1\n    invoke-direct {{p0}}, Ljava/lang/Object;-><init>()V\n    return-void\n.end method\n"
    )
}

fn assemble_dex(texts: &[String]) -> Vec<u8> {
    let classes: Vec<SmaliClass> = texts
        .iter()
        .map(|t| SmaliClass::from_smali(t).expect("test class text parses"))
        .collect();
    let dex = DexFile::from_smali(&classes).expect("test classes assemble");
    dex.to_bytes().to_vec()
}

fn five_class_dex() -> Vec<u8> {
    assemble_dex(&[
        plain_class_text("Lcom/example/A;"),
        plain_class_text("Lcom/example/B;"),
        plain_class_text("Lcom/example/C;"),
        plain_class_text("Lcom/example/D;"),
        plain_class_text("Lcom/example/E;"),
    ])
}

fn member_rich_dex() -> Vec<u8> {
    let text = ".class public Lcom/example/Rich;\n.super Ljava/lang/Object;\n\n.field public count:I\n.field public name:Ljava/lang/String;\n\n.method public constructor <init>()V\n    .registers 1\n    invoke-direct {p0}, Ljava/lang/Object;-><init>()V\n    return-void\n.end method\n\n.method public foo()V\n    .registers 1\n    return-void\n.end method\n\n.method public foo(I)V\n    .registers 2\n    return-void\n.end method\n\n.method public bar()V\n    .registers 1\n    return-void\n.end method\n".to_string();
    assemble_dex(&[text, plain_class_text("Lcom/example/Other;")])
}

#[test]
fn list_classes_reports_all_names_in_order() {
    let bytes = five_class_dex();
    let page = list_classes(&bytes, "", 0, 10).expect("list succeeds");
    assert_eq!(page.total, 5);
    assert_eq!(
        page.names,
        vec![
            "com.example.A".to_string(),
            "com.example.B".to_string(),
            "com.example.C".to_string(),
            "com.example.D".to_string(),
            "com.example.E".to_string()
        ]
    );
    assert!(!page.has_more);
}

#[test]
fn list_classes_prefix_filters() {
    let bytes = assemble_dex(&[
        plain_class_text("Lcom/example/A;"),
        plain_class_text("Lorg/other/B;"),
    ]);
    let page = list_classes(&bytes, "com.example.", 0, 10).expect("list succeeds");
    assert_eq!(page.total, 1);
    assert_eq!(page.names, vec!["com.example.A".to_string()]);
}

#[test]
fn pagination_middle_page_has_more() {
    let bytes = five_class_dex();
    let page = list_classes(&bytes, "", 2, 2).expect("list succeeds");
    assert_eq!(page.total, 5);
    assert_eq!(
        page.names,
        vec!["com.example.C".to_string(), "com.example.D".to_string()]
    );
    assert!(page.has_more);
}

#[test]
fn pagination_last_page_no_more() {
    let bytes = five_class_dex();
    let page = list_classes(&bytes, "", 4, 2).expect("list succeeds");
    assert_eq!(page.total, 5);
    assert_eq!(page.names, vec!["com.example.E".to_string()]);
    assert!(!page.has_more);
}

#[test]
fn pagination_out_of_range_degrades_to_empty() {
    let bytes = five_class_dex();
    let page = list_classes(&bytes, "", 9, 3).expect("list succeeds");
    assert_eq!(page.total, 5);
    assert!(page.names.is_empty());
    assert!(!page.has_more);
}

#[test]
fn search_case_sensitive_misses_lowercase_class() {
    let bytes = assemble_dex(&[plain_class_text("Lfoobar;")]);
    let out = search(&bytes, "Foo", "class", true, 10).expect("search succeeds");
    assert_eq!(out.total, 0);
    assert!(out.results.is_empty());
}

#[test]
fn search_case_insensitive_matches_lowercase_class() {
    let bytes = assemble_dex(&[plain_class_text("Lfoobar;")]);
    let out = search(&bytes, "Foo", "class", false, 10).expect("search succeeds");
    assert_eq!(out.total, 1);
    assert_eq!(out.results[0].class_name, "foobar");
    assert_eq!(out.results[0].tag, "class");
    assert!(out.results[0].member.is_none());
}

#[test]
fn search_truncates_at_bound_and_reports_bound_as_total() {
    let bytes = five_class_dex();
    let out = search(&bytes, "com.example", "class", true, 3).expect("search succeeds");
    assert_eq!(out.results.len(), 3);
    assert_eq!(out.total, 3);
    assert_eq!(out.results[0].class_name, "com.example.A");
    assert_eq!(out.results[2].class_name, "com.example.C");
}

#[test]
fn search_unknown_kind_yields_no_results_without_error() {
    let bytes = five_class_dex();
    let out = search(&bytes, "com", "everything", false, 10).expect("search succeeds");
    assert_eq!(out.total, 0);
    assert!(out.results.is_empty());
}

#[test]
fn search_methods_finds_named_method() {
    let bytes = member_rich_dex();
    let out = search(&bytes, "foo", "method", true, 10).expect("search succeeds");
    assert_eq!(out.total, 2);
    assert_eq!(out.results[0].tag, "method");
    assert_eq!(out.results[0].class_name, "com.example.Rich");
    assert_eq!(out.results[0].member.as_deref(), Some("foo"));
}

#[test]
fn search_fields_finds_named_field() {
    let bytes = member_rich_dex();
    let out = search(&bytes, "count", "field", true, 10).expect("search succeeds");
    assert_eq!(out.total, 1);
    assert_eq!(out.results[0].tag, "field");
    assert_eq!(out.results[0].member.as_deref(), Some("count"));
}

#[test]
fn search_code_echoes_requested_kind() {
    let bytes = member_rich_dex();
    let out = search(&bytes, "return", "code", false, 10).expect("search succeeds");
    assert!(out.total > 0);
    assert_eq!(out.results[0].tag, "code");
}

#[test]
fn get_class_body_returns_rendering() {
    let bytes = five_class_dex();
    let body = get_class_body(&bytes, "com.example.B").expect("class exists");
    assert!(body.contains(".class"));
    assert!(body.contains("Lcom/example/B;"));
}

#[test]
fn get_class_body_missing_class_is_not_found() {
    let bytes = five_class_dex();
    let err = get_class_body(&bytes, "com.example.Missing").unwrap_err();
    assert!(matches!(err, DexEditError::ClassNotFound));
}

#[test]
fn malformed_container_is_decode_error() {
    let garbage: Vec<u8> = vec![0, 1, 2, 3, 4, 5, 6, 7];
    let err = list_classes(&garbage, "", 0, 10).unwrap_err();
    assert!(matches!(err, DexEditError::Decode(_)));
}

#[test]
fn list_methods_reports_names_and_constructor_flag() {
    let bytes = member_rich_dex();
    let methods = list_methods(&bytes, "com.example.Rich").expect("class exists");
    let names: Vec<&str> = methods.iter().map(|m| m.name.as_str()).collect();
    assert_eq!(names, vec!["<init>", "bar", "foo", "foo"]);
    assert!(methods[0].constructor);
    assert!(!methods[1].constructor);
    assert!(methods[1].modifiers.contains(&"public".to_string()));
}

#[test]
fn get_method_empty_signature_returns_first_overload() {
    let bytes = member_rich_dex();
    let body = get_method(&bytes, "com.example.Rich", "foo", "").expect("method exists");
    assert!(body.rendering.contains("foo"));
    let methods = list_methods(&bytes, "com.example.Rich").expect("class exists");
    let first_foo = methods
        .iter()
        .find(|m| m.name == "foo")
        .expect("an overload named foo exists");
    assert_eq!(body.signature, first_foo.signature);
}

#[test]
fn get_method_missing_method_is_distinct_from_missing_class() {
    let bytes = member_rich_dex();
    let method_err = get_method(&bytes, "com.example.Rich", "absent", "").unwrap_err();
    assert!(matches!(method_err, DexEditError::MethodNotFound));
    let class_err = get_method(&bytes, "com.example.Absent", "foo", "").unwrap_err();
    assert!(matches!(class_err, DexEditError::ClassNotFound));
}

#[test]
fn round_trip_preserves_names_and_members() {
    let bytes = member_rich_dex();
    let model = dexedit::codec::load_model(&bytes).expect("decodes");
    let bytes2 = dexedit::codec::reencode(&model).expect("re-encodes");
    let before = list_classes(&bytes, "", 0, 100).expect("list succeeds");
    let after = list_classes(&bytes2, "", 0, 100).expect("list succeeds");
    assert_eq!(before.names, after.names);
    let m_before = list_methods(&bytes, "com.example.Rich").expect("class exists");
    let m_after = list_methods(&bytes2, "com.example.Rich").expect("class exists");
    let names_before: Vec<&str> = m_before.iter().map(|m| m.name.as_str()).collect();
    let names_after: Vec<&str> = m_after.iter().map(|m| m.name.as_str()).collect();
    assert_eq!(names_before, names_after);
}

#[test]
fn add_class_appends_and_lists_exactly_once_at_end() {
    let bytes = assemble_dex(&[
        plain_class_text("Lcom/example/A;"),
        plain_class_text("Lcom/example/B;"),
    ]);
    let new_text = plain_class_text("Lcom/example/Added;");
    let bytes2 = add_class(&bytes, &new_text).expect("add succeeds");
    let page = list_classes(&bytes2, "com.example.Added", 0, 10).expect("list succeeds");
    assert_eq!(page.total, 1);
    assert_eq!(page.names, vec!["com.example.Added".to_string()]);
    let all = list_classes(&bytes2, "", 0, 10).expect("list succeeds");
    assert_eq!(all.names.last().map(|s| s.as_str()), Some("com.example.Added"));
    let occurrences = all
        .names
        .iter()
        .filter(|n| n.as_str() == "com.example.Added")
        .count();
    assert_eq!(occurrences, 1);
}

#[test]
fn delete_class_missing_fails_not_found_without_bytes() {
    let bytes = five_class_dex();
    let err = delete_class(&bytes, "com.example.Missing").unwrap_err();
    assert!(matches!(err, DexEditError::ClassNotFound));
    let page = list_classes(&bytes, "", 0, 10).expect("original bytes still decode");
    assert_eq!(page.total, 5);
}

#[test]
fn delete_class_removes_the_class() {
    let bytes = five_class_dex();
    let bytes2 = delete_class(&bytes, "com.example.C").expect("delete succeeds");
    let page = list_classes(&bytes2, "", 0, 10).expect("list succeeds");
    assert_eq!(page.total, 4);
    assert!(!page.names.iter().any(|n| n == "com.example.C"));
}

#[test]
fn replace_class_overwrites_in_place() {
    let bytes = member_rich_dex();
    let replacement = plain_class_text("Lcom/example/Rich;");
    let bytes2 = replace_class(&bytes, "com.example.Rich", &replacement).expect("replace succeeds");
    let methods = list_methods(&bytes2, "com.example.Rich").expect("class exists");
    let names: Vec<&str> = methods.iter().map(|m| m.name.as_str()).collect();
    assert_eq!(names, vec!["<init>"]);
    let all = list_classes(&bytes2, "", 0, 10).expect("list succeeds");
    assert_eq!(
        all.names,
        vec!["com.example.Rich".to_string(), "com.example.Other".to_string()]
    );
}

#[test]
fn replace_class_missing_fails_not_found() {
    let bytes = five_class_dex();
    let replacement = plain_class_text("Lcom/example/Zed;");
    let err = replace_class(&bytes, "com.example.Zed", &replacement).unwrap_err();
    assert!(matches!(err, DexEditError::ClassNotFound));
}

#[test]
fn add_method_appends_to_target_class() {
    let bytes = member_rich_dex();
    let method_text =
        ".method public zap()V\n    .registers 1\n    return-void\n.end method\n";
    let bytes2 = add_method(&bytes, "com.example.Rich", method_text).expect("add succeeds");
    let methods = list_methods(&bytes2, "com.example.Rich").expect("class exists");
    let names: Vec<&str> = methods.iter().map(|m| m.name.as_str()).collect();
    assert_eq!(names, vec!["<init>", "bar", "foo", "foo", "zap"]);
    let body = get_method(&bytes2, "com.example.Rich", "zap", "").expect("method exists");
    assert!(body.rendering.contains("zap"));
}

#[test]
fn add_method_missing_class_fails_not_found() {
    let bytes = five_class_dex();
    let method_text =
        ".method public zap()V\n    .registers 1\n    return-void\n.end method\n";
    let err = add_method(&bytes, "com.example.Missing", method_text).unwrap_err();
    assert!(matches!(err, DexEditError::ClassNotFound));
}

#[test]
fn delete_method_empty_signature_removes_every_overload() {
    let bytes = member_rich_dex();
    let bytes2 = delete_method(&bytes, "com.example.Rich", "foo", "").expect("delete succeeds");
    let methods = list_methods(&bytes2, "com.example.Rich").expect("class exists");
    let names: Vec<&str> = methods.iter().map(|m| m.name.as_str()).collect();
    assert_eq!(names, vec!["<init>", "bar"]);
}

#[test]
fn delete_method_exact_signature_removes_one_overload() {
    let bytes = member_rich_dex();
    let methods = list_methods(&bytes, "com.example.Rich").expect("class exists");
    let sig = methods
        .iter()
        .find(|m| m.name == "foo")
        .expect("an overload named foo exists")
        .signature
        .clone();
    let bytes2 =
        delete_method(&bytes, "com.example.Rich", "foo", &sig).expect("delete succeeds");
    let remaining = list_methods(&bytes2, "com.example.Rich").expect("class exists");
    let names: Vec<&str> = remaining.iter().map(|m| m.name.as_str()).collect();
    assert_eq!(names, vec!["<init>", "bar", "foo"]);
}

#[test]
fn delete_method_failures_are_distinguishable() {
    let bytes = member_rich_dex();
    let method_err = delete_method(&bytes, "com.example.Rich", "absent", "").unwrap_err();
    assert!(matches!(method_err, DexEditError::MethodNotFound));
    let class_err = delete_method(&bytes, "com.example.Absent", "foo", "").unwrap_err();
    assert!(matches!(class_err, DexEditError::ClassNotFound));
}

#[test]
fn add_field_appends_to_target_class() {
    let bytes = member_rich_dex();
    let bytes2 =
        add_field(&bytes, "com.example.Rich", ".field public extra:I").expect("add succeeds");
    let body = get_class_body(&bytes2, "com.example.Rich").expect("class exists");
    assert!(body.contains("extra:I"));
}

#[test]
fn add_field_with_zero_parsed_fields_is_parse_error() {
    let bytes = member_rich_dex();
    let err = add_field(&bytes, "com.example.Rich", "").unwrap_err();
    assert!(matches!(err, DexEditError::Parse(_)));
    let method_not_field =
        ".method public zap()V\n    .registers 1\n    return-void\n.end method\n";
    let err2 = add_field(&bytes, "com.example.Rich", method_not_field).unwrap_err();
    assert!(matches!(err2, DexEditError::Parse(_)));
}

#[test]
fn add_method_with_zero_parsed_methods_is_parse_error() {
    let bytes = member_rich_dex();
    let err = add_method(&bytes, "com.example.Rich", "").unwrap_err();
    assert!(matches!(err, DexEditError::Parse(_)));
}

#[test]
fn delete_field_removes_named_field() {
    let bytes = member_rich_dex();
    let bytes2 = delete_field(&bytes, "com.example.Rich", "count").expect("delete succeeds");
    let body = get_class_body(&bytes2, "com.example.Rich").expect("class exists");
    assert!(!body.contains("count:I"));
    assert!(body.contains("name:Ljava/lang/String;"));
}

#[test]
fn delete_field_failures_are_distinguishable() {
    let bytes = member_rich_dex();
    let field_err = delete_field(&bytes, "com.example.Rich", "absent").unwrap_err();
    assert!(matches!(field_err, DexEditError::FieldNotFound));
    let class_err = delete_field(&bytes, "com.example.Absent", "count").unwrap_err();
    assert!(matches!(class_err, DexEditError::ClassNotFound));
}
