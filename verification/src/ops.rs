//! The caller-facing operation surface.
//!
//! Each operation is stateless and single-shot: it takes the raw container
//! bytes, decodes and disassembles them into a fresh class model, runs one
//! query or edit, and — for edits — re-encodes the model into new bytes.
//! A failed operation returns its error and produces no output bytes; the
//! caller's input buffer is never mutated.
//!
//! The contracts speak of the codec's named results: `decode_ok` /
//! `disasm_ok` / `parse_ok` say on which inputs the codec accepts its
//! input, so each error arm holds if and only if its own failure occurred,
//! and `decoded_view(bytes)` is the class model the codec produces.
//! Query results and lookup outcomes are pinned exactly over that model
//! wherever the model is reproducible (`canonical_bytes`); re-encoded
//! bytes are pinned through `rebuilt_classes`, `assembled` and `dex_data`.

use vstd::prelude::*;

use crate::codec::{
    assemble_ok, assembled, canonical_bytes, class_view_of, decode_ok, decoded_view, dex_data,
    disasm_ok, field_shell, load_model, load_ok, method_shell, parse_class_text, parse_field_text,
    parse_method_text, parse_ok, parsed_class, rebuilt_classes, reencode,
};
use crate::codec::container_of;
use crate::edit::{
    add_class_def, add_fields_def, add_methods_def, delete_class_def, delete_fields_def,
    delete_methods_def, replace_class_def, without_class,
};
use crate::edit::{fields_without, methods_without};
use crate::model::{
    class_present, field_present, is_first_class_match, method_present, str_views, ClassView,
    FieldView, MethodView,
};
use crate::query::{
    clip, field_found, filtered_names, get_class_body as get_class_body_of, get_method_model,
    hit_views, info_of, info_views, is_first_method_match, list_classes_model, list_methods_model,
    method_found, model_hits, page_of, search_model, ListPage, MethodBody, MethodInfo,
    SearchOutcome,
};
use crate::DexEditError;

verus! {

/// The model after appending the given methods to the class at position
/// `i`, everything else unchanged.
pub open spec fn methods_added_view(model: Seq<ClassView>, i: int, add: Seq<MethodView>) -> Seq<
    ClassView,
> {
    model.update(i, (ClassView { methods: model[i].methods + add, ..model[i] }))
}

/// The model after removing every selector-matched method of the class at
/// position `i`, everything else unchanged.
pub open spec fn methods_deleted_view(
    model: Seq<ClassView>,
    i: int,
    method_name: Seq<char>,
    sig: Seq<char>,
) -> Seq<ClassView> {
    model.update(
        i,
        (ClassView { methods: methods_without(model[i].methods, method_name, sig), ..model[i] }),
    )
}

/// The model after appending the given fields to the class at position
/// `i`, everything else unchanged.
pub open spec fn fields_added_view(model: Seq<ClassView>, i: int, add: Seq<FieldView>) -> Seq<
    ClassView,
> {
    model.update(i, (ClassView { fields: model[i].fields + add, ..model[i] }))
}

/// The model after removing every field of the given name from the class
/// at position `i`, everything else unchanged.
pub open spec fn fields_deleted_view(
    model: Seq<ClassView>,
    i: int,
    field_name: Seq<char>,
) -> Seq<ClassView> {
    model.update(
        i,
        (ClassView { fields: fields_without(model[i].fields, field_name), ..model[i] }),
    )
}

/// Searches the container's classes for `query` under the given kind,
/// case sensitivity and result bound, in model order, truncating at the
/// bound; the reported total counts the returned results. Succeeds exactly
/// when the bytes decode and disassemble.
pub fn search(
    bytes: &[u8],
    query: &str,
    kind: &str,
    case_sensitive: bool,
    max_results: usize,
) -> (r: Result<SearchOutcome, DexEditError>)
    ensures
        r is Ok <==> load_ok(bytes@),
        r matches Ok(out) ==> out.total == out.results@.len() && out.results@.len() <= max_results,
        r matches Ok(out) ==> (canonical_bytes(bytes@) ==> hit_views(out.results@) == clip(
            model_hits(decoded_view(bytes@), query@, kind@, case_sensitive),
            max_results as int,
        )),
        r matches Err(e) ==> match e {
            DexEditError::Decode(_) => !decode_ok(bytes@),
            DexEditError::Disassemble(_) => decode_ok(bytes@) && !disasm_ok(container_of(bytes@)),
            _ => false,
        },
{
    let model = match load_model(bytes) {
        Ok(m) => m,
        Err(e) => {
            return Err(e);
        },
    };
    Ok(search_model(&model, query, kind, case_sensitive, max_results))
}

/// Enumerates the container's class names that carry the prefix, paged by
/// `offset` and `limit`. Succeeds exactly when the bytes decode and
/// disassemble.
pub fn list_classes(bytes: &[u8], prefix: &str, offset: usize, limit: usize) -> (r: Result<
    ListPage,
    DexEditError,
>)
    ensures
        r is Ok <==> load_ok(bytes@),
        r matches Ok(page) ==> page.offset == offset && page.limit == limit && page.has_more == (
        offset + page.names@.len() < page.total),
        r matches Ok(page) ==> (canonical_bytes(bytes@) ==> {
            let f = filtered_names(decoded_view(bytes@), prefix@);
            &&& page.total == f.len()
            &&& str_views(page.names@) == page_of(f, offset as int, limit as int)
        }),
        r matches Err(e) ==> match e {
            DexEditError::Decode(_) => !decode_ok(bytes@),
            DexEditError::Disassemble(_) => decode_ok(bytes@) && !disasm_ok(container_of(bytes@)),
            _ => false,
        },
{
    let model = match load_model(bytes) {
        Ok(m) => m,
        Err(e) => {
            return Err(e);
        },
    };
    Ok(list_classes_model(&model, prefix, offset, limit))
}

/// The human-readable rendering of the named class. Succeeds exactly when
/// the bytes load and the class exists.
pub fn get_class_body(bytes: &[u8], class_name: &str) -> (r: Result<String, DexEditError>)
    ensures
        r is Ok ==> load_ok(bytes@),
        load_ok(bytes@) && canonical_bytes(bytes@) ==> (r is Ok <==> class_present(
            decoded_view(bytes@),
            class_name@,
        )),
        r matches Ok(s) ==> (canonical_bytes(bytes@) ==> exists|i: int|
            #[trigger] is_first_class_match(decoded_view(bytes@), class_name@, i) && s@
                == decoded_view(bytes@)[i].rendering),
        r matches Err(e) ==> match e {
            DexEditError::Decode(_) => !decode_ok(bytes@),
            DexEditError::Disassemble(_) => decode_ok(bytes@) && !disasm_ok(container_of(bytes@)),
            DexEditError::ClassNotFound => load_ok(bytes@) && (canonical_bytes(bytes@)
                ==> !class_present(decoded_view(bytes@), class_name@)),
            _ => false,
        },
{
    let model = match load_model(bytes) {
        Ok(m) => m,
        Err(e) => {
            return Err(e);
        },
    };
    get_class_body_of(&model, class_name)
}

/// Enumerates the methods of the named class, in member order. Succeeds
/// exactly when the bytes load and the class exists.
pub fn list_methods(bytes: &[u8], class_name: &str) -> (r: Result<Vec<MethodInfo>, DexEditError>)
    ensures
        r is Ok ==> load_ok(bytes@),
        load_ok(bytes@) && canonical_bytes(bytes@) ==> (r is Ok <==> class_present(
            decoded_view(bytes@),
            class_name@,
        )),
        r matches Ok(v) ==> (canonical_bytes(bytes@) ==> exists|i: int|
            #[trigger] is_first_class_match(decoded_view(bytes@), class_name@, i) && info_views(v@)
                == decoded_view(bytes@)[i].methods.map_values(
                |m: crate::model::MethodView| info_of(m),
            )),
        r matches Err(e) ==> match e {
            DexEditError::Decode(_) => !decode_ok(bytes@),
            DexEditError::Disassemble(_) => decode_ok(bytes@) && !disasm_ok(container_of(bytes@)),
            DexEditError::ClassNotFound => load_ok(bytes@) && (canonical_bytes(bytes@)
                ==> !class_present(decoded_view(bytes@), class_name@)),
            _ => false,
        },
{
    let model = match load_model(bytes) {
        Ok(m) => m,
        Err(e) => {
            return Err(e);
        },
    };
    list_methods_model(&model, class_name)
}

/// The rendering and full signature of one method of the named class; an
/// empty signature selects the first method with the name. Succeeds
/// exactly when the bytes load and the selector matches a method of the
/// named class.
pub fn get_method(bytes: &[u8], class_name: &str, method_name: &str, signature: &str) -> (r: Result<
    MethodBody,
    DexEditError,
>)
    ensures
        r is Ok ==> load_ok(bytes@),
        load_ok(bytes@) && canonical_bytes(bytes@) ==> (r is Ok <==> method_found(
            decoded_view(bytes@),
            class_name@,
            method_name@,
            signature@,
        )),
        r matches Ok(b) ==> (canonical_bytes(bytes@) ==> exists|i: int, k: int|
            #[trigger] is_first_class_match(decoded_view(bytes@), class_name@, i)
                && #[trigger] is_first_method_match(
                decoded_view(bytes@)[i],
                method_name@,
                signature@,
                k,
            ) && b.rendering@ == decoded_view(bytes@)[i].methods[k].rendering && b.signature@
                == decoded_view(bytes@)[i].methods[k].signature),
        r matches Err(e) ==> match e {
            DexEditError::Decode(_) => !decode_ok(bytes@),
            DexEditError::Disassemble(_) => decode_ok(bytes@) && !disasm_ok(container_of(bytes@)),
            DexEditError::ClassNotFound => load_ok(bytes@) && (canonical_bytes(bytes@)
                ==> !class_present(decoded_view(bytes@), class_name@)),
            DexEditError::MethodNotFound => load_ok(bytes@) && (canonical_bytes(bytes@) ==> exists|
                i: int,
            |
                #[trigger] is_first_class_match(decoded_view(bytes@), class_name@, i)
                    && !method_present(decoded_view(bytes@)[i], method_name@, signature@)),
            _ => false,
        },
{
    let model = match load_model(bytes) {
        Ok(m) => m,
        Err(e) => {
            return Err(e);
        },
    };
    get_method_model(&model, class_name, method_name, signature)
}

/// Parses the supplied class text and overwrites the named class with it
/// in place, then re-encodes; the parsed replacement's own declared name is
/// not checked against the target name. Parsing precedes the lookup, so
/// malformed text is a `Parse` failure even when the class is also absent.
pub fn replace_class(bytes: &[u8], class_name: &str, new_class_text: &str) -> (r: Result<
    Vec<u8>,
    DexEditError,
>)
    ensures
        r is Ok ==> load_ok(bytes@) && parse_ok(new_class_text@),
        load_ok(bytes@) && !parse_ok(new_class_text@) ==> r matches Err(DexEditError::Parse(_)),
        load_ok(bytes@) && parse_ok(new_class_text@) && canonical_bytes(bytes@) ==> (r matches Err(DexEditError::ClassNotFound) <==> !class_present(
            decoded_view(bytes@),
            class_name@,
        )),
        r matches Ok(b) ==> (canonical_bytes(bytes@) ==> exists|i: int, m: crate::model::Model|
            #![trigger rebuilt_classes(m.classes@), is_first_class_match(decoded_view(bytes@), class_name@, i)]
            is_first_class_match(decoded_view(bytes@), class_name@, i) && m@ == decoded_view(
                bytes@,
            ).update(i, class_view_of(parsed_class(new_class_text@))) && assemble_ok(
                rebuilt_classes(m.classes@),
            ) && b@ == dex_data(assembled(rebuilt_classes(m.classes@)))),
        r matches Err(e) ==> match e {
            DexEditError::Decode(_) => !decode_ok(bytes@),
            DexEditError::Disassemble(_) => decode_ok(bytes@) && !disasm_ok(container_of(bytes@)),
            DexEditError::Parse(_) => load_ok(bytes@) && !parse_ok(new_class_text@),
            DexEditError::ClassNotFound => load_ok(bytes@) && parse_ok(new_class_text@) && (
            canonical_bytes(bytes@) ==> !class_present(decoded_view(bytes@), class_name@)),
            DexEditError::Recompile(_) => load_ok(bytes@) && parse_ok(new_class_text@) && (
            canonical_bytes(bytes@) ==> class_present(decoded_view(bytes@), class_name@) && exists|
                i: int,
                m: crate::model::Model,
            |
                #![trigger rebuilt_classes(m.classes@), is_first_class_match(decoded_view(bytes@), class_name@, i)]
                is_first_class_match(decoded_view(bytes@), class_name@, i) && m@ == decoded_view(
                    bytes@,
                ).update(i, class_view_of(parsed_class(new_class_text@))) && !assemble_ok(
                    rebuilt_classes(m.classes@),
                )),
            _ => false,
        },
{
    let mut model = match load_model(bytes) {
        Ok(m) => m,
        Err(e) => {
            return Err(e);
        },
    };
    let new_class = match parse_class_text(new_class_text) {
        Ok(c) => c,
        Err(e) => {
            return Err(e);
        },
    };
    let ghost newv = new_class@;
    match replace_class_def(&mut model, class_name, new_class) {
        Ok(()) => (),
        Err(e) => {
            return Err(e);
        },
    }
    let r = reencode(&model);
    proof {
        if canonical_bytes(bytes@) {
            let i0 = choose|i: int|
                #[trigger] is_first_class_match(decoded_view(bytes@), class_name@, i) && model@
                    == decoded_view(bytes@).update(i, newv);
            assert(is_first_class_match(decoded_view(bytes@), class_name@, i0) && model@
                == decoded_view(bytes@).update(i0, newv) && rebuilt_classes(model.classes@)
                == rebuilt_classes(model.classes@));
        }
    }
    r
}

/// Parses the supplied class text and appends it at the end of the model,
/// then re-encodes. No duplicate-name check is made: uniqueness of type
/// names is the caller's responsibility.
pub fn add_class(bytes: &[u8], new_class_text: &str) -> (r: Result<Vec<u8>, DexEditError>)
    ensures
        r is Ok ==> load_ok(bytes@) && parse_ok(new_class_text@),
        load_ok(bytes@) && !parse_ok(new_class_text@) ==> r matches Err(DexEditError::Parse(_)),
        r matches Ok(b) ==> (canonical_bytes(bytes@) ==> exists|m: crate::model::Model|
            #![trigger rebuilt_classes(m.classes@)]
            m@ == decoded_view(bytes@).push(class_view_of(parsed_class(new_class_text@)))
                && assemble_ok(rebuilt_classes(m.classes@)) && b@ == dex_data(
                assembled(rebuilt_classes(m.classes@)),
            )),
        r matches Err(e) ==> match e {
            DexEditError::Decode(_) => !decode_ok(bytes@),
            DexEditError::Disassemble(_) => decode_ok(bytes@) && !disasm_ok(container_of(bytes@)),
            DexEditError::Parse(_) => load_ok(bytes@) && !parse_ok(new_class_text@),
            DexEditError::Recompile(_) => load_ok(bytes@) && parse_ok(new_class_text@) && (
            canonical_bytes(bytes@) ==> exists|m: crate::model::Model|
                #![trigger rebuilt_classes(m.classes@)]
                m@ == decoded_view(bytes@).push(class_view_of(parsed_class(new_class_text@)))
                    && !assemble_ok(rebuilt_classes(m.classes@))),
            _ => false,
        },
{
    let mut model = match load_model(bytes) {
        Ok(m) => m,
        Err(e) => {
            return Err(e);
        },
    };
    let new_class = match parse_class_text(new_class_text) {
        Ok(c) => c,
        Err(e) => {
            return Err(e);
        },
    };
    add_class_def(&mut model, new_class);
    let r = reencode(&model);
    proof {
        if canonical_bytes(bytes@) {
            assert(model@ == decoded_view(bytes@).push(
                class_view_of(parsed_class(new_class_text@)),
            ) && rebuilt_classes(model.classes@) == rebuilt_classes(model.classes@));
        }
    }
    r
}

/// Removes every class bearing the target name and re-encodes;
/// `ClassNotFound`, with no output bytes, exactly when the name matched
/// nothing.
pub fn delete_class(bytes: &[u8], class_name: &str) -> (r: Result<Vec<u8>, DexEditError>)
    ensures
        r is Ok ==> load_ok(bytes@),
        load_ok(bytes@) && canonical_bytes(bytes@) ==> (r matches Err(DexEditError::ClassNotFound) <==> !class_present(decoded_view(bytes@), class_name@)),
        r matches Ok(b) ==> (canonical_bytes(bytes@) ==> class_present(
            decoded_view(bytes@),
            class_name@,
        ) && exists|m: crate::model::Model|
            #![trigger rebuilt_classes(m.classes@)]
            m@ == without_class(decoded_view(bytes@), class_name@) && assemble_ok(
                rebuilt_classes(m.classes@),
            ) && b@ == dex_data(assembled(rebuilt_classes(m.classes@)))),
        r matches Err(e) ==> match e {
            DexEditError::Decode(_) => !decode_ok(bytes@),
            DexEditError::Disassemble(_) => decode_ok(bytes@) && !disasm_ok(container_of(bytes@)),
            DexEditError::ClassNotFound => load_ok(bytes@) && (canonical_bytes(bytes@)
                ==> !class_present(decoded_view(bytes@), class_name@)),
            DexEditError::Recompile(_) => load_ok(bytes@) && (canonical_bytes(bytes@)
                ==> class_present(decoded_view(bytes@), class_name@) && exists|
                m: crate::model::Model,
            |
                #![trigger rebuilt_classes(m.classes@)]
                m@ == without_class(decoded_view(bytes@), class_name@) && !assemble_ok(
                    rebuilt_classes(m.classes@),
                )),
            _ => false,
        },
{
    let mut model = match load_model(bytes) {
        Ok(m) => m,
        Err(e) => {
            return Err(e);
        },
    };
    match delete_class_def(&mut model, class_name) {
        Ok(()) => (),
        Err(e) => {
            return Err(e);
        },
    }
    let r = reencode(&model);
    proof {
        if canonical_bytes(bytes@) {
            assert(model@ == without_class(decoded_view(bytes@), class_name@) && rebuilt_classes(
                model.classes@,
            ) == rebuilt_classes(model.classes@));
        }
    }
    r
}

/// Parses the supplied member text through the synthetic shell and appends
/// the parsed methods to the named class, then re-encodes. Text that
/// parses but yields zero methods is a `Parse` failure, reported before
/// the class lookup.
pub fn add_method(bytes: &[u8], class_name: &str, method_text: &str) -> (r: Result<
    Vec<u8>,
    DexEditError,
>)
    ensures
        r is Ok ==> load_ok(bytes@) && parse_ok(method_shell(method_text@)) && class_view_of(
            parsed_class(method_shell(method_text@)),
        ).methods.len() > 0,
        r is Ok ==> (canonical_bytes(bytes@) ==> class_present(decoded_view(bytes@), class_name@)),
        load_ok(bytes@) && !parse_ok(method_shell(method_text@)) ==> r matches Err(DexEditError::Parse(_)),
        load_ok(bytes@) && parse_ok(method_shell(method_text@)) && class_view_of(
            parsed_class(method_shell(method_text@)),
        ).methods.len() == 0 ==> r matches Err(DexEditError::Parse(_)),
        r matches Ok(b) ==> (canonical_bytes(bytes@) ==> exists|i: int, m: crate::model::Model|
            #![trigger rebuilt_classes(m.classes@), is_first_class_match(decoded_view(bytes@), class_name@, i)]
            is_first_class_match(decoded_view(bytes@), class_name@, i) && m@ == methods_added_view(
                decoded_view(bytes@),
                i,
                class_view_of(parsed_class(method_shell(method_text@))).methods,
            ) && assemble_ok(rebuilt_classes(m.classes@)) && b@ == dex_data(
                assembled(rebuilt_classes(m.classes@)),
            )),
        r matches Err(e) ==> match e {
            DexEditError::Decode(_) => !decode_ok(bytes@),
            DexEditError::Disassemble(_) => decode_ok(bytes@) && !disasm_ok(container_of(bytes@)),
            DexEditError::Parse(_) => load_ok(bytes@) && (!parse_ok(method_shell(method_text@))
                || class_view_of(parsed_class(method_shell(method_text@))).methods.len() == 0),
            DexEditError::ClassNotFound => load_ok(bytes@) && parse_ok(method_shell(method_text@))
                && class_view_of(parsed_class(method_shell(method_text@))).methods.len() > 0 && (
            canonical_bytes(bytes@) ==> !class_present(decoded_view(bytes@), class_name@)),
            DexEditError::Recompile(_) => load_ok(bytes@) && parse_ok(method_shell(method_text@))
                && (canonical_bytes(bytes@) ==> class_present(decoded_view(bytes@), class_name@)
                && exists|i: int, m: crate::model::Model|
                #![trigger rebuilt_classes(m.classes@), is_first_class_match(decoded_view(bytes@), class_name@, i)]
                is_first_class_match(decoded_view(bytes@), class_name@, i) && m@
                    == methods_added_view(
                    decoded_view(bytes@),
                    i,
                    class_view_of(parsed_class(method_shell(method_text@))).methods,
                ) && !assemble_ok(rebuilt_classes(m.classes@))),
            _ => false,
        },
{
    let mut model = match load_model(bytes) {
        Ok(m) => m,
        Err(e) => {
            return Err(e);
        },
    };
    let members = match parse_method_text(method_text) {
        Ok(v) => v,
        Err(e) => {
            return Err(e);
        },
    };
    let ghost addv = crate::model::method_views(members@);
    match add_methods_def(&mut model, class_name, members) {
        Ok(()) => (),
        Err(e) => {
            return Err(e);
        },
    }
    let r = reencode(&model);
    proof {
        if canonical_bytes(bytes@) {
            let i0 = choose|i: int|
                #[trigger] is_first_class_match(decoded_view(bytes@), class_name@, i) && model@
                    == decoded_view(bytes@).update(
                    i,
                    (ClassView {
                        methods: decoded_view(bytes@)[i].methods + addv,
                        ..decoded_view(bytes@)[i]
                    }),
                );
            assert(is_first_class_match(decoded_view(bytes@), class_name@, i0) && model@
                == methods_added_view(
                decoded_view(bytes@),
                i0,
                class_view_of(parsed_class(method_shell(method_text@))).methods,
            ) && rebuilt_classes(model.classes@) == rebuilt_classes(model.classes@));
        }
    }
    r
}

/// Removes every method of the named class that the `(name, signature)`
/// selector matches — an empty signature removes every overload of the
/// name in one call — then re-encodes. A missing class and a missing
/// method are distinguishable failures.
pub fn delete_method(bytes: &[u8], class_name: &str, method_name: &str, signature: &str) -> (r:
    Result<Vec<u8>, DexEditError>)
    ensures
        r is Ok ==> load_ok(bytes@),
        r is Ok ==> (canonical_bytes(bytes@) ==> method_found(
            decoded_view(bytes@),
            class_name@,
            method_name@,
            signature@,
        )),
        load_ok(bytes@) && canonical_bytes(bytes@) ==> (r matches Err(DexEditError::ClassNotFound) <==> !class_present(decoded_view(bytes@), class_name@)),
        load_ok(bytes@) && canonical_bytes(bytes@) ==> (r matches Err(DexEditError::MethodNotFound) <==> class_present(decoded_view(bytes@), class_name@)
            && !method_found(decoded_view(bytes@), class_name@, method_name@, signature@)),
        r matches Ok(b) ==> (canonical_bytes(bytes@) ==> exists|i: int, m: crate::model::Model|
            #![trigger rebuilt_classes(m.classes@), is_first_class_match(decoded_view(bytes@), class_name@, i)]
            is_first_class_match(decoded_view(bytes@), class_name@, i) && m@
                == methods_deleted_view(decoded_view(bytes@), i, method_name@, signature@)
                && assemble_ok(rebuilt_classes(m.classes@)) && b@ == dex_data(
                assembled(rebuilt_classes(m.classes@)),
            )),
        r matches Err(e) ==> match e {
            DexEditError::Decode(_) => !decode_ok(bytes@),
            DexEditError::Disassemble(_) => decode_ok(bytes@) && !disasm_ok(container_of(bytes@)),
            DexEditError::ClassNotFound => load_ok(bytes@),
            DexEditError::MethodNotFound => load_ok(bytes@),
            DexEditError::Recompile(_) => load_ok(bytes@) && (canonical_bytes(bytes@)
                ==> method_found(decoded_view(bytes@), class_name@, method_name@, signature@)
                && exists|i: int, m: crate::model::Model|
                #![trigger rebuilt_classes(m.classes@), is_first_class_match(decoded_view(bytes@), class_name@, i)]
                is_first_class_match(decoded_view(bytes@), class_name@, i) && m@
                    == methods_deleted_view(decoded_view(bytes@), i, method_name@, signature@)
                    && !assemble_ok(rebuilt_classes(m.classes@))),
            _ => false,
        },
{
    let mut model = match load_model(bytes) {
        Ok(m) => m,
        Err(e) => {
            return Err(e);
        },
    };
    match delete_methods_def(&mut model, class_name, method_name, signature) {
        Ok(()) => (),
        Err(e) => {
            return Err(e);
        },
    }
    let r = reencode(&model);
    proof {
        if canonical_bytes(bytes@) {
            let i0 = choose|i: int|
                #[trigger] is_first_class_match(decoded_view(bytes@), class_name@, i) && model@
                    == decoded_view(bytes@).update(
                    i,
                    (ClassView {
                        methods: methods_without(
                            decoded_view(bytes@)[i].methods,
                            method_name@,
                            signature@,
                        ),
                        ..decoded_view(bytes@)[i]
                    }),
                );
            assert(is_first_class_match(decoded_view(bytes@), class_name@, i0) && model@
                == methods_deleted_view(decoded_view(bytes@), i0, method_name@, signature@)
                && rebuilt_classes(model.classes@) == rebuilt_classes(model.classes@));
        }
    }
    r
}

/// Parses the supplied member text through the synthetic shell and appends
/// the parsed fields to the named class, then re-encodes. Text that parses
/// but yields zero fields is a `Parse` failure, reported before the class
/// lookup.
pub fn add_field(bytes: &[u8], class_name: &str, field_text: &str) -> (r: Result<
    Vec<u8>,
    DexEditError,
>)
    ensures
        r is Ok ==> load_ok(bytes@) && parse_ok(field_shell(field_text@)) && class_view_of(
            parsed_class(field_shell(field_text@)),
        ).fields.len() > 0,
        r is Ok ==> (canonical_bytes(bytes@) ==> class_present(decoded_view(bytes@), class_name@)),
        load_ok(bytes@) && !parse_ok(field_shell(field_text@)) ==> r matches Err(DexEditError::Parse(_)),
        load_ok(bytes@) && parse_ok(field_shell(field_text@)) && class_view_of(
            parsed_class(field_shell(field_text@)),
        ).fields.len() == 0 ==> r matches Err(DexEditError::Parse(_)),
        r matches Ok(b) ==> (canonical_bytes(bytes@) ==> exists|i: int, m: crate::model::Model|
            #![trigger rebuilt_classes(m.classes@), is_first_class_match(decoded_view(bytes@), class_name@, i)]
            is_first_class_match(decoded_view(bytes@), class_name@, i) && m@ == fields_added_view(
                decoded_view(bytes@),
                i,
                class_view_of(parsed_class(field_shell(field_text@))).fields,
            ) && assemble_ok(rebuilt_classes(m.classes@)) && b@ == dex_data(
                assembled(rebuilt_classes(m.classes@)),
            )),
        r matches Err(e) ==> match e {
            DexEditError::Decode(_) => !decode_ok(bytes@),
            DexEditError::Disassemble(_) => decode_ok(bytes@) && !disasm_ok(container_of(bytes@)),
            DexEditError::Parse(_) => load_ok(bytes@) && (!parse_ok(field_shell(field_text@))
                || class_view_of(parsed_class(field_shell(field_text@))).fields.len() == 0),
            DexEditError::ClassNotFound => load_ok(bytes@) && parse_ok(field_shell(field_text@))
                && class_view_of(parsed_class(field_shell(field_text@))).fields.len() > 0 && (
            canonical_bytes(bytes@) ==> !class_present(decoded_view(bytes@), class_name@)),
            DexEditError::Recompile(_) => load_ok(bytes@) && parse_ok(field_shell(field_text@)) && (
            canonical_bytes(bytes@) ==> class_present(decoded_view(bytes@), class_name@) && exists|
                i: int,
                m: crate::model::Model,
            |
                #![trigger rebuilt_classes(m.classes@), is_first_class_match(decoded_view(bytes@), class_name@, i)]
                is_first_class_match(decoded_view(bytes@), class_name@, i) && m@
                    == fields_added_view(
                    decoded_view(bytes@),
                    i,
                    class_view_of(parsed_class(field_shell(field_text@))).fields,
                ) && !assemble_ok(rebuilt_classes(m.classes@))),
            _ => false,
        },
{
    let mut model = match load_model(bytes) {
        Ok(m) => m,
        Err(e) => {
            return Err(e);
        },
    };
    let members = match parse_field_text(field_text) {
        Ok(v) => v,
        Err(e) => {
            return Err(e);
        },
    };
    let ghost addv = crate::model::field_views(members@);
    match add_fields_def(&mut model, class_name, members) {
        Ok(()) => (),
        Err(e) => {
            return Err(e);
        },
    }
    let r = reencode(&model);
    proof {
        if canonical_bytes(bytes@) {
            let i0 = choose|i: int|
                #[trigger] is_first_class_match(decoded_view(bytes@), class_name@, i) && model@
                    == decoded_view(bytes@).update(
                    i,
                    (ClassView {
                        fields: decoded_view(bytes@)[i].fields + addv,
                        ..decoded_view(bytes@)[i]
                    }),
                );
            assert(is_first_class_match(decoded_view(bytes@), class_name@, i0) && model@
                == fields_added_view(
                decoded_view(bytes@),
                i0,
                class_view_of(parsed_class(field_shell(field_text@))).fields,
            ) && rebuilt_classes(model.classes@) == rebuilt_classes(model.classes@));
        }
    }
    r
}

/// Removes every field of the named class bearing the given name, then
/// re-encodes; a missing class and a missing field are distinguishable
/// failures.
pub fn delete_field(bytes: &[u8], class_name: &str, field_name: &str) -> (r: Result<
    Vec<u8>,
    DexEditError,
>)
    ensures
        r is Ok ==> load_ok(bytes@),
        r is Ok ==> (canonical_bytes(bytes@) ==> field_found(
            decoded_view(bytes@),
            class_name@,
            field_name@,
        )),
        load_ok(bytes@) && canonical_bytes(bytes@) ==> (r matches Err(DexEditError::ClassNotFound) <==> !class_present(decoded_view(bytes@), class_name@)),
        load_ok(bytes@) && canonical_bytes(bytes@) ==> (r matches Err(DexEditError::FieldNotFound) <==> class_present(decoded_view(bytes@), class_name@)
            && !field_found(decoded_view(bytes@), class_name@, field_name@)),
        r matches Ok(b) ==> (canonical_bytes(bytes@) ==> exists|i: int, m: crate::model::Model|
            #![trigger rebuilt_classes(m.classes@), is_first_class_match(decoded_view(bytes@), class_name@, i)]
            is_first_class_match(decoded_view(bytes@), class_name@, i) && m@ == fields_deleted_view(
                decoded_view(bytes@),
                i,
                field_name@,
            ) && assemble_ok(rebuilt_classes(m.classes@)) && b@ == dex_data(
                assembled(rebuilt_classes(m.classes@)),
            )),
        r matches Err(e) ==> match e {
            DexEditError::Decode(_) => !decode_ok(bytes@),
            DexEditError::Disassemble(_) => decode_ok(bytes@) && !disasm_ok(container_of(bytes@)),
            DexEditError::ClassNotFound => load_ok(bytes@),
            DexEditError::FieldNotFound => load_ok(bytes@),
            DexEditError::Recompile(_) => load_ok(bytes@) && (canonical_bytes(bytes@)
                ==> field_found(decoded_view(bytes@), class_name@, field_name@) && exists|
                i: int,
                m: crate::model::Model,
            |
                #![trigger rebuilt_classes(m.classes@), is_first_class_match(decoded_view(bytes@), class_name@, i)]
                is_first_class_match(decoded_view(bytes@), class_name@, i) && m@
                    == fields_deleted_view(decoded_view(bytes@), i, field_name@) && !assemble_ok(
                    rebuilt_classes(m.classes@),
                )),
            _ => false,
        },
{
    let mut model = match load_model(bytes) {
        Ok(m) => m,
        Err(e) => {
            return Err(e);
        },
    };
    match delete_fields_def(&mut model, class_name, field_name) {
        Ok(()) => (),
        Err(e) => {
            return Err(e);
        },
    }
    let r = reencode(&model);
    proof {
        if canonical_bytes(bytes@) {
            let i0 = choose|i: int|
                #[trigger] is_first_class_match(decoded_view(bytes@), class_name@, i) && model@
                    == decoded_view(bytes@).update(
                    i,
                    (ClassView {
                        fields: fields_without(decoded_view(bytes@)[i].fields, field_name@),
                        ..decoded_view(bytes@)[i]
                    }),
                );
            assert(is_first_class_match(decoded_view(bytes@), class_name@, i0) && model@
                == fields_deleted_view(decoded_view(bytes@), i0, field_name@) && rebuilt_classes(
                model.classes@,
            ) == rebuilt_classes(model.classes@));
        }
    }
    r
}

} // verus!
