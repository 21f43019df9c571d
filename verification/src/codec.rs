//! The trusted boundary to the `smali` crate.
//!
//! The container codec (binary container to opaque class pool and back) and
//! the text codec (opaque class to human-readable definition and back) live
//! in the `smali` crate and are consumed, not re-implemented. Each outside
//! call sits in one `external_body` wrapper whose contract states what the
//! crate's source shows of that call; results that have no short statement
//! (a decoded pool, a case of parsed text, a rendering) are given names —
//! uninterpreted functions of the inputs alone — and every contract
//! downstream speaks of those names.
//!
//! Everything else in this file is verified: the conversions from the
//! codec's opaque class records into the plain `ClassDef` model and back are
//! ordinary loops over the wrappers.

use vstd::prelude::*;

use crate::model::{
    class_views, field_views, method_views, ClassDef, ClassView, FieldDef, FieldView, MethodDef,
    MethodView, Model,
};
use crate::DexEditError;
use smali::dex::DexFile;
use smali::types::{SmaliClass, SmaliField, SmaliMethod};
use vstd::string::StringExecFns;

verus! {

#[verifier::external_type_specification]
#[verifier::external_body]
pub struct ExDexFile(DexFile);

#[verifier::external_type_specification]
#[verifier::external_body]
pub struct ExSmaliClass(SmaliClass);

#[verifier::external_type_specification]
#[verifier::external_body]
pub struct ExSmaliMethod(SmaliMethod);

#[verifier::external_type_specification]
#[verifier::external_body]
pub struct ExSmaliField(SmaliField);

/// The canonical dotted type name of a class record: what
/// `ObjectIdentifier::as_java_type` returns for its name.
pub uninterp spec fn sm_class_name(c: SmaliClass) -> Seq<char>;

/// The human-readable rendering of a class record: what
/// `SmaliClass::to_smali` returns.
pub uninterp spec fn sm_class_text(c: SmaliClass) -> Seq<char>;

/// The ordered method records of a class record.
pub uninterp spec fn sm_class_methods(c: SmaliClass) -> Seq<SmaliMethod>;

/// The ordered field records of a class record.
pub uninterp spec fn sm_class_fields(c: SmaliClass) -> Seq<SmaliField>;

/// The name of a method record.
pub uninterp spec fn sm_method_name(m: SmaliMethod) -> Seq<char>;

/// The signature descriptor text of a method record.
pub uninterp spec fn sm_method_sig(m: SmaliMethod) -> Seq<char>;

/// The modifier words of a method record, in order.
pub uninterp spec fn sm_method_modifiers(m: SmaliMethod) -> Seq<Seq<char>>;

/// Whether a method record is a constructor.
pub uninterp spec fn sm_method_constructor(m: SmaliMethod) -> bool;

/// The human-readable rendering of a method record: what
/// `SmaliMethod`'s display form returns.
pub uninterp spec fn sm_method_text(m: SmaliMethod) -> Seq<char>;

/// The exhaustive debug rendering of a method record, the text that
/// string/code search scans.
pub uninterp spec fn sm_method_debug(m: SmaliMethod) -> Seq<char>;

/// The name of a field record.
pub uninterp spec fn sm_field_name(f: SmaliField) -> Seq<char>;

/// The declared type descriptor of a field record.
pub uninterp spec fn sm_field_type(f: SmaliField) -> Seq<char>;

/// The container `DexFile::from_bytes` decodes from well-formed bytes.
pub uninterp spec fn container_of(bytes: Seq<u8>) -> DexFile;

/// Whether `DexFile::from_bytes` accepts the bytes: decoding fails exactly
/// on malformed containers, deterministically.
pub uninterp spec fn decode_ok(bytes: Seq<u8>) -> bool;

/// The class records `DexFile::to_smali` produces from a container, where
/// that result is reproducible (see `canonical_container`).
pub uninterp spec fn container_classes(d: DexFile) -> Seq<SmaliClass>;

/// Whether `DexFile::to_smali` can produce class records from the
/// container; success is a function of the container alone.
pub uninterp spec fn disasm_ok(d: DexFile) -> bool;

/// Whether disassembling this container is reproducible. On a
/// malformed-but-decodable container whose try/catch metadata points past
/// the end of a method's code, `DexFile::to_smali` appends recovery labels
/// for the stray offsets in an order that may differ between two calls;
/// on such a container the records' renderings are not a function of the
/// container, and nothing is stated of them.
pub uninterp spec fn canonical_container(d: DexFile) -> bool;

/// The class record `SmaliClass::from_smali` parses from well-formed text.
pub uninterp spec fn parsed_class(text: Seq<char>) -> SmaliClass;

/// Whether `SmaliClass::from_smali` accepts the text: parsing fails
/// exactly on malformed definitions, deterministically.
pub uninterp spec fn parse_ok(text: Seq<char>) -> bool;

/// The container `DexFile::from_smali` assembles from class records.
pub uninterp spec fn assembled(classes: Seq<SmaliClass>) -> DexFile;

/// Whether `DexFile::from_smali` can assemble the class records; success
/// is a function of the records alone.
pub uninterp spec fn assemble_ok(classes: Seq<SmaliClass>) -> bool;

/// The raw bytes of a container: what `DexFile::to_bytes` returns.
pub uninterp spec fn dex_data(d: DexFile) -> Seq<u8>;

/// The class record handed back to the codec for one class definition: the
/// record the definition was built from, carrying the definition's current
/// members. A function of the definition alone, since the rebuild only
/// copies its parts field for field.
pub uninterp spec fn rebuilt(c: ClassDef) -> SmaliClass;

/// Decoding and disassembling both succeed on these bytes.
pub open spec fn load_ok(bytes: Seq<u8>) -> bool {
    decode_ok(bytes) && disasm_ok(container_of(bytes))
}

/// The bytes decode to a container whose disassembly is reproducible.
pub open spec fn canonical_bytes(bytes: Seq<u8>) -> bool {
    canonical_container(container_of(bytes))
}

/// The class records every definition of the model hands back to the
/// codec, in model order.
pub open spec fn rebuilt_classes(classes: Seq<ClassDef>) -> Seq<SmaliClass> {
    classes.map_values(|c: ClassDef| rebuilt(c))
}

/// The view of a method record.
pub open spec fn method_view_of(m: SmaliMethod) -> MethodView {
    MethodView {
        name: sm_method_name(m),
        signature: sm_method_sig(m),
        modifiers: sm_method_modifiers(m),
        constructor: sm_method_constructor(m),
        rendering: sm_method_text(m),
        debug_text: sm_method_debug(m),
    }
}

/// The view of a field record.
pub open spec fn field_view_of(f: SmaliField) -> FieldView {
    FieldView { name: sm_field_name(f), type_desc: sm_field_type(f) }
}

/// The view of a class record.
pub open spec fn class_view_of(c: SmaliClass) -> ClassView {
    ClassView {
        name: sm_class_name(c),
        rendering: sm_class_text(c),
        methods: sm_class_methods(c).map_values(|m: SmaliMethod| method_view_of(m)),
        fields: sm_class_fields(c).map_values(|f: SmaliField| field_view_of(f)),
    }
}

/// The class model that decoding and disassembling well-formed container
/// bytes yields.
pub open spec fn decoded_view(bytes: Seq<u8>) -> Seq<ClassView> {
    container_classes(container_of(bytes)).map_values(|c: SmaliClass| class_view_of(c))
}

/// Relies on `ObjectIdentifier::as_java_type`, which the class's `name`
/// field alone determines: the canonical dotted type name.
#[verifier::external_body]
fn class_name_str(c: &SmaliClass) -> (r: String)
    ensures
        r@ == sm_class_name(*c),
{
    c.name.as_java_type()
}

/// Relies on `SmaliClass::to_smali`: the class's human-readable rendering.
#[verifier::external_body]
fn class_render(c: &SmaliClass) -> (r: String)
    ensures
        r@ == sm_class_text(*c),
{
    c.to_smali()
}

/// Relies on the derived `Clone` of `SmaliMethod`: a field-for-field copy.
#[verifier::external_body]
fn class_methods(c: &SmaliClass) -> (r: Vec<SmaliMethod>)
    ensures
        r@ == sm_class_methods(*c),
{
    c.methods.clone()
}

/// Relies on the derived `Clone` of `SmaliField`: a field-for-field copy.
#[verifier::external_body]
fn class_fields(c: &SmaliClass) -> (r: Vec<SmaliField>)
    ensures
        r@ == sm_class_fields(*c),
{
    c.fields.clone()
}

/// Relies on the derived `Clone` of `SmaliClass`: a field-for-field copy.
#[verifier::external_body]
fn clone_class(c: &SmaliClass) -> (r: SmaliClass)
    ensures
        r == *c,
{
    c.clone()
}

/// Relies on the derived `Clone` of `SmaliMethod`: a field-for-field copy.
#[verifier::external_body]
fn clone_method(m: &SmaliMethod) -> (r: SmaliMethod)
    ensures
        r == *m,
{
    m.clone()
}

/// Relies on the derived `Clone` of `SmaliField`: a field-for-field copy.
#[verifier::external_body]
fn clone_field(f: &SmaliField) -> (r: SmaliField)
    ensures
        r == *f,
{
    f.clone()
}

/// Reads the public `name` field of a method record.
#[verifier::external_body]
fn method_name(m: &SmaliMethod) -> (r: String)
    ensures
        r@ == sm_method_name(*m),
{
    m.name.clone()
}

/// Relies on the derived `Debug` of `MethodSignature`: the signature
/// descriptor text, a function of the signature alone.
#[verifier::external_body]
fn method_signature_text(m: &SmaliMethod) -> (r: String)
    ensures
        r@ == sm_method_sig(*m),
{
    format!("{:?}", m.signature)
}

/// Relies on `Modifier::to_str`: the word for each modifier, in order.
#[verifier::external_body]
fn method_modifier_names(m: &SmaliMethod) -> (r: Vec<String>)
    ensures
        crate::model::str_views(r@) == sm_method_modifiers(*m),
{
    m.modifiers.iter().map(|x| x.to_str().to_string()).collect()
}

/// Reads the public `constructor` flag of a method record.
#[verifier::external_body]
fn method_is_constructor(m: &SmaliMethod) -> (r: bool)
    ensures
        r == sm_method_constructor(*m),
{
    m.constructor
}

/// Relies on `SmaliMethod`'s display form (`write_method`): the method's
/// human-readable rendering.
#[verifier::external_body]
fn method_render(m: &SmaliMethod) -> (r: String)
    ensures
        r@ == sm_method_text(*m),
{
    m.to_string()
}

/// Relies on the derived `Debug` of `SmaliMethod`: an exhaustive rendering,
/// a function of the record alone.
#[verifier::external_body]
fn method_debug_text(m: &SmaliMethod) -> (r: String)
    ensures
        r@ == sm_method_debug(*m),
{
    format!("{:?}", m)
}

/// Reads the public `name` field of a field record.
#[verifier::external_body]
fn field_name(f: &SmaliField) -> (r: String)
    ensures
        r@ == sm_field_name(*f),
{
    f.name.clone()
}

/// Relies on `TypeSignature::to_jni`, a function of the field's `signature`
/// field alone: the declared type descriptor.
#[verifier::external_body]
fn field_type_text(f: &SmaliField) -> (r: String)
    ensures
        r@ == sm_field_type(*f),
{
    f.signature.to_jni()
}

/// Relies on `DexFile::from_bytes`: decoding is a function of the bytes
/// alone, and fails exactly on malformed containers.
#[verifier::external_body]
fn parse_container(bytes: &[u8]) -> (r: Result<DexFile, DexEditError>)
    ensures
        r matches Ok(d) ==> d == container_of(bytes@),
        r is Ok <==> decode_ok(bytes@),
        r matches Err(e) ==> e matches DexEditError::Decode(_),
{
    DexFile::from_bytes(bytes).map_err(|e| DexEditError::Decode(format!("{:?}", e)))
}

/// Relies on `DexFile::to_smali`: whether it succeeds is a function of the
/// container alone, and so are the records it yields — except on a
/// degenerate container (see `canonical_container`), of whose records
/// nothing is stated.
#[verifier::external_body]
fn disassemble_container(d: &DexFile) -> (r: Result<Vec<SmaliClass>, DexEditError>)
    ensures
        r matches Ok(cs) ==> (canonical_container(*d) ==> cs@ == container_classes(*d)),
        r is Ok <==> disasm_ok(*d),
        r matches Err(e) ==> e matches DexEditError::Disassemble(_),
{
    d.to_smali().map_err(|e| DexEditError::Disassemble(format!("{:?}", e)))
}

/// Relies on `SmaliClass::from_smali`: parsing is a function of the text
/// alone, and fails exactly on malformed definitions.
#[verifier::external_body]
fn parse_class_source(text: &str) -> (r: Result<SmaliClass, DexEditError>)
    ensures
        r matches Ok(c) ==> c == parsed_class(text@),
        r is Ok <==> parse_ok(text@),
        r matches Err(e) ==> e matches DexEditError::Parse(_),
{
    SmaliClass::from_smali(text).map_err(|e| DexEditError::Parse(format!("{:?}", e)))
}

/// Relies on `DexFile::from_smali`: assembly, and whether it succeeds, are
/// functions of the class records alone.
#[verifier::external_body]
fn assemble_container(classes: &Vec<SmaliClass>) -> (r: Result<DexFile, DexEditError>)
    ensures
        r matches Ok(d) ==> d == assembled(classes@),
        r is Ok <==> assemble_ok(classes@),
        r matches Err(e) ==> e matches DexEditError::Recompile(_),
{
    DexFile::from_smali(classes).map_err(|e| DexEditError::Recompile(format!("{:?}", e)))
}

/// Relies on `DexFile::to_bytes`: the container's raw bytes.
#[verifier::external_body]
fn container_bytes(d: &DexFile) -> (r: Vec<u8>)
    ensures
        r@ == dex_data(*d),
{
    d.to_bytes().to_vec()
}

/// Hands a class definition's opaque records back to the codec: the class
/// record it came from, with the definition's current members in place of
/// the original ones. Conversion only — field picks and the derived
/// `Clone`s' field-for-field copies — so the result is a function of the
/// definition, named `rebuilt`.
#[verifier::external_body]
fn rebuild_class(c: &ClassDef) -> (r: SmaliClass)
    ensures
        r == rebuilt(*c),
{
    let mut raw = c.raw.clone();
    raw.methods = c.methods.iter().map(|m| m.raw.clone()).collect();
    raw.fields = c.fields.iter().map(|f| f.raw.clone()).collect();
    raw
}

/// Builds the plain method definition for one method record.
pub fn method_def_of(m: &SmaliMethod) -> (r: MethodDef)
    ensures
        r@ == method_view_of(*m),
{
    MethodDef {
        name: method_name(m),
        signature: method_signature_text(m),
        modifiers: method_modifier_names(m),
        constructor: method_is_constructor(m),
        rendering: method_render(m),
        debug_text: method_debug_text(m),
        raw: clone_method(m),
    }
}

/// Builds the plain field definition for one field record.
pub fn field_def_of(f: &SmaliField) -> (r: FieldDef)
    ensures
        r@ == field_view_of(*f),
{
    FieldDef { name: field_name(f), type_desc: field_type_text(f), raw: clone_field(f) }
}

/// Builds the plain method definitions for a batch of method records.
#[verifier::loop_isolation(false)]
fn method_defs_of(ms: &Vec<SmaliMethod>) -> (r: Vec<MethodDef>)
    ensures
        method_views(r@) == ms@.map_values(|m: SmaliMethod| method_view_of(m)),
{
    let ghost target = ms@.map_values(|m: SmaliMethod| method_view_of(m));
    let mut methods: Vec<MethodDef> = Vec::new();
    proof {
        assert(method_views(methods@) =~= target.take(0));
    }
    let mut i: usize = 0;
    while i < ms.len()
        invariant
            0 <= i <= ms@.len(),
            method_views(methods@) == target.take(i as int),
        decreases ms@.len() - i,
    {
        let d = method_def_of(&ms[i]);
        let ghost prev = methods@;
        methods.push(d);
        proof {
            crate::model::lemma_method_views_push(prev, d);
            assert(target.take(i + 1) =~= target.take(i as int).push(target[i as int]));
        }
        i += 1;
    }
    proof {
        assert(target.take(ms@.len() as int) =~= target);
    }
    methods
}

/// Builds the plain field definitions for a batch of field records.
#[verifier::loop_isolation(false)]
fn field_defs_of(fs: &Vec<SmaliField>) -> (r: Vec<FieldDef>)
    ensures
        field_views(r@) == fs@.map_values(|f: SmaliField| field_view_of(f)),
{
    let ghost target = fs@.map_values(|f: SmaliField| field_view_of(f));
    let mut fields: Vec<FieldDef> = Vec::new();
    proof {
        assert(field_views(fields@) =~= target.take(0));
    }
    let mut k: usize = 0;
    while k < fs.len()
        invariant
            0 <= k <= fs@.len(),
            field_views(fields@) == target.take(k as int),
        decreases fs@.len() - k,
    {
        let d = field_def_of(&fs[k]);
        let ghost prev = fields@;
        fields.push(d);
        proof {
            crate::model::lemma_field_views_push(prev, d);
            assert(target.take(k + 1) =~= target.take(k as int).push(target[k as int]));
        }
        k += 1;
    }
    proof {
        assert(target.take(fs@.len() as int) =~= target);
    }
    fields
}

/// Builds the plain class definition for one class record.
pub fn class_def_of(c: &SmaliClass) -> (r: ClassDef)
    ensures
        r@ == class_view_of(*c),
{
    let ms = class_methods(c);
    let fs = class_fields(c);
    let methods = method_defs_of(&ms);
    let fields = field_defs_of(&fs);
    ClassDef {
        name: class_name_str(c),
        rendering: class_render(c),
        methods,
        fields,
        raw: clone_class(c),
    }
}

/// The synthetic shell wrapped around caller-supplied method text: a
/// throwaway class declaration that gives the text codec the syntactic
/// context it needs to parse members in isolation.
pub open spec fn method_shell(text: Seq<char>) -> Seq<char> {
    ".class public LTemp;\n.super Ljava/lang/Object;\n\n"@ + text
}

/// The synthetic shell wrapped around caller-supplied field text; field
/// text additionally needs a trailing line break to parse.
pub open spec fn field_shell(text: Seq<char>) -> Seq<char> {
    ".class public LTemp;\n.super Ljava/lang/Object;\n\n"@ + text + "\n"@
}

/// Parses caller-supplied method text through the synthetic shell and
/// hands back every method the shell yields, in order. The batch may be
/// empty: the caller decides whether that is an error.
pub fn parse_method_text(text: &str) -> (r: Result<Vec<MethodDef>, DexEditError>)
    ensures
        r matches Ok(v) ==> method_views(v@) == class_view_of(
            parsed_class(method_shell(text@)),
        ).methods,
        r is Ok <==> parse_ok(method_shell(text@)),
        r matches Err(e) ==> e matches DexEditError::Parse(_),
{
    let mut shell = ".class public LTemp;\n.super Ljava/lang/Object;\n\n".to_owned();
    shell.append(text);
    let sc = match parse_class_source(shell.as_str()) {
        Ok(sc) => sc,
        Err(e) => {
            return Err(e);
        },
    };
    let ms = class_methods(&sc);
    Ok(method_defs_of(&ms))
}

/// Parses caller-supplied field text through the synthetic shell and hands
/// back every field the shell yields, in order.
pub fn parse_field_text(text: &str) -> (r: Result<Vec<FieldDef>, DexEditError>)
    ensures
        r matches Ok(v) ==> field_views(v@) == class_view_of(
            parsed_class(field_shell(text@)),
        ).fields,
        r is Ok <==> parse_ok(field_shell(text@)),
        r matches Err(e) ==> e matches DexEditError::Parse(_),
{
    let mut shell = ".class public LTemp;\n.super Ljava/lang/Object;\n\n".to_owned();
    shell.append(text);
    shell.append("\n");
    let sc = match parse_class_source(shell.as_str()) {
        Ok(sc) => sc,
        Err(e) => {
            return Err(e);
        },
    };
    let fs = class_fields(&sc);
    Ok(field_defs_of(&fs))
}

/// Parses caller-supplied text into one class definition.
pub fn parse_class_text(text: &str) -> (r: Result<ClassDef, DexEditError>)
    ensures
        r matches Ok(c) ==> c@ == class_view_of(parsed_class(text@)),
        r is Ok <==> parse_ok(text@),
        r matches Err(e) ==> e matches DexEditError::Parse(_),
{
    match parse_class_source(text) {
        Ok(sc) => Ok(class_def_of(&sc)),
        Err(e) => Err(e),
    }
}

/// Decodes container bytes and disassembles them into the class model.
pub fn load_model(bytes: &[u8]) -> (r: Result<Model, DexEditError>)
    ensures
        r is Ok <==> load_ok(bytes@),
        r matches Ok(m) ==> (canonical_bytes(bytes@) ==> m@ == decoded_view(bytes@)),
        r matches Err(e) ==> match e {
            DexEditError::Decode(_) => !decode_ok(bytes@),
            DexEditError::Disassemble(_) => decode_ok(bytes@) && !disasm_ok(container_of(bytes@)),
            _ => false,
        },
{
    let d = match parse_container(bytes) {
        Ok(d) => d,
        Err(e) => {
            return Err(e);
        },
    };
    let raw_classes = match disassemble_container(&d) {
        Ok(cs) => cs,
        Err(e) => {
            return Err(e);
        },
    };
    let mut classes: Vec<ClassDef> = Vec::new();
    let mut i: usize = 0;
    while i < raw_classes.len()
        invariant
            canonical_bytes(bytes@) ==> raw_classes@ == container_classes(container_of(bytes@)),
            0 <= i <= raw_classes@.len(),
            canonical_bytes(bytes@) ==> class_views(classes@) == decoded_view(bytes@).take(
                i as int,
            ),
        decreases raw_classes@.len() - i,
    {
        let c = class_def_of(&raw_classes[i]);
        let ghost prev = classes@;
        classes.push(c);
        proof {
            if canonical_bytes(bytes@) {
                let cviews = decoded_view(bytes@);
                crate::model::lemma_class_views_push(prev, c);
                assert(cviews.take(i + 1) =~= cviews.take(i as int).push(cviews[i as int]));
            }
        }
        i += 1;
    }
    proof {
        if canonical_bytes(bytes@) {
            assert(class_views(classes@) =~= decoded_view(bytes@));
        }
    }
    Ok(Model { classes })
}

/// Re-encodes the (possibly edited) class model into container bytes:
/// each definition hands its record back to the codec, and the codec
/// assembles the batch. Succeeds exactly when assembly accepts the
/// rebuilt records, and the bytes are then the assembled container's.
#[verifier::loop_isolation(false)]
pub fn reencode(model: &Model) -> (r: Result<Vec<u8>, DexEditError>)
    ensures
        r is Ok <==> assemble_ok(rebuilt_classes(model.classes@)),
        r matches Ok(b) ==> b@ == dex_data(assembled(rebuilt_classes(model.classes@))),
        r matches Err(e) ==> e matches DexEditError::Recompile(_),
{
    let ghost target = rebuilt_classes(model.classes@);
    let mut raws: Vec<SmaliClass> = Vec::new();
    proof {
        assert(raws@ =~= target.take(0));
    }
    let mut i: usize = 0;
    while i < model.classes.len()
        invariant
            0 <= i <= model.classes.len(),
            raws@ == target.take(i as int),
        decreases model.classes.len() - i,
    {
        let rc = rebuild_class(&model.classes[i]);
        raws.push(rc);
        proof {
            assert(target.take(i + 1) =~= target.take(i as int).push(target[i as int]));
        }
        i += 1;
    }
    proof {
        assert(target.take(model.classes@.len() as int) =~= target);
    }
    match assemble_container(&raws) {
        Ok(d) => Ok(container_bytes(&d)),
        Err(e) => Err(e),
    }
}

} // verus!
