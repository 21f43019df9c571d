//! The in-memory class model.
//!
//! One loaded container is a `Model`: an ordered sequence of `ClassDef`, one
//! per class, each holding its methods and fields as plain values together
//! with an opaque human-readable rendering. The type name is the unique key
//! of a class within a model; a method is identified within its class by the
//! `(name, signature)` pair, a field by its name alone.
//!
//! Every definition also carries the codec's own representation of the same
//! entity (the `raw` fields), opaque to this layer: edits rearrange whole
//! definitions, and re-encoding hands those representations back to the
//! codec. The mathematical view of a model ignores them.

use vstd::prelude::*;

use smali::types::{SmaliClass, SmaliField, SmaliMethod};

verus! {

/// The mathematical view of a method definition.
pub ghost struct MethodView {
    pub name: Seq<char>,
    pub signature: Seq<char>,
    pub modifiers: Seq<Seq<char>>,
    pub constructor: bool,
    pub rendering: Seq<char>,
    pub debug_text: Seq<char>,
}

/// The mathematical view of a field definition.
pub ghost struct FieldView {
    pub name: Seq<char>,
    pub type_desc: Seq<char>,
}

/// The mathematical view of a class definition.
pub ghost struct ClassView {
    pub name: Seq<char>,
    pub rendering: Seq<char>,
    pub methods: Seq<MethodView>,
    pub fields: Seq<FieldView>,
}

/// One method of a class. `name` is not unique (overloading is legal);
/// `signature` disambiguates. `rendering` is the method's human-readable
/// text, `debug_text` the exhaustive rendering that code search scans.
pub struct MethodDef {
    pub name: String,
    pub signature: String,
    pub modifiers: Vec<String>,
    pub constructor: bool,
    pub rendering: String,
    pub debug_text: String,
    pub raw: SmaliMethod,
}

/// One field of a class; `name` is its identity within the class.
pub struct FieldDef {
    pub name: String,
    pub type_desc: String,
    pub raw: SmaliField,
}

/// One class: its canonical dotted type name, its members in order, and its
/// human-readable rendering as produced by the codec.
pub struct ClassDef {
    pub name: String,
    pub methods: Vec<MethodDef>,
    pub fields: Vec<FieldDef>,
    pub rendering: String,
    pub raw: SmaliClass,
}

/// The class model for one loaded container: classes in model order.
pub struct Model {
    pub classes: Vec<ClassDef>,
}

/// The views of a sequence of strings.
pub open spec fn str_views(v: Seq<String>) -> Seq<Seq<char>> {
    v.map_values(|s: String| s@)
}

/// The views of a sequence of method definitions.
pub open spec fn method_views(v: Seq<MethodDef>) -> Seq<MethodView> {
    v.map_values(|m: MethodDef| m@)
}

/// The views of a sequence of field definitions.
pub open spec fn field_views(v: Seq<FieldDef>) -> Seq<FieldView> {
    v.map_values(|f: FieldDef| f@)
}

/// The views of a sequence of class definitions.
pub open spec fn class_views(v: Seq<ClassDef>) -> Seq<ClassView> {
    v.map_values(|c: ClassDef| c@)
}

impl View for MethodDef {
    type V = MethodView;

    open spec fn view(&self) -> MethodView {
        MethodView {
            name: self.name@,
            signature: self.signature@,
            modifiers: str_views(self.modifiers@),
            constructor: self.constructor,
            rendering: self.rendering@,
            debug_text: self.debug_text@,
        }
    }
}

impl View for FieldDef {
    type V = FieldView;

    open spec fn view(&self) -> FieldView {
        FieldView { name: self.name@, type_desc: self.type_desc@ }
    }
}

impl View for ClassDef {
    type V = ClassView;

    open spec fn view(&self) -> ClassView {
        ClassView {
            name: self.name@,
            rendering: self.rendering@,
            methods: method_views(self.methods@),
            fields: field_views(self.fields@),
        }
    }
}

impl View for Model {
    type V = Seq<ClassView>;

    open spec fn view(&self) -> Seq<ClassView> {
        class_views(self.classes@)
    }
}

/// Some class in the model bears this type name.
pub open spec fn class_present(model: Seq<ClassView>, name: Seq<char>) -> bool {
    exists|i: int| 0 <= i < model.len() && model[i].name == name
}

/// Position `i` holds the first class in model order with this type name.
pub open spec fn is_first_class_match(model: Seq<ClassView>, name: Seq<char>, i: int) -> bool {
    &&& 0 <= i < model.len()
    &&& model[i].name == name
    &&& forall|j: int| 0 <= j < i ==> model[j].name != name
}

/// At most one position holds the first class bearing a name.
pub proof fn lemma_first_class_match_unique(
    model: Seq<ClassView>,
    name: Seq<char>,
    i: int,
    j: int,
)
    requires
        is_first_class_match(model, name, i),
        is_first_class_match(model, name, j),
    ensures
        i == j,
{
    if i < j {
        assert(model[i].name == name);
        assert(false);
    }
    if j < i {
        assert(model[j].name == name);
        assert(false);
    }
}

/// The method selector: a method matches a `(name, signature)` request when
/// its name equals the requested name and either the requested signature is
/// empty (name-only selection) or equals the method's signature.
pub open spec fn method_selected(m: MethodView, name: Seq<char>, sig: Seq<char>) -> bool {
    m.name == name && (sig.len() == 0 || m.signature == sig)
}

/// Some method of the class matches the `(name, signature)` selector.
pub open spec fn method_present(c: ClassView, name: Seq<char>, sig: Seq<char>) -> bool {
    exists|k: int| 0 <= k < c.methods.len() && method_selected(c.methods[k], name, sig)
}

/// Some field of the class bears this name.
pub open spec fn field_present(c: ClassView, name: Seq<char>) -> bool {
    exists|k: int| 0 <= k < c.fields.len() && c.fields[k].name == name
}

/// Appending a string appends its view.
pub proof fn lemma_str_views_push(s: Seq<String>, x: String)
    ensures
        str_views(s.push(x)) == str_views(s).push(x@),
{
    assert(str_views(s.push(x)) =~= str_views(s).push(x@));
}

/// Appending a method definition appends its view.
pub proof fn lemma_method_views_push(s: Seq<MethodDef>, m: MethodDef)
    ensures
        method_views(s.push(m)) == method_views(s).push(m@),
{
    assert(method_views(s.push(m)) =~= method_views(s).push(m@));
}

/// Appending a field definition appends its view.
pub proof fn lemma_field_views_push(s: Seq<FieldDef>, f: FieldDef)
    ensures
        field_views(s.push(f)) == field_views(s).push(f@),
{
    assert(field_views(s.push(f)) =~= field_views(s).push(f@));
}

/// Appending a class definition appends its view.
pub proof fn lemma_class_views_push(s: Seq<ClassDef>, c: ClassDef)
    ensures
        class_views(s.push(c)) == class_views(s).push(c@),
{
    assert(class_views(s.push(c)) =~= class_views(s).push(c@));
}

impl Model {
    /// The index of the first class in model order whose type name equals
    /// `name`, or `None` when no class bears it.
    pub fn find_class(&self, name: &str) -> (r: Option<usize>)
        ensures
            match r {
                Some(i) => is_first_class_match(self@, name@, i as int),
                None => !class_present(self@, name@),
            },
    {
        let n = self.classes.len();
        let mut i: usize = 0;
        while i < n
            invariant
                n == self.classes.len(),
                0 <= i <= n,
                forall|j: int| 0 <= j < i ==> self@[j].name != name@,
            decreases n - i,
        {
            if crate::strutil::str_eq(self.classes[i].name.as_str(), name) {
                return Some(i);
            }
            i += 1;
        }
        None
    }
}

} // verus!
