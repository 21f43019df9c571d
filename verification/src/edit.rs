//! The edit engine: mutating operations on a class model.
//!
//! Each operation locates its target(s) and mutates the model in place.
//! Replacement and member addition act on the first class in model order
//! with the target name; deletion of a class removes every class bearing
//! the name, and deletion of a member removes every matching member of the
//! first matching class. Lookup failures leave the model unchanged.

use vstd::prelude::*;

use crate::model::{
    class_present, class_views, field_views, is_first_class_match, method_selected, method_views,
    ClassDef, ClassView, FieldDef, FieldView, MethodDef, MethodView, Model,
};
use crate::DexEditError;

verus! {

/// The elements of `s` that `keep` retains, in order.
pub open spec fn kept<A>(s: Seq<A>, keep: spec_fn(A) -> bool) -> Seq<A>
    decreases s.len(),
{
    if s.len() == 0 {
        Seq::empty()
    } else {
        let rest = kept(s.drop_first(), keep);
        if keep(s[0]) {
            seq![s[0]] + rest
        } else {
            rest
        }
    }
}

/// `kept` distributes over concatenation.
proof fn lemma_kept_add<A>(a: Seq<A>, b: Seq<A>, keep: spec_fn(A) -> bool)
    ensures
        kept(a + b, keep) == kept(a, keep) + kept(b, keep),
    decreases a.len(),
{
    if a.len() == 0 {
        assert(a + b =~= b);
        assert(Seq::<A>::empty() + kept(b, keep) =~= kept(b, keep));
    } else {
        assert((a + b)[0] == a[0]);
        assert((a + b).drop_first() =~= a.drop_first() + b);
        lemma_kept_add(a.drop_first(), b, keep);
        if keep(a[0]) {
            assert((seq![a[0]] + kept(a.drop_first(), keep)) + kept(b, keep) =~= seq![a[0]] + (
            kept(a.drop_first(), keep) + kept(b, keep)));
        }
    }
}

/// Scanning one element more keeps or drops exactly that element.
proof fn lemma_kept_take_step<A>(s: Seq<A>, keep: spec_fn(A) -> bool, k: int)
    requires
        0 <= k < s.len(),
    ensures
        kept(s.take(k + 1), keep) == kept(s.take(k), keep) + (if keep(s[k]) {
            seq![s[k]]
        } else {
            Seq::<A>::empty()
        }),
{
    assert(s.take(k + 1) =~= s.take(k) + seq![s[k]]);
    lemma_kept_add(s.take(k), seq![s[k]], keep);
    assert(seq![s[k]].drop_first() =~= Seq::<A>::empty());
    assert(kept(Seq::<A>::empty(), keep) == Seq::<A>::empty());
    assert(kept(seq![s[k]], keep) == (if keep(s[k]) {
        seq![s[k]] + Seq::<A>::empty()
    } else {
        Seq::<A>::empty()
    }));
    if keep(s[k]) {
        assert(seq![s[k]] + Seq::<A>::empty() =~= seq![s[k]]);
    }
}

/// Every retained element satisfies the predicate that retained it.
pub proof fn lemma_kept_pred<A>(s: Seq<A>, keep: spec_fn(A) -> bool)
    ensures
        forall|j: int| 0 <= j < kept(s, keep).len() ==> keep(#[trigger] kept(s, keep)[j]),
    decreases s.len(),
{
    if s.len() > 0 {
        lemma_kept_pred(s.drop_first(), keep);
        let rest = kept(s.drop_first(), keep);
        assert forall|j: int| 0 <= j < kept(s, keep).len() implies keep(
            #[trigger] kept(s, keep)[j],
        ) by {
            if keep(s[0]) {
                assert(kept(s, keep) == seq![s[0]] + rest);
                if j == 0 {
                    assert(kept(s, keep)[0] == s[0]);
                } else {
                    assert(kept(s, keep)[j] == rest[j - 1]);
                }
            } else {
                assert(kept(s, keep) == rest);
            }
        }
    }
}

/// When every element is retained, `kept` is the identity.
pub proof fn lemma_kept_all<A>(s: Seq<A>, keep: spec_fn(A) -> bool)
    requires
        forall|i: int| 0 <= i < s.len() ==> keep(#[trigger] s[i]),
    ensures
        kept(s, keep) == s,
    decreases s.len(),
{
    if s.len() > 0 {
        assert(forall|i: int|
            0 <= i < s.drop_first().len() ==> #[trigger] s.drop_first()[i] == s[i + 1]);
        lemma_kept_all(s.drop_first(), keep);
        assert(seq![s[0]] + s.drop_first() =~= s);
    }
}

/// Retains the classes whose name differs from the one being deleted.
pub open spec fn keep_class_fn(name: Seq<char>) -> spec_fn(ClassView) -> bool {
    |c: ClassView| c.name != name
}

/// The model without every class bearing the given name.
pub open spec fn without_class(model: Seq<ClassView>, name: Seq<char>) -> Seq<ClassView> {
    kept(model, keep_class_fn(name))
}

/// Retains the methods the `(name, signature)` selector does not match.
pub open spec fn keep_method_fn(name: Seq<char>, sig: Seq<char>) -> spec_fn(MethodView) -> bool {
    |m: MethodView| !method_selected(m, name, sig)
}

/// A class's methods without every one the selector matches.
pub open spec fn methods_without(ms: Seq<MethodView>, name: Seq<char>, sig: Seq<char>) -> Seq<
    MethodView,
> {
    kept(ms, keep_method_fn(name, sig))
}

/// Retains the fields whose name differs from the one being deleted.
pub open spec fn keep_field_fn(name: Seq<char>) -> spec_fn(FieldView) -> bool {
    |f: FieldView| f.name != name
}

/// A class's fields without every one bearing the given name.
pub open spec fn fields_without(fs: Seq<FieldView>, name: Seq<char>) -> Seq<FieldView> {
    kept(fs, keep_field_fn(name))
}

/// Appends a class at the end of the model. No duplicate-name check is
/// made: the caller owns the uniqueness invariant.
pub fn add_class_def(model: &mut Model, new: ClassDef)
    ensures
        final(model)@ == old(model)@.push(new@),
{
    let ghost newg = new;
    let ghost prev = model.classes@;
    model.classes.push(new);
    proof {
        crate::model::lemma_class_views_push(prev, newg);
    }
}

/// Overwrites the first class in model order bearing the target name with
/// the supplied definition, preserving its position. The replacement's own
/// declared name is not checked against the target name. `ClassNotFound`
/// exactly when no class bears the target name, and the model is then
/// unchanged.
pub fn replace_class_def(model: &mut Model, name: &str, new: ClassDef) -> (r: Result<
    (),
    DexEditError,
>)
    ensures
        r is Ok <==> class_present(old(model)@, name@),
        match r {
            Ok(()) => exists|i: int|
                #[trigger] is_first_class_match(old(model)@, name@, i) && final(model)@ == old(
                    model,
                )@.update(i, new@),
            Err(e) => e matches DexEditError::ClassNotFound && !class_present(old(model)@, name@)
                && *final(model) == *old(model),
        },
{
    let ghost newg = new;
    let i = match model.find_class(name) {
        Some(i) => i,
        None => {
            return Err(DexEditError::ClassNotFound);
        },
    };
    let ghost prev = model.classes@;
    let _replaced = model.classes.remove(i);
    model.classes.insert(i, new);
    proof {
        assert(model.classes@ =~= prev.update(i as int, newg));
        assert(class_views(prev.update(i as int, newg)) =~= class_views(prev).update(
            i as int,
            newg@,
        ));
        assert(is_first_class_match(old(model)@, name@, i as int) && final(model)@ == old(
            model,
        )@.update(i as int, newg@));
        assert(class_present(old(model)@, name@));
    }
    Ok(())
}

/// Removes every class bearing the target name. `ClassNotFound` exactly
/// when the name matched nothing, and the model is then unchanged; a model
/// holding duplicates of the name is fully purged by one call.
#[verifier::loop_isolation(false)]
pub fn delete_class_def(model: &mut Model, name: &str) -> (r: Result<(), DexEditError>)
    ensures
        final(model)@ == without_class(old(model)@, name@),
        r matches Ok(()) <==> class_present(old(model)@, name@),
        r matches Err(e) ==> e matches DexEditError::ClassNotFound && *final(model) == *old(model),
{
    let ghost orig = old(model)@;
    let ghost keep = keep_class_fn(name@);
    proof {
        assert(orig.take(0) =~= Seq::<ClassView>::empty());
        assert(kept(orig.take(0), keep) == Seq::<ClassView>::empty());
        assert(orig.skip(0) =~= orig);
        assert(class_views(model.classes@) =~= Seq::<ClassView>::empty() + orig.skip(0));
    }
    let mut removed = false;
    let mut i: usize = 0;
    let ghost mut k: int = 0;
    while i < model.classes.len()
        invariant
            0 <= i as int <= k <= orig.len(),
            i as int == kept(orig.take(k), keep).len(),
            class_views(model.classes@) == kept(orig.take(k), keep) + orig.skip(k),
            removed == exists|t: int| 0 <= t < k && #[trigger] orig[t].name == name@,
            !removed ==> model.classes == old(model).classes,
            model.classes@.len() == i + orig.len() - k,
        decreases orig.len() - k,
    {
        proof {
            assert(orig.skip(k)[0] == orig[k]);
            lemma_kept_take_step(orig, keep, k);
        }
        let ghost prevc = model.classes@;
        let matched = crate::strutil::str_eq(model.classes[i].name.as_str(), name);
        proof {
            assert(class_views(prevc)[i as int] == orig.skip(k)[0]);
        }
        if matched {
            let _gone = model.classes.remove(i);
            removed = true;
            proof {
                assert(class_views(prevc.remove(i as int)) =~= class_views(prevc).remove(i as int));
                assert(class_views(prevc).remove(i as int) =~= kept(orig.take(k), keep) + orig.skip(
                    k + 1,
                ));
            }
        } else {
            i += 1;
            proof {
                assert(orig.skip(k) =~= seq![orig[k]] + orig.skip(k + 1));
                assert(kept(orig.take(k), keep) + (seq![orig[k]] + orig.skip(k + 1)) =~= (kept(
                    orig.take(k),
                    keep,
                ) + seq![orig[k]]) + orig.skip(k + 1));
            }
        }
        proof {
            k = k + 1;
        }
    }
    proof {
        assert(k == orig.len());
        assert(orig.take(k) =~= orig);
        assert(orig.skip(k) =~= Seq::<ClassView>::empty());
        assert(kept(orig, keep) + Seq::<ClassView>::empty() =~= kept(orig, keep));
        if !removed {
            assert(forall|t: int| 0 <= t < orig.len() ==> keep(#[trigger] orig[t]));
            lemma_kept_all(orig, keep);
        }
    }
    if removed {
        Ok(())
    } else {
        Err(DexEditError::ClassNotFound)
    }
}

/// Whether some method of the class matches the `(name, signature)`
/// selector.
#[verifier::loop_isolation(false)]
fn class_has_method(c: &ClassDef, name: &str, sig: &str) -> (r: bool)
    ensures
        r == crate::model::method_present(c@, name@, sig@),
{
    let n = c.methods.len();
    let mut j: usize = 0;
    while j < n
        invariant
            0 <= j <= n,
            forall|t: int| 0 <= t < j ==> !method_selected(c@.methods[t], name@, sig@),
        decreases n - j,
    {
        if crate::query::method_matches(&c.methods[j], name, sig) {
            proof {
                assert(method_selected(c@.methods[j as int], name@, sig@));
            }
            return true;
        }
        j += 1;
    }
    false
}

/// Whether some field of the class bears the given name.
#[verifier::loop_isolation(false)]
fn class_has_field(c: &ClassDef, name: &str) -> (r: bool)
    ensures
        r == crate::model::field_present(c@, name@),
{
    let n = c.fields.len();
    let mut j: usize = 0;
    while j < n
        invariant
            0 <= j <= n,
            forall|t: int| 0 <= t < j ==> c@.fields[t].name != name@,
        decreases n - j,
    {
        if crate::strutil::str_eq(c.fields[j].name.as_str(), name) {
            proof {
                assert(c@.fields[j as int].name == name@);
            }
            return true;
        }
        j += 1;
    }
    false
}

/// Appends already-parsed methods to the first class in model order with
/// the target name. An empty batch fails with `Parse` — member text that
/// yields no members is a caller error — before any lookup, so it reports
/// `Parse` even when the class is also absent; `ClassNotFound` exactly when
/// the batch is non-empty and no class bears the name. On failure the model
/// is unchanged.
pub fn add_methods_def(model: &mut Model, class_name: &str, new_methods: Vec<MethodDef>) -> (r:
    Result<(), DexEditError>)
    ensures
        r is Ok <==> new_methods@.len() > 0 && class_present(old(model)@, class_name@),
        match r {
            Ok(()) => new_methods@.len() > 0 && exists|i: int|
                #[trigger] is_first_class_match(old(model)@, class_name@, i) && final(model)@ == old(
                    model,
                )@.update(
                    i,
                    (ClassView {
                        methods: old(model)@[i].methods + method_views(new_methods@),
                        ..old(model)@[i]
                    }),
                ),
            Err(e) => *final(model) == *old(model) && match e {
                DexEditError::Parse(_) => new_methods@.len() == 0,
                DexEditError::ClassNotFound => new_methods@.len() > 0 && !class_present(
                    old(model)@,
                    class_name@,
                ),
                _ => false,
            },
        },
{
    if new_methods.is_empty() {
        return Err(DexEditError::Parse("No method found in provided smali".to_owned()));
    }
    let ci = match model.find_class(class_name) {
        Some(ci) => ci,
        None => {
            return Err(DexEditError::ClassNotFound);
        },
    };
    let ghost prev = model.classes@;
    let ghost addv = method_views(new_methods@);
    let mut cls = model.classes.remove(ci);
    let ghost cls0 = cls;
    let mut nm = new_methods;
    cls.methods.append(&mut nm);
    proof {
        assert(method_views(cls.methods@) =~= method_views(cls0.methods@) + addv);
        assert(cls@ == (ClassView {
            methods: old(model)@[ci as int].methods + addv,
            ..old(model)@[ci as int]
        }));
    }
    let ghost clsg = cls;
    model.classes.insert(ci, cls);
    proof {
        assert(model.classes@ =~= prev.update(ci as int, clsg));
        assert(class_views(prev.update(ci as int, clsg)) =~= class_views(prev).update(
            ci as int,
            clsg@,
        ));
        assert(is_first_class_match(old(model)@, class_name@, ci as int) && final(model)@ == old(
            model,
        )@.update(
            ci as int,
            (ClassView {
                methods: old(model)@[ci as int].methods + method_views(new_methods@),
                ..old(model)@[ci as int]
            }),
        ));
        assert(class_present(old(model)@, class_name@));
    }
    Ok(())
}

/// Appends already-parsed fields to the first class in model order with the
/// target name, with the same failure contract as method addition: an empty
/// batch is a `Parse` failure before any lookup.
pub fn add_fields_def(model: &mut Model, class_name: &str, new_fields: Vec<FieldDef>) -> (r: Result<
    (),
    DexEditError,
>)
    ensures
        r is Ok <==> new_fields@.len() > 0 && class_present(old(model)@, class_name@),
        match r {
            Ok(()) => new_fields@.len() > 0 && exists|i: int|
                #[trigger] is_first_class_match(old(model)@, class_name@, i) && final(model)@ == old(
                    model,
                )@.update(
                    i,
                    (ClassView {
                        fields: old(model)@[i].fields + field_views(new_fields@),
                        ..old(model)@[i]
                    }),
                ),
            Err(e) => *final(model) == *old(model) && match e {
                DexEditError::Parse(_) => new_fields@.len() == 0,
                DexEditError::ClassNotFound => new_fields@.len() > 0 && !class_present(
                    old(model)@,
                    class_name@,
                ),
                _ => false,
            },
        },
{
    if new_fields.is_empty() {
        return Err(DexEditError::Parse("No field found in provided smali".to_owned()));
    }
    let ci = match model.find_class(class_name) {
        Some(ci) => ci,
        None => {
            return Err(DexEditError::ClassNotFound);
        },
    };
    let ghost prev = model.classes@;
    let ghost addv = field_views(new_fields@);
    let mut cls = model.classes.remove(ci);
    let ghost cls0 = cls;
    let mut nf = new_fields;
    cls.fields.append(&mut nf);
    proof {
        assert(field_views(cls.fields@) =~= field_views(cls0.fields@) + addv);
        assert(cls@ == (ClassView {
            fields: old(model)@[ci as int].fields + addv,
            ..old(model)@[ci as int]
        }));
    }
    let ghost clsg = cls;
    model.classes.insert(ci, cls);
    proof {
        assert(model.classes@ =~= prev.update(ci as int, clsg));
        assert(class_views(prev.update(ci as int, clsg)) =~= class_views(prev).update(
            ci as int,
            clsg@,
        ));
        assert(is_first_class_match(old(model)@, class_name@, ci as int) && final(model)@ == old(
            model,
        )@.update(
            ci as int,
            (ClassView {
                fields: old(model)@[ci as int].fields + field_views(new_fields@),
                ..old(model)@[ci as int]
            }),
        ));
        assert(class_present(old(model)@, class_name@));
    }
    Ok(())
}

/// Without a class of the name there is no first match, so no method of it
/// can be found.
proof fn lemma_no_class_no_method_found(
    model: Seq<ClassView>,
    class_name: Seq<char>,
    method_name: Seq<char>,
    sig: Seq<char>,
)
    requires
        !class_present(model, class_name),
    ensures
        !crate::query::method_found(model, class_name, method_name, sig),
{
    if crate::query::method_found(model, class_name, method_name, sig) {
        let i0 = choose|i: int|
            #[trigger] is_first_class_match(model, class_name, i) && crate::model::method_present(
                model[i],
                method_name,
                sig,
            );
        assert(model[i0].name == class_name);
        assert(class_present(model, class_name));
    }
}

/// When the first matching class has no method the selector matches, no
/// method is found at all, the first match being unique.
proof fn lemma_unfound_method(
    model: Seq<ClassView>,
    class_name: Seq<char>,
    method_name: Seq<char>,
    sig: Seq<char>,
    ci: int,
)
    requires
        is_first_class_match(model, class_name, ci),
        !crate::model::method_present(model[ci], method_name, sig),
    ensures
        !crate::query::method_found(model, class_name, method_name, sig),
{
    if crate::query::method_found(model, class_name, method_name, sig) {
        let i0 = choose|i: int|
            #[trigger] is_first_class_match(model, class_name, i) && crate::model::method_present(
                model[i],
                method_name,
                sig,
            );
        crate::model::lemma_first_class_match_unique(model, class_name, i0, ci);
    }
}

/// Without a class of the name there is no first match, so no field of it
/// can be found.
proof fn lemma_no_class_no_field_found(
    model: Seq<ClassView>,
    class_name: Seq<char>,
    field_name: Seq<char>,
)
    requires
        !class_present(model, class_name),
    ensures
        !crate::query::field_found(model, class_name, field_name),
{
    if crate::query::field_found(model, class_name, field_name) {
        let i0 = choose|i: int|
            #[trigger] is_first_class_match(model, class_name, i) && crate::model::field_present(
                model[i],
                field_name,
            );
        assert(model[i0].name == class_name);
        assert(class_present(model, class_name));
    }
}

/// When the first matching class has no field of the name, no field is
/// found at all, the first match being unique.
proof fn lemma_unfound_field(
    model: Seq<ClassView>,
    class_name: Seq<char>,
    field_name: Seq<char>,
    ci: int,
)
    requires
        is_first_class_match(model, class_name, ci),
        !crate::model::field_present(model[ci], field_name),
    ensures
        !crate::query::field_found(model, class_name, field_name),
{
    if crate::query::field_found(model, class_name, field_name) {
        let i0 = choose|i: int|
            #[trigger] is_first_class_match(model, class_name, i) && crate::model::field_present(
                model[i],
                field_name,
            );
        crate::model::lemma_first_class_match_unique(model, class_name, i0, ci);
    }
}

/// Removes from the first class in model order with the target name every
/// method the `(name, signature)` selector matches; an empty signature
/// selects by name alone, so one call removes every overload of the name.
/// `ClassNotFound` exactly when no class bears the type name, and
/// `MethodNotFound` exactly when the class exists but nothing matches —
/// two distinguishable failures, and the model is unchanged on both.
#[verifier::loop_isolation(false)]
pub fn delete_methods_def(
    model: &mut Model,
    class_name: &str,
    method_name: &str,
    signature: &str,
) -> (r: Result<(), DexEditError>)
    ensures
        r is Ok <==> crate::query::method_found(old(model)@, class_name@, method_name@, signature@),
        r matches Err(e) && e matches DexEditError::ClassNotFound <==> !class_present(
            old(model)@,
            class_name@,
        ),
        match r {
            Ok(()) => exists|i: int|
                #[trigger] is_first_class_match(old(model)@, class_name@, i)
                    && crate::model::method_present(old(model)@[i], method_name@, signature@)
                    && final(model)@ == old(model)@.update(
                    i,
                    (ClassView {
                        methods: methods_without(old(model)@[i].methods, method_name@, signature@),
                        ..old(model)@[i]
                    }),
                ),
            Err(e) => *final(model) == *old(model) && match e {
                DexEditError::ClassNotFound => !class_present(old(model)@, class_name@),
                DexEditError::MethodNotFound => exists|i: int|
                    #[trigger] is_first_class_match(old(model)@, class_name@, i)
                        && !crate::model::method_present(old(model)@[i], method_name@, signature@),
                _ => false,
            },
        },
{
    let ci = match model.find_class(class_name) {
        Some(ci) => ci,
        None => {
            proof {
                lemma_no_class_no_method_found(
                    old(model)@,
                    class_name@,
                    method_name@,
                    signature@,
                );
            }
            return Err(DexEditError::ClassNotFound);
        },
    };
    proof {
        assert(old(model)@[ci as int].name == class_name@);
        assert(class_present(old(model)@, class_name@));
    }
    if !class_has_method(&model.classes[ci], method_name, signature) {
        proof {
            lemma_unfound_method(
                old(model)@,
                class_name@,
                method_name@,
                signature@,
                ci as int,
            );
        }
        return Err(DexEditError::MethodNotFound);
    }
    proof {
        assert(crate::query::method_found(old(model)@, class_name@, method_name@, signature@));
    }
    let ghost prev = model.classes@;
    let ghost keep = keep_method_fn(method_name@, signature@);
    let mut cls = model.classes.remove(ci);
    let ghost morig = cls@.methods;
    proof {
        assert(morig.take(0) =~= Seq::<MethodView>::empty());
        assert(kept(morig.take(0), keep) == Seq::<MethodView>::empty());
        assert(morig.skip(0) =~= morig);
        assert(method_views(cls.methods@) =~= Seq::<MethodView>::empty() + morig.skip(0));
    }
    let mut j: usize = 0;
    let ghost mut k: int = 0;
    while j < cls.methods.len()
        invariant
            0 <= j as int <= k <= morig.len(),
            j as int == kept(morig.take(k), keep).len(),
            method_views(cls.methods@) == kept(morig.take(k), keep) + morig.skip(k),
            cls.methods@.len() == j + morig.len() - k,
            cls.name == old(model).classes@[ci as int].name,
            cls.rendering == old(model).classes@[ci as int].rendering,
            cls.fields == old(model).classes@[ci as int].fields,
        decreases morig.len() - k,
    {
        proof {
            assert(morig.skip(k)[0] == morig[k]);
            lemma_kept_take_step(morig, keep, k);
        }
        let ghost prevm = cls.methods@;
        let matched = crate::query::method_matches(&cls.methods[j], method_name, signature);
        proof {
            assert(method_views(prevm)[j as int] == morig.skip(k)[0]);
        }
        if matched {
            let _gone = cls.methods.remove(j);
            proof {
                assert(method_views(prevm.remove(j as int)) =~= method_views(prevm).remove(
                    j as int,
                ));
                assert(method_views(prevm).remove(j as int) =~= kept(morig.take(k), keep)
                    + morig.skip(k + 1));
            }
        } else {
            j += 1;
            proof {
                assert(morig.skip(k) =~= seq![morig[k]] + morig.skip(k + 1));
                assert(kept(morig.take(k), keep) + (seq![morig[k]] + morig.skip(k + 1)) =~= (kept(
                    morig.take(k),
                    keep,
                ) + seq![morig[k]]) + morig.skip(k + 1));
            }
        }
        proof {
            k = k + 1;
        }
    }
    proof {
        assert(k == morig.len());
        assert(morig.take(k) =~= morig);
        assert(morig.skip(k) =~= Seq::<MethodView>::empty());
        assert(kept(morig, keep) + Seq::<MethodView>::empty() =~= kept(morig, keep));
        assert(cls@ == (ClassView {
            methods: methods_without(old(model)@[ci as int].methods, method_name@, signature@),
            ..old(model)@[ci as int]
        }));
    }
    let ghost clsg = cls;
    model.classes.insert(ci, cls);
    proof {
        assert(model.classes@ =~= prev.update(ci as int, clsg));
        assert(class_views(prev.update(ci as int, clsg)) =~= class_views(prev).update(
            ci as int,
            clsg@,
        ));
    }
    Ok(())
}

/// Removes from the first class in model order with the target name every
/// field bearing the given name, with the same two-tier failure contract as
/// method deletion: `ClassNotFound` against `FieldNotFound` are
/// distinguishable, and the model is unchanged on both.
#[verifier::loop_isolation(false)]
pub fn delete_fields_def(model: &mut Model, class_name: &str, field_name: &str) -> (r: Result<
    (),
    DexEditError,
>)
    ensures
        r is Ok <==> crate::query::field_found(old(model)@, class_name@, field_name@),
        r matches Err(e) && e matches DexEditError::ClassNotFound <==> !class_present(
            old(model)@,
            class_name@,
        ),
        match r {
            Ok(()) => exists|i: int|
                #[trigger] is_first_class_match(old(model)@, class_name@, i)
                    && crate::model::field_present(old(model)@[i], field_name@) && final(model)@
                    == old(model)@.update(
                    i,
                    (ClassView {
                        fields: fields_without(old(model)@[i].fields, field_name@),
                        ..old(model)@[i]
                    }),
                ),
            Err(e) => *final(model) == *old(model) && match e {
                DexEditError::ClassNotFound => !class_present(old(model)@, class_name@),
                DexEditError::FieldNotFound => exists|i: int|
                    #[trigger] is_first_class_match(old(model)@, class_name@, i)
                        && !crate::model::field_present(old(model)@[i], field_name@),
                _ => false,
            },
        },
{
    let ci = match model.find_class(class_name) {
        Some(ci) => ci,
        None => {
            proof {
                lemma_no_class_no_field_found(old(model)@, class_name@, field_name@);
            }
            return Err(DexEditError::ClassNotFound);
        },
    };
    proof {
        assert(old(model)@[ci as int].name == class_name@);
        assert(class_present(old(model)@, class_name@));
    }
    if !class_has_field(&model.classes[ci], field_name) {
        proof {
            lemma_unfound_field(old(model)@, class_name@, field_name@, ci as int);
        }
        return Err(DexEditError::FieldNotFound);
    }
    proof {
        assert(crate::query::field_found(old(model)@, class_name@, field_name@));
    }
    let ghost prev = model.classes@;
    let ghost keep = keep_field_fn(field_name@);
    let mut cls = model.classes.remove(ci);
    let ghost forig = cls@.fields;
    proof {
        assert(forig.take(0) =~= Seq::<FieldView>::empty());
        assert(kept(forig.take(0), keep) == Seq::<FieldView>::empty());
        assert(forig.skip(0) =~= forig);
        assert(field_views(cls.fields@) =~= Seq::<FieldView>::empty() + forig.skip(0));
    }
    let mut j: usize = 0;
    let ghost mut k: int = 0;
    while j < cls.fields.len()
        invariant
            0 <= j as int <= k <= forig.len(),
            j as int == kept(forig.take(k), keep).len(),
            field_views(cls.fields@) == kept(forig.take(k), keep) + forig.skip(k),
            cls.fields@.len() == j + forig.len() - k,
            cls.name == old(model).classes@[ci as int].name,
            cls.rendering == old(model).classes@[ci as int].rendering,
            cls.methods == old(model).classes@[ci as int].methods,
        decreases forig.len() - k,
    {
        proof {
            assert(forig.skip(k)[0] == forig[k]);
            lemma_kept_take_step(forig, keep, k);
        }
        let ghost prevf = cls.fields@;
        let matched = crate::strutil::str_eq(cls.fields[j].name.as_str(), field_name);
        proof {
            assert(field_views(prevf)[j as int] == forig.skip(k)[0]);
        }
        if matched {
            let _gone = cls.fields.remove(j);
            proof {
                assert(field_views(prevf.remove(j as int)) =~= field_views(prevf).remove(j as int));
                assert(field_views(prevf).remove(j as int) =~= kept(forig.take(k), keep)
                    + forig.skip(k + 1));
            }
        } else {
            j += 1;
            proof {
                assert(forig.skip(k) =~= seq![forig[k]] + forig.skip(k + 1));
                assert(kept(forig.take(k), keep) + (seq![forig[k]] + forig.skip(k + 1)) =~= (kept(
                    forig.take(k),
                    keep,
                ) + seq![forig[k]]) + forig.skip(k + 1));
            }
        }
        proof {
            k = k + 1;
        }
    }
    proof {
        assert(k == forig.len());
        assert(forig.take(k) =~= forig);
        assert(forig.skip(k) =~= Seq::<FieldView>::empty());
        assert(kept(forig, keep) + Seq::<FieldView>::empty() =~= kept(forig, keep));
        assert(cls@ == (ClassView {
            fields: fields_without(old(model)@[ci as int].fields, field_name@),
            ..old(model)@[ci as int]
        }));
    }
    let ghost clsg = cls;
    model.classes.insert(ci, cls);
    proof {
        assert(model.classes@ =~= prev.update(ci as int, clsg));
        assert(class_views(prev.update(ci as int, clsg)) =~= class_views(prev).update(
            ci as int,
            clsg@,
        ));
    }
    Ok(())
}

} // verus!
