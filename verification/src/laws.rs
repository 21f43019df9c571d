//! Laws relating several operations, proved once over the specification
//! functions that the operations' contracts use.

use vstd::prelude::*;

use crate::edit::{keep_method_fn, lemma_kept_pred, methods_without};
use crate::model::{class_present, method_selected, ClassView, MethodView};
use crate::query::{
    class_hits, class_hits_fn, clip, concat_hits, filtered_names, lemma_concat_hits_split,
    lemma_concat_hits_take_step, lemma_filtered_names_add, lemma_filtered_names_from_model,
    model_hits, selector_of, HitView,
};

verus! {

/// Adding a class and then listing with a prefix its name carries includes
/// the new name exactly once, at the end of the listing: appending a class
/// appends exactly its name to the filtered names, and when the name was
/// absent from the model no earlier entry equals it.
pub proof fn lemma_added_class_listed_once(model: Seq<ClassView>, new: ClassView, prefix: Seq<char>)
    requires
        prefix.is_prefix_of(new.name),
        !class_present(model, new.name),
    ensures
        filtered_names(model.push(new), prefix) == filtered_names(model, prefix).push(new.name),
        filtered_names(model.push(new), prefix).last() == new.name,
        forall|j: int|
            0 <= j < filtered_names(model.push(new), prefix).len() - 1 ==> filtered_names(
                model.push(new),
                prefix,
            )[j] != new.name,
{
    assert(model.push(new) =~= model + seq![new]);
    lemma_filtered_names_add(model, seq![new], prefix);
    assert(seq![new].drop_first() =~= Seq::<ClassView>::empty());
    assert(filtered_names(Seq::<ClassView>::empty(), prefix) == Seq::<Seq<char>>::empty());
    assert(filtered_names(seq![new], prefix) =~= seq![new.name]);
    assert(filtered_names(model, prefix) + seq![new.name] =~= filtered_names(
        model,
        prefix,
    ).push(new.name));
    let f = filtered_names(model, prefix);
    assert forall|j: int| 0 <= j < f.len() implies f[j] != new.name by {
        lemma_filtered_names_from_model(model, prefix, j);
        let i = choose|i: int| 0 <= i < model.len() && f[j] == #[trigger] model[i].name;
        assert(model[i].name != new.name);
    }
}

/// Search truncation: with more matches in the model than the result
/// bound, a search returns exactly the bound many results — and since the
/// reported total counts the returned results, it equals the bound, not
/// the true match count.
pub proof fn lemma_search_truncation(
    model: Seq<ClassView>,
    query: Seq<char>,
    kind: Seq<char>,
    case_sensitive: bool,
    k: int,
)
    requires
        0 <= k,
        model_hits(model, query, kind, case_sensitive).len() > k,
    ensures
        clip(model_hits(model, query, kind, case_sensitive), k).len() == k,
{
}

/// A class whose name matches the query under the requested case
/// sensitivity is reported by a class-kind search that scans far enough:
/// with a result bound at or above the full match count, its entry is
/// among the results. In particular, when `case_sensitive` is false the
/// match is decided on the case-folded name and query, so a query that
/// differs from the class name only by case is still found.
pub proof fn lemma_search_finds_matching_class(
    model: Seq<ClassView>,
    query: Seq<char>,
    kind: Seq<char>,
    case_sensitive: bool,
    i: int,
    max: int,
)
    requires
        0 <= i < model.len(),
        selector_of(kind) is Classes,
        crate::strutil::text_matches(model[i].name, query, case_sensitive),
        model_hits(model, query, kind, case_sensitive).len() <= max,
    ensures
        clip(model_hits(model, query, kind, case_sensitive), max).contains(
            HitView { tag: "class"@, class_name: model[i].name, member: None },
        ),
{
    let cfn = class_hits_fn(query, kind, case_sensitive);
    let full = model_hits(model, query, kind, case_sensitive);
    let hit = HitView { tag: "class"@, class_name: model[i].name, member: None };
    lemma_concat_hits_split(model, cfn, i + 1);
    lemma_concat_hits_take_step(model, cfn, i);
    let pre = concat_hits(model.take(i), cfn);
    let rest = concat_hits(model.skip(i + 1), cfn);
    assert(cfn(model[i]) == class_hits(model[i], query, kind, case_sensitive));
    assert(class_hits(model[i], query, kind, case_sensitive) == seq![hit]);
    assert(full == (pre + seq![hit]) + rest);
    let k = pre.len() as int;
    assert((pre + seq![hit])[k] == hit);
    assert(full[k] == hit);
    assert(0 <= k < full.len());
    assert(clip(full, max) == full);
    assert(clip(full, max).contains(hit));
}

/// Deleting a method by name with an empty signature removes every
/// overload of the name in one call: no method bearing the name survives
/// in the class's remaining methods.
pub proof fn lemma_name_only_delete_removes_overloads(ms: Seq<MethodView>, name: Seq<char>)
    ensures
        forall|j: int|
            0 <= j < methods_without(ms, name, Seq::<char>::empty()).len() ==> methods_without(
                ms,
                name,
                Seq::<char>::empty(),
            )[j].name != name,
{
    let keep = keep_method_fn(name, Seq::<char>::empty());
    lemma_kept_pred(ms, keep);
    assert forall|j: int|
        0 <= j < methods_without(ms, name, Seq::<char>::empty()).len() implies methods_without(
        ms,
        name,
        Seq::<char>::empty(),
    )[j].name != name by {
        let m = methods_without(ms, name, Seq::<char>::empty())[j];
        assert(keep(m));
        assert(!method_selected(m, name, Seq::<char>::empty()));
    }
}

} // verus!
