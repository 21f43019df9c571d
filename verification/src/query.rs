//! The query engine: read-only search, enumeration and lookup over a class
//! model. Every operation scans in model order and reports results in that
//! order.

use vstd::prelude::*;

use crate::model::{
    class_present, is_first_class_match, method_present, method_selected, str_views, ClassView,
    MethodView, Model,
};
use crate::strutil::{str_starts_with, text_matches};
use crate::DexEditError;

verus! {

/// The type names of the classes whose name carries `prefix` as a literal
/// prefix, in model order. An empty prefix keeps every class.
pub open spec fn filtered_names(model: Seq<ClassView>, prefix: Seq<char>) -> Seq<Seq<char>>
    decreases model.len(),
{
    if model.len() == 0 {
        Seq::empty()
    } else {
        let rest = filtered_names(model.drop_first(), prefix);
        if prefix.is_prefix_of(model[0].name) {
            seq![model[0].name] + rest
        } else {
            rest
        }
    }
}

/// The page a pagination request selects from the filtered names: skip
/// `offset` entries, take up to `limit`. Out-of-range values degrade to an
/// empty page.
pub open spec fn page_of(f: Seq<Seq<char>>, offset: int, limit: int) -> Seq<Seq<char>> {
    let lo = if offset <= f.len() {
        offset
    } else {
        f.len() as int
    };
    let hi = if offset + limit <= f.len() {
        offset + limit
    } else {
        f.len() as int
    };
    if 0 <= lo && lo <= hi {
        f.subrange(lo, hi)
    } else {
        Seq::empty()
    }
}

/// One page of class names, with the figures the caller needs to paginate:
/// the prefix-matched total, the request echo, and whether further pages
/// exist beyond this one.
#[derive(Debug)]
pub struct ListPage {
    pub total: usize,
    pub offset: usize,
    pub limit: usize,
    pub names: Vec<String>,
    pub has_more: bool,
}

/// Splitting off the first class splits its contribution off the front of
/// the filtered names.
proof fn lemma_filtered_names_skip_step(model: Seq<ClassView>, prefix: Seq<char>, i: int)
    requires
        0 <= i < model.len(),
    ensures
        filtered_names(model.skip(i), prefix) == (if prefix.is_prefix_of(model[i].name) {
            seq![model[i].name]
        } else {
            Seq::<Seq<char>>::empty()
        }) + filtered_names(model.skip(i + 1), prefix),
{
    let s = model.skip(i);
    assert(s.len() > 0);
    assert(s[0] == model[i]);
    assert(s.drop_first() =~= model.skip(i + 1));
    if !prefix.is_prefix_of(model[i].name) {
        assert(Seq::<Seq<char>>::empty() + filtered_names(model.skip(i + 1), prefix)
            =~= filtered_names(model.skip(i + 1), prefix));
    }
}

/// The filtered names distribute over concatenation of the model.
pub proof fn lemma_filtered_names_add(a: Seq<ClassView>, b: Seq<ClassView>, prefix: Seq<char>)
    ensures
        filtered_names(a + b, prefix) == filtered_names(a, prefix) + filtered_names(b, prefix),
    decreases a.len(),
{
    if a.len() == 0 {
        assert(a + b =~= b);
        assert(Seq::<Seq<char>>::empty() + filtered_names(b, prefix) =~= filtered_names(b, prefix));
    } else {
        assert((a + b)[0] == a[0]);
        assert((a + b).drop_first() =~= a.drop_first() + b);
        lemma_filtered_names_add(a.drop_first(), b, prefix);
        if prefix.is_prefix_of(a[0].name) {
            assert((seq![a[0].name] + filtered_names(a.drop_first(), prefix)) + filtered_names(
                b,
                prefix,
            ) =~= seq![a[0].name] + (filtered_names(a.drop_first(), prefix) + filtered_names(
                b,
                prefix,
            )));
        }
    }
}

/// Every filtered name is the name of some class of the model.
pub proof fn lemma_filtered_names_from_model(model: Seq<ClassView>, prefix: Seq<char>, j: int)
    requires
        0 <= j < filtered_names(model, prefix).len(),
    ensures
        exists|i: int|
            0 <= i < model.len() && filtered_names(model, prefix)[j] == #[trigger] model[i].name,
    decreases model.len(),
{
    let f = filtered_names(model, prefix);
    if prefix.is_prefix_of(model[0].name) && j == 0 {
        assert(f[0] == model[0].name);
    } else {
        let rest = filtered_names(model.drop_first(), prefix);
        let jr = if prefix.is_prefix_of(model[0].name) {
            j - 1
        } else {
            j
        };
        assert(f[j] == rest[jr]);
        lemma_filtered_names_from_model(model.drop_first(), prefix, jr);
        let i0 = choose|i: int|
            0 <= i < model.drop_first().len() && rest[jr] == #[trigger] model.drop_first()[i].name;
        assert(model.drop_first()[i0] == model[i0 + 1]);
        assert(f[j] == model[i0 + 1].name);
    }
}

/// Collects every class's type name, keeps the ones that carry the prefix,
/// then pages through the result: skip `offset`, take up to `limit`.
///
/// The page is exactly `page_of` the filtered names; the reported total is
/// the whole filtered count, and `has_more` says whether entries follow the
/// returned page.
pub fn list_classes_model(model: &Model, prefix: &str, offset: usize, limit: usize) -> (r: ListPage)
    ensures
        r.total == filtered_names(model@, prefix@).len(),
        r.offset == offset,
        r.limit == limit,
        str_views(r.names@) == page_of(filtered_names(model@, prefix@), offset as int, limit as int),
        r.has_more == (offset + r.names@.len() < r.total),
{
    let ghost f = filtered_names(model@, prefix@);
    let n = model.classes.len();
    let mut filtered: Vec<String> = Vec::new();
    proof {
        assert(model@.skip(0) =~= model@);
        assert(str_views(filtered@) =~= Seq::<Seq<char>>::empty());
        assert(Seq::<Seq<char>>::empty() + f =~= f);
    }
    let mut i: usize = 0;
    while i < n
        invariant
            n == model.classes.len(),
            0 <= i <= n,
            f == filtered_names(model@, prefix@),
            str_views(filtered@) + filtered_names(model@.skip(i as int), prefix@) == f,
        decreases n - i,
    {
        proof {
            lemma_filtered_names_skip_step(model@, prefix@, i as int);
        }
        let ghost prev = filtered@;
        if str_starts_with(model.classes[i].name.as_str(), prefix) {
            let name = model.classes[i].name.clone();
            filtered.push(name);
            proof {
                crate::model::lemma_str_views_push(prev, model.classes@[i as int].name);
                assert((str_views(prev) + seq![model@[i as int].name]) + filtered_names(
                    model@.skip(i + 1),
                    prefix@,
                ) =~= str_views(prev) + (seq![model@[i as int].name] + filtered_names(
                    model@.skip(i + 1),
                    prefix@,
                )));
            }
        } else {
            proof {
                assert(Seq::<Seq<char>>::empty() + filtered_names(model@.skip(i + 1), prefix@)
                    =~= filtered_names(model@.skip(i + 1), prefix@));
            }
        }
        i += 1;
    }
    proof {
        assert(model@.skip(n as int) =~= Seq::<ClassView>::empty());
        assert(str_views(filtered@) + Seq::<Seq<char>>::empty() =~= str_views(filtered@));
        assert(str_views(filtered@) == f);
    }
    let total = filtered.len();
    let start = if offset < total {
        offset
    } else {
        total
    };
    let remaining = total - start;
    let take_n = if limit < remaining {
        limit
    } else {
        remaining
    };
    let end = start + take_n;
    let mut names: Vec<String> = Vec::new();
    let mut k = start;
    while k < end
        invariant
            start <= k <= end <= total,
            total == filtered.len(),
            str_views(filtered@) == f,
            str_views(names@) == f.subrange(start as int, k as int),
        decreases end - k,
    {
        let ghost prev = names@;
        let name = filtered[k].clone();
        names.push(name);
        proof {
            crate::model::lemma_str_views_push(prev, filtered@[k as int]);
            assert(f.subrange(start as int, k + 1) =~= f.subrange(start as int, k as int).push(
                f[k as int],
            ));
        }
        k += 1;
    }
    let has_more = end < total;
    proof {
        assert(f.subrange(start as int, end as int) == page_of(
            f,
            offset as int,
            limit as int,
        ));
    }
    ListPage { total, offset, limit, names, has_more }
}

// ---------------------------------------------------------------------------
// Search
// ---------------------------------------------------------------------------

/// The mathematical view of one search match.
pub ghost struct HitView {
    pub tag: Seq<char>,
    pub class_name: Seq<char>,
    pub member: Option<Seq<char>>,
}

/// One search match: the kind of entity matched, the owning class, and the
/// member name where the match is a member.
pub struct SearchHit {
    pub tag: String,
    pub class_name: String,
    pub member: Option<String>,
}

impl View for SearchHit {
    type V = HitView;

    open spec fn view(&self) -> HitView {
        HitView {
            tag: self.tag@,
            class_name: self.class_name@,
            member: match self.member {
                Some(s) => Some(s@),
                None => None,
            },
        }
    }
}

/// The views of a sequence of search matches.
pub open spec fn hit_views(v: Seq<SearchHit>) -> Seq<HitView> {
    v.map_values(|h: SearchHit| h@)
}

/// Appending a search match appends its view.
proof fn lemma_hit_views_push(s: Seq<SearchHit>, h: SearchHit)
    ensures
        hit_views(s.push(h)) == hit_views(s).push(h@),
{
    assert(hit_views(s.push(h)) =~= hit_views(s).push(h@));
}

/// What a search-kind word selects: class names, method names, field names,
/// method body text, or nothing at all for an unknown word.
pub enum Selector {
    Classes,
    Methods,
    Fields,
    Code,
    Nothing,
}

/// The selector a search-kind word denotes. `class` and `package` both
/// select class names; `string` and `code` both select method body text; an
/// unknown word selects nothing (an empty selection, not a failure).
pub open spec fn selector_of(kind: Seq<char>) -> Selector {
    if kind == "class"@ || kind == "package"@ {
        Selector::Classes
    } else if kind == "method"@ {
        Selector::Methods
    } else if kind == "field"@ {
        Selector::Fields
    } else if kind == "string"@ || kind == "code"@ {
        Selector::Code
    } else {
        Selector::Nothing
    }
}

/// The concatenation of `f` over the elements of `xs`, in order.
pub open spec fn concat_hits<A>(xs: Seq<A>, f: spec_fn(A) -> Seq<HitView>) -> Seq<HitView>
    decreases xs.len(),
{
    if xs.len() == 0 {
        Seq::empty()
    } else {
        f(xs[0]) + concat_hits(xs.drop_first(), f)
    }
}

/// `concat_hits` distributes over concatenation of the scanned sequence.
proof fn lemma_concat_hits_add<A>(a: Seq<A>, b: Seq<A>, f: spec_fn(A) -> Seq<HitView>)
    ensures
        concat_hits(a + b, f) == concat_hits(a, f) + concat_hits(b, f),
    decreases a.len(),
{
    if a.len() == 0 {
        assert(a + b =~= b);
        assert(Seq::<HitView>::empty() + concat_hits(b, f) =~= concat_hits(b, f));
    } else {
        assert((a + b).len() > 0);
        assert((a + b)[0] == a[0]);
        assert((a + b).drop_first() =~= a.drop_first() + b);
        lemma_concat_hits_add(a.drop_first(), b, f);
        assert((f(a[0]) + concat_hits(a.drop_first(), f)) + concat_hits(b, f) =~= f(a[0]) + (
        concat_hits(a.drop_first(), f) + concat_hits(b, f)));
    }
}

/// Scanning one element more appends that element's contribution.
pub proof fn lemma_concat_hits_take_step<A>(xs: Seq<A>, f: spec_fn(A) -> Seq<HitView>, i: int)
    requires
        0 <= i < xs.len(),
    ensures
        concat_hits(xs.take(i + 1), f) == concat_hits(xs.take(i), f) + f(xs[i]),
{
    assert(xs.take(i + 1) =~= xs.take(i) + seq![xs[i]]);
    lemma_concat_hits_add(xs.take(i), seq![xs[i]], f);
    assert(seq![xs[i]].drop_first() =~= Seq::<A>::empty());
    assert(concat_hits(Seq::<A>::empty(), f) == Seq::<HitView>::empty());
    assert(concat_hits(seq![xs[i]], f) == f(xs[i]) + concat_hits(seq![xs[i]].drop_first(), f));
    assert(concat_hits(seq![xs[i]], f) =~= f(xs[i]));
}

/// A scan's prefix contributes a prefix of the whole scan's result.
pub proof fn lemma_concat_hits_split<A>(xs: Seq<A>, f: spec_fn(A) -> Seq<HitView>, i: int)
    requires
        0 <= i <= xs.len(),
    ensures
        concat_hits(xs, f) == concat_hits(xs.take(i), f) + concat_hits(xs.skip(i), f),
{
    assert(xs =~= xs.take(i) + xs.skip(i));
    lemma_concat_hits_add(xs.take(i), xs.skip(i), f);
}

/// Truncation to the result bound: the first `max` entries, or all of them
/// when fewer accumulate.
pub open spec fn clip(s: Seq<HitView>, max: int) -> Seq<HitView> {
    if s.len() <= max {
        s
    } else {
        s.take(max)
    }
}

/// Once a scan has accumulated `max` results, whatever follows is clipped
/// away.
proof fn lemma_clip_prefix(a: Seq<HitView>, b: Seq<HitView>, max: int)
    requires
        0 <= max <= a.len(),
    ensures
        clip(a + b, max) == clip(a, max),
{
    assert((a + b).take(max) =~= a.take(max));
    if a.len() <= max {
        assert(a.take(max) =~= a);
    }
}

/// The match for a class-name search on one class.
pub open spec fn class_name_hit_fn(q: Seq<char>, cs: bool) -> spec_fn(ClassView) -> Seq<HitView> {
    |c: ClassView|
        if crate::strutil::text_matches(c.name, q, cs) {
            seq![
                HitView {
                    tag: "class"@,
                    class_name: c.name,
                    member: None,
                },
            ]
        } else {
            Seq::empty()
        }
}

/// The match for a method-name search on one method of a class.
pub open spec fn method_name_hit_fn(cname: Seq<char>, q: Seq<char>, cs: bool) -> spec_fn(
    MethodView,
) -> Seq<HitView> {
    |m: MethodView|
        if crate::strutil::text_matches(m.name, q, cs) {
            seq![
                HitView {
                    tag: "method"@,
                    class_name: cname,
                    member: Some(m.name),
                },
            ]
        } else {
            Seq::empty()
        }
}

/// The match for a field-name search on one field of a class.
pub open spec fn field_name_hit_fn(cname: Seq<char>, q: Seq<char>, cs: bool) -> spec_fn(
    crate::model::FieldView,
) -> Seq<HitView> {
    |f: crate::model::FieldView|
        if crate::strutil::text_matches(f.name, q, cs) {
            seq![
                HitView {
                    tag: "field"@,
                    class_name: cname,
                    member: Some(f.name),
                },
            ]
        } else {
            Seq::empty()
        }
}

/// The match for a body-text search on one method of a class; the reported
/// kind echoes the requested one (`string` or `code`).
pub open spec fn code_hit_fn(cname: Seq<char>, q: Seq<char>, kind: Seq<char>, cs: bool) -> spec_fn(
    MethodView,
) -> Seq<HitView> {
    |m: MethodView|
        if crate::strutil::text_matches(m.debug_text, q, cs) {
            seq![
                HitView {
                    tag: kind,
                    class_name: cname,
                    member: Some(m.name),
                },
            ]
        } else {
            Seq::empty()
        }
}

/// Everything one class contributes to a search, in member order.
pub open spec fn class_hits(c: ClassView, q: Seq<char>, kind: Seq<char>, cs: bool) -> Seq<HitView> {
    match selector_of(kind) {
        Selector::Classes => class_name_hit_fn(q, cs)(c),
        Selector::Methods => concat_hits(c.methods, method_name_hit_fn(c.name, q, cs)),
        Selector::Fields => concat_hits(c.fields, field_name_hit_fn(c.name, q, cs)),
        Selector::Code => concat_hits(c.methods, code_hit_fn(c.name, q, kind, cs)),
        Selector::Nothing => Seq::empty(),
    }
}

/// The per-class contribution as a function, for scanning the model.
pub open spec fn class_hits_fn(q: Seq<char>, kind: Seq<char>, cs: bool) -> spec_fn(
    ClassView,
) -> Seq<HitView> {
    |c: ClassView| class_hits(c, q, kind, cs)
}

/// Every match a search would find without a result bound, in model order.
pub open spec fn model_hits(model: Seq<ClassView>, q: Seq<char>, kind: Seq<char>, cs: bool) -> Seq<
    HitView,
> {
    concat_hits(model, class_hits_fn(q, kind, cs))
}

/// A search's results and the count it reports: the count of the returned
/// (possibly truncated) results, not of all matches.
pub struct SearchOutcome {
    pub results: Vec<SearchHit>,
    pub total: usize,
}

/// Scans classes in model order for matches of `query` under the given
/// search kind, case sensitivity and result bound.
///
/// The scan stops as soon as the accumulated count reaches `max_results`;
/// the bound is checked before each class and before each member within a
/// class, so results may be truncated mid-class. The reported total counts
/// the returned results, not every match in the model. An unknown kind
/// yields zero results without error.
#[verifier::loop_isolation(false)]
pub fn search_model(
    model: &Model,
    query: &str,
    kind: &str,
    case_sensitive: bool,
    max_results: usize,
) -> (r: SearchOutcome)
    ensures
        hit_views(r.results@) == clip(
            model_hits(model@, query@, kind@, case_sensitive),
            max_results as int,
        ),
        r.total == r.results@.len(),
        r.results@.len() <= max_results,
{
    let ghost q = query@;
    let ghost cfn = class_hits_fn(query@, kind@, case_sensitive);
    let ghost max = max_results as int;
    let needle = if case_sensitive {
        query.to_owned()
    } else {
        crate::strutil::to_lowercase(query)
    };
    let is_classes = crate::strutil::str_eq(kind, "class") || crate::strutil::str_eq(
        kind,
        "package",
    );
    let is_methods = crate::strutil::str_eq(kind, "method");
    let is_fields = crate::strutil::str_eq(kind, "field");
    let is_code = crate::strutil::str_eq(kind, "string") || crate::strutil::str_eq(kind, "code");
    let mut results: Vec<SearchHit> = Vec::new();
    let n = model.classes.len();
    proof {
        assert(model@.take(0) =~= Seq::<ClassView>::empty());
        assert(hit_views(results@) =~= Seq::<HitView>::empty());
    }
    let mut i: usize = 0;
    while i < n && results.len() < max_results
        invariant
            0 <= i <= n,
            results@.len() <= max_results,
            hit_views(results@) == clip(concat_hits(model@.take(i as int), cfn), max),
        decreases n - i,
    {
        let ghost hbase = concat_hits(model@.take(i as int), cfn);
        proof {
            assert(hit_views(results@) == hbase);
            lemma_concat_hits_take_step(model@, cfn, i as int);
        }
        let c = &model.classes[i];
        proof {
            assert(c@ == model@[i as int]);
        }
        if is_classes {
            if crate::strutil::matches_folded(c.name.as_str(), needle.as_str(), case_sensitive) {
                let hit = SearchHit {
                    tag: "class".to_owned(),
                    class_name: c.name.clone(),
                    member: None,
                };
                let ghost hitg = hit;
                let ghost prev = results@;
                results.push(hit);
                proof {
                    lemma_hit_views_push(prev, hitg);
                    assert(class_hits(model@[i as int], q, kind@, case_sensitive) =~= seq![hitg@]);
                    assert(hbase + seq![hitg@] =~= hbase.push(hitg@));
                }
            } else {
                proof {
                    assert(hbase + class_hits(model@[i as int], q, kind@, case_sensitive)
                        =~= hbase);
                }
            }
        } else if is_methods {
            let ghost ms = model@[i as int].methods;
            let ghost mfn = method_name_hit_fn(model@[i as int].name, q, case_sensitive);
            proof {
                assert(ms.take(0) =~= Seq::<MethodView>::empty());
                assert(hbase + concat_hits(ms.take(0), mfn) =~= hbase);
            }
            let m_len = c.methods.len();
            let mut j: usize = 0;
            while j < m_len && results.len() < max_results
                invariant
                    0 <= j <= m_len,
                    results@.len() <= max_results,
                    hit_views(results@) == clip(hbase + concat_hits(ms.take(j as int), mfn), max),
                decreases m_len - j,
            {
                let ghost mh = concat_hits(ms.take(j as int), mfn);
                proof {
                    assert(hit_views(results@) == hbase + mh);
                    lemma_concat_hits_take_step(ms, mfn, j as int);
                }
                if crate::strutil::matches_folded(
                    c.methods[j].name.as_str(),
                    needle.as_str(),
                    case_sensitive,
                ) {
                    let hit = SearchHit {
                        tag: "method".to_owned(),
                        class_name: c.name.clone(),
                        member: Some(c.methods[j].name.clone()),
                    };
                    let ghost hitg = hit;
                    let ghost prev = results@;
                    results.push(hit);
                    proof {
                        lemma_hit_views_push(prev, hitg);
                        assert(mfn(ms[j as int]) =~= seq![hitg@]);
                        assert(hbase + (mh + seq![hitg@]) =~= (hbase + mh).push(hitg@));
                    }
                } else {
                    proof {
                        assert(mfn(ms[j as int]) =~= Seq::<HitView>::empty());
                        assert(hbase + (mh + Seq::<HitView>::empty()) =~= hbase + mh);
                    }
                }
                j += 1;
            }
            proof {
                if j == m_len {
                    assert(ms.take(j as int) =~= ms);
                } else {
                    assert(results@.len() == max_results);
                    lemma_concat_hits_split(ms, mfn, j as int);
                    lemma_clip_prefix(
                        hbase + concat_hits(ms.take(j as int), mfn),
                        concat_hits(ms.skip(j as int), mfn),
                        max,
                    );
                    assert((hbase + concat_hits(ms.take(j as int), mfn)) + concat_hits(
                        ms.skip(j as int),
                        mfn,
                    ) =~= hbase + concat_hits(ms, mfn));
                }
                assert(hit_views(results@) == clip(
                    hbase + class_hits(model@[i as int], q, kind@, case_sensitive),
                    max,
                ));
            }
        } else if is_fields {
            let ghost fs = model@[i as int].fields;
            let ghost ffn = field_name_hit_fn(model@[i as int].name, q, case_sensitive);
            proof {
                assert(fs.take(0) =~= Seq::<crate::model::FieldView>::empty());
                assert(hbase + concat_hits(fs.take(0), ffn) =~= hbase);
            }
            let f_len = c.fields.len();
            let mut j: usize = 0;
            while j < f_len && results.len() < max_results
                invariant
                    0 <= j <= f_len,
                    results@.len() <= max_results,
                    hit_views(results@) == clip(hbase + concat_hits(fs.take(j as int), ffn), max),
                decreases f_len - j,
            {
                let ghost fh = concat_hits(fs.take(j as int), ffn);
                proof {
                    assert(hit_views(results@) == hbase + fh);
                    lemma_concat_hits_take_step(fs, ffn, j as int);
                }
                if crate::strutil::matches_folded(
                    c.fields[j].name.as_str(),
                    needle.as_str(),
                    case_sensitive,
                ) {
                    let hit = SearchHit {
                        tag: "field".to_owned(),
                        class_name: c.name.clone(),
                        member: Some(c.fields[j].name.clone()),
                    };
                    let ghost hitg = hit;
                    let ghost prev = results@;
                    results.push(hit);
                    proof {
                        lemma_hit_views_push(prev, hitg);
                        assert(ffn(fs[j as int]) =~= seq![hitg@]);
                        assert(hbase + (fh + seq![hitg@]) =~= (hbase + fh).push(hitg@));
                    }
                } else {
                    proof {
                        assert(ffn(fs[j as int]) =~= Seq::<HitView>::empty());
                        assert(hbase + (fh + Seq::<HitView>::empty()) =~= hbase + fh);
                    }
                }
                j += 1;
            }
            proof {
                if j == f_len {
                    assert(fs.take(j as int) =~= fs);
                } else {
                    assert(results@.len() == max_results);
                    lemma_concat_hits_split(fs, ffn, j as int);
                    lemma_clip_prefix(
                        hbase + concat_hits(fs.take(j as int), ffn),
                        concat_hits(fs.skip(j as int), ffn),
                        max,
                    );
                    assert((hbase + concat_hits(fs.take(j as int), ffn)) + concat_hits(
                        fs.skip(j as int),
                        ffn,
                    ) =~= hbase + concat_hits(fs, ffn));
                }
                assert(hit_views(results@) == clip(
                    hbase + class_hits(model@[i as int], q, kind@, case_sensitive),
                    max,
                ));
            }
        } else if is_code {
            let ghost ms = model@[i as int].methods;
            let ghost dfn = code_hit_fn(model@[i as int].name, q, kind@, case_sensitive);
            proof {
                assert(ms.take(0) =~= Seq::<MethodView>::empty());
                assert(hbase + concat_hits(ms.take(0), dfn) =~= hbase);
            }
            let m_len = c.methods.len();
            let mut j: usize = 0;
            while j < m_len && results.len() < max_results
                invariant
                    0 <= j <= m_len,
                    results@.len() <= max_results,
                    hit_views(results@) == clip(hbase + concat_hits(ms.take(j as int), dfn), max),
                decreases m_len - j,
            {
                let ghost mh = concat_hits(ms.take(j as int), dfn);
                proof {
                    assert(hit_views(results@) == hbase + mh);
                    lemma_concat_hits_take_step(ms, dfn, j as int);
                }
                if crate::strutil::matches_folded(
                    c.methods[j].debug_text.as_str(),
                    needle.as_str(),
                    case_sensitive,
                ) {
                    let hit = SearchHit {
                        tag: kind.to_owned(),
                        class_name: c.name.clone(),
                        member: Some(c.methods[j].name.clone()),
                    };
                    let ghost hitg = hit;
                    let ghost prev = results@;
                    results.push(hit);
                    proof {
                        lemma_hit_views_push(prev, hitg);
                        assert(dfn(ms[j as int]) =~= seq![hitg@]);
                        assert(hbase + (mh + seq![hitg@]) =~= (hbase + mh).push(hitg@));
                    }
                } else {
                    proof {
                        assert(dfn(ms[j as int]) =~= Seq::<HitView>::empty());
                        assert(hbase + (mh + Seq::<HitView>::empty()) =~= hbase + mh);
                    }
                }
                j += 1;
            }
            proof {
                if j == m_len {
                    assert(ms.take(j as int) =~= ms);
                } else {
                    assert(results@.len() == max_results);
                    lemma_concat_hits_split(ms, dfn, j as int);
                    lemma_clip_prefix(
                        hbase + concat_hits(ms.take(j as int), dfn),
                        concat_hits(ms.skip(j as int), dfn),
                        max,
                    );
                    assert((hbase + concat_hits(ms.take(j as int), dfn)) + concat_hits(
                        ms.skip(j as int),
                        dfn,
                    ) =~= hbase + concat_hits(ms, dfn));
                }
                assert(hit_views(results@) == clip(
                    hbase + class_hits(model@[i as int], q, kind@, case_sensitive),
                    max,
                ));
            }
        } else {
            proof {
                assert(class_hits(model@[i as int], q, kind@, case_sensitive)
                    =~= Seq::<HitView>::empty());
                assert(hbase + Seq::<HitView>::empty() =~= hbase);
            }
        }
        i += 1;
    }
    proof {
        if i == n {
            assert(model@.take(n as int) =~= model@);
        } else {
            assert(results@.len() == max_results);
            lemma_concat_hits_split(model@, cfn, i as int);
            lemma_clip_prefix(
                concat_hits(model@.take(i as int), cfn),
                concat_hits(model@.skip(i as int), cfn),
                max,
            );
        }
        assert(hit_views(results@) == clip(model_hits(model@, query@, kind@, case_sensitive), max));
    }
    let total = results.len();
    proof {
        assert(results@.len() == hit_views(results@).len());
    }
    SearchOutcome { results, total }
}

/// The human-readable rendering of the first class in model order with the
/// given type name; `ClassNotFound` exactly when no class bears it.
pub fn get_class_body(model: &Model, name: &str) -> (r: Result<String, DexEditError>)
    ensures
        r is Ok <==> class_present(model@, name@),
        match r {
            Ok(s) => exists|i: int|
                #[trigger] is_first_class_match(model@, name@, i) && s@ == model@[i].rendering,
            Err(e) => e matches DexEditError::ClassNotFound && !class_present(model@, name@),
        },
{
    match model.find_class(name) {
        Some(i) => {
            let body = model.classes[i].rendering.clone();
            proof {
                assert(is_first_class_match(model@, name@, i as int) && body@
                    == model@[i as int].rendering);
                assert(class_present(model@, name@));
            }
            Ok(body)
        },
        None => Err(DexEditError::ClassNotFound),
    }
}

// ---------------------------------------------------------------------------
// Method enumeration and lookup
// ---------------------------------------------------------------------------

/// The mathematical view of one enumerated method.
pub ghost struct MethodInfoView {
    pub name: Seq<char>,
    pub signature: Seq<char>,
    pub modifiers: Seq<Seq<char>>,
    pub constructor: bool,
}

/// One method as the enumeration reports it: identity, modifiers and the
/// constructor flag, without the body text.
pub struct MethodInfo {
    pub name: String,
    pub signature: String,
    pub modifiers: Vec<String>,
    pub constructor: bool,
}

impl View for MethodInfo {
    type V = MethodInfoView;

    open spec fn view(&self) -> MethodInfoView {
        MethodInfoView {
            name: self.name@,
            signature: self.signature@,
            modifiers: str_views(self.modifiers@),
            constructor: self.constructor,
        }
    }
}

/// The views of a sequence of enumerated methods.
pub open spec fn info_views(v: Seq<MethodInfo>) -> Seq<MethodInfoView> {
    v.map_values(|m: MethodInfo| m@)
}

/// What the enumeration reports of one method.
pub open spec fn info_of(m: MethodView) -> MethodInfoView {
    MethodInfoView {
        name: m.name,
        signature: m.signature,
        modifiers: m.modifiers,
        constructor: m.constructor,
    }
}

/// Enumerates the methods of the first class in model order with the given
/// type name, in member order; `ClassNotFound` exactly when no class bears
/// the name.
#[verifier::loop_isolation(false)]
pub fn list_methods_model(model: &Model, name: &str) -> (r: Result<Vec<MethodInfo>, DexEditError>)
    ensures
        r is Ok <==> class_present(model@, name@),
        match r {
            Ok(v) => exists|i: int|
                #[trigger] is_first_class_match(model@, name@, i) && info_views(v@)
                    == model@[i].methods.map_values(|m: MethodView| info_of(m)),
            Err(e) => e matches DexEditError::ClassNotFound && !class_present(model@, name@),
        },
{
    let ci = match model.find_class(name) {
        Some(ci) => ci,
        None => {
            return Err(DexEditError::ClassNotFound);
        },
    };
    let c = &model.classes[ci];
    let ghost target = model@[ci as int].methods.map_values(|m: MethodView| info_of(m));
    let mut infos: Vec<MethodInfo> = Vec::new();
    proof {
        assert(info_views(infos@) =~= target.take(0));
    }
    let m_len = c.methods.len();
    let mut j: usize = 0;
    while j < m_len
        invariant
            0 <= j <= m_len,
            info_views(infos@) == target.take(j as int),
        decreases m_len - j,
    {
        let m = &c.methods[j];
        let mods = clone_strings(&m.modifiers);
        let info = MethodInfo {
            name: m.name.clone(),
            signature: m.signature.clone(),
            modifiers: mods,
            constructor: m.constructor,
        };
        let ghost infog = info;
        let ghost prev = infos@;
        infos.push(info);
        proof {
            assert(info_views(prev.push(infog)) =~= info_views(prev).push(infog@));
            assert(infog@ == target[j as int]);
            assert(target.take(j + 1) =~= target.take(j as int).push(target[j as int]));
        }
        j += 1;
    }
    proof {
        assert(target.take(m_len as int) =~= target);
        assert(is_first_class_match(model@, name@, ci as int) && info_views(infos@)
            == model@[ci as int].methods.map_values(|m: MethodView| info_of(m)));
        assert(class_present(model@, name@));
    }
    Ok(infos)
}

/// A fresh vector holding clones of the given strings.
#[verifier::loop_isolation(false)]
fn clone_strings(v: &Vec<String>) -> (r: Vec<String>)
    ensures
        str_views(r@) == str_views(v@),
{
    let mut out: Vec<String> = Vec::new();
    proof {
        assert(str_views(out@) =~= str_views(v@).take(0));
    }
    let n = v.len();
    let mut i: usize = 0;
    while i < n
        invariant
            0 <= i <= n,
            str_views(out@) == str_views(v@).take(i as int),
        decreases n - i,
    {
        let ghost prev = out@;
        let s = v[i].clone();
        out.push(s);
        proof {
            crate::model::lemma_str_views_push(prev, v@[i as int]);
            assert(str_views(v@).take(i + 1) =~= str_views(v@).take(i as int).push(
                str_views(v@)[i as int],
            ));
        }
        i += 1;
    }
    proof {
        assert(str_views(v@).take(n as int) =~= str_views(v@));
    }
    out
}

/// Position `k` holds the first method of the class that the
/// `(name, signature)` selector matches.
pub open spec fn is_first_method_match(
    c: ClassView,
    name: Seq<char>,
    sig: Seq<char>,
    k: int,
) -> bool {
    &&& 0 <= k < c.methods.len()
    &&& method_selected(c.methods[k], name, sig)
    &&& forall|j: int| 0 <= j < k ==> !method_selected(c.methods[j], name, sig)
}

/// The first class in model order bearing the type name exists and has a
/// method the `(name, signature)` selector matches: the condition under
/// which a method lookup succeeds.
pub open spec fn method_found(
    model: Seq<ClassView>,
    class_name: Seq<char>,
    method_name: Seq<char>,
    sig: Seq<char>,
) -> bool {
    exists|i: int|
        #[trigger] is_first_class_match(model, class_name, i) && method_present(
            model[i],
            method_name,
            sig,
        )
}

/// The first class in model order bearing the type name exists and has a
/// field with the given name: the condition under which a field deletion
/// succeeds.
pub open spec fn field_found(
    model: Seq<ClassView>,
    class_name: Seq<char>,
    field_name: Seq<char>,
) -> bool {
    exists|i: int|
        #[trigger] is_first_class_match(model, class_name, i) && crate::model::field_present(
            model[i],
            field_name,
        )
}

/// One looked-up method: its full signature descriptor and its
/// human-readable rendering.
#[derive(Debug)]
pub struct MethodBody {
    pub signature: String,
    pub rendering: String,
}

/// Whether a method matches the `(name, signature)` selector; an empty
/// signature selects by name alone.
pub fn method_matches(m: &crate::model::MethodDef, name: &str, sig: &str) -> (r: bool)
    ensures
        r == method_selected(m@, name@, sig@),
{
    if !crate::strutil::str_eq(m.name.as_str(), name) {
        return false;
    }
    if sig.is_empty() {
        return true;
    }
    crate::strutil::str_eq(m.signature.as_str(), sig)
}

/// The rendering of the first method the `(name, signature)` selector
/// matches, within the first class in model order with the given type name.
/// An empty signature matches by name alone and returns the first hit.
/// `ClassNotFound` exactly when no class bears the type name;
/// `MethodNotFound` exactly when the class exists but nothing matches.
#[verifier::loop_isolation(false)]
pub fn get_method_model(model: &Model, class_name: &str, method_name: &str, signature: &str) -> (r:
    Result<MethodBody, DexEditError>)
    ensures
        r is Ok <==> method_found(model@, class_name@, method_name@, signature@),
        match r {
            Ok(b) => exists|i: int, k: int|
                #[trigger] is_first_class_match(model@, class_name@, i)
                    && #[trigger] is_first_method_match(model@[i], method_name@, signature@, k)
                    && b.rendering@ == model@[i].methods[k].rendering && b.signature@
                    == model@[i].methods[k].signature,
            Err(e) => match e {
                DexEditError::ClassNotFound => !class_present(model@, class_name@),
                DexEditError::MethodNotFound => exists|i: int|
                    #[trigger] is_first_class_match(model@, class_name@, i) && !method_present(
                        model@[i],
                        method_name@,
                        signature@,
                    ),
                _ => false,
            },
        },
{
    let ci = match model.find_class(class_name) {
        Some(ci) => ci,
        None => {
            return Err(DexEditError::ClassNotFound);
        },
    };
    let c = &model.classes[ci];
    let m_len = c.methods.len();
    let mut j: usize = 0;
    while j < m_len
        invariant
            0 <= j <= m_len,
            forall|t: int| 0 <= t < j ==> !method_selected(
                model@[ci as int].methods[t],
                method_name@,
                signature@,
            ),
        decreases m_len - j,
    {
        if method_matches(&c.methods[j], method_name, signature) {
            let body = MethodBody {
                signature: c.methods[j].signature.clone(),
                rendering: c.methods[j].rendering.clone(),
            };
            proof {
                assert(is_first_class_match(model@, class_name@, ci as int)
                    && is_first_method_match(
                    model@[ci as int],
                    method_name@,
                    signature@,
                    j as int,
                ) && body.rendering@ == model@[ci as int].methods[j as int].rendering
                    && body.signature@ == model@[ci as int].methods[j as int].signature);
                assert(method_selected(
                    model@[ci as int].methods[j as int],
                    method_name@,
                    signature@,
                ));
                assert(method_present(model@[ci as int], method_name@, signature@));
                assert(method_found(model@, class_name@, method_name@, signature@));
            }
            return Ok(body);
        }
        j += 1;
    }
    proof {
        assert(is_first_class_match(model@, class_name@, ci as int) && !method_present(
            model@[ci as int],
            method_name@,
            signature@,
        ));
        assert(!method_found(model@, class_name@, method_name@, signature@)) by {
            if method_found(model@, class_name@, method_name@, signature@) {
                let i0 = choose|i: int|
                    #[trigger] is_first_class_match(model@, class_name@, i) && method_present(
                        model@[i],
                        method_name@,
                        signature@,
                    );
                crate::model::lemma_first_class_match_unique(
                    model@,
                    class_name@,
                    i0,
                    ci as int,
                );
            }
        }
    }
    Err(DexEditError::MethodNotFound)
}

} // verus!
