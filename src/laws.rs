//! What holds of the stages across calls: keys stay unique, a listing taken in
//! twice adds nothing the second time, the frontier only shrinks, and one
//! fetch serves every model row of an identity.
use vstd::prelude::*;
use crate::catalog::{
    Catalog, CatalogV, MAX_ROWS, lemma_replicas_upto, same_brand_key, same_model_key, same_year_key,
};
use crate::frontier::{
    pending_refs, pending_refs_upto, pending_brands, pending_brands_upto, identity_reps,
    identity_reps_upto, is_first_replica, same_identity, lemma_pending_brands_upto,
    lemma_pending_refs_upto, brand_plan, brand_plan_upto, type_tasks, BrandTask,
};
use crate::schema::{ReferencesResponse, FipeStruct, FipeModels};
use crate::text::{decimal, fuel_of, year_date_of};

verus! {

/// `w` keeps every row of `v` and changes only the brand table.
pub open spec fn extends_brands(v: CatalogV, w: CatalogV) -> bool {
    &&& w.types == v.types
    &&& w.refs == v.refs
    &&& w.models == v.models
    &&& w.years == v.years
    &&& v.brands.len() <= w.brands.len()
    &&& forall|k: int| 0 <= k < v.brands.len() ==> #[trigger] w.brands[k] == v.brands[k]
}

/// `w` keeps every row of `v` and changes only the reference table.
pub open spec fn extends_refs(v: CatalogV, w: CatalogV) -> bool {
    &&& w.types == v.types
    &&& w.brands == v.brands
    &&& w.models == v.models
    &&& w.years == v.years
    &&& v.refs.len() <= w.refs.len()
    &&& forall|k: int| 0 <= k < v.refs.len() ==> #[trigger] w.refs[k] == v.refs[k]
}

/// `w` keeps every row of `v` and changes only the model table.
pub open spec fn extends_models(v: CatalogV, w: CatalogV) -> bool {
    &&& w.types == v.types
    &&& w.refs == v.refs
    &&& w.brands == v.brands
    &&& w.years == v.years
    &&& v.models.len() <= w.models.len()
    &&& forall|k: int| 0 <= k < v.models.len() ==> #[trigger] w.models[k] == v.models[k]
}

/// `w` keeps every row of `v` and changes only the year table.
pub open spec fn extends_years(v: CatalogV, w: CatalogV) -> bool {
    &&& w.types == v.types
    &&& w.refs == v.refs
    &&& w.brands == v.brands
    &&& w.models == v.models
    &&& v.years.len() <= w.years.len()
    &&& forall|k: int| 0 <= k < v.years.len() ==> #[trigger] w.years[k] == v.years[k]
}

// ---- reference stage ----

proof fn lemma_refs_after(v: CatalogV, l: Seq<ReferencesResponse>)
    ensures
        extends_refs(v, v.refs_after(l)),
        forall|i: int| 0 <= i < l.len() ==> v.refs_after(l).has_ref_code(decimal(#[trigger] l[i].codigo as int)),
        forall|f: Seq<char>| v.has_ref_code(f) ==> #[trigger] v.refs_after(l).has_ref_code(f),
    decreases l.len(),
{
    if l.len() > 0 {
        let q = l.drop_last();
        lemma_refs_after(v, q);
        let p = v.refs_after(q);
        let w = v.refs_after(l);
        let e = l.last();
        let code = decimal(e.codigo as int);
        assert forall|f: Seq<char>| p.has_ref_code(f) implies #[trigger] w.has_ref_code(f) by {
            let j = choose|j: int| 0 <= j < p.refs.len() && #[trigger] p.refs[j].fipe == f;
            assert(w.refs[j] == p.refs[j]);
        }
        assert forall|i: int| 0 <= i < l.len() implies w.has_ref_code(decimal(#[trigger] l[i].codigo as int)) by {
            if i < l.len() - 1 {
                assert(q[i] == l[i]);
                assert(p.has_ref_code(decimal(l[i].codigo as int)));
            } else if !p.has_ref_code(code) {
                assert(w.refs[p.refs.len() as int].fipe == code);
            }
        }
    }
}

proof fn lemma_refs_after_noop(v: CatalogV, l: Seq<ReferencesResponse>)
    requires
        forall|i: int| 0 <= i < l.len() ==> v.has_ref_code(decimal(#[trigger] l[i].codigo as int)),
    ensures
        v.refs_after(l) == v,
    decreases l.len(),
{
    if l.len() > 0 {
        let q = l.drop_last();
        assert forall|i: int| 0 <= i < q.len() implies v.has_ref_code(decimal(#[trigger] q[i].codigo as int)) by {
            assert(q[i] == l[i]);
        }
        lemma_refs_after_noop(v, q);
        assert(v.has_ref_code(decimal(l[l.len() - 1].codigo as int)));
    }
}

/// Taking in the same reference listing a second time adds no period.
pub proof fn lemma_references_idempotent(v: CatalogV, l: Seq<ReferencesResponse>)
    ensures
        v.refs_after(l).refs_after(l) == v.refs_after(l),
{
    lemma_refs_after(v, l);
    lemma_refs_after_noop(v.refs_after(l), l);
}

// ---- brand stage ----

proof fn lemma_brands_after(v: CatalogV, t: i32, r: i32, l: Seq<FipeStruct>)
    ensures
        extends_brands(v, v.brands_after(t, r, l)),
        forall|i: int| 0 <= i < l.len() ==> v.brands_after(t, r, l).has_brand_key(#[trigger] l[i].value@, t, r),
        forall|k: int|
            v.brands.len() <= k < v.brands_after(t, r, l).brands.len() ==> #[trigger] v.brands_after(t, r, l).brands[k].ref_id
                == r,
    decreases l.len(),
{
    if l.len() > 0 {
        let q = l.drop_last();
        lemma_brands_after(v, t, r, q);
        let p = v.brands_after(t, r, q);
        let w = v.brands_after(t, r, l);
        let e = l.last();
        assert forall|i: int| 0 <= i < l.len() implies w.has_brand_key(#[trigger] l[i].value@, t, r) by {
            if i < l.len() - 1 {
                assert(q[i] == l[i]);
                assert(p.has_brand_key(l[i].value@, t, r));
                let j = choose|j: int|
                    0 <= j < p.brands.len() && #[trigger] p.brands[j].fipe == l[i].value@ && p.brands[j].type_id == t
                        && p.brands[j].ref_id == r;
                assert(w.brands[j] == p.brands[j]);
            } else if !p.has_brand_key(e.value@, t, r) {
                assert(w.brands[p.brands.len() as int].fipe == e.value@);
            }
        }
    }
}

proof fn lemma_brands_after_noop(v: CatalogV, t: i32, r: i32, l: Seq<FipeStruct>)
    requires
        forall|i: int| 0 <= i < l.len() ==> v.has_brand_key(#[trigger] l[i].value@, t, r),
    ensures
        v.brands_after(t, r, l) == v,
    decreases l.len(),
{
    if l.len() > 0 {
        let q = l.drop_last();
        assert forall|i: int| 0 <= i < q.len() implies v.has_brand_key(#[trigger] q[i].value@, t, r) by {
            assert(q[i] == l[i]);
        }
        lemma_brands_after_noop(v, t, r, q);
        assert(v.has_brand_key(l[l.len() - 1].value@, t, r));
    }
}

/// Taking in the same brand listing of a (type, period) pair a second time
/// adds no brand.
pub proof fn lemma_brands_idempotent(v: CatalogV, t: i32, r: i32, l: Seq<FipeStruct>)
    ensures
        v.brands_after(t, r, l).brands_after(t, r, l) == v.brands_after(t, r, l),
{
    lemma_brands_after(v, t, r, l);
    lemma_brands_after_noop(v.brands_after(t, r, l), t, r, l);
}

/// The brand stage never puts a period back into its frontier, and a period
/// whose listing for some type was not empty leaves it.
pub proof fn lemma_brand_frontier_shrinks(v: CatalogV, t: i32, r: i32, l: Seq<FipeStruct>)
    ensures
        forall|x: int| v.ref_used(x) ==> #[trigger] v.brands_after(t, r, l).ref_used(x),
        l.len() > 0 ==> v.brands_after(t, r, l).ref_used(r as int),
        pending_refs(v.brands_after(t, r, l)).len() <= pending_refs(v).len(),
{
    lemma_brands_after(v, t, r, l);
    let w = v.brands_after(t, r, l);
    assert forall|x: int| v.ref_used(x) implies #[trigger] w.ref_used(x) by {
        let j = choose|j: int| 0 <= j < v.brands.len() && #[trigger] v.brands[j].ref_id == x;
        assert(w.brands[j] == v.brands[j]);
    }
    if l.len() > 0 {
        assert(w.has_brand_key(l[0].value@, t, r));
        let j = choose|j: int|
            0 <= j < w.brands.len() && #[trigger] w.brands[j].fipe == l[0].value@ && w.brands[j].type_id == t
                && w.brands[j].ref_id == r;
        assert(w.brands[j].ref_id == r);
    }
    lemma_pending_refs_count(v, w, v.refs.len() as int);
}

proof fn lemma_pending_refs_count(v: CatalogV, w: CatalogV, n: int)
    requires
        w.refs.len() == v.refs.len(),
        0 <= n <= v.refs.len(),
        forall|x: int| v.ref_used(x) ==> #[trigger] w.ref_used(x),
    ensures
        pending_refs_upto(w, n).len() <= pending_refs_upto(v, n).len(),
    decreases n,
{
    if n > 0 {
        lemma_pending_refs_count(v, w, n - 1);
    }
}

// ---- model stage ----

proof fn lemma_models_after(v: CatalogV, b: i32, l: Seq<FipeModels>)
    ensures
        extends_models(v, v.models_after(b, l)),
        forall|i: int|
            0 <= i < l.len() ==> v.models_after(b, l).has_model_key(decimal(#[trigger] l[i].value as int), b),
    decreases l.len(),
{
    if l.len() > 0 {
        let q = l.drop_last();
        lemma_models_after(v, b, q);
        let p = v.models_after(b, q);
        let w = v.models_after(b, l);
        let e = l.last();
        let code = decimal(e.value as int);
        assert forall|i: int| 0 <= i < l.len() implies w.has_model_key(decimal(#[trigger] l[i].value as int), b) by {
            if i < l.len() - 1 {
                assert(q[i] == l[i]);
                assert(p.has_model_key(decimal(l[i].value as int), b));
                let j = choose|j: int|
                    0 <= j < p.models.len() && #[trigger] p.models[j].fipe == decimal(l[i].value as int)
                        && p.models[j].brand_id == b;
                assert(w.models[j] == p.models[j]);
            } else if !p.has_model_key(code, b) {
                assert(w.models[p.models.len() as int].fipe == code);
            }
        }
    }
}

proof fn lemma_models_after_noop(v: CatalogV, b: i32, l: Seq<FipeModels>)
    requires
        forall|i: int| 0 <= i < l.len() ==> v.has_model_key(decimal(#[trigger] l[i].value as int), b),
    ensures
        v.models_after(b, l) == v,
    decreases l.len(),
{
    if l.len() > 0 {
        let q = l.drop_last();
        assert forall|i: int| 0 <= i < q.len() implies v.has_model_key(decimal(#[trigger] q[i].value as int), b) by {
            assert(q[i] == l[i]);
        }
        lemma_models_after_noop(v, b, q);
        assert(v.has_model_key(decimal(l[l.len() - 1].value as int), b));
    }
}

/// Taking in the same model listing of a brand a second time adds no model.
pub proof fn lemma_models_idempotent(v: CatalogV, b: i32, l: Seq<FipeModels>)
    ensures
        v.models_after(b, l).models_after(b, l) == v.models_after(b, l),
{
    lemma_models_after(v, b, l);
    lemma_models_after_noop(v.models_after(b, l), b, l);
}

/// The model stage never puts a brand back into its frontier, and a brand
/// whose listing was not empty leaves it.
pub proof fn lemma_model_frontier_shrinks(v: CatalogV, b: i32, l: Seq<FipeModels>)
    ensures
        forall|x: int| v.brand_used(x) ==> #[trigger] v.models_after(b, l).brand_used(x),
        l.len() > 0 ==> v.models_after(b, l).brand_used(b as int),
        pending_brands(v.models_after(b, l)).len() <= pending_brands(v).len(),
{
    lemma_models_after(v, b, l);
    let w = v.models_after(b, l);
    assert forall|x: int| v.brand_used(x) implies #[trigger] w.brand_used(x) by {
        let j = choose|j: int| 0 <= j < v.models.len() && #[trigger] v.models[j].brand_id == x;
        assert(w.models[j] == v.models[j]);
    }
    if l.len() > 0 {
        assert(w.has_model_key(decimal(l[0].value as int), b));
        let j = choose|j: int|
            0 <= j < w.models.len() && #[trigger] w.models[j].fipe == decimal(l[0].value as int)
                && w.models[j].brand_id == b;
        assert(w.models[j].brand_id == b);
    }
    lemma_pending_brands_count(v, w, v.brands.len() as int);
}

proof fn lemma_pending_brands_count(v: CatalogV, w: CatalogV, n: int)
    requires
        w.brands.len() == v.brands.len(),
        0 <= n <= v.brands.len(),
        forall|x: int| v.brand_used(x) ==> #[trigger] w.brand_used(x),
    ensures
        pending_brands_upto(w, n).len() <= pending_brands_upto(v, n).len(),
    decreases n,
{
    if n > 0 {
        lemma_pending_brands_count(v, w, n - 1);
    }
}

// ---- year stage ----

proof fn lemma_extends_years_keys(v: CatalogV, w: CatalogV)
    requires
        extends_years(v, w),
    ensures
        forall|f: Seq<char>, m: i32| v.has_year_key(f, m) ==> #[trigger] w.has_year_key(f, m),
        forall|x: int| v.model_used(x) ==> #[trigger] w.model_used(x),
{
    assert forall|f: Seq<char>, m: i32| v.has_year_key(f, m) implies #[trigger] w.has_year_key(f, m) by {
        let j = choose|j: int| 0 <= j < v.years.len() && #[trigger] v.years[j].fipe == f && v.years[j].model_id == m;
        assert(w.years[j] == v.years[j]);
    }
    assert forall|x: int| v.model_used(x) implies #[trigger] w.model_used(x) by {
        let j = choose|j: int| 0 <= j < v.years.len() && #[trigger] v.years[j].model_id == x;
        assert(w.years[j] == v.years[j]);
    }
}

proof fn lemma_year_entry_after(v: CatalogV, reps: Seq<i32>, e: FipeStruct, cy: int)
    ensures
        extends_years(v, v.year_entry_after(reps, e, cy)),
        forall|k: int| 0 <= k < reps.len() ==> v.year_entry_after(reps, e, cy).has_year_key(e.value@, #[trigger] reps[k]),
    decreases reps.len(),
{
    if reps.len() > 0 {
        let q = reps.drop_last();
        lemma_year_entry_after(v, q, e, cy);
        let p = v.year_entry_after(q, e, cy);
        let w = v.year_entry_after(reps, e, cy);
        lemma_extends_years_keys(p, w);
        assert forall|k: int| 0 <= k < reps.len() implies w.has_year_key(e.value@, #[trigger] reps[k]) by {
            if k < reps.len() - 1 {
                assert(q[k] == reps[k]);
                assert(p.has_year_key(e.value@, reps[k]));
            } else if !p.has_year_key(e.value@, reps.last()) {
                assert(w.years[p.years.len() as int].fipe == e.value@);
                assert(w.years[p.years.len() as int].model_id == reps[k]);
            }
        }
    }
}

proof fn lemma_years_after(v: CatalogV, reps: Seq<i32>, l: Seq<FipeStruct>, cy: int)
    ensures
        extends_years(v, v.years_after(reps, l, cy)),
        forall|i: int, k: int|
            0 <= i < l.len() && 0 <= k < reps.len() ==> v.years_after(reps, l, cy).has_year_key(
                #[trigger] l[i].value@,
                #[trigger] reps[k],
            ),
    decreases l.len(),
{
    if l.len() > 0 {
        let q = l.drop_last();
        lemma_years_after(v, reps, q, cy);
        let p = v.years_after(reps, q, cy);
        let w = v.years_after(reps, l, cy);
        lemma_year_entry_after(p, reps, l.last(), cy);
        lemma_extends_years_keys(p, w);
        assert forall|i: int, k: int| 0 <= i < l.len() && 0 <= k < reps.len() implies w.has_year_key(
            #[trigger] l[i].value@, #[trigger] reps[k]) by {
            if i < l.len() - 1 {
                assert(q[i] == l[i]);
                assert(p.has_year_key(q[i].value@, reps[k]));
            }
        }
    }
}

proof fn lemma_years_after_no_reps(v: CatalogV, l: Seq<FipeStruct>, cy: int)
    ensures
        v.years_after(Seq::empty(), l, cy) == v,
    decreases l.len(),
{
    if l.len() > 0 {
        lemma_years_after_no_reps(v, l.drop_last(), cy);
    }
}

/// After a non-empty year listing was fanned out for an identity, no model
/// row of that identity lacks year variants, and no other model row gained
/// or lost that state.
proof fn lemma_year_unit_clears(v: CatalogV, fipe: Seq<char>, t: i32, l: Seq<FipeStruct>, cy: int)
    requires
        v.models.len() <= MAX_ROWS,
    ensures
        extends_years(v, v.years_after(v.replica_ids(fipe, t), l, cy)),
        forall|x: int| v.model_used(x) ==> #[trigger] v.years_after(v.replica_ids(fipe, t), l, cy).model_used(x),
        l.len() > 0 ==> forall|i: int| !#[trigger] v.years_after(v.replica_ids(fipe, t), l, cy).is_replica(i, fipe, t),
{
    let reps = v.replica_ids(fipe, t);
    let w = v.years_after(reps, l, cy);
    lemma_years_after(v, reps, l, cy);
    lemma_extends_years_keys(v, w);
    lemma_replicas_upto(v, fipe, t, v.models.len() as int);
    if l.len() > 0 {
        assert forall|i: int| !#[trigger] w.is_replica(i, fipe, t) by {
            if w.is_replica(i, fipe, t) {
                assert(v.is_replica(i, fipe, t));
                let k = choose|k: int| 0 <= k < reps.len() && reps[k] == i + 1;
                assert(w.has_year_key(l[0].value@, reps[k]));
                let j = choose|j: int| 0 <= j < w.years.len() && #[trigger] w.years[j].fipe == l[0].value@
                    && w.years[j].model_id == reps[k];
                assert(w.model_used(i + 1));
            }
        }
    }
}

/// Fanning the same year listing out a second time for the same identity adds
/// no year variant.
pub proof fn lemma_years_idempotent(v: CatalogV, fipe: Seq<char>, t: i32, l: Seq<FipeStruct>, cy: int)
    requires
        v.wf(),
    ensures
        ({
            let w = v.years_after(v.replica_ids(fipe, t), l, cy);
            w.years_after(w.replica_ids(fipe, t), l, cy) == w
        }),
{
    let w = v.years_after(v.replica_ids(fipe, t), l, cy);
    lemma_year_unit_clears(v, fipe, t, l, cy);
    if l.len() == 0 {
        assert(w == v);
    } else {
        lemma_replicas_upto(w, fipe, t, w.models.len() as int);
        let rw = w.replica_ids(fipe, t);
        if rw.len() > 0 {
            assert(w.is_replica(rw[0] - 1, fipe, t));
        }
        assert(rw =~= Seq::<i32>::empty());
        lemma_years_after_no_reps(w, l, cy);
    }
}

/// The year stage never makes an identity pending again, and an identity
/// whose listing was not empty leaves the frontier.
pub proof fn lemma_year_frontier_shrinks(
    v: CatalogV,
    fipe: Seq<char>,
    t: i32,
    l: Seq<FipeStruct>,
    cy: int,
    f2: Seq<char>,
    t2: i32,
)
    requires
        v.wf(),
    ensures
        v.years_after(v.replica_ids(fipe, t), l, cy).identity_pending(f2, t2) ==> v.identity_pending(f2, t2),
        l.len() > 0 ==> !v.years_after(v.replica_ids(fipe, t), l, cy).identity_pending(fipe, t),
{
    let w = v.years_after(v.replica_ids(fipe, t), l, cy);
    lemma_year_unit_clears(v, fipe, t, l, cy);
    if w.identity_pending(f2, t2) {
        let i = choose|i: int| #[trigger] w.is_replica(i, f2, t2);
        assert(v.is_replica(i, f2, t2));
    }
}

// ---- dedup fan-out ----

proof fn lemma_identity_reps_upto(v: CatalogV, n: int)
    requires
        0 <= n <= v.models.len(),
    ensures
        forall|k: int|
            0 <= k < identity_reps_upto(v, n).len() ==> 0 <= #[trigger] identity_reps_upto(v, n)[k] < n
                && is_first_replica(v, identity_reps_upto(v, n)[k]),
        forall|a: int, b: int|
            0 <= a < b < identity_reps_upto(v, n).len() ==> identity_reps_upto(v, n)[a] < identity_reps_upto(v, n)[b],
        forall|j: int|
            0 <= j < n && #[trigger] v.is_replica(j, v.models[j].fipe, v.model_type(j)) ==> exists|k: int|
                0 <= k < identity_reps_upto(v, n).len() && same_identity(v, #[trigger] identity_reps_upto(v, n)[k], j),
    decreases n,
{
    if n > 0 {
        lemma_identity_reps_upto(v, n - 1);
        let p = identity_reps_upto(v, n - 1);
        let q = identity_reps_upto(v, n);
        assert forall|j: int|
            0 <= j < n && #[trigger] v.is_replica(j, v.models[j].fipe, v.model_type(j)) implies exists|k: int|
                0 <= k < q.len() && same_identity(v, #[trigger] q[k], j) by {
            if j < n - 1 {
                let k = choose|k: int| 0 <= k < p.len() && same_identity(v, #[trigger] p[k], j);
                assert(q[k] == p[k]);
            } else if is_first_replica(v, j) {
                assert(q[p.len() as int] == j);
                assert(same_identity(v, q[p.len() as int], j));
            } else {
                let j2 = choose|j2: int| 0 <= j2 < j && #[trigger] v.is_replica(j2, v.models[j].fipe, v.model_type(j));
                assert(v.is_replica(j2, v.models[j2].fipe, v.model_type(j2)));
                let k = choose|k: int| 0 <= k < p.len() && same_identity(v, #[trigger] p[k], j2);
                assert(q[k] == p[k]);
                assert(same_identity(v, q[k], j));
            }
        }
    }
}

/// Two model rows of one identity (same code and vehicle type) under
/// different brand rows, neither with year variants yet: the year stage plans
/// exactly one fetch for them, and fanning its listing out writes every
/// variant to both rows.
pub proof fn lemma_dedup_fan_out(v: CatalogV, i: int, j: int, l: Seq<FipeStruct>, cy: int)
    requires
        v.wf(),
        0 <= i < v.models.len(),
        0 <= j < v.models.len(),
        v.models[i].fipe == v.models[j].fipe,
        v.model_type(i) == v.model_type(j),
        v.models[i].brand_id != v.models[j].brand_id,
        !v.model_used(i + 1),
        !v.model_used(j + 1),
    ensures
        exists|k: int|
            0 <= k < identity_reps(v).len() && same_identity(v, #[trigger] identity_reps(v)[k], i) && forall|k2: int|
                0 <= k2 < identity_reps(v).len() && same_identity(v, #[trigger] identity_reps(v)[k2], i) ==> k2 == k,
        forall|e: int|
            0 <= e < l.len() ==> {
                let w = v.years_after(v.replica_ids(v.models[i].fipe, v.model_type(i)), l, cy);
                &&& w.has_year_key(#[trigger] l[e].value@, (i + 1) as i32)
                &&& w.has_year_key(l[e].value@, (j + 1) as i32)
            },
{
    let f = v.models[i].fipe;
    let t = v.model_type(i);
    let reps = identity_reps(v);
    lemma_identity_reps_upto(v, v.models.len() as int);
    assert(v.is_replica(i, f, t));
    let k = choose|k: int| 0 <= k < reps.len() && same_identity(v, #[trigger] reps[k], i);
    assert forall|k2: int| 0 <= k2 < reps.len() && same_identity(v, #[trigger] reps[k2], i) implies k2 == k by {
        if k2 < k {
            assert(reps[k2] < reps[k]);
            assert(is_first_replica(v, reps[k]));
            assert(is_first_replica(v, reps[k2]));
            assert(v.is_replica(reps[k2], v.models[reps[k]].fipe, v.model_type(reps[k])));
        } else if k2 > k {
            assert(reps[k] < reps[k2]);
            assert(is_first_replica(v, reps[k]));
            assert(is_first_replica(v, reps[k2]));
            assert(v.is_replica(reps[k], v.models[reps[k2]].fipe, v.model_type(reps[k2])));
        }
    }
    let ids = v.replica_ids(f, t);
    lemma_replicas_upto(v, f, t, v.models.len() as int);
    lemma_years_after(v, ids, l, cy);
    assert(v.is_replica(j, f, t));
    let ki = choose|ki: int| 0 <= ki < ids.len() && ids[ki] == i + 1;
    let kj = choose|kj: int| 0 <= kj < ids.len() && ids[kj] == j + 1;
    assert forall|e: int| 0 <= e < l.len() implies {
        let w = v.years_after(ids, l, cy);
        &&& w.has_year_key(#[trigger] l[e].value@, (i + 1) as i32)
        &&& w.has_year_key(l[e].value@, (j + 1) as i32)
    } by {
        assert(v.years_after(ids, l, cy).has_year_key(l[e].value@, ids[ki]));
        assert(v.years_after(ids, l, cy).has_year_key(l[e].value@, ids[kj]));
    }
}

// ---- uniqueness ----

/// No two rows of the store share their scoped key: a period's code; a
/// brand's (code, type, period); a model's (code, brand); a year variant's
/// (code, model). Every operation that writes keeps it so.
pub proof fn lemma_keys_unique(c: &Catalog)
    requires
        c.wf(),
    ensures
        forall|i: int, j: int| 0 <= i < j < c@.refs.len() ==> #[trigger] c@.refs[i].fipe != #[trigger] c@.refs[j].fipe,
        forall|i: int, j: int|
            0 <= i < j < c@.brands.len() ==> !same_brand_key(#[trigger] c@.brands[i], #[trigger] c@.brands[j]),
        forall|i: int, j: int|
            0 <= i < j < c@.models.len() ==> !same_model_key(#[trigger] c@.models[i], #[trigger] c@.models[j]),
        forall|i: int, j: int|
            0 <= i < j < c@.years.len() ==> !same_year_key(#[trigger] c@.years[i], #[trigger] c@.years[j]),
{
    c.lemma_wf();
}

// ---- whole model stage ----

/// The model stage run over the brands at indices `plan`, the API answering
/// `api(i)` for the brand at index `i` (an undecodable answer counts as empty).
pub open spec fn model_stage_over(v: CatalogV, plan: Seq<int>, api: spec_fn(int) -> Seq<FipeModels>) -> CatalogV
    decreases plan.len(),
{
    if plan.len() == 0 {
        v
    } else {
        model_stage_over(v, plan.drop_last(), api).models_after((plan.last() + 1) as i32, api(plan.last()))
    }
}

/// One full run of the model stage: every brand without models is asked once.
pub open spec fn model_stage(v: CatalogV, api: spec_fn(int) -> Seq<FipeModels>) -> CatalogV {
    model_stage_over(v, pending_brands(v), api)
}

proof fn lemma_extends_models_used(v: CatalogV, w: CatalogV)
    requires
        extends_models(v, w),
    ensures
        forall|x: int| v.brand_used(x) ==> #[trigger] w.brand_used(x),
{
    assert forall|x: int| v.brand_used(x) implies #[trigger] w.brand_used(x) by {
        let j = choose|j: int| 0 <= j < v.models.len() && #[trigger] v.models[j].brand_id == x;
        assert(w.models[j] == v.models[j]);
    }
}

proof fn lemma_model_stage_over(v: CatalogV, plan: Seq<int>, api: spec_fn(int) -> Seq<FipeModels>)
    requires
        forall|k: int| 0 <= k < plan.len() ==> 0 <= #[trigger] plan[k] < MAX_ROWS,
    ensures
        extends_models(v, model_stage_over(v, plan, api)),
        forall|k: int|
            0 <= k < plan.len() && api(#[trigger] plan[k]).len() > 0 ==> model_stage_over(v, plan, api).brand_used(
                plan[k] + 1,
            ),
    decreases plan.len(),
{
    if plan.len() > 0 {
        let q = plan.drop_last();
        assert forall|k: int| 0 <= k < q.len() implies 0 <= #[trigger] q[k] < MAX_ROWS by {
            assert(q[k] == plan[k]);
        }
        lemma_model_stage_over(v, q, api);
        let p = model_stage_over(v, q, api);
        let w = model_stage_over(v, plan, api);
        let b = plan.last();
        lemma_models_after(p, (b + 1) as i32, api(b));
        lemma_model_frontier_shrinks(p, (b + 1) as i32, api(b));
        lemma_extends_models_used(p, w);
        assert forall|k: int| 0 <= k < plan.len() && api(#[trigger] plan[k]).len() > 0 implies w.brand_used(
            plan[k] + 1) by {
            if k < plan.len() - 1 {
                assert(q[k] == plan[k]);
            }
        }
    }
}

proof fn lemma_model_stage_noop(v: CatalogV, plan: Seq<int>, api: spec_fn(int) -> Seq<FipeModels>)
    requires
        forall|k: int| 0 <= k < plan.len() ==> api(#[trigger] plan[k]).len() == 0,
    ensures
        model_stage_over(v, plan, api) == v,
    decreases plan.len(),
{
    if plan.len() > 0 {
        let q = plan.drop_last();
        assert forall|k: int| 0 <= k < q.len() implies api(#[trigger] q[k]).len() == 0 by {
            assert(q[k] == plan[k]);
        }
        lemma_model_stage_noop(v, q, api);
        assert(api(plan.last()).len() == 0);
    }
}

/// After a full run of the model stage, a brand still waits for models only
/// if it waited before and the API gave it an empty answer; when every answer
/// is non-empty, the frontier is empty.
pub proof fn lemma_model_stage_frontier(v: CatalogV, api: spec_fn(int) -> Seq<FipeModels>)
    requires
        v.wf(),
    ensures
        forall|k: int|
            0 <= k < pending_brands(model_stage(v, api)).len() ==> !v.brand_used(
                #[trigger] pending_brands(model_stage(v, api))[k] + 1,
            ) && api(pending_brands(model_stage(v, api))[k]).len() == 0,
        pending_brands(model_stage(v, api)).len() <= pending_brands(v).len(),
        (forall|i: int| 0 <= i < v.brands.len() ==> #[trigger] api(i).len() > 0) ==> pending_brands(model_stage(v, api)).len()
            == 0,
{
    let plan = pending_brands(v);
    let w = model_stage(v, api);
    lemma_pending_brands_upto(v, v.brands.len() as int);
    lemma_model_stage_over(v, plan, api);
    lemma_extends_models_used(v, w);
    lemma_pending_brands_upto(w, w.brands.len() as int);
    let pw = pending_brands(w);
    assert forall|k: int| 0 <= k < pw.len() implies !v.brand_used(#[trigger] pw[k] + 1) && api(pw[k]).len() == 0 by {
        let b = pw[k];
        assert(!w.brand_used(b + 1));
        assert(!v.brand_used(b + 1));
        let k2 = choose|k2: int| 0 <= k2 < plan.len() && #[trigger] plan[k2] == b;
        if api(b).len() > 0 {
            assert(w.brand_used(plan[k2] + 1));
        }
    }
    lemma_pending_brands_count(v, w, v.brands.len() as int);
    if forall|i: int| 0 <= i < v.brands.len() ==> #[trigger] api(i).len() > 0 {
        if pw.len() > 0 {
            assert(api(pw[0]).len() == 0);
        }
    }
}

/// Running the whole model stage a second time, with the API answering as
/// before, adds no model.
pub proof fn lemma_model_stage_idempotent(v: CatalogV, api: spec_fn(int) -> Seq<FipeModels>)
    requires
        v.wf(),
    ensures
        model_stage(model_stage(v, api), api) == model_stage(v, api),
{
    let w = model_stage(v, api);
    lemma_model_stage_frontier(v, api);
    lemma_model_stage_noop(w, pending_brands(w), api);
}

// ---- whole year stage ----

/// The year stage run over the representatives at indices `plan`, the API
/// answering `api(code, type)` for each identity.
pub open spec fn year_stage_over(
    v: CatalogV,
    plan: Seq<int>,
    api: spec_fn(Seq<char>, i32) -> Seq<FipeStruct>,
    cy: int,
) -> CatalogV
    decreases plan.len(),
{
    if plan.len() == 0 {
        v
    } else {
        let p = year_stage_over(v, plan.drop_last(), api, cy);
        let i = plan.last();
        let f = p.models[i].fipe;
        let t = p.model_type(i);
        p.years_after(p.replica_ids(f, t), api(f, t), cy)
    }
}

/// One full run of the year stage: every pending identity is asked once.
pub open spec fn year_stage(v: CatalogV, api: spec_fn(Seq<char>, i32) -> Seq<FipeStruct>, cy: int) -> CatalogV {
    year_stage_over(v, identity_reps(v), api, cy)
}

proof fn lemma_extends_years_pending(v: CatalogV, w: CatalogV)
    requires
        extends_years(v, w),
    ensures
        forall|f: Seq<char>, t: i32| #[trigger] w.identity_pending(f, t) ==> v.identity_pending(f, t),
        forall|i: int, f: Seq<char>, t: i32| #[trigger] w.is_replica(i, f, t) ==> v.is_replica(i, f, t),
{
    lemma_extends_years_keys(v, w);
    assert forall|f: Seq<char>, t: i32| #[trigger] w.identity_pending(f, t) implies v.identity_pending(f, t) by {
        let i = choose|i: int| #[trigger] w.is_replica(i, f, t);
        assert(v.is_replica(i, f, t));
    }
}

proof fn lemma_year_stage_over(
    v: CatalogV,
    plan: Seq<int>,
    api: spec_fn(Seq<char>, i32) -> Seq<FipeStruct>,
    cy: int,
)
    requires
        v.models.len() <= MAX_ROWS,
    ensures
        extends_years(v, year_stage_over(v, plan, api, cy)),
        forall|k: int|
            0 <= k < plan.len() && api(v.models[#[trigger] plan[k]].fipe, v.model_type(plan[k])).len() > 0
                ==> !year_stage_over(v, plan, api, cy).identity_pending(v.models[plan[k]].fipe, v.model_type(plan[k])),
    decreases plan.len(),
{
    if plan.len() > 0 {
        let q = plan.drop_last();
        lemma_year_stage_over(v, q, api, cy);
        let p = year_stage_over(v, q, api, cy);
        let i = plan.last();
        let f = p.models[i].fipe;
        let t = p.model_type(i);
        let w = year_stage_over(v, plan, api, cy);
        lemma_year_unit_clears(p, f, t, api(f, t), cy);
        lemma_extends_years_pending(p, w);
        assert forall|k: int| 0 <= k < v.years.len() implies #[trigger] w.years[k] == v.years[k] by {
            assert(p.years[k] == v.years[k]);
        }
        assert forall|k: int|
            0 <= k < plan.len() && api(v.models[#[trigger] plan[k]].fipe, v.model_type(plan[k])).len() > 0
                implies !w.identity_pending(v.models[plan[k]].fipe, v.model_type(plan[k])) by {
            if k < plan.len() - 1 {
                assert(q[k] == plan[k]);
            } else {
                if w.identity_pending(f, t) {
                    let j = choose|j: int| #[trigger] w.is_replica(j, f, t);
                }
            }
        }
    }
}

proof fn lemma_year_stage_noop(
    v: CatalogV,
    plan: Seq<int>,
    api: spec_fn(Seq<char>, i32) -> Seq<FipeStruct>,
    cy: int,
)
    requires
        forall|k: int| 0 <= k < plan.len() ==> api(v.models[#[trigger] plan[k]].fipe, v.model_type(plan[k])).len() == 0,
    ensures
        year_stage_over(v, plan, api, cy) == v,
    decreases plan.len(),
{
    if plan.len() > 0 {
        let q = plan.drop_last();
        assert forall|k: int| 0 <= k < q.len() implies api(v.models[#[trigger] q[k]].fipe, v.model_type(q[k])).len()
            == 0 by {
            assert(q[k] == plan[k]);
        }
        lemma_year_stage_noop(v, q, api, cy);
        let i = plan.last();
        assert(api(v.models[i].fipe, v.model_type(i)).len() == 0);
        assert(api(v.models[i].fipe, v.model_type(i)) =~= Seq::<FipeStruct>::empty());
    }
}

/// After a full run of the year stage, an identity is still pending only if
/// it was pending before and the API gave it an empty answer; when every
/// answer is non-empty, no identity is pending.
pub proof fn lemma_year_stage_frontier(v: CatalogV, api: spec_fn(Seq<char>, i32) -> Seq<FipeStruct>, cy: int)
    requires
        v.wf(),
    ensures
        forall|f: Seq<char>, t: i32|
            #[trigger] year_stage(v, api, cy).identity_pending(f, t) ==> v.identity_pending(f, t) && api(f, t).len()
                == 0,
        (forall|f: Seq<char>, t: i32| #[trigger] api(f, t).len() > 0) ==> identity_reps(year_stage(v, api, cy)).len()
            == 0,
{
    let plan = identity_reps(v);
    let w = year_stage(v, api, cy);
    lemma_year_stage_over(v, plan, api, cy);
    lemma_extends_years_pending(v, w);
    lemma_identity_reps_upto(v, v.models.len() as int);
    assert forall|f: Seq<char>, t: i32| #[trigger] w.identity_pending(f, t) implies v.identity_pending(f, t) && api(
        f, t).len() == 0 by {
        let i = choose|i: int| #[trigger] w.is_replica(i, f, t);
        assert(v.is_replica(i, f, t));
        assert(v.is_replica(i, v.models[i].fipe, v.model_type(i)));
        let k = choose|k: int| 0 <= k < plan.len() && same_identity(v, #[trigger] plan[k], i);
        if api(f, t).len() > 0 {
            assert(api(v.models[plan[k]].fipe, v.model_type(plan[k])).len() > 0);
        }
    }
    lemma_identity_reps_upto(w, w.models.len() as int);
    if forall|f: Seq<char>, t: i32| #[trigger] api(f, t).len() > 0 {
        let rw = identity_reps(w);
        if rw.len() > 0 {
            let i = rw[0];
            assert(is_first_replica(w, i));
            assert(w.identity_pending(w.models[i].fipe, w.model_type(i)));
        }
    }
}

/// Running the whole year stage a second time, with the API answering as
/// before, adds no year variant.
pub proof fn lemma_year_stage_idempotent(v: CatalogV, api: spec_fn(Seq<char>, i32) -> Seq<FipeStruct>, cy: int)
    requires
        v.wf(),
    ensures
        year_stage(year_stage(v, api, cy), api, cy) == year_stage(v, api, cy),
{
    let w = year_stage(v, api, cy);
    let plan = identity_reps(v);
    lemma_year_stage_over(v, plan, api, cy);
    lemma_year_stage_frontier(v, api, cy);
    let rw = identity_reps(w);
    lemma_identity_reps_upto(w, w.models.len() as int);
    assert forall|k: int| 0 <= k < rw.len() implies api(w.models[#[trigger] rw[k]].fipe, w.model_type(rw[k])).len()
        == 0 by {
        let i = rw[k];
        assert(is_first_replica(w, i));
        assert(w.identity_pending(w.models[i].fipe, w.model_type(i)));
    }
    lemma_year_stage_noop(w, rw, api, cy);
}

// ---- whole brand stage ----

/// The brand stage run over the requests `plan`, the API answering `api(task)`.
pub open spec fn brand_stage_over(v: CatalogV, plan: Seq<BrandTask>, api: spec_fn(BrandTask) -> Seq<FipeStruct>) -> CatalogV
    decreases plan.len(),
{
    if plan.len() == 0 {
        v
    } else {
        let task = plan.last();
        brand_stage_over(v, plan.drop_last(), api).brands_after(task.type_id, task.ref_id, api(task))
    }
}

/// One full run of the brand stage: every type is asked once for every
/// period without brands.
pub open spec fn brand_stage(v: CatalogV, api: spec_fn(BrandTask) -> Seq<FipeStruct>) -> CatalogV {
    brand_stage_over(v, brand_plan(v), api)
}

proof fn lemma_extends_brands_used(v: CatalogV, w: CatalogV)
    requires
        extends_brands(v, w),
    ensures
        forall|x: int| v.ref_used(x) ==> #[trigger] w.ref_used(x),
{
    assert forall|x: int| v.ref_used(x) implies #[trigger] w.ref_used(x) by {
        let j = choose|j: int| 0 <= j < v.brands.len() && #[trigger] v.brands[j].ref_id == x;
        assert(w.brands[j] == v.brands[j]);
    }
}

proof fn lemma_brand_stage_over(v: CatalogV, plan: Seq<BrandTask>, api: spec_fn(BrandTask) -> Seq<FipeStruct>)
    ensures
        extends_brands(v, brand_stage_over(v, plan, api)),
        forall|k: int|
            0 <= k < plan.len() && api(#[trigger] plan[k]).len() > 0 ==> brand_stage_over(v, plan, api).ref_used(
                plan[k].ref_id as int,
            ),
    decreases plan.len(),
{
    if plan.len() > 0 {
        let q = plan.drop_last();
        lemma_brand_stage_over(v, q, api);
        let p = brand_stage_over(v, q, api);
        let w = brand_stage_over(v, plan, api);
        let task = plan.last();
        lemma_brands_after(p, task.type_id, task.ref_id, api(task));
        lemma_brand_frontier_shrinks(p, task.type_id, task.ref_id, api(task));
        lemma_extends_brands_used(p, w);
        assert forall|k: int| 0 <= k < v.brands.len() implies #[trigger] w.brands[k] == v.brands[k] by {
            assert(p.brands[k] == v.brands[k]);
        }
        assert forall|k: int| 0 <= k < plan.len() && api(#[trigger] plan[k]).len() > 0 implies w.ref_used(
            plan[k].ref_id as int) by {
            if k < plan.len() - 1 {
                assert(q[k] == plan[k]);
            }
        }
    }
}

proof fn lemma_brand_stage_noop(v: CatalogV, plan: Seq<BrandTask>, api: spec_fn(BrandTask) -> Seq<FipeStruct>)
    requires
        forall|k: int| 0 <= k < plan.len() ==> api(#[trigger] plan[k]).len() == 0,
    ensures
        brand_stage_over(v, plan, api) == v,
    decreases plan.len(),
{
    if plan.len() > 0 {
        let q = plan.drop_last();
        assert forall|k: int| 0 <= k < q.len() implies api(#[trigger] q[k]).len() == 0 by {
            assert(q[k] == plan[k]);
        }
        lemma_brand_stage_noop(v, q, api);
        assert(api(plan.last()).len() == 0);
    }
}

proof fn lemma_type_tasks(t: int, idx: Seq<int>)
    ensures
        type_tasks(t, idx).len() == idx.len(),
        forall|k: int|
            0 <= k < idx.len() ==> #[trigger] type_tasks(t, idx)[k] == (BrandTask {
                type_id: t as i32,
                ref_id: (idx[k] + 1) as i32,
            }),
    decreases idx.len(),
{
    if idx.len() > 0 {
        lemma_type_tasks(t, idx.drop_last());
        assert forall|k: int| 0 <= k < idx.len() implies #[trigger] type_tasks(t, idx)[k] == (BrandTask {
            type_id: t as i32,
            ref_id: (idx[k] + 1) as i32,
        }) by {
            if k < idx.len() - 1 {
                assert(idx.drop_last()[k] == idx[k]);
            }
        }
    }
}

/// Each request of the brand plan pairs a type in `1..=n` with a period that
/// has no brand.
proof fn lemma_brand_plan_upto(v: CatalogV, n: int)
    requires
        0 <= n <= MAX_ROWS,
        v.refs.len() <= MAX_ROWS,
    ensures
        forall|k: int|
            0 <= k < brand_plan_upto(v, n).len() ==> 1 <= #[trigger] brand_plan_upto(v, n)[k].type_id <= n
                && 1 <= brand_plan_upto(v, n)[k].ref_id <= v.refs.len() && !v.ref_used(
                brand_plan_upto(v, n)[k].ref_id as int,
            ),
    decreases n,
{
    let pr = pending_refs(v);
    lemma_pending_refs_upto(v, v.refs.len() as int);
    if n > 0 {
        lemma_brand_plan_upto(v, n - 1);
        lemma_type_tasks(n, pr);
        let p = brand_plan_upto(v, n - 1);
        let tt = type_tasks(n, pr);
        let q = brand_plan_upto(v, n);
        assert forall|k: int| 0 <= k < q.len() implies 1 <= #[trigger] q[k].type_id <= n && 1 <= q[k].ref_id
            <= v.refs.len() && !v.ref_used(q[k].ref_id as int) by {
            if k < p.len() {
                assert(q[k] == p[k]);
            } else {
                assert(q[k] == tt[k - p.len()]);
            }
        }
    }
}

/// Every type in `1..=n` is asked about every period that has no brand.
proof fn lemma_brand_plan_has(v: CatalogV, n: int, t: int, r: int)
    requires
        1 <= t <= n <= MAX_ROWS,
        1 <= r <= v.refs.len() <= MAX_ROWS,
        !v.ref_used(r),
    ensures
        exists|k: int|
            0 <= k < brand_plan_upto(v, n).len() && #[trigger] brand_plan_upto(v, n)[k] == (BrandTask {
                type_id: t as i32,
                ref_id: r as i32,
            }),
    decreases n,
{
    let pr = pending_refs(v);
    let p = brand_plan_upto(v, n - 1);
    let q = brand_plan_upto(v, n);
    if t < n {
        lemma_brand_plan_has(v, n - 1, t, r);
        let k = choose|k: int| 0 <= k < p.len() && #[trigger] p[k] == (BrandTask { type_id: t as i32, ref_id: r as i32 });
        assert(q[k] == p[k]);
    } else {
        lemma_pending_refs_upto(v, v.refs.len() as int);
        lemma_type_tasks(n, pr);
        assert(!v.ref_used((r - 1) + 1));
        let j = choose|j: int| 0 <= j < pr.len() && #[trigger] pr[j] == r - 1;
        assert(q == p + type_tasks(n, pr));
        assert(q[p.len() + j] == type_tasks(n, pr)[j]);
    }
}

/// After a full run of the brand stage, a (type, period) request comes up
/// again only if it was asked before and the API gave it an empty answer;
/// when every answer is non-empty, no period is left without brands.
pub proof fn lemma_brand_stage_frontier(v: CatalogV, api: spec_fn(BrandTask) -> Seq<FipeStruct>)
    requires
        v.wf(),
    ensures
        forall|k: int|
            0 <= k < brand_plan(brand_stage(v, api)).len() ==> api(#[trigger] brand_plan(brand_stage(v, api))[k]).len()
                == 0 && exists|k2: int| 0 <= k2 < brand_plan(v).len() && brand_plan(v)[k2] == brand_plan(brand_stage(v, api))[k],
        v.types.len() > 0 && (forall|task: BrandTask| #[trigger] api(task).len() > 0) ==> pending_refs(brand_stage(v, api)).len() == 0,
        pending_refs(brand_stage(v, api)).len() <= pending_refs(v).len(),
{
    let n = v.types.len() as int;
    let plan = brand_plan(v);
    let w = brand_stage(v, api);
    let pw = pending_refs(w);
    lemma_brand_stage_over(v, plan, api);
    lemma_extends_brands_used(v, w);
    lemma_pending_refs_upto(w, w.refs.len() as int);
    lemma_brand_plan_upto(w, n);
    let plan_w = brand_plan(w);
    assert forall|k: int| 0 <= k < plan_w.len() implies api(#[trigger] plan_w[k]).len() == 0 && exists|k2: int|
        0 <= k2 < plan.len() && plan[k2] == plan_w[k] by {
        let task = plan_w[k];
        assert(w.types == v.types);
        assert(plan_w == brand_plan_upto(w, n));
        assert(1 <= brand_plan_upto(w, n)[k].type_id <= n);
        assert(!w.ref_used(task.ref_id as int));
        assert(!v.ref_used(task.ref_id as int));
        lemma_brand_plan_has(v, n, task.type_id as int, task.ref_id as int);
        let k2 = choose|k2: int|
            0 <= k2 < plan.len() && #[trigger] plan[k2] == (BrandTask {
                type_id: task.type_id as int as i32,
                ref_id: task.ref_id as int as i32,
            });
        assert(plan[k2] == task);
        if api(task).len() > 0 {
            assert(w.ref_used(plan[k2].ref_id as int));
        }
    }
    lemma_pending_refs_count(v, w, v.refs.len() as int);
    if n > 0 && (forall|task: BrandTask| #[trigger] api(task).len() > 0) {
        if pw.len() > 0 {
            let i = pw[0];
            assert(!w.ref_used(i + 1));
            assert(!v.ref_used(i + 1));
            lemma_brand_plan_has(v, n, 1, i + 1);
            let k2 = choose|k2: int|
                0 <= k2 < plan.len() && #[trigger] plan[k2] == (BrandTask { type_id: 1int as i32, ref_id: (i + 1) as i32 });
            assert(api(plan[k2]).len() > 0);
            assert(w.ref_used(plan[k2].ref_id as int));
        }
    }
}

/// Running the whole brand stage a second time, with the API answering as
/// before, adds no brand.
pub proof fn lemma_brand_stage_idempotent(v: CatalogV, api: spec_fn(BrandTask) -> Seq<FipeStruct>)
    requires
        v.wf(),
    ensures
        brand_stage(brand_stage(v, api), api) == brand_stage(v, api),
{
    let w = brand_stage(v, api);
    lemma_brand_stage_frontier(v, api);
    lemma_brand_stage_noop(w, brand_plan(w), api);
}

/// Two model rows of one identity under different brand rows, neither with
/// year variants: after one full run of the year stage in which the API gave
/// that identity a non-empty answer, both rows have year variants.
pub proof fn lemma_dedup_fan_out_stage(
    v: CatalogV,
    i: int,
    j: int,
    api: spec_fn(Seq<char>, i32) -> Seq<FipeStruct>,
    cy: int,
)
    requires
        v.wf(),
        0 <= i < v.models.len(),
        0 <= j < v.models.len(),
        v.models[i].fipe == v.models[j].fipe,
        v.model_type(i) == v.model_type(j),
        v.models[i].brand_id != v.models[j].brand_id,
        !v.model_used(i + 1),
        !v.model_used(j + 1),
        api(v.models[i].fipe, v.model_type(i)).len() > 0,
    ensures
        year_stage(v, api, cy).model_used(i + 1),
        year_stage(v, api, cy).model_used(j + 1),
{
    let f = v.models[i].fipe;
    let t = v.model_type(i);
    let w = year_stage(v, api, cy);
    lemma_year_stage_frontier(v, api, cy);
    lemma_year_stage_over(v, identity_reps(v), api, cy);
    if !w.identity_pending(f, t) {
        if !w.model_used(i + 1) {
            assert(w.is_replica(i, f, t));
        }
        if !w.model_used(j + 1) {
            assert(w.is_replica(j, f, t));
        }
    }
}

// ---- calls ----

/// `w` and `a` are what `Catalog::store_references` leaves and returns on `v`.
pub open spec fn references_stored(v: CatalogV, w: CatalogV, l: Seq<ReferencesResponse>, a: Option<usize>) -> bool {
    &&& (a is None <==> v.refs.len() + l.len() > MAX_ROWS)
    &&& (a is None ==> w == v)
    &&& (a is Some ==> w == v.refs_after(l) && a->0 == w.refs.len() - v.refs.len())
}

/// `w` and `a` are what `Catalog::store_brands` leaves and returns on `v`.
pub open spec fn brands_stored(v: CatalogV, w: CatalogV, t: i32, r: i32, l: Seq<FipeStruct>, a: Option<usize>) -> bool {
    &&& (a is None <==> v.brands.len() + l.len() > MAX_ROWS)
    &&& (a is None ==> w == v)
    &&& (a is Some ==> w == v.brands_after(t, r, l) && a->0 == w.brands.len() - v.brands.len())
}

/// `w` and `a` are what `Catalog::store_models` leaves and returns on `v`.
pub open spec fn models_stored(v: CatalogV, w: CatalogV, b: i32, l: Seq<FipeModels>, a: Option<usize>) -> bool {
    &&& (a is None <==> v.models.len() + l.len() > MAX_ROWS)
    &&& (a is None ==> w == v)
    &&& (a is Some ==> w == v.models_after(b, l) && a->0 == w.models.len() - v.models.len())
}

/// `w` and `a` are what `Catalog::store_years` leaves and returns on `v`.
pub open spec fn years_stored(
    v: CatalogV,
    w: CatalogV,
    fipe: Seq<char>,
    t: i32,
    l: Seq<FipeStruct>,
    cy: int,
    a: Option<usize>,
) -> bool {
    &&& (a is None <==> v.years.len() + v.models.len() * l.len() > MAX_ROWS)
    &&& (a is None ==> w == v)
    &&& (a is Some ==> w == v.years_after(v.replica_ids(fipe, t), l, cy) && a->0 == w.years.len()
        - v.years.len())
}

/// Calling `store_references` twice with the same listing: the second call
/// adds no period.
pub proof fn lemma_store_references_twice(
    v1: CatalogV,
    v2: CatalogV,
    v3: CatalogV,
    l: Seq<ReferencesResponse>,
    a1: Option<usize>,
    a2: Option<usize>,
)
    requires
        references_stored(v1, v2, l, a1),
        references_stored(v2, v3, l, a2),
    ensures
        v3 == v2,
        a2 is Some ==> a2->0 == 0,
{
    if a1 is Some && a2 is Some {
        lemma_references_idempotent(v1, l);
    }
}

/// Calling `store_brands` twice with the same listing for the same (type,
/// period): the second call adds no brand.
pub proof fn lemma_store_brands_twice(
    v1: CatalogV,
    v2: CatalogV,
    v3: CatalogV,
    t: i32,
    r: i32,
    l: Seq<FipeStruct>,
    a1: Option<usize>,
    a2: Option<usize>,
)
    requires
        brands_stored(v1, v2, t, r, l, a1),
        brands_stored(v2, v3, t, r, l, a2),
    ensures
        v3 == v2,
        a2 is Some ==> a2->0 == 0,
{
    if a1 is Some && a2 is Some {
        lemma_brands_idempotent(v1, t, r, l);
    }
}

/// Calling `store_models` twice with the same listing for the same brand: the
/// second call adds no model.
pub proof fn lemma_store_models_twice(
    v1: CatalogV,
    v2: CatalogV,
    v3: CatalogV,
    b: i32,
    l: Seq<FipeModels>,
    a1: Option<usize>,
    a2: Option<usize>,
)
    requires
        models_stored(v1, v2, b, l, a1),
        models_stored(v2, v3, b, l, a2),
    ensures
        v3 == v2,
        a2 is Some ==> a2->0 == 0,
{
    if a1 is Some && a2 is Some {
        lemma_models_idempotent(v1, b, l);
    }
}

/// Calling `store_years` twice with the same listing for the same identity:
/// the second call adds no year variant.
pub proof fn lemma_store_years_twice(
    v1: CatalogV,
    v2: CatalogV,
    v3: CatalogV,
    fipe: Seq<char>,
    t: i32,
    l: Seq<FipeStruct>,
    cy: int,
    a1: Option<usize>,
    a2: Option<usize>,
)
    requires
        v1.wf(),
        years_stored(v1, v2, fipe, t, l, cy, a1),
        years_stored(v2, v3, fipe, t, l, cy, a2),
    ensures
        v3 == v2,
        a2 is Some ==> a2->0 == 0,
{
    if a1 is Some && a2 is Some {
        lemma_years_idempotent(v1, fipe, t, l, cy);
    }
}

/// A `store_brands` call never adds a period to the brand frontier, and one
/// that took in a non-empty listing removes its period from it.
pub proof fn lemma_store_brands_frontier(
    v: CatalogV,
    w: CatalogV,
    t: i32,
    r: i32,
    l: Seq<FipeStruct>,
    a: Option<usize>,
)
    requires
        brands_stored(v, w, t, r, l, a),
    ensures
        pending_refs(w).len() <= pending_refs(v).len(),
        forall|x: int| v.ref_used(x) ==> #[trigger] w.ref_used(x),
        a is Some && l.len() > 0 ==> w.ref_used(r as int),
{
    lemma_brand_frontier_shrinks(v, t, r, l);
}

/// A `store_models` call never adds a brand to the model frontier, and one
/// that took in a non-empty listing removes its brand from it.
pub proof fn lemma_store_models_frontier(v: CatalogV, w: CatalogV, b: i32, l: Seq<FipeModels>, a: Option<usize>)
    requires
        models_stored(v, w, b, l, a),
    ensures
        pending_brands(w).len() <= pending_brands(v).len(),
        forall|x: int| v.brand_used(x) ==> #[trigger] w.brand_used(x),
        a is Some && l.len() > 0 ==> w.brand_used(b as int),
{
    lemma_model_frontier_shrinks(v, b, l);
}

/// A `store_years` call never makes an identity pending nor raises their
/// number, and one that took in a non-empty listing clears its own identity.
pub proof fn lemma_store_years_frontier(
    v: CatalogV,
    w: CatalogV,
    fipe: Seq<char>,
    t: i32,
    l: Seq<FipeStruct>,
    cy: int,
    a: Option<usize>,
    f2: Seq<char>,
    t2: i32,
)
    requires
        v.wf(),
        years_stored(v, w, fipe, t, l, cy, a),
    ensures
        w.identity_pending(f2, t2) ==> v.identity_pending(f2, t2),
        a is Some && l.len() > 0 ==> !w.identity_pending(fipe, t),
        identity_reps(w).len() <= identity_reps(v).len(),
{
    lemma_year_frontier_shrinks(v, fipe, t, l, cy, f2, t2);
    lemma_year_identities_shrink(v, fipe, t, l, cy);
}

// ---- pending identities only shrink ----

proof fn lemma_year_entry_rows(v: CatalogV, reps: Seq<i32>, e: FipeStruct, cy: int)
    ensures
        forall|k: int|
            v.years.len() <= k < v.year_entry_after(reps, e, cy).years.len() ==> reps.contains(
                #[trigger] v.year_entry_after(reps, e, cy).years[k].model_id,
            ),
    decreases reps.len(),
{
    if reps.len() > 0 {
        let q = reps.drop_last();
        lemma_year_entry_rows(v, q, e, cy);
        lemma_year_entry_after(v, q, e, cy);
        let p = v.year_entry_after(q, e, cy);
        let w = v.year_entry_after(reps, e, cy);
        assert forall|k: int| v.years.len() <= k < w.years.len() implies reps.contains(
            #[trigger] w.years[k].model_id) by {
            if k < p.years.len() {
                assert(w.years[k] == p.years[k]);
                let r = choose|r: int| 0 <= r < q.len() && q[r] == p.years[k].model_id;
                assert(reps[r] == q[r]);
            } else {
                assert(w.years[k].model_id == reps[reps.len() - 1]);
            }
        }
    }
}

proof fn lemma_years_rows(v: CatalogV, reps: Seq<i32>, l: Seq<FipeStruct>, cy: int)
    ensures
        forall|k: int|
            v.years.len() <= k < v.years_after(reps, l, cy).years.len() ==> reps.contains(
                #[trigger] v.years_after(reps, l, cy).years[k].model_id,
            ),
    decreases l.len(),
{
    if l.len() > 0 {
        let q = l.drop_last();
        lemma_years_rows(v, reps, q, cy);
        lemma_years_after(v, reps, q, cy);
        let p = v.years_after(reps, q, cy);
        let w = v.years_after(reps, l, cy);
        lemma_year_entry_rows(p, reps, l.last(), cy);
        lemma_year_entry_after(p, reps, l.last(), cy);
        assert forall|k: int| v.years.len() <= k < w.years.len() implies reps.contains(
            #[trigger] w.years[k].model_id) by {
            if k < p.years.len() {
                assert(w.years[k] == p.years[k]);
            }
        }
    }
}

proof fn lemma_identity_reps_count(v: CatalogV, w: CatalogV, n: int)
    requires
        0 <= n <= v.models.len(),
        w.models.len() == v.models.len(),
        forall|i: int| 0 <= i < n && #[trigger] is_first_replica(w, i) ==> is_first_replica(v, i),
    ensures
        identity_reps_upto(w, n).len() <= identity_reps_upto(v, n).len(),
    decreases n,
{
    if n > 0 {
        lemma_identity_reps_count(v, w, n - 1);
    }
}

/// A year-stage unit never raises the number of pending model identities.
pub proof fn lemma_year_identities_shrink(v: CatalogV, fipe: Seq<char>, t: i32, l: Seq<FipeStruct>, cy: int)
    requires
        v.wf(),
    ensures
        identity_reps(v.years_after(v.replica_ids(fipe, t), l, cy)).len() <= identity_reps(v).len(),
{
    let reps = v.replica_ids(fipe, t);
    let w = v.years_after(reps, l, cy);
    lemma_year_unit_clears(v, fipe, t, l, cy);
    lemma_years_rows(v, reps, l, cy);
    lemma_extends_years_pending(v, w);
    lemma_replicas_upto(v, fipe, t, v.models.len() as int);
    assert forall|i: int| 0 <= i < v.models.len() && #[trigger] is_first_replica(w, i) implies is_first_replica(v, i) by {
        let fi = w.models[i].fipe;
        let ti = w.model_type(i);
        assert(v.is_replica(i, fi, ti));
        assert forall|j: int| 0 <= j < i implies !#[trigger] v.is_replica(j, fi, ti) by {
            if v.is_replica(j, fi, ti) {
                assert(!w.is_replica(j, fi, ti));
                assert(w.model_used(j + 1));
                let y = choose|y: int| 0 <= y < w.years.len() && #[trigger] w.years[y].model_id == j + 1;
                if y < v.years.len() {
                    assert(w.years[y] == v.years[y]);
                    assert(v.model_used(j + 1));
                }
                assert(reps.contains(w.years[y].model_id));
                let r = choose|r: int| 0 <= r < reps.len() && reps[r] == w.years[y].model_id;
                assert(v.is_replica(reps[r] - 1, fipe, t));
                assert(fi == fipe && ti == t);
                assert(l.len() > 0) by {
                    if l.len() == 0 {
                        assert(w == v);
                    }
                }
                assert(w.is_replica(i, fipe, t));
            }
        }
    }
    lemma_identity_reps_count(v, w, v.models.len() as int);
}

// ---- replica rows agree ----

/// Some entry of `l` has value `f`.
pub open spec fn lists_value(l: Seq<FipeStruct>, f: Seq<char>) -> bool {
    exists|i: int| 0 <= i < l.len() && #[trigger] l[i].value@ == f
}

/// The label of the first entry of `l` with value `f`.
pub open spec fn first_label(l: Seq<FipeStruct>, f: Seq<char>) -> Seq<char>
    decreases l.len(),
{
    if l.len() == 0 {
        Seq::empty()
    } else if lists_value(l.drop_last(), f) {
        first_label(l.drop_last(), f)
    } else {
        l.last().label@
    }
}

proof fn lemma_year_entry_shape(v: CatalogV, reps: Seq<i32>, e: FipeStruct, cy: int)
    ensures
        forall|k: int|
            v.years.len() <= k < v.year_entry_after(reps, e, cy).years.len() ==> {
                let y = #[trigger] v.year_entry_after(reps, e, cy).years[k];
                &&& y.fipe == e.value@
                &&& y.description == e.label@
                &&& y.value == year_date_of(e.value@, cy)
                &&& y.fuel_id == fuel_of(e.value@)
            },
        (forall|r: int| 0 <= r < reps.len() ==> v.has_year_key(e.value@, #[trigger] reps[r]))
            ==> v.year_entry_after(reps, e, cy) == v,
    decreases reps.len(),
{
    if reps.len() > 0 {
        let q = reps.drop_last();
        lemma_year_entry_shape(v, q, e, cy);
        lemma_year_entry_after(v, q, e, cy);
        let p = v.year_entry_after(q, e, cy);
        let w = v.year_entry_after(reps, e, cy);
        assert forall|k: int| v.years.len() <= k < w.years.len() implies {
            let y = #[trigger] w.years[k];
            &&& y.fipe == e.value@
            &&& y.description == e.label@
            &&& y.value == year_date_of(e.value@, cy)
            &&& y.fuel_id == fuel_of(e.value@)
        } by {
            if k < p.years.len() {
                assert(w.years[k] == p.years[k]);
            }
        }
        if forall|r: int| 0 <= r < reps.len() ==> v.has_year_key(e.value@, #[trigger] reps[r]) {
            assert forall|r: int| 0 <= r < q.len() implies v.has_year_key(e.value@, #[trigger] q[r]) by {
                assert(q[r] == reps[r]);
            }
            assert(v.has_year_key(e.value@, reps[reps.len() - 1]));
        }
    }
}

proof fn lemma_years_shape(v: CatalogV, reps: Seq<i32>, l: Seq<FipeStruct>, cy: int)
    ensures
        forall|k: int|
            v.years.len() <= k < v.years_after(reps, l, cy).years.len() ==> {
                let y = #[trigger] v.years_after(reps, l, cy).years[k];
                &&& lists_value(l, y.fipe)
                &&& y.description == first_label(l, y.fipe)
                &&& y.value == year_date_of(y.fipe, cy)
                &&& y.fuel_id == fuel_of(y.fipe)
            },
    decreases l.len(),
{
    if l.len() > 0 {
        let q = l.drop_last();
        let e = l.last();
        lemma_years_shape(v, reps, q, cy);
        lemma_years_after(v, reps, q, cy);
        let p = v.years_after(reps, q, cy);
        let w = v.years_after(reps, l, cy);
        lemma_year_entry_shape(p, reps, e, cy);
        lemma_year_entry_after(p, reps, e, cy);
        if lists_value(q, e.value@) {
            let i = choose|i: int| 0 <= i < q.len() && #[trigger] q[i].value@ == e.value@;
            assert forall|r: int| 0 <= r < reps.len() implies p.has_year_key(e.value@, #[trigger] reps[r]) by {
                assert(p.has_year_key(q[i].value@, reps[r]));
            }
            assert(w == p);
        }
        assert forall|k: int| v.years.len() <= k < w.years.len() implies {
            let y = #[trigger] w.years[k];
            &&& lists_value(l, y.fipe)
            &&& y.description == first_label(l, y.fipe)
            &&& y.value == year_date_of(y.fipe, cy)
            &&& y.fuel_id == fuel_of(y.fipe)
        } by {
            let y = w.years[k];
            if k < p.years.len() {
                assert(y == p.years[k]);
                let i = choose|i: int| 0 <= i < q.len() && #[trigger] q[i].value@ == y.fipe;
                assert(l[i] == q[i]);
                assert(lists_value(q, y.fipe));
            } else {
                assert(!lists_value(q, e.value@));
                assert(l[l.len() - 1].value@ == y.fipe);
            }
        }
    }
}

/// One fan-out writes, for each listed value, the same label, date and fuel to
/// every model row it reaches: the first listed entry with that value decides.
pub proof fn lemma_replica_rows_agree(v: CatalogV, fipe: Seq<char>, t: i32, l: Seq<FipeStruct>, cy: int)
    ensures
        forall|a: int, b: int|
            v.years.len() <= a < v.years_after(v.replica_ids(fipe, t), l, cy).years.len() && v.years.len() <= b
                < v.years_after(v.replica_ids(fipe, t), l, cy).years.len() && (#[trigger] v.years_after(
                v.replica_ids(fipe, t),
                l,
                cy,
            ).years[a]).fipe == (#[trigger] v.years_after(v.replica_ids(fipe, t), l, cy).years[b]).fipe ==> {
                let ya = v.years_after(v.replica_ids(fipe, t), l, cy).years[a];
                let yb = v.years_after(v.replica_ids(fipe, t), l, cy).years[b];
                &&& ya.description == yb.description
                &&& ya.value == yb.value
                &&& ya.fuel_id == yb.fuel_id
            },
{
    lemma_years_shape(v, v.replica_ids(fipe, t), l, cy);
}

} // verus!
