//! The pending work of each stage, read from the store: periods without
//! brands, (type, period) pairs to ask brands for, brands without models, and
//! one representative per model identity that still lacks year variants.
use vstd::prelude::*;
use vstd::hash_map::StringHashMap;
use crate::catalog::{Catalog, CatalogV, valid_id};
use crate::schema::{Types, References, Brands, Models, ModelsReplicate};

verus! {

/// One brand request: a vehicle type and a reference period, by id.
#[derive(Clone, Copy, PartialEq, Eq, Debug)]
pub struct BrandTask {
    pub type_id: i32,
    pub ref_id: i32,
}

/// Indices, in order, of the first `n` periods that have no brand yet.
pub open spec fn pending_refs_upto(v: CatalogV, n: int) -> Seq<int>
    decreases n,
{
    if n <= 0 {
        Seq::empty()
    } else if !v.ref_used(n) {
        pending_refs_upto(v, n - 1).push(n - 1)
    } else {
        pending_refs_upto(v, n - 1)
    }
}

/// Indices, in order, of the periods that have no brand yet.
pub open spec fn pending_refs(v: CatalogV) -> Seq<int> {
    pending_refs_upto(v, v.refs.len() as int)
}

/// The brand requests for the first `n` vehicle types, each paired with
/// every pending period.
pub open spec fn brand_plan_upto(v: CatalogV, n: int) -> Seq<BrandTask>
    decreases n,
{
    if n <= 0 {
        Seq::empty()
    } else {
        brand_plan_upto(v, n - 1) + type_tasks(n, pending_refs(v))
    }
}

/// Brand requests of vehicle type `t` for the periods at indices `idx`.
pub open spec fn type_tasks(t: int, idx: Seq<int>) -> Seq<BrandTask>
    decreases idx.len(),
{
    if idx.len() == 0 {
        Seq::empty()
    } else {
        type_tasks(t, idx.drop_last()).push(BrandTask { type_id: t as i32, ref_id: (idx.last() + 1) as i32 })
    }
}

/// Every vehicle type crossed with every period that has no brand yet.
pub open spec fn brand_plan(v: CatalogV) -> Seq<BrandTask> {
    brand_plan_upto(v, v.types.len() as int)
}

/// Indices, in order, of the first `n` brands that have no model yet.
pub open spec fn pending_brands_upto(v: CatalogV, n: int) -> Seq<int>
    decreases n,
{
    if n <= 0 {
        Seq::empty()
    } else if !v.brand_used(n) {
        pending_brands_upto(v, n - 1).push(n - 1)
    } else {
        pending_brands_upto(v, n - 1)
    }
}

/// Indices, in order, of the brands that have no model yet.
pub open spec fn pending_brands(v: CatalogV) -> Seq<int> {
    pending_brands_upto(v, v.brands.len() as int)
}

/// Model rows `i` and `j` (indices) have the same canonical identity.
pub open spec fn same_identity(v: CatalogV, i: int, j: int) -> bool {
    v.models[i].fipe == v.models[j].fipe && v.model_type(i) == v.model_type(j)
}

/// Model row `i` (an index) has no year variant and no earlier row of its
/// identity is in that case: it stands for its identity.
pub open spec fn is_first_replica(v: CatalogV, i: int) -> bool {
    &&& v.is_replica(i, v.models[i].fipe, v.model_type(i))
    &&& forall|j: int| 0 <= j < i ==> !#[trigger] v.is_replica(j, v.models[i].fipe, v.model_type(i))
}

/// Indices, in order, of the representatives among the first `n` model rows.
pub open spec fn identity_reps_upto(v: CatalogV, n: int) -> Seq<int>
    decreases n,
{
    if n <= 0 {
        Seq::empty()
    } else if is_first_replica(v, n - 1) {
        identity_reps_upto(v, n - 1).push(n - 1)
    } else {
        identity_reps_upto(v, n - 1)
    }
}

/// Indices, in order, of one representative per pending model identity.
pub open spec fn identity_reps(v: CatalogV) -> Seq<int> {
    identity_reps_upto(v, v.models.len() as int)
}

/// `b` is brand row `i` (an index) joined with its period and type.
pub open spec fn joins_brand(v: CatalogV, b: Brands, i: int) -> bool {
    let row = v.brands[i];
    let r = v.refs[row.ref_id - 1];
    let t = v.types[row.type_id - 1];
    &&& b.id == row.id
    &&& b.description@ == row.description
    &&& b.fipe@ == row.fipe
    &&& b.ref_id@ == r.fipe
    &&& b.ref_description@ == r.description
    &&& b.type_id == row.type_id
    &&& b.type_description@ == t.description
}

/// `m` is model row `i` (an index) joined with its brand, period and type.
pub open spec fn joins_model(v: CatalogV, m: Models, i: int) -> bool {
    let row = v.models[i];
    let b = v.brands[row.brand_id - 1];
    let r = v.refs[b.ref_id - 1];
    let t = v.types[b.type_id - 1];
    &&& m.id == row.id
    &&& m.description@ == row.description
    &&& m.fipe@ == row.fipe
    &&& m.ref_id@ == r.fipe
    &&& m.ref_description@ == r.description
    &&& m.type_id == b.type_id
    &&& m.type_description@ == t.description
    &&& m.brand_id@ == b.fipe
    &&& m.brand_description@ == b.description
}

fn copy_type(t: &Types) -> (r: Types)
    ensures
        r@ == t@,
{
    Types { id: t.id, description: t.description.clone() }
}

fn copy_reference(x: &References) -> (r: References)
    ensures
        r@ == x@,
{
    References {
        id: x.id,
        description: x.description.clone(),
        ref_date: x.ref_date.clone(),
        fipe: x.fipe.clone(),
    }
}

/// All vehicle types, in id order.
pub fn select_types(c: &Catalog) -> (r: Vec<Types>)
    requires
        c.wf(),
    ensures
        r@.len() == c@.types.len(),
        forall|k: int| 0 <= k < r@.len() ==> #[trigger] r@[k]@ == c@.types[k],
{
    let types = c.types();
    let mut out: Vec<Types> = Vec::new();
    let mut i: usize = 0;
    while i < types.len()
        invariant
            i <= types@.len(),
            out@.len() == i,
            forall|k: int| 0 <= k < i ==> #[trigger] out@[k]@ == types@[k]@,
        decreases types@.len() - i,
    {
        out.push(copy_type(&types[i]));
        i = i + 1;
    }
    out
}

/// The reference periods that have no brand yet, in id order.
pub fn select_references(c: &Catalog) -> (r: Vec<References>)
    requires
        c.wf(),
    ensures
        r@.len() == pending_refs(c@).len(),
        forall|k: int| 0 <= k < r@.len() ==> #[trigger] r@[k]@ == c@.refs[pending_refs(c@)[k]],
{
    let refs = c.references();
    let mut out: Vec<References> = Vec::new();
    let mut i: usize = 0;
    while i < refs.len()
        invariant
            c.wf(),
            i <= refs@.len(),
            refs@.len() == c@.refs.len(),
            forall|k: int| 0 <= k < refs@.len() ==> #[trigger] refs@[k]@ == c@.refs[k],
            out@.len() == pending_refs_upto(c@, i as int).len(),
            forall|k: int|
                0 <= k < out@.len() ==> #[trigger] out@[k]@ == c@.refs[pending_refs_upto(c@, i as int)[k]],
        decreases refs@.len() - i,
    {
        proof {
            c.lemma_wf();
        }
        if !c.ref_has_brands((i + 1) as i32) {
            out.push(copy_reference(&refs[i]));
            assert(pending_refs_upto(c@, i + 1) == pending_refs_upto(c@, i as int).push(i as int));
        }
        i = i + 1;
    }
    out
}

/// Every vehicle type crossed with every reference period that has no brand
/// yet; empty when either side is empty.
pub fn brand_tasks(c: &Catalog) -> (r: Vec<BrandTask>)
    requires
        c.wf(),
    ensures
        r@ == brand_plan(c@),
{
    let pending = select_references(c);
    let n = c.types().len();
    let mut out: Vec<BrandTask> = Vec::new();
    let mut t: usize = 0;
    proof {
        c.lemma_wf();
    }
    while t < n
        invariant
            c.wf(),
            t <= n,
            n == c@.types.len(),
            n <= crate::catalog::MAX_ROWS,
            pending@.len() == pending_refs(c@).len(),
            forall|k: int| 0 <= k < pending@.len() ==> #[trigger] pending@[k]@ == c@.refs[pending_refs(c@)[k]],
            out@ == brand_plan_upto(c@, t as int),
        decreases n - t,
    {
        proof {
            c.lemma_wf();
        }
        let ghost before = out@;
        let mut k: usize = 0;
        while k < pending.len()
            invariant
                c.wf(),
                t < n,
                n <= crate::catalog::MAX_ROWS,
                k <= pending@.len(),
                pending@.len() == pending_refs(c@).len(),
                forall|k: int| 0 <= k < pending@.len() ==> #[trigger] pending@[k]@ == c@.refs[pending_refs(c@)[k]],
                out@ == before + type_tasks(t + 1, pending_refs(c@).take(k as int)),
            decreases pending@.len() - k,
        {
            proof {
                c.lemma_wf();
                lemma_pending_refs_upto(c@, c@.refs.len() as int);
                assert(c@.refs[pending_refs(c@)[k as int]].id == pending_refs(c@)[k as int] + 1);
            }
            out.push(BrandTask { type_id: (t + 1) as i32, ref_id: pending[k].id });
            proof {
                assert(pending_refs(c@).take(k + 1).drop_last() =~= pending_refs(c@).take(k as int));
                assert(pending_refs(c@).take(k + 1).last() == pending_refs(c@)[k as int]);
                assert(pending@[k as int]@ == c@.refs[pending_refs(c@)[k as int]]);
                assert(type_tasks(t + 1, pending_refs(c@).take(k + 1)) == type_tasks(t + 1, pending_refs(c@).take(k as int)).push(
                    BrandTask { type_id: (t + 1) as i32, ref_id: pending@[k as int].id }));
                assert(out@ =~= before + type_tasks(t + 1, pending_refs(c@).take(k + 1)));
            }
            k = k + 1;
        }
        assert(pending_refs(c@).take(pending@.len() as int) =~= pending_refs(c@));
        t = t + 1;
    }
    out
}

/// The pending-period list holds valid indices in increasing order.
pub proof fn lemma_pending_refs_upto(v: CatalogV, n: int)
    requires
        0 <= n <= v.refs.len(),
    ensures
        forall|k: int|
            0 <= k < pending_refs_upto(v, n).len() ==> 0 <= #[trigger] pending_refs_upto(v, n)[k] < n
                && !v.ref_used(pending_refs_upto(v, n)[k] + 1),
        forall|i: int|
            0 <= i < n && !#[trigger] v.ref_used(i + 1) ==> exists|k: int|
                0 <= k < pending_refs_upto(v, n).len() && #[trigger] pending_refs_upto(v, n)[k] == i,
    decreases n,
{
    if n > 0 {
        lemma_pending_refs_upto(v, n - 1);
        let p = pending_refs_upto(v, n - 1);
        let q = pending_refs_upto(v, n);
        assert forall|i: int| 0 <= i < n && !#[trigger] v.ref_used(i + 1) implies exists|k: int|
            0 <= k < q.len() && #[trigger] q[k] == i by {
            if i < n - 1 {
                let k = choose|k: int| 0 <= k < p.len() && #[trigger] p[k] == i;
                assert(q[k] == i);
            } else {
                assert(q[p.len() as int] == i);
            }
        }
    }
}

/// The pending-brand list holds valid indices in increasing order.
pub proof fn lemma_pending_brands_upto(v: CatalogV, n: int)
    requires
        0 <= n <= v.brands.len(),
    ensures
        forall|k: int|
            0 <= k < pending_brands_upto(v, n).len() ==> 0 <= #[trigger] pending_brands_upto(v, n)[k] < n
                && !v.brand_used(pending_brands_upto(v, n)[k] + 1),
        forall|i: int|
            0 <= i < n && !#[trigger] v.brand_used(i + 1) ==> exists|k: int|
                0 <= k < pending_brands_upto(v, n).len() && #[trigger] pending_brands_upto(v, n)[k] == i,
    decreases n,
{
    if n > 0 {
        lemma_pending_brands_upto(v, n - 1);
        let p = pending_brands_upto(v, n - 1);
        let q = pending_brands_upto(v, n);
        assert forall|i: int| 0 <= i < n && !#[trigger] v.brand_used(i + 1) implies exists|k: int|
            0 <= k < q.len() && #[trigger] q[k] == i by {
            if i < n - 1 {
                let k = choose|k: int| 0 <= k < p.len() && #[trigger] p[k] == i;
                assert(q[k] == i);
            } else {
                assert(q[p.len() as int] == i);
            }
        }
    }
}

/// Brand row `i` (an index) joined with its period and type.
fn join_brand(c: &Catalog, i: usize) -> (r: Brands)
    requires
        c.wf(),
        i < c@.brands.len(),
    ensures
        joins_brand(c@, r, i as int),
{
    proof {
        c.lemma_wf();
    }
    let bs = c.brands();
    let rs = c.references();
    let ts = c.types();
    let b = &bs[i];
    assert(b@ == c@.brands[i as int]);
    let r = &rs[(b.ref_id - 1) as usize];
    let t = &ts[(b.type_id - 1) as usize];
    assert(r@ == c@.refs[b.ref_id - 1]);
    assert(t@ == c@.types[b.type_id - 1]);
    Brands {
        id: b.id,
        description: b.description.clone(),
        fipe: b.fipe.clone(),
        ref_id: r.fipe.clone(),
        ref_description: r.description.clone(),
        type_id: b.type_id,
        type_description: t.description.clone(),
    }
}

/// The brands that have no model yet, in id order, each with its period's
/// code and label and its type's description.
pub fn select_brands(c: &Catalog) -> (r: Vec<Brands>)
    requires
        c.wf(),
    ensures
        r@.len() == pending_brands(c@).len(),
        forall|k: int| 0 <= k < r@.len() ==> joins_brand(c@, #[trigger] r@[k], pending_brands(c@)[k]),
{
    let n = c.brands().len();
    let mut out: Vec<Brands> = Vec::new();
    let mut i: usize = 0;
    while i < n
        invariant
            c.wf(),
            i <= n,
            n == c@.brands.len(),
            out@.len() == pending_brands_upto(c@, i as int).len(),
            forall|k: int|
                0 <= k < out@.len() ==> joins_brand(c@, #[trigger] out@[k], pending_brands_upto(c@, i as int)[k]),
        decreases n - i,
    {
        proof {
            c.lemma_wf();
        }
        if !c.brand_has_models((i + 1) as i32) {
            out.push(join_brand(c, i));
            assert(pending_brands_upto(c@, i + 1) == pending_brands_upto(c@, i as int).push(i as int));
        }
        i = i + 1;
    }
    out
}

/// Model row `i` (an index) joined with its brand, period and type.
fn join_model(c: &Catalog, i: usize) -> (r: Models)
    requires
        c.wf(),
        i < c@.models.len(),
    ensures
        joins_model(c@, r, i as int),
{
    proof {
        c.lemma_wf();
    }
    let ms = c.models();
    let bs = c.brands();
    let rs = c.references();
    let ts = c.types();
    let m = &ms[i];
    assert(m@ == c@.models[i as int]);
    let b = &bs[(m.brand_id - 1) as usize];
    assert(b@ == c@.brands[m.brand_id - 1]);
    let r = &rs[(b.ref_id - 1) as usize];
    let t = &ts[(b.type_id - 1) as usize];
    assert(r@ == c@.refs[b.ref_id - 1]);
    assert(t@ == c@.types[b.type_id - 1]);
    Models {
        id: m.id,
        description: m.description.clone(),
        fipe: m.fipe.clone(),
        ref_id: r.fipe.clone(),
        ref_description: r.description.clone(),
        type_id: b.type_id,
        type_description: t.description.clone(),
        brand_id: b.fipe.clone(),
        brand_description: b.description.clone(),
    }
}

/// The map `seen` records exactly the identities of the rows at indices `idx`:
/// each code maps to the vehicle types represented under it.
pub open spec fn seen_matches(v: CatalogV, idx: Seq<int>, seen: Map<Seq<char>, Vec<i32>>) -> bool {
    &&& forall|k: int|
        0 <= k < idx.len() ==> seen.contains_key(v.models[#[trigger] idx[k]].fipe) && seen[v.models[idx[k]].fipe]@.contains(
            v.model_type(idx[k]),
        )
    &&& forall|f: Seq<char>, q: int|
        #![trigger seen[f]@[q]]
        seen.contains_key(f) && 0 <= q < seen[f]@.len() ==> represented(v, idx, f, seen[f]@[q])
}

/// Some row at indices `idx` has the identity (`f`, `t`).
pub open spec fn represented(v: CatalogV, idx: Seq<int>, f: Seq<char>, t: i32) -> bool {
    exists|k: int| 0 <= k < idx.len() && v.models[#[trigger] idx[k]].fipe == f && v.model_type(idx[k]) == t
}

fn holds_type(ts: &Vec<i32>, t: i32) -> (r: bool)
    ensures
        r == ts@.contains(t),
{
    let mut j: usize = 0;
    while j < ts.len()
        invariant
            j <= ts@.len(),
            forall|q: int| 0 <= q < j ==> ts@[q] != t,
        decreases ts@.len() - j,
    {
        if ts[j] == t {
            return true;
        }
        j = j + 1;
    }
    false
}

/// Whether the identity (`fipe`, `t`) is recorded in `seen`.
fn identity_seen(seen: &StringHashMap<Vec<i32>>, fipe: &String, t: i32) -> (r: bool)
    ensures
        r == (seen@.contains_key(fipe@) && seen@[fipe@]@.contains(t)),
{
    match seen.get(fipe.as_str()) {
        Some(ts) => holds_type(ts, t),
        None => false,
    }
}

/// Records the identity (`fipe`, `t`) in `seen`.
fn note_identity(seen: &mut StringHashMap<Vec<i32>>, fipe: &String, t: i32)
    ensures
        final(seen)@.contains_key(fipe@),
        final(seen)@[fipe@]@ == (if old(seen)@.contains_key(fipe@) {
            old(seen)@[fipe@]@
        } else {
            Seq::empty()
        }).push(t),
        forall|f: Seq<char>| f != fipe@ ==> #[trigger] final(seen)@.contains_key(f) == old(seen)@.contains_key(f),
        forall|f: Seq<char>| f != fipe@ && old(seen)@.contains_key(f) ==> #[trigger] final(seen)@[f] == old(seen)@[f],
{
    let mut ts: Vec<i32> = Vec::new();
    match seen.get(fipe.as_str()) {
        Some(old_ts) => {
            let mut j: usize = 0;
            while j < old_ts.len()
                invariant
                    j <= old_ts@.len(),
                    ts@ == old_ts@.take(j as int),
                decreases old_ts@.len() - j,
            {
                ts.push(old_ts[j]);
                j = j + 1;
                assert(ts@ =~= old_ts@.take(j as int));
            }
            assert(old_ts@.take(old_ts@.len() as int) =~= old_ts@);
        },
        None => {},
    }
    ts.push(t);
    seen.insert(fipe.clone(), ts);
}

proof fn lemma_seen_step(
    v: CatalogV,
    idx: Seq<int>,
    i: int,
    old_seen: Map<Seq<char>, Vec<i32>>,
    new_seen: Map<Seq<char>, Vec<i32>>,
)
    requires
        v.wf(),
        0 <= i < v.models.len(),
        forall|k: int| 0 <= k < idx.len() ==> 0 <= #[trigger] idx[k] < v.models.len(),
        seen_matches(v, idx, old_seen),
        new_seen.contains_key(v.models[i].fipe),
        new_seen[v.models[i].fipe]@ == (if old_seen.contains_key(v.models[i].fipe) {
            old_seen[v.models[i].fipe]@
        } else {
            Seq::empty()
        }).push(v.model_type(i)),
        forall|f: Seq<char>| f != v.models[i].fipe ==> #[trigger] new_seen.contains_key(f) == old_seen.contains_key(f),
        forall|f: Seq<char>| f != v.models[i].fipe && old_seen.contains_key(f) ==> #[trigger] new_seen[f] == old_seen[f],
    ensures
        seen_matches(v, idx.push(i), new_seen),
{
    let fi = v.models[i].fipe;
    let ti = v.model_type(i);
    let idx2 = idx.push(i);
    assert forall|k: int| 0 <= k < idx2.len() implies new_seen.contains_key(v.models[#[trigger] idx2[k]].fipe)
        && new_seen[v.models[idx2[k]].fipe]@.contains(v.model_type(idx2[k])) by {
        if k < idx.len() {
            assert(idx2[k] == idx[k]);
            let f = v.models[idx[k]].fipe;
            assert(old_seen.contains_key(f) && old_seen[f]@.contains(v.model_type(idx[k])));
            if f == fi {
                let q = choose|q: int| 0 <= q < old_seen[f]@.len() && old_seen[f]@[q] == v.model_type(idx[k]);
                assert(new_seen[f]@[q] == v.model_type(idx[k]));
            } else {
                assert(new_seen[f] == old_seen[f]);
            }
        } else {
            assert(idx2[k] == i);
            assert(new_seen[fi]@[new_seen[fi]@.len() - 1] == ti);
        }
    }
    assert forall|f: Seq<char>, q: int| #![trigger new_seen[f]@[q]] new_seen.contains_key(f) && 0 <= q
        < new_seen[f]@.len() implies represented(v, idx2, f, new_seen[f]@[q]) by {
        if f != fi {
            assert(old_seen.contains_key(f));
            assert(new_seen[f] == old_seen[f]);
            assert(represented(v, idx, f, old_seen[f]@[q]));
            let k = choose|k: int| 0 <= k < idx.len() && v.models[#[trigger] idx[k]].fipe == f && v.model_type(idx[k]) == old_seen[f]@[q];
            assert(idx2[k] == idx[k]);
        } else if q < new_seen[f]@.len() - 1 {
            assert(old_seen.contains_key(f));
            assert(new_seen[f]@[q] == old_seen[f]@[q]);
            assert(represented(v, idx, f, old_seen[f]@[q]));
            let k = choose|k: int| 0 <= k < idx.len() && v.models[#[trigger] idx[k]].fipe == f && v.model_type(idx[k]) == old_seen[f]@[q];
            assert(idx2[k] == idx[k]);
        } else {
            assert(idx2[idx.len() as int] == i);
            assert(new_seen[f]@[q] == ti);
        }
    }
}

proof fn lemma_reps_step(v: CatalogV, old_idx: Seq<int>, idx: Seq<int>, i: int)
    requires
        0 <= i < v.models.len(),
        forall|j: int|
            0 <= j < i && #[trigger] v.is_replica(j, v.models[j].fipe, v.model_type(j)) ==> exists|k: int|
                0 <= k < old_idx.len() && same_identity(v, #[trigger] old_idx[k], j),
        is_first_replica(v, i) ==> idx == old_idx.push(i),
        !is_first_replica(v, i) ==> idx == old_idx,
    ensures
        forall|j: int|
            0 <= j < i + 1 && #[trigger] v.is_replica(j, v.models[j].fipe, v.model_type(j)) ==> exists|k: int|
                0 <= k < idx.len() && same_identity(v, #[trigger] idx[k], j),
{
    assert forall|j: int|
        0 <= j < i + 1 && #[trigger] v.is_replica(j, v.models[j].fipe, v.model_type(j)) implies exists|k: int|
            0 <= k < idx.len() && same_identity(v, #[trigger] idx[k], j) by {
        if j == i {
            if !is_first_replica(v, i) {
                let j2 = choose|j2: int| 0 <= j2 < i && #[trigger] v.is_replica(j2, v.models[i].fipe, v.model_type(i));
                assert(v.is_replica(j2, v.models[j2].fipe, v.model_type(j2)));
                let k = choose|k: int| 0 <= k < old_idx.len() && same_identity(v, #[trigger] old_idx[k], j2);
                assert(idx[k] == old_idx[k]);
                assert(same_identity(v, idx[k], j));
            } else {
                assert(idx[idx.len() - 1] == i);
                assert(same_identity(v, idx[idx.len() - 1], j));
            }
        } else {
            let k = choose|k: int| 0 <= k < old_idx.len() && same_identity(v, #[trigger] old_idx[k], j);
            assert(idx[k] == old_idx[k]);
        }
    }
}

/// One representative model row per canonical identity (code, vehicle type)
/// that still has a model row without year variants: the first such row of the
/// identity, in id order. Year variants are fetched once per entry.
pub fn select_models(c: &Catalog) -> (r: Vec<Models>)
    requires
        c.wf(),
    ensures
        r@.len() == identity_reps(c@).len(),
        forall|k: int| 0 <= k < r@.len() ==> joins_model(c@, #[trigger] r@[k], identity_reps(c@)[k]),
{
    proof {
        c.lemma_wf();
    }
    let n = c.models().len();
    let mut out: Vec<Models> = Vec::new();
    let mut seen: StringHashMap<Vec<i32>> = StringHashMap::new();
    let ghost mut idx: Seq<int> = Seq::empty();
    let mut i: usize = 0;
    while i < n
        invariant
            c.wf(),
            i <= n,
            seen_matches(c@, idx, seen@),
            n == c@.models.len(),
            idx == identity_reps_upto(c@, i as int),
            out@.len() == idx.len(),
            forall|k: int| 0 <= k < out@.len() ==> joins_model(c@, #[trigger] out@[k], idx[k]),
            forall|k: int| 0 <= k < idx.len() ==> 0 <= #[trigger] idx[k] < i && is_first_replica(c@, idx[k]),
            forall|j: int|
                0 <= j < i && #[trigger] c@.is_replica(j, c@.models[j].fipe, c@.model_type(j)) ==> exists|k: int|
                    0 <= k < idx.len() && same_identity(c@, #[trigger] idx[k], j),
        decreases n - i,
    {
        let ghost v = c@;
        let ghost old_idx = idx;
        proof {
            c.lemma_wf();
        }
        let ms = c.models();
        let bs = c.brands();
        let m = &ms[i];
        assert(m@ == v.models[i as int]);
        let b = &bs[(m.brand_id - 1) as usize];
        assert(b@ == v.brands[m.brand_id - 1]);
        assert(v.model_type(i as int) == b.type_id);
        if !c.model_has_years((i + 1) as i32) {
            let listed = identity_seen(&seen, &m.fipe, b.type_id);
            if listed {
                proof {
                    let q = choose|q: int| 0 <= q < seen@[m.fipe@]@.len() && seen@[m.fipe@]@[q] == b.type_id;
                    assert(represented(v, idx, m.fipe@, seen@[m.fipe@]@[q]));
                    let k = choose|k: int|
                        0 <= k < idx.len() && v.models[#[trigger] idx[k]].fipe == m.fipe@ && v.model_type(idx[k])
                            == seen@[m.fipe@]@[q];
                    assert(same_identity(v, idx[k], i as int));
                    assert(v.is_replica(idx[k], v.models[i as int].fipe, v.model_type(i as int)));
                }
            } else {
                proof {
                    assert forall|j: int| 0 <= j < i implies !#[trigger] v.is_replica(
                        j, v.models[i as int].fipe, v.model_type(i as int)) by {
                        if v.is_replica(j, v.models[i as int].fipe, v.model_type(i as int)) {
                            assert(v.is_replica(j, v.models[j].fipe, v.model_type(j)));
                            let q = choose|q: int| 0 <= q < idx.len() && same_identity(v, #[trigger] idx[q], j);
                            assert(same_identity(v, idx[q], i as int));
                            assert(seen@.contains_key(v.models[idx[q]].fipe));
                            assert(seen@[v.models[idx[q]].fipe]@.contains(v.model_type(idx[q])));
                        }
                    }
                }
                out.push(join_model(c, i));
                let ghost old_seen = seen@;
                note_identity(&mut seen, &m.fipe, b.type_id);
                proof {
                    lemma_seen_step(v, idx, i as int, old_seen, seen@);
                    idx = idx.push(i as int);
                }
            }
        }
        proof {
            lemma_reps_step(v, old_idx, idx, i as int);
        }
        i = i + 1;
    }
    out
}

/// `m` is model row `id - 1` with its description and its period's label.
pub open spec fn joins_replica(v: CatalogV, m: ModelsReplicate, id: i32) -> bool {
    let row = v.models[id - 1];
    let b = v.brands[row.brand_id - 1];
    &&& m.id == id
    &&& m.description@ == row.description
    &&& m.ref_description@ == v.refs[b.ref_id - 1].description
}

/// The model rows of identity (`fipe`, `t`) that have no year variant yet, in
/// id order, each with its period's label: the rows one year listing fans out to.
pub fn select_models_replicate(c: &Catalog, fipe: &String, t: i32) -> (r: Vec<ModelsReplicate>)
    requires
        c.wf(),
    ensures
        r@.len() == c@.replica_ids(fipe@, t).len(),
        forall|k: int| 0 <= k < r@.len() ==> joins_replica(c@, #[trigger] r@[k], c@.replica_ids(fipe@, t)[k]),
{
    proof {
        c.lemma_wf();
        crate::catalog::lemma_replicas_upto(c@, fipe@, t, c@.models.len() as int);
    }
    let ids = c.replica_ids(fipe, t);
    let ms = c.models();
    let bs = c.brands();
    let rs = c.references();
    let mut out: Vec<ModelsReplicate> = Vec::new();
    let mut k: usize = 0;
    while k < ids.len()
        invariant
            c.wf(),
            c@.wf(),
            k <= ids@.len(),
            ids@ == c@.replica_ids(fipe@, t),
            forall|q: int| 0 <= q < ids@.len() ==> 1 <= #[trigger] ids@[q] <= c@.models.len(),
            ms@.len() == c@.models.len(),
            forall|i: int| 0 <= i < ms@.len() ==> #[trigger] ms@[i]@ == c@.models[i],
            bs@.len() == c@.brands.len(),
            forall|i: int| 0 <= i < bs@.len() ==> #[trigger] bs@[i]@ == c@.brands[i],
            rs@.len() == c@.refs.len(),
            forall|i: int| 0 <= i < rs@.len() ==> #[trigger] rs@[i]@ == c@.refs[i],
            out@.len() == k,
            forall|q: int| 0 <= q < k ==> joins_replica(c@, #[trigger] out@[q], ids@[q]),
        decreases ids@.len() - k,
    {
        let id = ids[k];
        let m = &ms[(id - 1) as usize];
        assert(m@ == c@.models[id - 1]);
        let b = &bs[(m.brand_id - 1) as usize];
        assert(b@ == c@.brands[m.brand_id - 1]);
        let r = &rs[(b.ref_id - 1) as usize];
        assert(r@ == c@.refs[b.ref_id - 1]);
        out.push(ModelsReplicate { id, description: m.description.clone(), ref_description: r.description.clone() });
        k = k + 1;
    }
    out
}

} // verus!
