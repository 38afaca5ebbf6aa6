//! The catalog store: its tables in id order, the uniqueness of their natural
//! keys, and the stage units that take a fetched listing in.
use vstd::prelude::*;
use crate::schema::{Types, References, ReferencesResponse, FipeStruct, FipeModels};
use crate::text::{decimal, trimmed, date_of_label, year_date_of, fuel_of, int_text, parse_date, parse_year};

verus! {

/// Most rows a table holds; ids run from 1 to this bound.
pub const MAX_ROWS: usize = 2_000_000_000;

/// A stored brand, scoped to a vehicle type and a reference period.
pub struct BrandRow {
    pub id: i32,
    pub description: String,
    pub fipe: String,
    pub type_id: i32,
    pub ref_id: i32,
}

/// A stored model, scoped to a brand row.
pub struct ModelRow {
    pub id: i32,
    pub description: String,
    pub fipe: String,
    pub brand_id: i32,
}

/// A stored year/fuel variant, scoped to a model row.
pub struct YearRow {
    pub id: i32,
    pub description: String,
    /// January 1st of the variant's year, "YYYY-01-01".
    pub value: String,
    pub fipe: String,
    pub model_id: i32,
    pub fuel_id: Option<i32>,
}

pub struct TypeV {
    pub id: i32,
    pub description: Seq<char>,
}

pub struct RefV {
    pub id: i32,
    pub description: Seq<char>,
    pub ref_date: Seq<char>,
    pub fipe: Seq<char>,
}

pub struct BrandV {
    pub id: i32,
    pub description: Seq<char>,
    pub fipe: Seq<char>,
    pub type_id: i32,
    pub ref_id: i32,
}

pub struct ModelV {
    pub id: i32,
    pub description: Seq<char>,
    pub fipe: Seq<char>,
    pub brand_id: i32,
}

pub struct YearV {
    pub id: i32,
    pub description: Seq<char>,
    pub value: Seq<char>,
    pub fipe: Seq<char>,
    pub model_id: i32,
    pub fuel_id: Option<i32>,
}

impl View for Types {
    type V = TypeV;

    open spec fn view(&self) -> TypeV {
        TypeV { id: self.id, description: self.description@ }
    }
}

impl View for References {
    type V = RefV;

    open spec fn view(&self) -> RefV {
        RefV {
            id: self.id,
            description: self.description@,
            ref_date: self.ref_date@,
            fipe: self.fipe@,
        }
    }
}

impl View for BrandRow {
    type V = BrandV;

    open spec fn view(&self) -> BrandV {
        BrandV {
            id: self.id,
            description: self.description@,
            fipe: self.fipe@,
            type_id: self.type_id,
            ref_id: self.ref_id,
        }
    }
}

impl View for ModelRow {
    type V = ModelV;

    open spec fn view(&self) -> ModelV {
        ModelV {
            id: self.id,
            description: self.description@,
            fipe: self.fipe@,
            brand_id: self.brand_id,
        }
    }
}

impl View for YearRow {
    type V = YearV;

    open spec fn view(&self) -> YearV {
        YearV {
            id: self.id,
            description: self.description@,
            value: self.value@,
            fipe: self.fipe@,
            model_id: self.model_id,
            fuel_id: self.fuel_id,
        }
    }
}

/// The content of the store: one sequence of rows per table, in id order.
pub struct CatalogV {
    pub types: Seq<TypeV>,
    pub refs: Seq<RefV>,
    pub brands: Seq<BrandV>,
    pub models: Seq<ModelV>,
    pub years: Seq<YearV>,
}

/// A parent id names a row of a table of `len` rows.
pub open spec fn valid_id(id: i32, len: int) -> bool {
    1 <= id <= len
}

impl CatalogV {
    pub open spec fn ids_dense(self) -> bool {
        &&& forall|i: int| 0 <= i < self.types.len() ==> #[trigger] self.types[i].id == i + 1
        &&& forall|i: int| 0 <= i < self.refs.len() ==> #[trigger] self.refs[i].id == i + 1
        &&& forall|i: int| 0 <= i < self.brands.len() ==> #[trigger] self.brands[i].id == i + 1
        &&& forall|i: int| 0 <= i < self.models.len() ==> #[trigger] self.models[i].id == i + 1
        &&& forall|i: int| 0 <= i < self.years.len() ==> #[trigger] self.years[i].id == i + 1
    }

    pub open spec fn within_bounds(self) -> bool {
        &&& self.types.len() <= MAX_ROWS
        &&& self.refs.len() <= MAX_ROWS
        &&& self.brands.len() <= MAX_ROWS
        &&& self.models.len() <= MAX_ROWS
        &&& self.years.len() <= MAX_ROWS
    }

    /// Every row names an existing parent.
    pub open spec fn parents_exist(self) -> bool {
        &&& forall|i: int|
            #![trigger self.brands[i]]
            0 <= i < self.brands.len() ==> valid_id(self.brands[i].type_id, self.types.len() as int)
                && valid_id(self.brands[i].ref_id, self.refs.len() as int)
        &&& forall|i: int|
            #![trigger self.models[i]]
            0 <= i < self.models.len() ==> valid_id(self.models[i].brand_id, self.brands.len() as int)
        &&& forall|i: int|
            #![trigger self.years[i]]
            0 <= i < self.years.len() ==> valid_id(self.years[i].model_id, self.models.len() as int)
    }

    /// No two rows of a table share their natural key: a period's code; a
    /// brand's (code, vehicle type, period); a model's (code, brand); a year
    /// variant's (code, model). The brand key includes the vehicle type: two
    /// types may list the same brand code in one period (cars and trucks both
    /// list Ford under one code), and each keeps its own row.
    pub open spec fn keys_unique(self) -> bool {
        &&& forall|i: int, j: int|
            0 <= i < j < self.refs.len() ==> #[trigger] self.refs[i].fipe != #[trigger] self.refs[j].fipe
        &&& forall|i: int, j: int|
            0 <= i < j < self.brands.len() ==> !same_brand_key(
                #[trigger] self.brands[i],
                #[trigger] self.brands[j],
            )
        &&& forall|i: int, j: int|
            0 <= i < j < self.models.len() ==> !same_model_key(
                #[trigger] self.models[i],
                #[trigger] self.models[j],
            )
        &&& forall|i: int, j: int|
            0 <= i < j < self.years.len() ==> !same_year_key(
                #[trigger] self.years[i],
                #[trigger] self.years[j],
            )
    }

    pub open spec fn with_type(self, description: Seq<char>) -> CatalogV {
        CatalogV {
            types: self.types.push(TypeV { id: (self.types.len() + 1) as i32, description }),
            ..self
        }
    }

    pub open spec fn with_ref(self, description: Seq<char>, ref_date: Seq<char>, fipe: Seq<char>) -> CatalogV {
        CatalogV {
            refs: self.refs.push(
                RefV { id: (self.refs.len() + 1) as i32, description, ref_date, fipe },
            ),
            ..self
        }
    }

    pub open spec fn with_brand(self, description: Seq<char>, fipe: Seq<char>, t: i32, r: i32) -> CatalogV {
        CatalogV {
            brands: self.brands.push(
                BrandV { id: (self.brands.len() + 1) as i32, description, fipe, type_id: t, ref_id: r },
            ),
            ..self
        }
    }

    pub open spec fn with_model(self, description: Seq<char>, fipe: Seq<char>, b: i32) -> CatalogV {
        CatalogV {
            models: self.models.push(
                ModelV { id: (self.models.len() + 1) as i32, description, fipe, brand_id: b },
            ),
            ..self
        }
    }

    pub open spec fn with_year(
        self,
        description: Seq<char>,
        value: Seq<char>,
        fipe: Seq<char>,
        m: i32,
        fuel_id: Option<i32>,
    ) -> CatalogV {
        CatalogV {
            years: self.years.push(
                YearV {
                    id: (self.years.len() + 1) as i32,
                    description,
                    value,
                    fipe,
                    model_id: m,
                    fuel_id,
                },
            ),
            ..self
        }
    }

    /// The store after the reference stage has taken in the listing `l`: each
    /// entry whose code is new becomes a period dated by its label.
    pub open spec fn refs_after(self, l: Seq<ReferencesResponse>) -> CatalogV
        decreases l.len(),
    {
        if l.len() == 0 {
            self
        } else {
            let p = self.refs_after(l.drop_last());
            let e = l.last();
            let code = decimal(e.codigo as int);
            if p.has_ref_code(code) {
                p
            } else {
                p.with_ref(e.mes@, date_of_label(trimmed(e.mes@)), code)
            }
        }
    }

    /// The store after the brand listing `l` of type `t` and period `r` was
    /// taken in: each entry whose key is new becomes a brand row.
    pub open spec fn brands_after(self, t: i32, r: i32, l: Seq<FipeStruct>) -> CatalogV
        decreases l.len(),
    {
        if l.len() == 0 {
            self
        } else {
            let p = self.brands_after(t, r, l.drop_last());
            let e = l.last();
            if p.has_brand_key(e.value@, t, r) {
                p
            } else {
                p.with_brand(e.label@, e.value@, t, r)
            }
        }
    }

    /// The store after the model listing `l` of brand `b` was taken in.
    pub open spec fn models_after(self, b: i32, l: Seq<FipeModels>) -> CatalogV
        decreases l.len(),
    {
        if l.len() == 0 {
            self
        } else {
            let p = self.models_after(b, l.drop_last());
            let e = l.last();
            let code = decimal(e.value as int);
            if p.has_model_key(code, b) {
                p
            } else {
                p.with_model(e.label@, code, b)
            }
        }
    }

    /// The store after one year variant `e` was written to each model row of `reps`.
    pub open spec fn year_entry_after(self, reps: Seq<i32>, e: FipeStruct, current_year: int) -> CatalogV
        decreases reps.len(),
    {
        if reps.len() == 0 {
            self
        } else {
            let p = self.year_entry_after(reps.drop_last(), e, current_year);
            let m = reps.last();
            if p.has_year_key(e.value@, m) {
                p
            } else {
                p.with_year(e.label@, year_date_of(e.value@, current_year), e.value@, m, fuel_of(e.value@))
            }
        }
    }

    /// The store after the year listing `l` was fanned out to the model rows `reps`.
    pub open spec fn years_after(self, reps: Seq<i32>, l: Seq<FipeStruct>, current_year: int) -> CatalogV
        decreases l.len(),
    {
        if l.len() == 0 {
            self
        } else {
            self.years_after(reps, l.drop_last(), current_year).year_entry_after(reps, l.last(), current_year)
        }
    }

    /// Ids of the model rows among the first `n` that are replicas of the identity.
    pub open spec fn replicas_upto(self, fipe: Seq<char>, t: i32, n: int) -> Seq<i32>
        decreases n,
    {
        if n <= 0 {
            Seq::empty()
        } else if self.is_replica(n - 1, fipe, t) {
            self.replicas_upto(fipe, t, n - 1).push(n as i32)
        } else {
            self.replicas_upto(fipe, t, n - 1)
        }
    }

    /// Ids, in order, of the model rows that have the identity and no year variant yet.
    pub open spec fn replica_ids(self, fipe: Seq<char>, t: i32) -> Seq<i32> {
        self.replicas_upto(fipe, t, self.models.len() as int)
    }

    pub open spec fn wf(self) -> bool {
        &&& self.ids_dense()
        &&& self.within_bounds()
        &&& self.parents_exist()
        &&& self.keys_unique()
    }

    /// Some brand row belongs to reference period `r`.
    pub open spec fn ref_used(self, r: int) -> bool {
        exists|j: int| 0 <= j < self.brands.len() && #[trigger] self.brands[j].ref_id == r
    }

    /// Some model row belongs to brand `b`.
    pub open spec fn brand_used(self, b: int) -> bool {
        exists|j: int| 0 <= j < self.models.len() && #[trigger] self.models[j].brand_id == b
    }

    /// Some year row belongs to model `m`.
    pub open spec fn model_used(self, m: int) -> bool {
        exists|j: int| 0 <= j < self.years.len() && #[trigger] self.years[j].model_id == m
    }

    /// Some brand row has type `t` and reference period `r`.
    pub open spec fn pair_used(self, t: int, r: int) -> bool {
        exists|j: int|
            0 <= j < self.brands.len() && #[trigger] self.brands[j].type_id == t
                && self.brands[j].ref_id == r
    }

    pub open spec fn has_ref_code(self, fipe: Seq<char>) -> bool {
        exists|j: int| 0 <= j < self.refs.len() && #[trigger] self.refs[j].fipe == fipe
    }

    pub open spec fn has_brand_key(self, fipe: Seq<char>, t: i32, r: i32) -> bool {
        exists|j: int|
            0 <= j < self.brands.len() && #[trigger] self.brands[j].fipe == fipe
                && self.brands[j].type_id == t && self.brands[j].ref_id == r
    }

    pub open spec fn has_model_key(self, fipe: Seq<char>, b: i32) -> bool {
        exists|j: int|
            0 <= j < self.models.len() && #[trigger] self.models[j].fipe == fipe
                && self.models[j].brand_id == b
    }

    pub open spec fn has_year_key(self, fipe: Seq<char>, m: i32) -> bool {
        exists|j: int|
            0 <= j < self.years.len() && #[trigger] self.years[j].fipe == fipe
                && self.years[j].model_id == m
    }

    /// The brand id of each model row.
    pub open spec fn model_parents(self) -> Seq<i32> {
        self.models.map_values(|m: ModelV| m.brand_id)
    }

    /// The model id of each year row.
    pub open spec fn year_parents(self) -> Seq<i32> {
        self.years.map_values(|y: YearV| y.model_id)
    }

    /// The vehicle type of model row `i` (an index), through its brand.
    pub open spec fn model_type(self, i: int) -> i32 {
        self.brands[self.models[i].brand_id - 1].type_id
    }

    /// Model row `i` (an index) has the canonical identity (`fipe`, `t`).
    pub open spec fn has_identity(self, i: int, fipe: Seq<char>, t: i32) -> bool {
        self.models[i].fipe == fipe && self.model_type(i) == t
    }

    /// Model row `i` (an index) shares the identity and has no year variant yet.
    pub open spec fn is_replica(self, i: int, fipe: Seq<char>, t: i32) -> bool {
        0 <= i < self.models.len() && self.has_identity(i, fipe, t) && !self.model_used(i + 1)
    }

    /// Not every model row of the identity has a year variant yet.
    pub open spec fn identity_pending(self, fipe: Seq<char>, t: i32) -> bool {
        exists|i: int| #[trigger] self.is_replica(i, fipe, t)
    }
}

pub open spec fn same_brand_key(a: BrandV, b: BrandV) -> bool {
    a.fipe == b.fipe && a.type_id == b.type_id && a.ref_id == b.ref_id
}

pub open spec fn same_model_key(a: ModelV, b: ModelV) -> bool {
    a.fipe == b.fipe && a.brand_id == b.brand_id
}

pub open spec fn same_year_key(a: YearV, b: YearV) -> bool {
    a.fipe == b.fipe && a.model_id == b.model_id
}

/// The replica list holds, in increasing order, exactly the ids of the replicas
/// among the first `n` model rows.
pub proof fn lemma_replicas_upto(v: CatalogV, fipe: Seq<char>, t: i32, n: int)
    requires
        0 <= n <= v.models.len(),
        v.models.len() <= MAX_ROWS,
    ensures
        v.replicas_upto(fipe, t, n).len() <= n,
        forall|k: int|
            0 <= k < v.replicas_upto(fipe, t, n).len() ==> 1 <= #[trigger] v.replicas_upto(fipe, t, n)[k] <= n
                && v.is_replica(v.replicas_upto(fipe, t, n)[k] - 1, fipe, t),
        forall|i: int|
            0 <= i < n && #[trigger] v.is_replica(i, fipe, t) ==> exists|k: int|
                0 <= k < v.replicas_upto(fipe, t, n).len() && v.replicas_upto(fipe, t, n)[k] == i + 1,
        forall|a: int, b: int|
            0 <= a < b < v.replicas_upto(fipe, t, n).len() ==> v.replicas_upto(fipe, t, n)[a]
                < v.replicas_upto(fipe, t, n)[b],
    decreases n,
{
    if n > 0 {
        lemma_replicas_upto(v, fipe, t, n - 1);
        let p = v.replicas_upto(fipe, t, n - 1);
        let r = v.replicas_upto(fipe, t, n);
        if v.is_replica(n - 1, fipe, t) {
            assert(r[p.len() as int] == n);
            assert forall|i: int| 0 <= i < n && #[trigger] v.is_replica(i, fipe, t) implies exists|k: int|
                0 <= k < r.len() && r[k] == i + 1 by {
                if i < n - 1 {
                    let k = choose|k: int| 0 <= k < p.len() && p[k] == i + 1;
                    assert(r[k] == i + 1);
                } else {
                    assert(r[p.len() as int] == i + 1);
                }
            }
        }
    }
}

/// Row `j`'s link to the previous row with the same parent id: none, or the
/// nearest earlier row of that parent.
pub open spec fn prev_link_ok(ps: Seq<i32>, prev: Seq<Option<usize>>, j: int) -> bool {
    match prev[j] {
        None => forall|k: int| 0 <= k < j ==> #[trigger] ps[k] != ps[j],
        Some(p) => p < j && ps[p as int] == ps[j] && forall|k: int| p < k < j ==> #[trigger] ps[k] != ps[j],
    }
}

/// The link from parent `m` to its last row: none, or the last row of that parent.
pub open spec fn last_link_ok(ps: Seq<i32>, last: Option<usize>, m: int) -> bool {
    match last {
        None => forall|k: int| 0 <= k < ps.len() ==> #[trigger] ps[k] != m,
        Some(p) => p < ps.len() && ps[p as int] == m && forall|k: int| p < k < ps.len() ==> #[trigger] ps[k] != m,
    }
}

/// The rows with parent ids `ps` are chained per parent: walking back from
/// `last[m - 1]` through `prev` visits every row of parent `m`.
pub open spec fn chain_ok(ps: Seq<i32>, prev: Seq<Option<usize>>, last: Seq<Option<usize>>) -> bool {
    &&& prev.len() == ps.len()
    &&& forall|j: int| 0 <= j < ps.len() ==> #[trigger] prev_link_ok(ps, prev, j)
    &&& forall|m: int| 0 <= m < last.len() ==> #[trigger] last_link_ok(ps, last[m], m + 1)
}

proof fn lemma_chain_push(ps: Seq<i32>, prev: Seq<Option<usize>>, last: Seq<Option<usize>>, m: i32)
    requires
        chain_ok(ps, prev, last),
        1 <= m <= last.len(),
        ps.len() < MAX_ROWS,
    ensures
        chain_ok(ps.push(m), prev.push(last[m - 1]), last.update(m - 1, Some(ps.len() as usize))),
{
    let n = ps.len() as int;
    let ps2 = ps.push(m);
    let prev2 = prev.push(last[m - 1]);
    let last2 = last.update(m - 1, Some(ps.len() as usize));
    let x = m - 1;
    assert(last_link_ok(ps, last[x], x + 1));
    assert forall|j: int| 0 <= j < ps2.len() implies #[trigger] prev_link_ok(ps2, prev2, j) by {
        if j < n {
            assert(prev_link_ok(ps, prev, j));
            assert forall|k: int| 0 <= k < j implies ps2[k] == ps[k] by {}
        } else {
            match last[m - 1] {
                None => {
                    assert forall|k: int| 0 <= k < j implies #[trigger] ps2[k] != ps2[j] by {
                        assert(ps2[k] == ps[k]);
                    }
                },
                Some(p) => {
                    assert forall|k: int| p < k < j implies #[trigger] ps2[k] != ps2[j] by {
                        assert(ps2[k] == ps[k]);
                    }
                },
            }
        }
    }
    assert forall|x: int| 0 <= x < last2.len() implies #[trigger] last_link_ok(ps2, last2[x], x + 1) by {
        if x != m - 1 {
            assert(last_link_ok(ps, last[x], x + 1));
            match last[x] {
                None => {
                    assert forall|k: int| 0 <= k < ps2.len() implies #[trigger] ps2[k] != x + 1 by {
                        if k < n {
                            assert(ps2[k] == ps[k]);
                        }
                    }
                },
                Some(p) => {
                    assert forall|k: int| p < k < ps2.len() implies #[trigger] ps2[k] != x + 1 by {
                        if k < n {
                            assert(ps2[k] == ps[k]);
                        }
                    }
                },
            }
        }
    }
}

proof fn lemma_chain_new_parent(ps: Seq<i32>, prev: Seq<Option<usize>>, last: Seq<Option<usize>>)
    requires
        chain_ok(ps, prev, last),
        forall|k: int| 0 <= k < ps.len() ==> #[trigger] ps[k] <= last.len(),
    ensures
        chain_ok(ps, prev, last.push(None)),
{
    let last2 = last.push(None);
    assert forall|x: int| 0 <= x < last2.len() implies #[trigger] last_link_ok(ps, last2[x], x + 1) by {
        if x < last.len() {
            assert(last_link_ok(ps, last[x], x + 1));
        }
    }
}

/// The index just below the rows a chain walk still has to visit.
pub open spec fn below(cur: Option<usize>) -> int {
    match cur {
        Some(p) => p as int,
        None => -1,
    }
}

/// The store. Each period carries a mark of whether it has brands; brand and
/// model rows are chained per parent, so a key check walks only that
/// parent's rows.
pub struct Catalog {
    types: Vec<Types>,
    references: Vec<References>,
    brands: Vec<BrandRow>,
    models: Vec<ModelRow>,
    years: Vec<YearRow>,
    ref_marks: Vec<bool>,
    model_prev: Vec<Option<usize>>,
    brand_last: Vec<Option<usize>>,
    year_prev: Vec<Option<usize>>,
    model_last: Vec<Option<usize>>,
}

impl View for Catalog {
    type V = CatalogV;

    closed spec fn view(&self) -> CatalogV {
        CatalogV {
            types: self.types@.map_values(|t: Types| t@),
            refs: self.references@.map_values(|r: References| r@),
            brands: self.brands@.map_values(|b: BrandRow| b@),
            models: self.models@.map_values(|m: ModelRow| m@),
            years: self.years@.map_values(|y: YearRow| y@),
        }
    }
}

impl Catalog {
    /// The view is well formed and the marks and chains agree with it.
    pub closed spec fn wf(&self) -> bool {
        &&& self@.wf()
        &&& self.brand_last@.len() == self.brands@.len()
        &&& self.model_last@.len() == self.models@.len()
        &&& chain_ok(self@.model_parents(), self.model_prev@, self.brand_last@)
        &&& chain_ok(self@.year_parents(), self.year_prev@, self.model_last@)
        &&& self.ref_marks@.len() == self.references@.len()
        &&& forall|i: int|
            0 <= i < self.ref_marks@.len() ==> #[trigger] self.ref_marks@[i] == self@.ref_used(i + 1)
    }

    proof fn lemma_view_lens(&self)
        ensures
            self@.types.len() == self.types@.len(),
            self@.refs.len() == self.references@.len(),
            self@.brands.len() == self.brands@.len(),
            self@.models.len() == self.models@.len(),
            self@.years.len() == self.years@.len(),
            forall|i: int| 0 <= i < self.types@.len() ==> #[trigger] self@.types[i] == self.types@[i]@,
            forall|i: int|
                0 <= i < self.references@.len() ==> #[trigger] self@.refs[i] == self.references@[i]@,
            forall|i: int| 0 <= i < self.brands@.len() ==> #[trigger] self@.brands[i] == self.brands@[i]@,
            forall|i: int| 0 <= i < self.models@.len() ==> #[trigger] self@.models[i] == self.models@[i]@,
            forall|i: int| 0 <= i < self.years@.len() ==> #[trigger] self@.years[i] == self.years@[i]@,
    {
    }

    /// Appends a brand row whose key is not present yet.
    fn push_brand(&mut self, description: String, fipe: String, t: i32, r: i32) -> (id: i32)
        requires
            old(self).wf(),
            valid_id(t, old(self)@.types.len() as int),
            valid_id(r, old(self)@.refs.len() as int),
            !old(self)@.has_brand_key(fipe@, t, r),
            old(self)@.brands.len() < MAX_ROWS,
        ensures
            final(self).wf(),
            id == old(self)@.brands.len() + 1,
            final(self)@ == (CatalogV {
                brands: old(self)@.brands.push(
                    BrandV { id, description: description@, fipe: fipe@, type_id: t, ref_id: r },
                ),
                ..old(self)@
            }),
    {
        let ghost old_v = self@;
        proof {
            self.lemma_view_lens();
        }
        let id = (self.brands.len() + 1) as i32;
        let row = BrandRow { id, description, fipe, type_id: t, ref_id: r };
        let ghost nb = row@;
        self.brands.push(row);
        self.ref_marks.set((r - 1) as usize, true);
        self.brand_last.push(None);
        proof {
            self.lemma_view_lens();
            let nv = self@;
            assert forall|k: int| 0 <= k < old_v.model_parents().len() implies #[trigger] old_v.model_parents()[k]
                <= old_v.brands.len() by {
                assert(old_v.model_parents()[k] == old_v.models[k].brand_id);
            }
            lemma_chain_new_parent(old_v.model_parents(), self.model_prev@, old(self).brand_last@);
            assert(nv.model_parents() =~= old_v.model_parents());
            assert(nv.year_parents() =~= old_v.year_parents());
            assert(nv.brands =~= old_v.brands.push(nb));
            assert(nv.types =~= old_v.types);
            assert(nv.refs =~= old_v.refs);
            assert(nv.models =~= old_v.models);
            assert(nv.years =~= old_v.years);
            assert forall|i: int| 0 <= i < self.ref_marks@.len() implies #[trigger] self.ref_marks@[i]
                == nv.ref_used(i + 1) by {
                if i != r - 1 && old_v.ref_used(i + 1) {
                    let j = choose|j: int| 0 <= j < old_v.brands.len() && #[trigger] old_v.brands[j].ref_id == i + 1;
                    assert(nv.brands[j].ref_id == i + 1);
                }
                if i == r - 1 {
                    assert(nv.brands[old_v.brands.len() as int].ref_id == r);
                }
            }
            assert forall|i: int, j: int| 0 <= i < j < nv.brands.len() implies !same_brand_key(
                #[trigger] nv.brands[i], #[trigger] nv.brands[j]) by {
                if j == old_v.brands.len() {
                    if same_brand_key(nv.brands[i], nv.brands[j]) {
                        assert(old_v.brands[i].fipe == fipe@ && old_v.brands[i].type_id == t && old_v.brands[i].ref_id == r);
                    }
                }
            }
        }
        id
    }

    /// Appends a vehicle type.
    fn push_type(&mut self, description: String) -> (id: i32)
        requires
            old(self).wf(),
            old(self)@.types.len() < MAX_ROWS,
        ensures
            final(self).wf(),
            id == old(self)@.types.len() + 1,
            final(self)@ == (CatalogV {
                types: old(self)@.types.push(TypeV { id, description: description@ }),
                ..old(self)@
            }),
    {
        let ghost old_v = self@;
        proof {
            self.lemma_view_lens();
        }
        let id = (self.types.len() + 1) as i32;
        let row = Types { id, description };
        let ghost nt = row@;
        self.types.push(row);
        proof {
            self.lemma_view_lens();
            let nv = self@;
            assert(nv.types =~= old_v.types.push(nt));
            assert(nv.refs =~= old_v.refs);
            assert(nv.brands =~= old_v.brands);
            assert(nv.models =~= old_v.models);
            assert(nv.years =~= old_v.years);
        }
        id
    }

    /// Appends a reference period whose code is not present yet.
    fn push_reference(&mut self, description: String, ref_date: String, fipe: String) -> (id: i32)
        requires
            old(self).wf(),
            !old(self)@.has_ref_code(fipe@),
            old(self)@.refs.len() < MAX_ROWS,
        ensures
            final(self).wf(),
            id == old(self)@.refs.len() + 1,
            final(self)@ == (CatalogV {
                refs: old(self)@.refs.push(
                    RefV { id, description: description@, ref_date: ref_date@, fipe: fipe@ },
                ),
                ..old(self)@
            }),
    {
        let ghost old_v = self@;
        proof {
            self.lemma_view_lens();
        }
        let id = (self.references.len() + 1) as i32;
        let row = References { id, description, ref_date, fipe };
        let ghost nr = row@;
        self.references.push(row);
        self.ref_marks.push(false);
        proof {
            self.lemma_view_lens();
            let nv = self@;
            assert(nv.refs =~= old_v.refs.push(nr));
            assert(nv.types =~= old_v.types);
            assert(nv.brands =~= old_v.brands);
            assert(nv.models =~= old_v.models);
            assert(nv.years =~= old_v.years);
            assert forall|i: int| 0 <= i < self.ref_marks@.len() implies #[trigger] self.ref_marks@[i]
                == nv.ref_used(i + 1) by {
                if i == old_v.refs.len() {
                    assert(!nv.ref_used(i + 1));
                }
            }
            assert forall|i: int, j: int| 0 <= i < j < nv.refs.len() implies #[trigger] nv.refs[i].fipe
                != #[trigger] nv.refs[j].fipe by {
                if j == old_v.refs.len() && nv.refs[i].fipe == nv.refs[j].fipe {
                    assert(old_v.refs[i].fipe == fipe@);
                }
            }
        }
        id
    }

    /// Appends a model row whose key is not present yet.
    fn push_model(&mut self, description: String, fipe: String, b: i32) -> (id: i32)
        requires
            old(self).wf(),
            valid_id(b, old(self)@.brands.len() as int),
            !old(self)@.has_model_key(fipe@, b),
            old(self)@.models.len() < MAX_ROWS,
        ensures
            final(self).wf(),
            id == old(self)@.models.len() + 1,
            final(self)@ == (CatalogV {
                models: old(self)@.models.push(
                    ModelV { id, description: description@, fipe: fipe@, brand_id: b },
                ),
                ..old(self)@
            }),
    {
        let ghost old_v = self@;
        proof {
            self.lemma_view_lens();
        }
        let id = (self.models.len() + 1) as i32;
        let row = ModelRow { id, description, fipe, brand_id: b };
        let ghost nm = row@;
        let n = self.models.len();
        let prev = self.brand_last[(b - 1) as usize];
        self.models.push(row);
        self.model_prev.push(prev);
        self.brand_last.set((b - 1) as usize, Some(n));
        self.model_last.push(None);
        proof {
            self.lemma_view_lens();
            let nv = self@;
            lemma_chain_push(old_v.model_parents(), old(self).model_prev@, old(self).brand_last@, b);
            assert(nv.model_parents() =~= old_v.model_parents().push(b));
            assert forall|k: int| 0 <= k < old_v.year_parents().len() implies #[trigger] old_v.year_parents()[k]
                <= old_v.models.len() by {
                assert(old_v.year_parents()[k] == old_v.years[k].model_id);
            }
            lemma_chain_new_parent(old_v.year_parents(), self.year_prev@, old(self).model_last@);
            assert(nv.year_parents() =~= old_v.year_parents());
            assert(nv.models =~= old_v.models.push(nm));
            assert(nv.types =~= old_v.types);
            assert(nv.refs =~= old_v.refs);
            assert(nv.brands =~= old_v.brands);
            assert(nv.years =~= old_v.years);
            assert forall|i: int| 0 <= i < self.ref_marks@.len() implies #[trigger] self.ref_marks@[i]
                == nv.ref_used(i + 1) by {
            }
            assert forall|i: int, j: int| 0 <= i < j < nv.models.len() implies !same_model_key(
                #[trigger] nv.models[i], #[trigger] nv.models[j]) by {
                if j == old_v.models.len() {
                    if same_model_key(nv.models[i], nv.models[j]) {
                        assert(old_v.models[i].fipe == fipe@ && old_v.models[i].brand_id == b);
                    }
                }
            }
        }
        id
    }

    /// Appends a year row whose key is not present yet.
    fn push_year(
        &mut self,
        description: String,
        value: String,
        fipe: String,
        m: i32,
        fuel_id: Option<i32>,
    ) -> (id: i32)
        requires
            old(self).wf(),
            valid_id(m, old(self)@.models.len() as int),
            !old(self)@.has_year_key(fipe@, m),
            old(self)@.years.len() < MAX_ROWS,
        ensures
            final(self).wf(),
            id == old(self)@.years.len() + 1,
            final(self)@ == (CatalogV {
                years: old(self)@.years.push(
                    YearV {
                        id,
                        description: description@,
                        value: value@,
                        fipe: fipe@,
                        model_id: m,
                        fuel_id,
                    },
                ),
                ..old(self)@
            }),
    {
        let ghost old_v = self@;
        proof {
            self.lemma_view_lens();
        }
        let id = (self.years.len() + 1) as i32;
        let row = YearRow { id, description, value, fipe, model_id: m, fuel_id };
        let ghost ny = row@;
        let n = self.years.len();
        let prev = self.model_last[(m - 1) as usize];
        self.years.push(row);
        self.year_prev.push(prev);
        self.model_last.set((m - 1) as usize, Some(n));
        proof {
            self.lemma_view_lens();
            let nv = self@;
            lemma_chain_push(old_v.year_parents(), old(self).year_prev@, old(self).model_last@, m);
            assert(nv.year_parents() =~= old_v.year_parents().push(m));
            assert(nv.model_parents() =~= old_v.model_parents());
            assert(nv.years =~= old_v.years.push(ny));
            assert(nv.types =~= old_v.types);
            assert(nv.refs =~= old_v.refs);
            assert(nv.brands =~= old_v.brands);
            assert(nv.models =~= old_v.models);
            assert forall|i: int| 0 <= i < self.ref_marks@.len() implies #[trigger] self.ref_marks@[i]
                == nv.ref_used(i + 1) by {
            }
            assert forall|i: int, j: int| 0 <= i < j < nv.years.len() implies !same_year_key(
                #[trigger] nv.years[i], #[trigger] nv.years[j]) by {
                if j == old_v.years.len() {
                    if same_year_key(nv.years[i], nv.years[j]) {
                        assert(old_v.years[i].fipe == fipe@ && old_v.years[i].model_id == m);
                    }
                }
            }
        }
        id
    }

    fn find_ref_code(&self, fipe: &String) -> (found: bool)
        requires
            self.wf(),
        ensures
            found == self@.has_ref_code(fipe@),
    {
        proof {
            self.lemma_view_lens();
        }
        let mut j: usize = 0;
        while j < self.references.len()
            invariant
                self.wf(),
                j <= self@.refs.len(),
                self@.refs.len() == self.references@.len(),
                forall|k: int| 0 <= k < j ==> #[trigger] self@.refs[k].fipe != fipe@,
            decreases self.references@.len() - j,
        {
            proof {
                self.lemma_view_lens();
            }
            if self.references[j].fipe == *fipe {
                assert(self@.refs[j as int].fipe == fipe@);
                return true;
            }
            j = j + 1;
        }
        false
    }

    fn find_brand_key(&self, fipe: &String, t: i32, r: i32, from: usize) -> (found: bool)
        requires
            self.wf(),
            from <= self@.brands.len(),
            forall|k: int| 0 <= k < from ==> #[trigger] self@.brands[k].ref_id != r,
        ensures
            found == self@.has_brand_key(fipe@, t, r),
    {
        proof {
            self.lemma_view_lens();
        }
        let mut j: usize = from;
        while j < self.brands.len()
            invariant
                self.wf(),
                from <= j <= self@.brands.len(),
                self@.brands.len() == self.brands@.len(),
                forall|k: int| 0 <= k < from ==> #[trigger] self@.brands[k].ref_id != r,
                forall|k: int|
                    from <= k < j ==> !(#[trigger] self@.brands[k].fipe == fipe@ && self@.brands[k].type_id == t
                        && self@.brands[k].ref_id == r),
            decreases self.brands@.len() - j,
        {
            proof {
                self.lemma_view_lens();
            }
            let b = &self.brands[j];
            if b.type_id == t && b.ref_id == r && b.fipe == *fipe {
                assert(self@.brands[j as int].fipe == fipe@);
                return true;
            }
            j = j + 1;
        }
        proof {
            if self@.has_brand_key(fipe@, t, r) {
                let k = choose|k: int| 0 <= k < self@.brands.len() && #[trigger] self@.brands[k].fipe == fipe@
                    && self@.brands[k].type_id == t && self@.brands[k].ref_id == r;
                if k < from {
                    assert(self@.brands[k].ref_id != r);
                }
            }
        }
        false
    }

    /// What `store_references` does once the listing is known to fit.
    fn apply_references(&mut self, listing: &Vec<ReferencesResponse>) -> (added: usize)
        requires
            old(self).wf(),
            old(self)@.refs.len() + listing@.len() <= MAX_ROWS,
        ensures
            final(self).wf(),
            final(self)@ == old(self)@.refs_after(listing@),
            added == final(self)@.refs.len() - old(self)@.refs.len(),
    {
        let ghost v0 = self@;
        let mut i: usize = 0;
        let mut added: usize = 0;
        while i < listing.len()
            invariant
                self.wf(),
                i <= listing@.len(),
                self@ == v0.refs_after(listing@.take(i as int)),
                self@.refs.len() == v0.refs.len() + added,
                added <= i,
                v0.refs.len() + listing@.len() <= MAX_ROWS,
            decreases listing@.len() - i,
        {
            let e = &listing[i];
            assert(listing@.take(i + 1).drop_last() =~= listing@.take(i as int));
            let code = int_text(e.codigo);
            if !self.find_ref_code(&code) {
                let date = parse_date(e.mes.as_str());
                self.push_reference(e.mes.clone(), date, code);
                added = added + 1;
            }
            i = i + 1;
        }
        assert(listing@.take(listing@.len() as int) =~= listing@);
        added
    }

    /// What `store_brands` does once the listing is known to fit.
    fn apply_brands(&mut self, t: i32, r: i32, listing: &Vec<FipeStruct>) -> (added: usize)
        requires
            old(self).wf(),
            valid_id(t, old(self)@.types.len() as int),
            valid_id(r, old(self)@.refs.len() as int),
            old(self)@.brands.len() + listing@.len() <= MAX_ROWS,
        ensures
            final(self).wf(),
            final(self)@ == old(self)@.brands_after(t, r, listing@),
            added == final(self)@.brands.len() - old(self)@.brands.len(),
    {
        let ghost v0 = self@;
        proof {
            self.lemma_view_lens();
        }
        let start = self.brands.len();
        let from = if self.ref_marks[(r - 1) as usize] {
            0
        } else {
            start
        };
        let mut i: usize = 0;
        let mut added: usize = 0;
        while i < listing.len()
            invariant
                self.wf(),
                i <= listing@.len(),
                self@ == v0.brands_after(t, r, listing@.take(i as int)),
                self@.brands.len() == v0.brands.len() + added,
                added <= i,
                start == v0.brands.len(),
                from <= start,
                self@.types == v0.types,
                self@.refs == v0.refs,
                forall|k: int| 0 <= k < start ==> #[trigger] self@.brands[k] == v0.brands[k],
                forall|k: int| 0 <= k < from ==> #[trigger] v0.brands[k].ref_id != r,
                valid_id(t, v0.types.len() as int),
                valid_id(r, v0.refs.len() as int),
                v0.brands.len() + listing@.len() <= MAX_ROWS,
            decreases listing@.len() - i,
        {
            let e = &listing[i];
            assert(listing@.take(i + 1).drop_last() =~= listing@.take(i as int));
            if !self.find_brand_key(&e.value, t, r, from) {
                self.push_brand(e.label.clone(), e.value.clone(), t, r);
                added = added + 1;
            }
            i = i + 1;
        }
        assert(listing@.take(listing@.len() as int) =~= listing@);
        added
    }

    fn find_model_key(&self, fipe: &String, b: i32) -> (found: bool)
        requires
            self.wf(),
            valid_id(b, self@.brands.len() as int),
        ensures
            found == self@.has_model_key(fipe@, b),
    {
        proof {
            self.lemma_view_lens();
        }
        let ghost ps = self@.model_parents();
        let mut cur = self.brand_last[(b - 1) as usize];
        proof {
            let x = b - 1;
            assert(last_link_ok(ps, self.brand_last@[x], x + 1));
        }
        loop
            invariant
                self.wf(),
                ps == self@.model_parents(),
                ps.len() == self@.models.len(),
                self@.models.len() == self.models@.len(),
                match cur {
                    Some(p) => p < ps.len() && ps[p as int] == b,
                    None => true,
                },
                forall|k: int|
                    below(cur) < k < ps.len() && #[trigger] ps[k] == b ==> self@.models[k].fipe != fipe@,
            decreases below(cur) + 1,
        {
            proof {
                self.lemma_view_lens();
            }
            match cur {
                None => {
                    proof {
                        if self@.has_model_key(fipe@, b) {
                            let j = choose|j: int| 0 <= j < self@.models.len() && #[trigger] self@.models[j].fipe
                                == fipe@ && self@.models[j].brand_id == b;
                            assert(ps[j] == b);
                        }
                    }
                    return false;
                },
                Some(p) => {
                    if self.models[p].fipe == *fipe {
                        assert(ps[p as int] == self@.models[p as int].brand_id);
                        assert(self@.models[p as int].fipe == fipe@);
                        return true;
                    }
                    proof {
                        assert(prev_link_ok(ps, self.model_prev@, p as int));
                    }
                    cur = self.model_prev[p];
                },
            }
        }
    }

    fn find_year_key(&self, fipe: &String, m: i32) -> (found: bool)
        requires
            self.wf(),
            valid_id(m, self@.models.len() as int),
        ensures
            found == self@.has_year_key(fipe@, m),
    {
        proof {
            self.lemma_view_lens();
        }
        let ghost ps = self@.year_parents();
        let mut cur = self.model_last[(m - 1) as usize];
        proof {
            let x = m - 1;
            assert(last_link_ok(ps, self.model_last@[x], x + 1));
        }
        loop
            invariant
                self.wf(),
                ps == self@.year_parents(),
                ps.len() == self@.years.len(),
                self@.years.len() == self.years@.len(),
                match cur {
                    Some(p) => p < ps.len() && ps[p as int] == m,
                    None => true,
                },
                forall|k: int|
                    below(cur) < k < ps.len() && #[trigger] ps[k] == m ==> self@.years[k].fipe != fipe@,
            decreases below(cur) + 1,
        {
            proof {
                self.lemma_view_lens();
            }
            match cur {
                None => {
                    proof {
                        if self@.has_year_key(fipe@, m) {
                            let j = choose|j: int| 0 <= j < self@.years.len() && #[trigger] self@.years[j].fipe
                                == fipe@ && self@.years[j].model_id == m;
                            assert(ps[j] == m);
                        }
                    }
                    return false;
                },
                Some(p) => {
                    if self.years[p].fipe == *fipe {
                        assert(ps[p as int] == self@.years[p as int].model_id);
                        assert(self@.years[p as int].fipe == fipe@);
                        return true;
                    }
                    proof {
                        assert(prev_link_ok(ps, self.year_prev@, p as int));
                    }
                    cur = self.year_prev[p];
                },
            }
        }
    }

    /// What `store_models` does once the listing is known to fit.
    fn apply_models(&mut self, b: i32, listing: &Vec<FipeModels>) -> (added: usize)
        requires
            old(self).wf(),
            valid_id(b, old(self)@.brands.len() as int),
            old(self)@.models.len() + listing@.len() <= MAX_ROWS,
        ensures
            final(self).wf(),
            final(self)@ == old(self)@.models_after(b, listing@),
            added == final(self)@.models.len() - old(self)@.models.len(),
    {
        let ghost v0 = self@;
        proof {
            self.lemma_view_lens();
        }
        let mut i: usize = 0;
        let mut added: usize = 0;
        while i < listing.len()
            invariant
                self.wf(),
                i <= listing@.len(),
                self@ == v0.models_after(b, listing@.take(i as int)),
                self@.models.len() == v0.models.len() + added,
                added <= i,
                self@.brands == v0.brands,
                valid_id(b, v0.brands.len() as int),
                v0.models.len() + listing@.len() <= MAX_ROWS,
            decreases listing@.len() - i,
        {
            let e = &listing[i];
            assert(listing@.take(i + 1).drop_last() =~= listing@.take(i as int));
            let code = int_text(e.value);
            if !self.find_model_key(&code, b) {
                self.push_model(e.label.clone(), code, b);
                added = added + 1;
            }
            i = i + 1;
        }
        assert(listing@.take(listing@.len() as int) =~= listing@);
        added
    }

    /// Ids, in order, of the model rows with identity (`fipe`, `t`) that have no
    /// year variant yet.
    pub fn replica_ids(&self, fipe: &String, t: i32) -> (r: Vec<i32>)
        requires
            self.wf(),
        ensures
            r@ == self@.replica_ids(fipe@, t),
    {
        proof {
            self.lemma_view_lens();
        }
        let mut out: Vec<i32> = Vec::new();
        let mut i: usize = 0;
        while i < self.models.len()
            invariant
                self.wf(),
                i <= self@.models.len(),
                self@.models.len() == self.models@.len(),
                out@ == self@.replicas_upto(fipe@, t, i as int),
            decreases self.models@.len() - i,
        {
            proof {
                self.lemma_view_lens();
            }
            let m = &self.models[i];
            assert(self@.models[i as int].brand_id == m.brand_id);
            let brand = &self.brands[(m.brand_id - 1) as usize];
            assert(self@.model_type(i as int) == brand.type_id);
            proof {
                self.lemma_last_links(i as int);
            }
            if self.model_last[i].is_none() && brand.type_id == t && m.fipe == *fipe {
                out.push((i + 1) as i32);
            }
            i = i + 1;
        }
        out
    }

    /// What `store_years` does once the listing is known to fit.
    fn apply_years(&mut self, fipe: &String, t: i32, listing: &Vec<FipeStruct>, current_year: i32) -> (added: usize)
        requires
            old(self).wf(),
            old(self)@.years.len() + old(self)@.models.len() * listing@.len() <= MAX_ROWS,
        ensures
            final(self).wf(),
            final(self)@ == old(self)@.years_after(
                old(self)@.replica_ids(fipe@, t),
                listing@,
                current_year as int,
            ),
            added == final(self)@.years.len() - old(self)@.years.len(),
    {
        let ghost v0 = self@;
        proof {
            self.lemma_view_lens();
            lemma_replicas_upto(v0, fipe@, t, v0.models.len() as int);
        }
        let reps = self.replica_ids(fipe, t);
        let ghost rs = reps@;
        let start = self.years.len();
        proof {
            assert(rs.len() * listing@.len() <= v0.models.len() * listing@.len()) by (nonlinear_arith)
                requires
                    rs.len() <= v0.models.len(),
            ;
        }
        let mut i: usize = 0;
        while i < listing.len()
            invariant
                self.wf(),
                i <= listing@.len(),
                reps@ == rs,
                self@ == v0.years_after(rs, listing@.take(i as int), current_year as int),
                start == v0.years.len(),
                start <= self@.years.len() <= start + i * rs.len(),
                self@.models == v0.models,
                forall|k: int| 0 <= k < rs.len() ==> 1 <= #[trigger] rs[k] <= v0.models.len(),
                start + rs.len() * listing@.len() <= MAX_ROWS,
            decreases listing@.len() - i,
        {
            let e = &listing[i];
            assert(listing@.take(i + 1).drop_last() =~= listing@.take(i as int));
            let ghost mid = self@;
            let (date, fuel) = parse_year(e.value.as_str(), current_year);
            let mut k: usize = 0;
            while k < reps.len()
                invariant
                    self.wf(),
                    k <= rs.len(),
                    reps@ == rs,
                    e == listing@[i as int],
                    date@ == year_date_of(e.value@, current_year as int),
                    fuel == fuel_of(e.value@),
                    self@ == mid.year_entry_after(rs.take(k as int), *e, current_year as int),
                    start <= self@.years.len() <= start + i * rs.len() + k,
                    self@.models == v0.models,
                    i < listing@.len(),
                    forall|k: int| 0 <= k < rs.len() ==> 1 <= #[trigger] rs[k] <= v0.models.len(),
                    start + rs.len() * listing@.len() <= MAX_ROWS,
                decreases rs.len() - k,
            {
                let m = reps[k];
                assert(rs.take(k + 1).drop_last() =~= rs.take(k as int));
                if !self.find_year_key(&e.value, m) {
                    proof {
                        assert(i * rs.len() + k + 1 <= rs.len() * listing@.len()) by (nonlinear_arith)
                            requires
                                k < rs.len(),
                                i < listing@.len(),
                        ;
                    }
                    self.push_year(e.label.clone(), date.clone(), e.value.clone(), m, fuel);
                }
                k = k + 1;
            }
            assert(rs.take(rs.len() as int) =~= rs);
            proof {
                assert(i * rs.len() + rs.len() == (i + 1) * rs.len()) by (nonlinear_arith);
            }
            i = i + 1;
        }
        assert(listing@.take(listing@.len() as int) =~= listing@);
        self.years.len() - start
    }

    pub fn types(&self) -> (r: &Vec<Types>)
        requires
            self.wf(),
        ensures
            r@.len() == self@.types.len(),
            forall|i: int| 0 <= i < r@.len() ==> #[trigger] r@[i]@ == self@.types[i],
    {
        proof {
            self.lemma_view_lens();
        }
        &self.types
    }

    pub fn references(&self) -> (r: &Vec<References>)
        requires
            self.wf(),
        ensures
            r@.len() == self@.refs.len(),
            forall|i: int| 0 <= i < r@.len() ==> #[trigger] r@[i]@ == self@.refs[i],
    {
        proof {
            self.lemma_view_lens();
        }
        &self.references
    }

    pub fn brands(&self) -> (r: &Vec<BrandRow>)
        requires
            self.wf(),
        ensures
            r@.len() == self@.brands.len(),
            forall|i: int| 0 <= i < r@.len() ==> #[trigger] r@[i]@ == self@.brands[i],
    {
        proof {
            self.lemma_view_lens();
        }
        &self.brands
    }

    pub fn models(&self) -> (r: &Vec<ModelRow>)
        requires
            self.wf(),
        ensures
            r@.len() == self@.models.len(),
            forall|i: int| 0 <= i < r@.len() ==> #[trigger] r@[i]@ == self@.models[i],
    {
        proof {
            self.lemma_view_lens();
        }
        &self.models
    }

    pub fn years(&self) -> (r: &Vec<YearRow>)
        requires
            self.wf(),
        ensures
            r@.len() == self@.years.len(),
            forall|i: int| 0 <= i < r@.len() ==> #[trigger] r@[i]@ == self@.years[i],
    {
        proof {
            self.lemma_view_lens();
        }
        &self.years
    }

    /// Whether reference period `r` already has a brand.
    pub fn ref_has_brands(&self, r: i32) -> (used: bool)
        requires
            self.wf(),
            valid_id(r, self@.refs.len() as int),
        ensures
            used == self@.ref_used(r as int),
    {
        proof {
            self.lemma_view_lens();
        }
        self.ref_marks[(r - 1) as usize]
    }

    /// Whether brand `b` already has a model.
    pub fn brand_has_models(&self, b: i32) -> (used: bool)
        requires
            self.wf(),
            valid_id(b, self@.brands.len() as int),
        ensures
            used == self@.brand_used(b as int),
    {
        proof {
            self.lemma_view_lens();
        }
        proof {
            self.lemma_brand_last_link(b - 1);
        }
        self.brand_last[(b - 1) as usize].is_some()
    }

    /// Whether model `m` already has a year variant.
    pub fn model_has_years(&self, m: i32) -> (used: bool)
        requires
            self.wf(),
            valid_id(m, self@.models.len() as int),
        ensures
            used == self@.model_used(m as int),
    {
        proof {
            self.lemma_view_lens();
        }
        proof {
            self.lemma_last_links(m - 1);
        }
        self.model_last[(m - 1) as usize].is_some()
    }

    /// The well-formed view of a well-formed store.
    pub proof fn lemma_wf(&self)
        requires
            self.wf(),
        ensures
            self@.wf(),
    {
    }

    /// Adds a vehicle type; `None` when the table is full.
    pub fn add_type(&mut self, description: String) -> (r: Option<i32>)
        requires
            old(self).wf(),
        ensures
            final(self).wf(),
            r is Some <==> old(self)@.types.len() < MAX_ROWS,
            r is Some ==> r->0 == old(self)@.types.len() + 1 && final(self)@ == old(self)@.with_type(description@),
            r is None ==> final(self)@ == old(self)@,
    {
        proof {
            self.lemma_view_lens();
        }
        if self.types.len() >= MAX_ROWS {
            return None;
        }
        Some(self.push_type(description))
    }

    /// Adds a reference period; `None` when its code is already stored or the
    /// table is full.
    pub fn add_reference(&mut self, description: String, ref_date: String, fipe: String) -> (r: Option<i32>)
        requires
            old(self).wf(),
        ensures
            final(self).wf(),
            r is Some <==> !old(self)@.has_ref_code(fipe@) && old(self)@.refs.len() < MAX_ROWS,
            r is Some ==> r->0 == old(self)@.refs.len() + 1 && final(self)@ == old(self)@.with_ref(
                description@,
                ref_date@,
                fipe@,
            ),
            r is None ==> final(self)@ == old(self)@,
    {
        proof {
            self.lemma_view_lens();
        }
        if self.references.len() >= MAX_ROWS || self.find_ref_code(&fipe) {
            return None;
        }
        Some(self.push_reference(description, ref_date, fipe))
    }

    /// Adds a brand of type `t` and period `r`; `None` when either does not
    /// exist, the key (code, type, period) is already stored, or the table is full.
    pub fn add_brand(&mut self, description: String, fipe: String, t: i32, r: i32) -> (res: Option<i32>)
        requires
            old(self).wf(),
        ensures
            final(self).wf(),
            res is Some <==> valid_id(t, old(self)@.types.len() as int) && valid_id(r, old(self)@.refs.len() as int)
                && !old(self)@.has_brand_key(fipe@, t, r) && old(self)@.brands.len() < MAX_ROWS,
            res is Some ==> res->0 == old(self)@.brands.len() + 1 && final(self)@ == old(self)@.with_brand(
                description@,
                fipe@,
                t,
                r,
            ),
            res is None ==> final(self)@ == old(self)@,
    {
        proof {
            self.lemma_view_lens();
        }
        if t < 1 || t as usize > self.types.len() || r < 1 || r as usize > self.references.len()
            || self.brands.len() >= MAX_ROWS {
            return None;
        }
        let from = if self.ref_marks[(r - 1) as usize] {
            0
        } else {
            self.brands.len()
        };
        if self.find_brand_key(&fipe, t, r, from) {
            return None;
        }
        Some(self.push_brand(description, fipe, t, r))
    }

    /// Adds a model of brand `b`; `None` when the brand does not exist, the key
    /// (code, brand) is already stored, or the table is full.
    pub fn add_model(&mut self, description: String, fipe: String, b: i32) -> (res: Option<i32>)
        requires
            old(self).wf(),
        ensures
            final(self).wf(),
            res is Some <==> valid_id(b, old(self)@.brands.len() as int) && !old(self)@.has_model_key(fipe@, b)
                && old(self)@.models.len() < MAX_ROWS,
            res is Some ==> res->0 == old(self)@.models.len() + 1 && final(self)@ == old(self)@.with_model(
                description@,
                fipe@,
                b,
            ),
            res is None ==> final(self)@ == old(self)@,
    {
        proof {
            self.lemma_view_lens();
        }
        if b < 1 || b as usize > self.brands.len() || self.models.len() >= MAX_ROWS {
            return None;
        }
        if self.find_model_key(&fipe, b) {
            return None;
        }
        Some(self.push_model(description, fipe, b))
    }

    /// Adds a year variant of model `m`; `None` when the model does not exist,
    /// the key (code, model) is already stored, or the table is full.
    pub fn add_year(
        &mut self,
        description: String,
        value: String,
        fipe: String,
        m: i32,
        fuel_id: Option<i32>,
    ) -> (res: Option<i32>)
        requires
            old(self).wf(),
        ensures
            final(self).wf(),
            res is Some <==> valid_id(m, old(self)@.models.len() as int) && !old(self)@.has_year_key(fipe@, m)
                && old(self)@.years.len() < MAX_ROWS,
            res is Some ==> res->0 == old(self)@.years.len() + 1 && final(self)@ == old(self)@.with_year(
                description@,
                value@,
                fipe@,
                m,
                fuel_id,
            ),
            res is None ==> final(self)@ == old(self)@,
    {
        proof {
            self.lemma_view_lens();
        }
        if m < 1 || m as usize > self.models.len() || self.years.len() >= MAX_ROWS {
            return None;
        }
        if self.find_year_key(&fipe, m) {
            return None;
        }
        Some(self.push_year(description, value, fipe, m, fuel_id))
    }

    /// Takes in the reference-period listing: an entry whose code is already
    /// stored is skipped, any other is stored with its label's first-of-month
    /// date. Returns how many periods were added; `None`, with the store
    /// unchanged, when the listing might not fit in the table.
    pub fn store_references(&mut self, listing: &Vec<ReferencesResponse>) -> (added: Option<usize>)
        requires
            old(self).wf(),
        ensures
            final(self).wf(),
            added is None <==> old(self)@.refs.len() + listing@.len() > MAX_ROWS,
            added is None ==> final(self)@ == old(self)@,
            added is Some ==> final(self)@ == old(self)@.refs_after(listing@) && added->0
                == final(self)@.refs.len() - old(self)@.refs.len(),
    {
        if !self.fits_references(listing.len()) {
            return None;
        }
        Some(self.apply_references(listing))
    }

    /// Takes in the brand listing of vehicle type `t` and reference period `r`:
    /// an entry whose key (code, type, period) is already stored is skipped, any
    /// other becomes a brand row. Returns how many brands were added; `None`,
    /// with the store unchanged, when the listing might not fit in the table.
    pub fn store_brands(&mut self, t: i32, r: i32, listing: &Vec<FipeStruct>) -> (added: Option<usize>)
        requires
            old(self).wf(),
            valid_id(t, old(self)@.types.len() as int),
            valid_id(r, old(self)@.refs.len() as int),
        ensures
            final(self).wf(),
            added is None <==> old(self)@.brands.len() + listing@.len() > MAX_ROWS,
            added is None ==> final(self)@ == old(self)@,
            added is Some ==> final(self)@ == old(self)@.brands_after(t, r, listing@) && added->0
                == final(self)@.brands.len() - old(self)@.brands.len(),
    {
        if !self.fits_brands(listing.len()) {
            return None;
        }
        Some(self.apply_brands(t, r, listing))
    }

    /// Takes in the model listing of brand `b`: an entry whose key (code, brand)
    /// is already stored is skipped, any other becomes a model row. Returns how
    /// many models were added; `None`, with the store unchanged, when the
    /// listing might not fit in the table.
    pub fn store_models(&mut self, b: i32, listing: &Vec<FipeModels>) -> (added: Option<usize>)
        requires
            old(self).wf(),
            valid_id(b, old(self)@.brands.len() as int),
        ensures
            final(self).wf(),
            added is None <==> old(self)@.models.len() + listing@.len() > MAX_ROWS,
            added is None ==> final(self)@ == old(self)@,
            added is Some ==> final(self)@ == old(self)@.models_after(b, listing@) && added->0
                == final(self)@.models.len() - old(self)@.models.len(),
    {
        if !self.fits_models(listing.len()) {
            return None;
        }
        Some(self.apply_models(b, listing))
    }

    /// Fans the year listing fetched for identity (`fipe`, `t`) out to every
    /// model row of that identity that has no year variant yet: each entry
    /// becomes one year row per such model, dated by `parse_year` with the
    /// sentinel year read as `current_year`. Returns how many rows were added;
    /// `None`, with the store unchanged, when the listing written to every model
    /// row might not fit in the table.
    pub fn store_years(&mut self, fipe: &String, t: i32, listing: &Vec<FipeStruct>, current_year: i32) -> (added: Option<usize>)
        requires
            old(self).wf(),
        ensures
            final(self).wf(),
            added is None <==> old(self)@.years.len() + old(self)@.models.len() * listing@.len() > MAX_ROWS,
            added is None ==> final(self)@ == old(self)@,
            added is Some ==> final(self)@ == old(self)@.years_after(
                old(self)@.replica_ids(fipe@, t),
                listing@,
                current_year as int,
            ) && added->0 == final(self)@.years.len() - old(self)@.years.len(),
    {
        if !self.fits_years(listing.len()) {
            return None;
        }
        Some(self.apply_years(fipe, t, listing, current_year))
    }

    /// The index of the stored period with code `fipe`, if there is one.
    pub fn find_reference(&self, fipe: &String) -> (r: Option<usize>)
        requires
            self.wf(),
        ensures
            r is None <==> !self@.has_ref_code(fipe@),
            r is Some ==> r->0 < self@.refs.len() && self@.refs[r->0 as int].fipe == fipe@,
    {
        proof {
            self.lemma_view_lens();
        }
        let mut j: usize = 0;
        while j < self.references.len()
            invariant
                self.wf(),
                j <= self@.refs.len(),
                self@.refs.len() == self.references@.len(),
                forall|k: int| 0 <= k < j ==> #[trigger] self@.refs[k].fipe != fipe@,
            decreases self.references@.len() - j,
        {
            proof {
                self.lemma_view_lens();
            }
            if self.references[j].fipe == *fipe {
                assert(self@.refs[j as int].fipe == fipe@);
                return Some(j);
            }
            j = j + 1;
        }
        None
    }

    /// Whether a reference listing of `n` entries fits in the table.
    pub fn fits_references(&self, n: usize) -> (r: bool)
        requires
            self.wf(),
        ensures
            r == (self@.refs.len() + n <= MAX_ROWS),
    {
        proof {
            self.lemma_view_lens();
        }
        n <= MAX_ROWS - self.references.len()
    }

    /// Whether a brand listing of `n` entries fits in the table.
    pub fn fits_brands(&self, n: usize) -> (r: bool)
        requires
            self.wf(),
        ensures
            r == (self@.brands.len() + n <= MAX_ROWS),
    {
        proof {
            self.lemma_view_lens();
        }
        n <= MAX_ROWS - self.brands.len()
    }

    /// Whether a model listing of `n` entries fits in the table.
    pub fn fits_models(&self, n: usize) -> (r: bool)
        requires
            self.wf(),
        ensures
            r == (self@.models.len() + n <= MAX_ROWS),
    {
        proof {
            self.lemma_view_lens();
        }
        n <= MAX_ROWS - self.models.len()
    }

    /// Whether a year listing of `n` entries fits in the table even when it is
    /// written to every model row.
    pub fn fits_years(&self, n: usize) -> (r: bool)
        requires
            self.wf(),
        ensures
            r == (self@.years.len() + self@.models.len() * n <= MAX_ROWS),
    {
        proof {
            self.lemma_view_lens();
        }
        let m = self.models.len();
        let room = MAX_ROWS - self.years.len();
        if m == 0 {
            assert(self@.models.len() * n == 0) by (nonlinear_arith)
                requires
                    self@.models.len() == 0,
            ;
            return true;
        }
        let q = room / m;
        proof {
            let ni = n as int;
            let mi = m as int;
            let ri = room as int;
            let qi = q as int;
            assert(self@.models.len() * n == mi * ni);
            assert(qi * mi <= ri && ri < (qi + 1) * mi) by (nonlinear_arith)
                requires
                    mi > 0,
                    qi == ri / mi,
            ;
            if ni <= qi {
                assert(mi * ni <= mi * qi) by (nonlinear_arith)
                    requires
                        ni <= qi,
                        mi > 0,
                ;
            } else {
                assert(mi * ni >= mi * (qi + 1)) by (nonlinear_arith)
                    requires
                        ni >= qi + 1,
                        mi > 0,
                ;
            }
        }
        n <= q
    }

    /// A model has year rows exactly when its chain has a last link.
    proof fn lemma_last_links(&self, i: int)
        requires
            self.wf(),
            0 <= i < self@.models.len(),
        ensures
            self.model_last@[i] is Some <==> self@.model_used(i + 1),
    {
        let ps = self@.year_parents();
        assert(last_link_ok(ps, self.model_last@[i], i + 1));
        match self.model_last@[i] {
            Some(p) => {
                assert(ps[p as int] == self@.years[p as int].model_id);
            },
            None => {
                if self@.model_used(i + 1) {
                    let j = choose|j: int| 0 <= j < self@.years.len() && #[trigger] self@.years[j].model_id == i + 1;
                    assert(ps[j] == self@.years[j].model_id);
                }
            },
        }
    }

    /// A brand has model rows exactly when its chain has a last link.
    proof fn lemma_brand_last_link(&self, i: int)
        requires
            self.wf(),
            0 <= i < self@.brands.len(),
        ensures
            self.brand_last@[i] is Some <==> self@.brand_used(i + 1),
    {
        let ps = self@.model_parents();
        assert(last_link_ok(ps, self.brand_last@[i], i + 1));
        match self.brand_last@[i] {
            Some(p) => {
                assert(ps[p as int] == self@.models[p as int].brand_id);
            },
            None => {
                if self@.brand_used(i + 1) {
                    let j = choose|j: int| 0 <= j < self@.models.len() && #[trigger] self@.models[j].brand_id == i + 1;
                    assert(ps[j] == self@.models[j].brand_id);
                }
            },
        }
    }

    /// An empty store.
    pub fn new() -> (r: Catalog)
        ensures
            r.wf(),
            r@.types.len() == 0,
            r@.refs.len() == 0,
            r@.brands.len() == 0,
            r@.models.len() == 0,
            r@.years.len() == 0,
    {
        let r = Catalog {
            types: Vec::new(),
            references: Vec::new(),
            brands: Vec::new(),
            models: Vec::new(),
            years: Vec::new(),
            ref_marks: Vec::new(),
            model_prev: Vec::new(),
            brand_last: Vec::new(),
            year_prev: Vec::new(),
            model_last: Vec::new(),
        };
        proof {
            r.lemma_view_lens();
        }
        r
    }
}

} // verus!
