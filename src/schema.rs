//! Records exchanged with the remote catalog API and read from the store.
use vstd::prelude::*;

verus! {

/// A vehicle type (cars, motorcycles, trucks).
pub struct Types {
    pub id: i32,
    pub description: String,
}

/// A stored reference period.
pub struct References {
    pub id: i32,
    /// The provider's "month/year" label.
    pub description: String,
    /// First day of the month, "YYYY-MM-01".
    pub ref_date: String,
    /// The provider's code of the period.
    pub fipe: String,
}

/// One entry of the reference-period listing.
pub struct ReferencesResponse {
    pub codigo: i32,
    pub mes: String,
}

/// A brand that still waits for its models, with what a model request needs.
pub struct Brands {
    pub id: i32,
    pub description: String,
    pub fipe: String,
    /// The provider's code of the brand's reference period.
    pub ref_id: String,
    pub ref_description: String,
    pub type_id: i32,
    pub type_description: String,
}

/// A model identity that still waits for its year variants, through one
/// representative model row and what a year request needs.
pub struct Models {
    pub id: i32,
    pub description: String,
    pub fipe: String,
    /// The provider's code of the representative's reference period.
    pub ref_id: String,
    pub ref_description: String,
    pub type_id: i32,
    pub type_description: String,
    /// The provider's code of the representative's brand.
    pub brand_id: String,
    pub brand_description: String,
}

/// A model row that receives the year variants fetched for its identity.
pub struct ModelsReplicate {
    pub id: i32,
    pub description: String,
    pub ref_description: String,
}

/// The model listing of one brand.
pub struct ModelsResponse {
    pub model: Vec<FipeModels>,
}

/// One entry of a model listing.
pub struct FipeModels {
    pub label: String,
    pub value: i32,
}

/// One entry of a brand or year listing.
pub struct FipeStruct {
    pub label: String,
    pub value: String,
}

/// The singleton status record.
pub struct Status {
    pub db_status: String,
    pub last_update: Option<String>,
}

/// Expected row counts, used only to size progress displays.
pub struct RowCount {
    pub brands_rowcount: i32,
    pub models_rowcount: i32,
    pub years_rowcount: i32,
    pub vehicles_rowcount: i32,
}

/// A row count of one table.
pub struct Count {
    pub count: i32,
}

} // verus!
