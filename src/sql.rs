//! The statements of the relational store: the schema, the pending-work
//! queries and single-row writes, and the statements that read the tables
//! whole, in id order, and write rows with the ids the catalog assigned.
use vstd::prelude::*;
use vstd::string::StringExecFns;

verus! {
pub const DROP_TABLES: &'static str = "
              DROP TABLE IF EXISTS config;
              DROP TABLE IF EXISTS years;
              DROP TABLE IF EXISTS models;
              DROP TABLE IF EXISTS brands;
              DROP TABLE IF EXISTS \"references\";
              DROP TABLE IF EXISTS fuels;
              DROP TABLE IF EXISTS types;
          ";
pub const CREATE_YEARS: &'static str = "
              CREATE TABLE years(
                  id integer PRIMARY KEY,
                  description text,
                  value date,
                  fipe text,
                  model_id integer,
                  fuel_id integer,
                  foreign key(model_id) references models(id),
                  foreign key(fuel_id) references fuels(id),
                  unique(fipe, model_id)
              )
          ";
pub const CREATE_MODELS: &'static str = "
              DROP TABLE IF EXISTS models;
              CREATE TABLE models(
                  id integer PRIMARY KEY,
                  description text,
                  fipe text,
                  brand_id integer,
                  foreign key(brand_id) references brands(id),
                  unique(fipe, brand_id)
              )
          ";
pub const CREATE_BRANDS: &'static str = "
              CREATE TABLE brands(
                  id integer PRIMARY KEY,
                  description text,
                  fipe text,
                  type_id integer,
                  ref_id integer,
                  foreign key(type_id) references types(id),
                  foreign key(ref_id) references \"references\"(id),
                  unique(fipe, ref_id)
              )
          ";
pub const CREATE_REFERENCES: &'static str = "
              CREATE TABLE \"references\"(
                  id integer PRIMARY KEY,
                  ref_date date,
                  fipe text unique
              )
          ";
pub const CREATE_TYPES: &'static str = "
              CREATE TABLE types(
                  id integer PRIMARY KEY,
                  description text
              )
          ";
pub const CREATE_FUELS: &'static str = "
              CREATE TABLE fuels(
                  id integer PRIMARY KEY,
                  description text
              )
          ";
pub const INIT_TYPES: &'static str = "INSERT INTO types(description) VALUES (?1), (?2), (?3)";
pub const INIT_FUELS: &'static str = "INSERT INTO fuels(description) VALUES (?1), (?2), (?3), (?4), (?5), (?6), (?7), (?8)";
pub const CREATE_INDEXES: &'static str = "
              CREATE INDEX idx_references_id ON \"references\" (id);
              CREATE INDEX idx_types_id ON types (id);
              CREATE INDEX idx_fuels_id ON fuels (id);
              CREATE INDEX idx_brands_ref_id ON brands (ref_id);
              CREATE INDEX idx_brands_type_id ON brands (type_id);
              CREATE INDEX idx_brands_id ON brands (id);
              CREATE INDEX idx_models_brand_id ON models (brand_id);
              CREATE INDEX idx_models_id ON models (id);
              CREATE INDEX idx_years_model_id ON years (model_id);
              CREATE INDEX idx_years_fuel_id ON years (fuel_id);
          ";
pub const CREATE_CONFIG: &'static str = "
              CREATE TABLE config(
                  db_status text,
                  last_update date,
                  brands_rowcount integer default 51500,
                  models_rowcount integer default 1970128,
                  years_rowcount integer default 8119581,
                  vehicles_rowcount integer default 0
              );

              INSERT INTO config(db_status, last_update) VALUES ('empty', datetime('now', 'localtime'));

              CREATE TRIGGER config_single_row
              BEFORE INSERT ON config
              WHEN (SELECT COUNT(*) FROM config) >= 1
              BEGIN
                  SELECT RAISE(ABORT, 'config can only have a single row.');
              END;
          ";
pub const SELECT_TYPES: &'static str = "SELECT id, description FROM types";
pub const SELECT_ALL_REFERENCES: &'static str = "
              SELECT
                  id,
                  ref_date,
                  fipe
              FROM \"references\"
              ";
pub const SELECT_REFERENCES: &'static str = "
              SELECT
                  id,
                  ref_date,
                  fipe
              FROM \"references\" r
              WHERE NOT EXISTS (
                  SELECT 1
                  FROM brands b
                  WHERE b.ref_id = r.id
              )
              ";
pub const SELECT_BRANDS: &'static str = "
              SELECT
                  b.id AS id,
                  b.description AS description,
                  b.fipe AS fipe,
                  r.id AS ref_id,
                  CASE strftime('%m', r.ref_date)
                    WHEN '01' THEN 'janeiro'
                    WHEN '02' THEN 'fevereiro'
                    WHEN '03' THEN 'março'
                    WHEN '04' THEN 'abril'
                    WHEN '05' THEN 'maio'
                    WHEN '06' THEN 'junho'
                    WHEN '07' THEN 'julho'
                    WHEN '08' THEN 'agosto'
                    WHEN '09' THEN 'setembro'
                    WHEN '10' THEN 'outubro'
                    WHEN '11' THEN 'novembro'
                    WHEN '12' THEN 'dezembro'
                  END || '/' || strftime('%Y', r.ref_date) AS ref_date,
                  b.type_id AS type_id,
                  t.description type_description
              FROM brands b
              LEFT JOIN \"references\" r ON b.ref_id = r.id
              LEFT JOIN types t ON b.type_id = t.id
              WHERE NOT EXISTS (
                  SELECT 1
                  FROM models m
                  WHERE m.brand_id = b.id
              )
          ";
pub const SELECT_MODELS: &'static str = "
              SELECT
                  m.id AS id,
                  m.description AS description,
                  m.fipe AS fipe,
                  b.fipe AS brand_id,
                  b.description AS brand_description,
                  MAX(r.fipe) AS ref_id,
                  CASE strftime('%m', r.ref_date)
                    WHEN '01' THEN 'janeiro'
                    WHEN '02' THEN 'fevereiro'
                    WHEN '03' THEN 'março'
                    WHEN '04' THEN 'abril'
                    WHEN '05' THEN 'maio'
                    WHEN '06' THEN 'junho'
                    WHEN '07' THEN 'julho'
                    WHEN '08' THEN 'agosto'
                    WHEN '09' THEN 'setembro'
                    WHEN '10' THEN 'outubro'
                    WHEN '11' THEN 'novembro'
                    WHEN '12' THEN 'dezembro'
                  END || '/' || strftime('%Y', r.ref_date) AS ref_date,
                  b.type_id AS type_id,
                  t.description AS type_description
              FROM
                  models m
              JOIN brands b ON
                  m.brand_id = b.id
              JOIN \"references\" r ON
                  b.ref_id = r.id
              JOIN types t ON
                  b.type_id = t.id
              WHERE
                  NOT EXISTS (
                  SELECT
                      1
                  FROM
                      years y
                  WHERE
                      y.model_id = m.id
              )
              GROUP BY
                  m.fipe
          ";
pub const SELECT_MODELS_REPLICATE: &'static str = "
              SELECT
              m.id AS id,
              m.description AS description,
              CASE strftime('%m', r.ref_date)
                WHEN '01' THEN 'janeiro'
                WHEN '02' THEN 'fevereiro'
                WHEN '03' THEN 'março'
                WHEN '04' THEN 'abril'
                WHEN '05' THEN 'maio'
                WHEN '06' THEN 'junho'
                WHEN '07' THEN 'julho'
                WHEN '08' THEN 'agosto'
                WHEN '09' THEN 'setembro'
                WHEN '10' THEN 'outubro'
                WHEN '11' THEN 'novembro'
                WHEN '12' THEN 'dezembro'
              END || '/' || strftime('%Y', r.ref_date) AS ref_date
              FROM models m
              LEFT JOIN brands b on m.brand_id = b.id
              LEFT JOIN \"references\" r ON b.ref_id = r.id
              WHERE m.fipe = ?1
              AND NOT EXISTS (
                  SELECT 1
                  FROM years y
                  WHERE m.id = y.model_id
              )
          ";
pub const SELECT_STATUS: &'static str = "SELECT db_status, last_update FROM config";
pub const SELECT_ROW_COUNT: &'static str = "SELECT
              brands_rowcount,
              models_rowcount,
              years_rowcount,
              vehicles_rowcount
          FROM config";
pub const INSERT_REFERENCE: &'static str = "INSERT INTO \"references\" (ref_date, fipe) VALUES (?1, ?2)";
pub const INSERT_BRAND: &'static str = "INSERT INTO brands (description, fipe, type_id, ref_id) VALUES (?1, ?2, ?3, ?4)";
pub const INSERT_MODEL: &'static str = "INSERT INTO models (description, fipe, brand_id) VALUES (?1, ?2, ?3)";
pub const INSERT_YEAR: &'static str = "INSERT INTO years (description, value, fipe, model_id, fuel_id) VALUES (?1, ?2, ?3, ?4, ?5)";
pub const UPDATE_STATUS: &'static str = "UPDATE config SET db_status = ?1, last_update = datetime('now', 'localtime')";
pub const CREATE_REFERENCES_LABELED: &'static str = "
    CREATE TABLE \"references\"(
        id integer PRIMARY KEY,
        description text,
        ref_date date,
        fipe text unique
    )
";
pub const CREATE_BRANDS_PER_TYPE: &'static str = "
    CREATE TABLE brands(
        id integer PRIMARY KEY,
        description text,
        fipe text,
        type_id integer,
        ref_id integer,
        foreign key(type_id) references types(id),
        foreign key(ref_id) references \"references\"(id),
        unique(fipe, type_id, ref_id)
    )
";
pub const LOAD_TYPES: &'static str = "SELECT id, description FROM types ORDER BY id";
pub const LOAD_REFERENCES: &'static str = "SELECT id, description, ref_date, fipe FROM \"references\" ORDER BY id";
pub const LOAD_BRANDS: &'static str = "SELECT id, description, fipe, type_id, ref_id FROM brands ORDER BY id";
pub const LOAD_MODELS: &'static str = "SELECT id, description, fipe, brand_id FROM models ORDER BY id";
pub const LOAD_YEARS: &'static str = "SELECT id, description, value, fipe, model_id, fuel_id FROM years ORDER BY id";
pub const STORE_REFERENCE: &'static str = "INSERT INTO \"references\" (id, description, ref_date, fipe) VALUES (?1, ?2, ?3, ?4)";
pub const STORE_BRAND: &'static str = "INSERT INTO brands (id, description, fipe, type_id, ref_id) VALUES (?1, ?2, ?3, ?4, ?5)";
pub const STORE_MODEL: &'static str = "INSERT INTO models (id, description, fipe, brand_id) VALUES (?1, ?2, ?3, ?4)";
pub const STORE_YEAR: &'static str = "INSERT INTO years (id, description, value, fipe, model_id, fuel_id) VALUES (?1, ?2, ?3, ?4, ?5, ?6)";
pub const SELECT_COUNT: &'static str = "SELECT count(id) FROM ";
pub const UPDATE_ROW_COUNT_HEAD: &'static str = "UPDATE config SET ";
pub const UPDATE_ROW_COUNT_TAIL: &'static str = "_rowcount = ?1";
/// A statement of the store.
pub enum Sql {
    DropTables,
    CreateYears,
    CreateModels,
    CreateBrands,
    CreateReferences,
    CreateTypes,
    CreateFuels,
    InitTypes,
    InitFuels,
    CreateIndexes,
    CreateConfig,
    SelectTypes,
    SelectAllReferences,
    SelectReferences,
    SelectBrands,
    SelectModels,
    SelectModelsReplicate,
    SelectStatus,
    SelectCount { entity: String },
    SelectRowCount,
    InsertReference,
    InsertBrand,
    InsertModel,
    InsertYear,
    UpdateStatus,
    UpdateRowCount { entity: String },
    /// The reference table with the period's label kept beside its date.
    CreateReferencesLabeled,
    /// The brand table keyed by (code, type, period): two vehicle types may list
    /// the same brand code in one period, and each keeps its own row.
    CreateBrandsPerType,
    /// Every vehicle type, in id order.
    LoadTypes,
    /// Every reference period with its label, in id order.
    LoadReferences,
    /// Every brand row, in id order.
    LoadBrands,
    /// Every model row, in id order.
    LoadModels,
    /// Every year row, in id order.
    LoadYears,
    /// A reference period with the id the catalog assigned.
    StoreReference,
    /// A brand row with the id the catalog assigned.
    StoreBrand,
    /// A model row with the id the catalog assigned.
    StoreModel,
    /// A year row with the id the catalog assigned.
    StoreYear,
}

impl Sql {
    /// The text of the statement.
    pub open spec fn text(&self) -> Seq<char> {
        match self {
            Sql::DropTables => DROP_TABLES@,
            Sql::CreateYears => CREATE_YEARS@,
            Sql::CreateModels => CREATE_MODELS@,
            Sql::CreateBrands => CREATE_BRANDS@,
            Sql::CreateReferences => CREATE_REFERENCES@,
            Sql::CreateTypes => CREATE_TYPES@,
            Sql::CreateFuels => CREATE_FUELS@,
            Sql::InitTypes => INIT_TYPES@,
            Sql::InitFuels => INIT_FUELS@,
            Sql::CreateIndexes => CREATE_INDEXES@,
            Sql::CreateConfig => CREATE_CONFIG@,
            Sql::SelectTypes => SELECT_TYPES@,
            Sql::SelectAllReferences => SELECT_ALL_REFERENCES@,
            Sql::SelectReferences => SELECT_REFERENCES@,
            Sql::SelectBrands => SELECT_BRANDS@,
            Sql::SelectModels => SELECT_MODELS@,
            Sql::SelectModelsReplicate => SELECT_MODELS_REPLICATE@,
            Sql::SelectStatus => SELECT_STATUS@,
            Sql::SelectCount { entity } => SELECT_COUNT@ + entity@,
            Sql::SelectRowCount => SELECT_ROW_COUNT@,
            Sql::InsertReference => INSERT_REFERENCE@,
            Sql::InsertBrand => INSERT_BRAND@,
            Sql::InsertModel => INSERT_MODEL@,
            Sql::InsertYear => INSERT_YEAR@,
            Sql::UpdateStatus => UPDATE_STATUS@,
            Sql::UpdateRowCount { entity } => UPDATE_ROW_COUNT_HEAD@ + entity@ + UPDATE_ROW_COUNT_TAIL@,
            Sql::CreateReferencesLabeled => CREATE_REFERENCES_LABELED@,
            Sql::CreateBrandsPerType => CREATE_BRANDS_PER_TYPE@,
            Sql::LoadTypes => LOAD_TYPES@,
            Sql::LoadReferences => LOAD_REFERENCES@,
            Sql::LoadBrands => LOAD_BRANDS@,
            Sql::LoadModels => LOAD_MODELS@,
            Sql::LoadYears => LOAD_YEARS@,
            Sql::StoreReference => STORE_REFERENCE@,
            Sql::StoreBrand => STORE_BRAND@,
            Sql::StoreModel => STORE_MODEL@,
            Sql::StoreYear => STORE_YEAR@,
        }
    }

    /// The text of the statement; the counting and row-count statements name
    /// their table or column from `entity`.
    pub fn get(&self) -> (r: String)
        ensures
            r@ == self.text(),
    {
        match self {
            Sql::DropTables => DROP_TABLES.to_string(),
            Sql::CreateYears => CREATE_YEARS.to_string(),
            Sql::CreateModels => CREATE_MODELS.to_string(),
            Sql::CreateBrands => CREATE_BRANDS.to_string(),
            Sql::CreateReferences => CREATE_REFERENCES.to_string(),
            Sql::CreateTypes => CREATE_TYPES.to_string(),
            Sql::CreateFuels => CREATE_FUELS.to_string(),
            Sql::InitTypes => INIT_TYPES.to_string(),
            Sql::InitFuels => INIT_FUELS.to_string(),
            Sql::CreateIndexes => CREATE_INDEXES.to_string(),
            Sql::CreateConfig => CREATE_CONFIG.to_string(),
            Sql::SelectTypes => SELECT_TYPES.to_string(),
            Sql::SelectAllReferences => SELECT_ALL_REFERENCES.to_string(),
            Sql::SelectReferences => SELECT_REFERENCES.to_string(),
            Sql::SelectBrands => SELECT_BRANDS.to_string(),
            Sql::SelectModels => SELECT_MODELS.to_string(),
            Sql::SelectModelsReplicate => SELECT_MODELS_REPLICATE.to_string(),
            Sql::SelectStatus => SELECT_STATUS.to_string(),
            Sql::SelectCount { entity } => {
                let mut s = SELECT_COUNT.to_string();
                s.append(entity.as_str());
                s
            },
            Sql::SelectRowCount => SELECT_ROW_COUNT.to_string(),
            Sql::InsertReference => INSERT_REFERENCE.to_string(),
            Sql::InsertBrand => INSERT_BRAND.to_string(),
            Sql::InsertModel => INSERT_MODEL.to_string(),
            Sql::InsertYear => INSERT_YEAR.to_string(),
            Sql::UpdateStatus => UPDATE_STATUS.to_string(),
            Sql::UpdateRowCount { entity } => {
                let mut s = UPDATE_ROW_COUNT_HEAD.to_string();
                s.append(entity.as_str());
                s.append(UPDATE_ROW_COUNT_TAIL);
                s
            },
            Sql::CreateReferencesLabeled => CREATE_REFERENCES_LABELED.to_string(),
            Sql::CreateBrandsPerType => CREATE_BRANDS_PER_TYPE.to_string(),
            Sql::LoadTypes => LOAD_TYPES.to_string(),
            Sql::LoadReferences => LOAD_REFERENCES.to_string(),
            Sql::LoadBrands => LOAD_BRANDS.to_string(),
            Sql::LoadModels => LOAD_MODELS.to_string(),
            Sql::LoadYears => LOAD_YEARS.to_string(),
            Sql::StoreReference => STORE_REFERENCE.to_string(),
            Sql::StoreBrand => STORE_BRAND.to_string(),
            Sql::StoreModel => STORE_MODEL.to_string(),
            Sql::StoreYear => STORE_YEAR.to_string(),
        }
    }
}

} // verus!
