//! The operator's menus, the structured events the stages emit, the status
//! record's values, and the statements of the menu-side schema.
use vstd::prelude::*;
use crate::text::same_text;
use vstd::string::StringExecFns;

verus! {

/// The top-level menu.
#[derive(Clone, Copy, PartialEq, Eq, Debug)]
pub enum MainMenu {
    Loads,
    Maintenance,
    Exit,
}

/// The maintenance menu.
#[derive(Clone, Copy, PartialEq, Eq, Debug)]
pub enum MaintMenu {
    RecreateDatabase,
    CheckUpdates,
    Back,
}

/// The load menu: one entry per stage, in pipeline order, and one for all.
#[derive(Clone, Copy, PartialEq, Eq, Debug)]
pub enum LoadMenu {
    LoadRefs,
    LoadBrands,
    LoadModels,
    LoadYears,
    LoadAll,
    Back,
}

/// The stages of the pipeline, in the order data flows through them.
#[derive(Clone, Copy, PartialEq, Eq, Debug)]
pub enum Stage {
    References,
    Brands,
    Models,
    Years,
}

/// The stages a load-menu entry runs, in order.
pub open spec fn stages_of(m: LoadMenu) -> Seq<Stage> {
    match m {
        LoadMenu::LoadRefs => seq![Stage::References],
        LoadMenu::LoadBrands => seq![Stage::Brands],
        LoadMenu::LoadModels => seq![Stage::Models],
        LoadMenu::LoadYears => seq![Stage::Years],
        LoadMenu::LoadAll => seq![Stage::References, Stage::Brands, Stage::Models, Stage::Years],
        LoadMenu::Back => Seq::empty(),
    }
}

impl MainMenu {
    pub fn title(&self) -> (r: &'static str)
        ensures
            *self == MainMenu::Loads ==> r == "📥 Loads",
            *self == MainMenu::Maintenance ==> r == "🛠️  Maintenance",
            *self == MainMenu::Exit ==> r == "🔌 Exit",
    {
        match self {
            MainMenu::Loads => "📥 Loads",
            MainMenu::Maintenance => "🛠️  Maintenance",
            MainMenu::Exit => "🔌 Exit",
        }
    }

    /// The entries, in the order they are shown.
    pub fn options() -> (r: Vec<MainMenu>)
        ensures
            r@ == seq![MainMenu::Loads, MainMenu::Maintenance, MainMenu::Exit],
    {
        vec![MainMenu::Loads, MainMenu::Maintenance, MainMenu::Exit]
    }
}

impl MaintMenu {
    pub fn title(&self) -> (r: &'static str)
        ensures
            *self == MaintMenu::RecreateDatabase ==> r == "Recreate Database",
            *self == MaintMenu::CheckUpdates ==> r == "Check for Updates",
            *self == MaintMenu::Back ==> r == "Back",
    {
        match self {
            MaintMenu::RecreateDatabase => "Recreate Database",
            MaintMenu::CheckUpdates => "Check for Updates",
            MaintMenu::Back => "Back",
        }
    }

    /// The entries, in the order they are shown.
    pub fn options() -> (r: Vec<MaintMenu>)
        ensures
            r@ == seq![MaintMenu::RecreateDatabase, MaintMenu::CheckUpdates, MaintMenu::Back],
    {
        vec![MaintMenu::RecreateDatabase, MaintMenu::CheckUpdates, MaintMenu::Back]
    }
}

impl LoadMenu {
    pub fn title(&self) -> (r: &'static str)
        ensures
            *self == LoadMenu::LoadRefs ==> r == "Load References",
            *self == LoadMenu::LoadBrands ==> r == "Load Brands",
            *self == LoadMenu::LoadModels ==> r == "Load Models",
            *self == LoadMenu::LoadYears ==> r == "Load Years",
            *self == LoadMenu::LoadAll ==> r == "Load All",
            *self == LoadMenu::Back ==> r == "Back",
    {
        match self {
            LoadMenu::LoadRefs => "Load References",
            LoadMenu::LoadBrands => "Load Brands",
            LoadMenu::LoadModels => "Load Models",
            LoadMenu::LoadYears => "Load Years",
            LoadMenu::LoadAll => "Load All",
            LoadMenu::Back => "Back",
        }
    }

    /// The entries, in the order they are shown.
    pub fn options() -> (r: Vec<LoadMenu>)
        ensures
            r@ == seq![
                LoadMenu::LoadRefs,
                LoadMenu::LoadBrands,
                LoadMenu::LoadModels,
                LoadMenu::LoadYears,
                LoadMenu::LoadAll,
                LoadMenu::Back,
            ],
    {
        vec![
            LoadMenu::LoadRefs,
            LoadMenu::LoadBrands,
            LoadMenu::LoadModels,
            LoadMenu::LoadYears,
            LoadMenu::LoadAll,
            LoadMenu::Back,
        ]
    }

    /// The stages this entry runs, in pipeline order; "Load All" runs every
    /// stage, "Back" none.
    pub fn stages(&self) -> (r: Vec<Stage>)
        ensures
            r@ == stages_of(*self),
    {
        match self {
            LoadMenu::LoadRefs => vec![Stage::References],
            LoadMenu::LoadBrands => vec![Stage::Brands],
            LoadMenu::LoadModels => vec![Stage::Models],
            LoadMenu::LoadYears => vec![Stage::Years],
            LoadMenu::LoadAll => vec![Stage::References, Stage::Brands, Stage::Models, Stage::Years],
            LoadMenu::Back => Vec::new(),
        }
    }
}

/// A structured event for the log sink; rendering is the sink's business.
pub enum Label {
    Header { db_status: String, last_update: String },
    DbCreationOk,
    CreateTable { table_name: String },
    CreateIndexes,
    ResponseError { message: String },
    ApiConnectionError { message: String },
    ApiBlock { code: String },
    LoadOk { entity: String },
    UniqueConstraint { fipe: String },
    TableNotExist,
    NoResults,
    DecodeError,
    InsertReference { codigo: String, mes: String },
    InsertBrand { tipo: String, referencia: String, marca: String, codigo: String },
    InsertModel { tipo: String, referencia: String, marca: String, modelo: String, codigo: String },
    InsertYear { tipo: String, referencia: String, marca: String, modelo: String, ano: String },
    PressKeyContinue,
}

/// The values of the status record.
#[derive(Clone, Copy, PartialEq, Eq, Debug)]
pub enum DbStatus {
    Empty,
    Stable,
    Outdated,
    Compromised,
    Unknown,
}

pub open spec fn status_of(s: Seq<char>) -> DbStatus {
    if s == "empty"@ {
        DbStatus::Empty
    } else if s == "stable"@ {
        DbStatus::Stable
    } else if s == "outdated"@ {
        DbStatus::Outdated
    } else if s == "compromised"@ {
        DbStatus::Compromised
    } else {
        DbStatus::Unknown
    }
}

impl DbStatus {
    /// Reads the stored status word; any other word is `Unknown`.
    pub fn parse(s: &str) -> (r: DbStatus)
        ensures
            r == status_of(s@),
    {
        if same_text(s, "empty") {
            DbStatus::Empty
        } else if same_text(s, "stable") {
            DbStatus::Stable
        } else if same_text(s, "outdated") {
            DbStatus::Outdated
        } else if same_text(s, "compromised") {
            DbStatus::Compromised
        } else {
            DbStatus::Unknown
        }
    }

    /// The word stored for the status.
    pub fn as_str(&self) -> (r: &'static str)
        ensures
            *self == DbStatus::Empty ==> r == "empty",
            *self == DbStatus::Stable ==> r == "stable",
            *self == DbStatus::Outdated ==> r == "outdated",
            *self == DbStatus::Compromised ==> r == "compromised",
            *self == DbStatus::Unknown ==> r == "unknown",
    {
        match self {
            DbStatus::Empty => "empty",
            DbStatus::Stable => "stable",
            DbStatus::Outdated => "outdated",
            DbStatus::Compromised => "compromised",
            DbStatus::Unknown => "unknown",
        }
    }
}

/// The statements of the store as the menu-side schema writes them: the
/// reference table keeps the period's label, and pending brands and models
/// carry the period's code and label.
pub const STMT_DROP_TABLES: &'static str = "
                DROP TABLE IF EXISTS config;
                DROP TABLE IF EXISTS years;
                DROP TABLE IF EXISTS models;
                DROP TABLE IF EXISTS brands;
                DROP TABLE IF EXISTS \"references\";
                DROP TABLE IF EXISTS fuels;
                DROP TABLE IF EXISTS types;
            ";

pub const STMT_CREATE_YEARS: &'static str = "
                CREATE TABLE years(
                    id integer PRIMARY KEY,
                    description text,
                    value date,
                    fipe text,
                    model_id integer,
                    fuel_id integer,
                    foreign key(model_id) references models(id),
                    foreign key(fuel_id) references fuels(id),
                    unique(fipe, model_id)
                )
            ";

pub const STMT_CREATE_MODELS: &'static str = "
                DROP TABLE IF EXISTS models;
                CREATE TABLE models(
                    id integer PRIMARY KEY,
                    description text,
                    fipe text,
                    brand_id integer,
                    foreign key(brand_id) references brands(id),
                    unique(fipe, brand_id)
                )
            ";

pub const STMT_CREATE_BRANDS: &'static str = "
                CREATE TABLE brands(
                    id integer PRIMARY KEY,
                    description text,
                    fipe text,
                    type_id integer,
                    ref_id integer,
                    foreign key(type_id) references types(id),
                    foreign key(ref_id) references \"references\"(id),
                    unique(fipe, ref_id)
                )
            ";

pub const STMT_CREATE_REFERENCES: &'static str = "
                CREATE TABLE \"references\"(
                    id integer PRIMARY KEY,
                    description text,
                    ref_date date,
                    fipe text unique
                )
            ";

pub const STMT_CREATE_TYPES: &'static str = "
                CREATE TABLE types(
                    id integer PRIMARY KEY,
                    description text
                )
            ";

pub const STMT_CREATE_FUELS: &'static str = "
                CREATE TABLE fuels(
                    id integer PRIMARY KEY,
                    description text
                )
            ";

pub const STMT_INIT_TYPES: &'static str = "INSERT INTO types(description) VALUES (?1), (?2), (?3)";

pub const STMT_INIT_FUELS: &'static str = "INSERT INTO fuels(description) VALUES (?1), (?2), (?3), (?4), (?5), (?6), (?7), (?8)";

pub const STMT_CREATE_INDEXES: &'static str = "
                CREATE INDEX idx_references_id ON \"references\" (id);
                CREATE INDEX idx_types_id ON types (id);
                CREATE INDEX idx_fuels_id ON fuels (id);
                CREATE INDEX idx_brands_ref_id ON brands (ref_id);
                CREATE INDEX idx_brands_type_id ON brands (type_id);
                CREATE INDEX idx_brands_id ON brands (id);
                CREATE INDEX idx_models_brand_id ON models (brand_id);
                CREATE INDEX idx_models_id ON models (id);
                CREATE INDEX idx_years_model_id ON years (model_id);
                CREATE INDEX idx_years_fuel_id ON years (fuel_id);
            ";

pub const STMT_CREATE_CONFIG: &'static str = "
                CREATE TABLE config(
                    db_status text,
                    last_update date,
                    brands_rowcount integer default 51500,
                    models_rowcount integer default 1970128,
                    years_rowcount integer default 8119581,
                    vehicles_rowcount integer default 0
                );

                INSERT INTO config(db_status, last_update) VALUES ('empty', datetime('now', 'localtime'));

                CREATE TRIGGER config_single_row
                BEFORE INSERT ON config
                WHEN (SELECT COUNT(*) FROM config) >= 1
                BEGIN
                    SELECT RAISE(ABORT, 'config can only have a single row.');
                END;
            ";

pub const STMT_SELECT_TYPES: &'static str = "SELECT id, description FROM types";

pub const STMT_SELECT_REFERENCES: &'static str = "
                SELECT
                    id,
                    description,
                    fipe
                FROM \"references\" r
                WHERE NOT EXISTS (
                    SELECT 1
                    FROM brands b
                    WHERE b.ref_id = r.id
                )
                ";

pub const STMT_SELECT_BRANDS: &'static str = "
                SELECT
                    b.id AS id,
                    b.description,
                    b.fipe,
                    r.fipe ref_id,
                    r.description ref_description,
                    b.type_id,
                    t.description type_description
                FROM brands b
                LEFT JOIN \"references\" r ON b.ref_id = r.id
                LEFT JOIN types t ON b.type_id = t.id
                WHERE NOT EXISTS (
                    SELECT 1
                    FROM models m
                    WHERE m.brand_id = b.id
                )
            ";

pub const STMT_SELECT_MODELS: &'static str = "
                SELECT
                    m.id,
                    m.description,
                    m.fipe,
                    b.fipe brand_id,
                    b.description brand_description,
                    MAX(r.fipe) AS ref_id,
                    r.description ref_description,
                    b.type_id type_id,
                    t.description type_description
                FROM
                    models m
                JOIN brands b ON
                    m.brand_id = b.id
                JOIN \"references\" r ON
                    b.ref_id = r.id
                JOIN types t ON
                    b.type_id = t.id
                WHERE
                    NOT EXISTS (
                    SELECT
                        1
                    FROM
                        years y
                    WHERE
                        y.model_id = m.id
                )
                GROUP BY
                    m.fipe
            ";

pub const STMT_SELECT_MODELS_REPLICATE: &'static str = "
                SELECT
                m.id,
                m.description,
                r.description ref_description
                FROM models m
                left join brands b on m.brand_id = b.id
                left join \"references\" r ON b.ref_id = r.id
                WHERE m.fipe = ?1
                AND NOT EXISTS (
                    SELECT 1
                    FROM years y
                    WHERE m.id = y.model_id
                )
            ";

pub const STMT_SELECT_STATUS: &'static str = "SELECT db_status, last_update FROM config";

pub const STMT_SELECT_ROW_COUNT: &'static str = "SELECT
                brands_rowcount,
                models_rowcount,
                years_rowcount,
                vehicles_rowcount
            FROM config";

pub const STMT_INSERT_REFERENCE: &'static str = "INSERT INTO \"references\" (description, ref_date, fipe) VALUES (?1, ?2, ?3)";

pub const STMT_INSERT_BRAND: &'static str = "INSERT INTO brands (description, fipe, type_id, ref_id) VALUES (?1, ?2, ?3, ?4)";

pub const STMT_INSERT_MODEL: &'static str = "INSERT INTO models (description, fipe, brand_id) VALUES (?1, ?2, ?3)";

pub const STMT_INSERT_YEAR: &'static str = "INSERT INTO years (description, value, fipe, model_id, fuel_id) VALUES (?1, ?2, ?3, ?4, ?5)";

pub const STMT_UPDATE_STATUS: &'static str = "UPDATE config SET db_status = ?1, last_update = datetime('now', 'localtime')";

pub const STMT_SELECT_COUNT: &'static str = "SELECT count(id) FROM ";

pub const STMT_UPDATE_ROW_COUNT_HEAD: &'static str = "UPDATE config SET ";

pub const STMT_UPDATE_ROW_COUNT_TAIL: &'static str = "_rowcount = ?1";

/// A statement of the menu-side schema.
pub enum Sql {
    DropTables,
    CreateYears,
    CreateModels,
    CreateBrands,
    CreateReferences,
    CreateTypes,
    CreateFuels,
    InitFuels,
    InitTypes,
    CreateIndexes,
    CreateConfig,
    SelectTypes,
    SelectReferences,
    SelectBrands,
    SelectModels,
    SelectModelsReplicate,
    SelectStatus,
    SelectCount { entity: String },
    SelectRowCount,
    InsertReference,
    InsertBrand,
    InsertModel,
    InsertYear,
    UpdateStatus,
    UpdateRowCount { entity: String },
}

impl Sql {
    /// The text of the statement.
    pub open spec fn text(&self) -> Seq<char> {
        match self {
            Sql::DropTables => STMT_DROP_TABLES@,
            Sql::CreateYears => STMT_CREATE_YEARS@,
            Sql::CreateModels => STMT_CREATE_MODELS@,
            Sql::CreateBrands => STMT_CREATE_BRANDS@,
            Sql::CreateReferences => STMT_CREATE_REFERENCES@,
            Sql::CreateTypes => STMT_CREATE_TYPES@,
            Sql::CreateFuels => STMT_CREATE_FUELS@,
            Sql::InitFuels => STMT_INIT_FUELS@,
            Sql::InitTypes => STMT_INIT_TYPES@,
            Sql::CreateIndexes => STMT_CREATE_INDEXES@,
            Sql::CreateConfig => STMT_CREATE_CONFIG@,
            Sql::SelectTypes => STMT_SELECT_TYPES@,
            Sql::SelectReferences => STMT_SELECT_REFERENCES@,
            Sql::SelectBrands => STMT_SELECT_BRANDS@,
            Sql::SelectModels => STMT_SELECT_MODELS@,
            Sql::SelectModelsReplicate => STMT_SELECT_MODELS_REPLICATE@,
            Sql::SelectStatus => STMT_SELECT_STATUS@,
            Sql::SelectCount { entity } => STMT_SELECT_COUNT@ + entity@,
            Sql::SelectRowCount => STMT_SELECT_ROW_COUNT@,
            Sql::InsertReference => STMT_INSERT_REFERENCE@,
            Sql::InsertBrand => STMT_INSERT_BRAND@,
            Sql::InsertModel => STMT_INSERT_MODEL@,
            Sql::InsertYear => STMT_INSERT_YEAR@,
            Sql::UpdateStatus => STMT_UPDATE_STATUS@,
            Sql::UpdateRowCount { entity } => STMT_UPDATE_ROW_COUNT_HEAD@ + entity@ + STMT_UPDATE_ROW_COUNT_TAIL@,
        }
    }

    /// The text of the statement; the counting and row-count statements name
    /// their table or column from `entity`.
    pub fn get(&self) -> (r: String)
        ensures
            r@ == self.text(),
    {
        match self {
            Sql::DropTables => STMT_DROP_TABLES.to_string(),
            Sql::CreateYears => STMT_CREATE_YEARS.to_string(),
            Sql::CreateModels => STMT_CREATE_MODELS.to_string(),
            Sql::CreateBrands => STMT_CREATE_BRANDS.to_string(),
            Sql::CreateReferences => STMT_CREATE_REFERENCES.to_string(),
            Sql::CreateTypes => STMT_CREATE_TYPES.to_string(),
            Sql::CreateFuels => STMT_CREATE_FUELS.to_string(),
            Sql::InitFuels => STMT_INIT_FUELS.to_string(),
            Sql::InitTypes => STMT_INIT_TYPES.to_string(),
            Sql::CreateIndexes => STMT_CREATE_INDEXES.to_string(),
            Sql::CreateConfig => STMT_CREATE_CONFIG.to_string(),
            Sql::SelectTypes => STMT_SELECT_TYPES.to_string(),
            Sql::SelectReferences => STMT_SELECT_REFERENCES.to_string(),
            Sql::SelectBrands => STMT_SELECT_BRANDS.to_string(),
            Sql::SelectModels => STMT_SELECT_MODELS.to_string(),
            Sql::SelectModelsReplicate => STMT_SELECT_MODELS_REPLICATE.to_string(),
            Sql::SelectStatus => STMT_SELECT_STATUS.to_string(),
            Sql::SelectCount { entity } => {
                let mut s = STMT_SELECT_COUNT.to_string();
                s.append(entity.as_str());
                s
            },
            Sql::SelectRowCount => STMT_SELECT_ROW_COUNT.to_string(),
            Sql::InsertReference => STMT_INSERT_REFERENCE.to_string(),
            Sql::InsertBrand => STMT_INSERT_BRAND.to_string(),
            Sql::InsertModel => STMT_INSERT_MODEL.to_string(),
            Sql::InsertYear => STMT_INSERT_YEAR.to_string(),
            Sql::UpdateStatus => STMT_UPDATE_STATUS.to_string(),
            Sql::UpdateRowCount { entity } => {
                let mut s = STMT_UPDATE_ROW_COUNT_HEAD.to_string();
                s.append(entity.as_str());
                s.append(STMT_UPDATE_ROW_COUNT_TAIL);
                s
            },
        }
    }
}

} // verus!
