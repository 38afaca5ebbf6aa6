use fipe_rs::ui::Sql as MenuSql;
use fipe_rs::gateway::{
    get_random_user_agent, next_action, throttle_secs, user_agent_at, years_request, Attempt,
    Endpoint, GatewayAction, THROTTLE_RETRY_SECS, TRANSPORT_RETRY_SECS,
};
use fipe_rs::policy::{action_for, classify_failure, write_outcome, StageAction, StoreFailure, WriteOutcome};
use fipe_rs::schema::Models;
use fipe_rs::sql::Sql;
use fipe_rs::text::{
    contains_text, date_from_label, date_from_parts, int_text, month_code, trim_text, parse_date, parse_small_number, parse_year, same_text, year_of_days,
};
use fipe_rs::ui::{DbStatus, LoadMenu, MainMenu, MaintMenu, Stage};

#[test]
fn parse_date_first_of_month() {
    assert_eq!(parse_date("janeiro/2024"), "2024-01-01");
    assert_eq!(parse_date("dezembro/1999"), "1999-12-01");
}

#[test]
fn parse_date_trims_and_lowercases() {
    assert_eq!(parse_date("  março/2023 \n"), "2023-03-01");
    assert_eq!(parse_date("OUTUBRO/2021"), "2021-10-01");
}

#[test]
fn parse_date_unknown_month_is_january() {
    assert_eq!(parse_date("foo/2020"), "2020-01-01");
}

#[test]
fn parse_date_malformed_label() {
    assert_eq!(parse_date("janeiro 2024"), "1900-01-01");
    assert_eq!(parse_date("a/b/c"), "1900-01-01");
    assert_eq!(parse_date(""), "1900-01-01");
}

#[test]
fn date_from_label_keeps_inner_text() {
    assert_eq!(date_from_label("maio/2010"), "2010-05-01");
}

#[test]
fn month_codes() {
    assert_eq!(month_code("fevereiro"), "02");
    assert_eq!(month_code("novembro"), "11");
    assert_eq!(month_code("Novembro"), "01");
}

#[test]
fn same_text_compares_characters() {
    assert!(same_text("março", "março"));
    assert!(!same_text("marco", "março"));
}

#[test]
fn parse_year_with_fuel() {
    assert_eq!(parse_year("2015-1", 2026), ("2015-01-01".to_string(), Some(1)));
    assert_eq!(parse_year("1998-3", 2026), ("1998-01-01".to_string(), Some(3)));
}

#[test]
fn parse_year_sentinel_is_current_year() {
    assert_eq!(parse_year("32000-2", 2026), ("2026-01-01".to_string(), Some(2)));
}

#[test]
fn parse_year_without_fuel() {
    assert_eq!(parse_year("2010", 2026), ("2010-01-01".to_string(), None));
    assert_eq!(parse_year("2010-x", 2026), ("2010-01-01".to_string(), None));
    assert_eq!(parse_year("2010-", 2026), ("2010-01-01".to_string(), None));
}

#[test]
fn small_numbers() {
    assert_eq!(parse_small_number("0"), Some(0));
    assert_eq!(parse_small_number("123456789"), Some(123456789));
    assert_eq!(parse_small_number("1234567890"), None);
    assert_eq!(parse_small_number(""), None);
    assert_eq!(parse_small_number("12a"), None);
}

#[test]
fn gateway_delivers_success() {
    assert_eq!(next_action(Attempt::Response { status: 200 }), GatewayAction::Deliver);
    assert_eq!(next_action(Attempt::Response { status: 299 }), GatewayAction::Deliver);
}

#[test]
fn gateway_waits_after_throttling() {
    for status in [300u16, 404, 429, 500, 199] {
        assert_eq!(
            next_action(Attempt::Response { status }),
            GatewayAction::Retry { wait_secs: THROTTLE_RETRY_SECS }
        );
    }
    assert_eq!(THROTTLE_RETRY_SECS, 60);
}

#[test]
fn gateway_waits_after_transport_error() {
    assert_eq!(
        next_action(Attempt::TransportError),
        GatewayAction::Retry { wait_secs: TRANSPORT_RETRY_SECS }
    );
    assert_eq!(TRANSPORT_RETRY_SECS, 5);
}

#[test]
fn throttled_then_success_delivers_once() {
    let attempts = [
        Attempt::Response { status: 429 },
        Attempt::Response { status: 503 },
        Attempt::Response { status: 429 },
        Attempt::Response { status: 200 },
    ];
    let mut waited = 0u64;
    let mut delivered = Vec::new();
    for (i, a) in attempts.iter().enumerate() {
        match next_action(*a) {
            GatewayAction::Deliver => delivered.push(i),
            GatewayAction::Retry { wait_secs } => waited += wait_secs,
        }
    }
    assert_eq!(delivered, vec![3]);
    assert_eq!(waited, 180);
}

#[test]
fn throttle_is_one_to_three_seconds() {
    for _ in 0..50 {
        let s = throttle_secs();
        assert!((1..=3).contains(&s));
    }
}

#[test]
fn user_agents_come_from_the_pool() {
    let pool: Vec<&str> = (0..4).map(user_agent_at).collect();
    for _ in 0..20 {
        assert!(pool.contains(&get_random_user_agent()));
    }
    assert_eq!(user_agent_at(5), user_agent_at(1));
}

#[test]
fn endpoints() {
    assert_eq!(Endpoint::Brands.url(), "https://veiculos.fipe.org.br/api/veiculos/ConsultarMarcas");
    assert_eq!(Endpoint::Years.url(), "https://veiculos.fipe.org.br/api/veiculos/ConsultarAnoModelo");
}

#[test]
fn year_request_carries_all_codes() {
    let m = Models {
        id: 7,
        description: "Ka 1.0".to_string(),
        fipe: "4403".to_string(),
        ref_id: "310".to_string(),
        ref_description: "janeiro/2024".to_string(),
        type_id: 1,
        type_description: "Carros".to_string(),
        brand_id: "22".to_string(),
        brand_description: "Ford".to_string(),
    };
    let r = years_request(&m);
    assert_eq!(r.codigo_tipo_veiculo, Some(1));
    assert_eq!(r.codigo_tabela_referencia.as_deref(), Some("310"));
    assert_eq!(r.codigo_marca.as_deref(), Some("22"));
    assert_eq!(r.codigo_modelo.as_deref(), Some("4403"));
}

#[test]
fn unique_violation_is_duplicate() {
    let f = StoreFailure { constraint_violation: true, message: Some("UNIQUE constraint failed".to_string()) };
    assert_eq!(classify_failure(&f), WriteOutcome::Duplicate);
    assert_eq!(action_for(WriteOutcome::Duplicate), StageAction::Continue);
}

#[test]
fn missing_table_aborts_stage() {
    let f = StoreFailure { constraint_violation: false, message: Some("no such table: brands".to_string()) };
    assert_eq!(classify_failure(&f), WriteOutcome::SchemaMissing);
    assert_eq!(action_for(WriteOutcome::SchemaMissing), StageAction::AbortStage);
}

#[test]
fn other_store_errors_are_fatal() {
    let f = StoreFailure { constraint_violation: false, message: Some("disk I/O error".to_string()) };
    assert_eq!(classify_failure(&f), WriteOutcome::Fatal);
    let g = StoreFailure { constraint_violation: false, message: None };
    assert_eq!(classify_failure(&g), WriteOutcome::Fatal);
    assert_eq!(action_for(WriteOutcome::Fatal), StageAction::Terminate);
}

#[test]
fn successful_write_and_undecodable_continue() {
    assert_eq!(write_outcome(&Ok(())), WriteOutcome::Inserted);
    assert_eq!(action_for(WriteOutcome::Inserted), StageAction::Continue);
    assert_eq!(action_for(WriteOutcome::Undecodable), StageAction::Continue);
}

#[test]
fn sql_statements_name_their_table() {
    assert_eq!(Sql::SelectCount { entity: "years".to_string() }.get(), "SELECT count(id) FROM years");
    assert_eq!(
        Sql::UpdateRowCount { entity: "brands".to_string() }.get(),
        "UPDATE config SET brands_rowcount = ?1"
    );
    assert!(Sql::CreateBrandsPerType.get().contains("unique(fipe, type_id, ref_id)"));
    assert!(Sql::CreateBrands.get().contains("unique(fipe, ref_id)"));
    assert_eq!(
        Sql::InsertBrand.get(),
        "INSERT INTO brands (description, fipe, type_id, ref_id) VALUES (?1, ?2, ?3, ?4)"
    );
    assert_eq!(
        Sql::StoreBrand.get(),
        "INSERT INTO brands (id, description, fipe, type_id, ref_id) VALUES (?1, ?2, ?3, ?4, ?5)"
    );
    assert_eq!(Sql::SelectTypes.get(), "SELECT id, description FROM types");
    assert!(Sql::SelectModelsReplicate.get().contains("WHERE m.fipe = ?1"));
}

#[test]
fn menus_and_status() {
    assert_eq!(MainMenu::options().len(), 3);
    assert_eq!(LoadMenu::options()[2].title(), "Load Models");
    assert_eq!(MaintMenu::RecreateDatabase.title(), "Recreate Database");
    assert_eq!(DbStatus::parse("stable"), DbStatus::Stable);
    assert_eq!(DbStatus::parse("weird"), DbStatus::Unknown);
    assert_eq!(DbStatus::Compromised.as_str(), "compromised");
}

#[test]
fn calendar_years_from_day_numbers() {
    assert_eq!(year_of_days(0), 1970);
    assert_eq!(year_of_days(364), 1970);
    assert_eq!(year_of_days(365), 1971);
    assert_eq!(year_of_days(19723), 2024);
    assert_eq!(year_of_days(20088), 2024);
    assert_eq!(year_of_days(20089), 2025);
}

#[test]
fn load_menu_runs_stages_in_pipeline_order() {
    assert_eq!(LoadMenu::LoadModels.stages(), vec![Stage::Models]);
    assert_eq!(
        LoadMenu::LoadAll.stages(),
        vec![Stage::References, Stage::Brands, Stage::Models, Stage::Years]
    );
    assert!(LoadMenu::Back.stages().is_empty());
    assert_eq!(LoadMenu::options().len(), 6);
}

#[test]
fn date_from_lowercase_parts() {
    assert_eq!(date_from_parts("março", "2023"), "2023-03-01");
    assert_eq!(date_from_parts("dezembro", "1999"), "1999-12-01");
    assert_eq!(date_from_parts("Março", "2023"), "2023-01-01");
}

#[test]
fn decimal_text_of_integers() {
    assert_eq!(int_text(0), "0");
    assert_eq!(int_text(4403), "4403");
    assert_eq!(int_text(-12), "-12");
    assert_eq!(int_text(i32::MIN), "-2147483648");
    assert_eq!(int_text(i32::MAX), "2147483647");
}

#[test]
fn trim_removes_unicode_whitespace() {
    assert_eq!(trim_text("\u{3000} janeiro/2024 \t\n"), "janeiro/2024");
    assert_eq!(trim_text("a b"), "a b");
    assert_eq!(trim_text(" \u{a0}\u{2029} "), "");
    assert_eq!(trim_text(""), "");
    let odd = "\u{85}x\u{200a}";
    assert_eq!(trim_text(odd), odd.trim());
}

#[test]
fn substring_search() {
    assert!(contains_text("no such table: brands", "no such table"));
    assert!(contains_text("abc", ""));
    assert!(!contains_text("no such tabl", "no such table"));
    assert!(contains_text("xxabab", "abab"));
}

#[test]
fn menu_side_statements_keep_their_own_text() {
    assert_eq!(
        MenuSql::InsertReference.get(),
        "INSERT INTO \"references\" (description, ref_date, fipe) VALUES (?1, ?2, ?3)"
    );
    assert_eq!(MenuSql::SelectTypes.get(), "SELECT id, description FROM types");
    assert!(MenuSql::CreateReferences.get().contains("description text"));
    assert!(MenuSql::SelectBrands.get().contains("r.description ref_description"));
    assert_eq!(MenuSql::SelectCount { entity: "models".to_string() }.get(), "SELECT count(id) FROM models");
    assert_ne!(MenuSql::InsertReference.get(), Sql::InsertReference.get());
}
