use fipe_rs::catalog::Catalog;
use fipe_rs::frontier::{
    brand_tasks, select_brands, select_models, select_models_replicate, select_references, select_types, BrandTask,
};
use fipe_rs::schema::{FipeModels, FipeStruct, ReferencesResponse};

fn entry(label: &str, value: &str) -> FipeStruct {
    FipeStruct { label: label.to_string(), value: value.to_string() }
}

fn model(label: &str, value: i32) -> FipeModels {
    FipeModels { label: label.to_string(), value }
}

fn two_types_one_period() -> Catalog {
    let mut c = Catalog::new();
    assert_eq!(c.add_type("Cars".to_string()), Some(1));
    assert_eq!(c.add_type("Motorcycles".to_string()), Some(2));
    assert_eq!(
        c.add_reference("janeiro/2024".to_string(), "2024-01-01".to_string(), "310".to_string()),
        Some(1)
    );
    c
}

#[test]
fn brand_stage_one_row_per_type() {
    let mut c = two_types_one_period();
    let tasks = brand_tasks(&c);
    assert_eq!(tasks, vec![BrandTask { type_id: 1, ref_id: 1 }, BrandTask { type_id: 2, ref_id: 1 }]);
    let listing = vec![entry("Ford", "22")];
    for t in &tasks {
        assert_eq!(c.store_brands(t.type_id, t.ref_id, &listing), Some(1));
    }
    let brands = c.brands();
    assert_eq!(brands.len(), 2);
    assert!(brands.iter().all(|b| b.ref_id == 1 && b.fipe == "22" && b.description == "Ford"));
    assert_eq!(brands[0].type_id, 1);
    assert_eq!(brands[1].type_id, 2);
}

#[test]
fn brand_stage_no_work_when_a_side_is_empty() {
    let mut c = Catalog::new();
    c.add_type("Cars".to_string());
    assert!(brand_tasks(&c).is_empty());
    let mut d = Catalog::new();
    d.add_reference("maio/2020".to_string(), "2020-05-01".to_string(), "250".to_string());
    assert!(brand_tasks(&d).is_empty());
    assert!(select_types(&d).is_empty());
}

#[test]
fn reference_stage_skips_known_codes() {
    let mut c = Catalog::new();
    let listing = vec![
        ReferencesResponse { codigo: 310, mes: "janeiro/2024 ".to_string() },
        ReferencesResponse { codigo: 309, mes: "dezembro/2023 ".to_string() },
    ];
    assert_eq!(c.store_references(&listing), Some(2));
    let refs = c.references();
    assert_eq!(refs[0].fipe, "310");
    assert_eq!(refs[0].ref_date, "2024-01-01");
    assert_eq!(refs[1].ref_date, "2023-12-01");
    assert_eq!(c.store_references(&listing), Some(0));
    assert_eq!(c.references().len(), 2);
    let more = vec![ReferencesResponse { codigo: 311, mes: "fevereiro/2024".to_string() }];
    assert_eq!(c.store_references(&more), Some(1));
    assert_eq!(c.references()[2].id, 3);
}

#[test]
fn same_listing_twice_adds_nothing() {
    let mut c = two_types_one_period();
    let listing = vec![entry("Ford", "22"), entry("Fiat", "21")];
    assert_eq!(c.store_brands(1, 1, &listing), Some(2));
    assert_eq!(c.store_brands(1, 1, &listing), Some(0));
    assert_eq!(c.brands().len(), 2);
}

#[test]
fn duplicate_entries_in_one_listing_store_once() {
    let mut c = two_types_one_period();
    let listing = vec![entry("Ford", "22"), entry("Ford again", "22")];
    assert_eq!(c.store_brands(1, 1, &listing), Some(1));
    let models = vec![model("Ka", 4403), model("Ka", 4403), model("Fiesta", 4404)];
    assert_eq!(c.store_models(1, &models), Some(2));
    assert_eq!(c.models()[0].fipe, "4403");
    assert_eq!(c.models()[1].fipe, "4404");
}

#[test]
fn frontiers_shrink_as_stages_run() {
    let mut c = two_types_one_period();
    c.add_reference("fevereiro/2024".to_string(), "2024-02-01".to_string(), "311".to_string());
    assert_eq!(select_references(&c).len(), 2);
    c.store_brands(1, 1, &vec![entry("Ford", "22")]);
    let pending = select_references(&c);
    assert_eq!(pending.len(), 1);
    assert_eq!(pending[0].fipe, "311");
    c.store_brands(1, 2, &vec![]);
    assert_eq!(select_references(&c).len(), 1);
    c.store_brands(2, 2, &vec![entry("Honda", "80")]);
    assert!(select_references(&c).is_empty());
    assert!(brand_tasks(&c).is_empty());

    let pending_brands = select_brands(&c);
    assert_eq!(pending_brands.len(), 2);
    assert_eq!(pending_brands[0].ref_id, "310");
    assert_eq!(pending_brands[1].type_description, "Motorcycles");
    c.store_models(1, &vec![model("Ka", 4403)]);
    assert_eq!(select_brands(&c).len(), 1);
    assert_eq!(c.store_models(1, &vec![model("Ka", 4403)]), Some(0));
}

#[test]
fn one_fetch_per_identity_fans_out_to_every_replica() {
    let mut c = Catalog::new();
    c.add_type("Cars".to_string());
    c.add_reference("janeiro/2024".to_string(), "2024-01-01".to_string(), "310".to_string());
    c.add_reference("fevereiro/2024".to_string(), "2024-02-01".to_string(), "311".to_string());
    c.store_brands(1, 1, &vec![entry("Ford", "22")]);
    c.store_brands(1, 2, &vec![entry("Ford", "22")]);
    c.store_models(1, &vec![model("Ka", 4403)]);
    c.store_models(2, &vec![model("Ka", 4403)]);
    assert_eq!(c.models().len(), 2);

    let pending = select_models(&c);
    assert_eq!(pending.len(), 1);
    assert_eq!(pending[0].fipe, "4403");
    assert_eq!(pending[0].brand_id, "22");
    assert_eq!(pending[0].ref_id, "310");
    assert_eq!(c.replica_ids(&"4403".to_string(), 1), vec![1, 2]);
    let replicas = select_models_replicate(&c, &"4403".to_string(), 1);
    assert_eq!(replicas.len(), 2);
    assert_eq!(replicas[0].ref_description, "janeiro/2024");
    assert_eq!(replicas[1].ref_description, "fevereiro/2024");
    assert_eq!(replicas[1].description, "Ka");

    let years = vec![entry("2015 Gasolina", "2015-1"), entry("Zero KM", "32000-5")];
    assert_eq!(c.store_years(&"4403".to_string(), 1, &years, 2026), Some(4));
    assert!(c.model_has_years(1));
    assert!(c.model_has_years(2));
    let stored = c.years();
    assert_eq!(stored[0].model_id, 1);
    assert_eq!(stored[1].model_id, 2);
    assert_eq!(stored[0].value, "2015-01-01");
    assert_eq!(stored[0].fuel_id, Some(1));
    assert_eq!(stored[3].value, "2026-01-01");
    assert_eq!(stored[3].fuel_id, Some(5));
    assert!(select_models(&c).is_empty());
    assert_eq!(c.store_years(&"4403".to_string(), 1, &years, 2026), Some(0));
}

#[test]
fn identities_differ_by_vehicle_type() {
    let mut c = two_types_one_period();
    c.store_brands(1, 1, &vec![entry("Honda", "80")]);
    c.store_brands(2, 1, &vec![entry("Honda", "80")]);
    c.store_models(1, &vec![model("CG", 100)]);
    c.store_models(2, &vec![model("CG", 100)]);
    assert_eq!(select_models(&c).len(), 2);
    assert_eq!(c.store_years(&"100".to_string(), 2, &vec![entry("2020", "2020-1")], 2026), Some(1));
    let left = select_models(&c);
    assert_eq!(left.len(), 1);
    assert_eq!(left[0].type_id, 1);
}

#[test]
fn loaders_reject_bad_parents_and_duplicates() {
    let mut c = two_types_one_period();
    assert_eq!(c.add_brand("Ford".to_string(), "22".to_string(), 3, 1), None);
    assert_eq!(c.add_brand("Ford".to_string(), "22".to_string(), 1, 2), None);
    assert_eq!(c.add_brand("Ford".to_string(), "22".to_string(), 1, 1), Some(1));
    assert_eq!(c.add_brand("Ford".to_string(), "22".to_string(), 1, 1), None);
    assert_eq!(c.add_model("Ka".to_string(), "4403".to_string(), 2), None);
    assert_eq!(c.add_model("Ka".to_string(), "4403".to_string(), 1), Some(1));
    assert_eq!(c.add_year("2015".to_string(), "2015-01-01".to_string(), "2015-1".to_string(), 1, Some(1)), Some(1));
    assert_eq!(c.add_year("2015".to_string(), "2015-01-01".to_string(), "2015-1".to_string(), 1, Some(1)), None);
    assert_eq!(c.add_year("2015".to_string(), "2015-01-01".to_string(), "2015-1".to_string(), 9, None), None);
    assert_eq!(
        c.add_reference("x".to_string(), "2024-01-01".to_string(), "310".to_string()),
        None
    );
    assert!(c.brand_has_models(1));
    assert!(c.ref_has_brands(1));
}

#[test]
fn capacity_checks() {
    let c = two_types_one_period();
    assert!(c.fits_brands(10));
    assert!(c.fits_models(0));
    assert!(c.fits_references(5));
    assert!(!c.fits_brands(usize::MAX));
    assert!(c.fits_years(usize::MAX));
}

#[test]
fn keys_checked_per_parent_with_interleaved_rows() {
    let mut c = two_types_one_period();
    c.add_brand("Ford".to_string(), "22".to_string(), 1, 1);
    c.add_brand("Fiat".to_string(), "21".to_string(), 1, 1);
    assert_eq!(c.add_model("Ka".to_string(), "1".to_string(), 1), Some(1));
    assert_eq!(c.add_model("Uno".to_string(), "1".to_string(), 2), Some(2));
    assert_eq!(c.add_model("Fiesta".to_string(), "2".to_string(), 1), Some(3));
    assert_eq!(c.add_model("Palio".to_string(), "2".to_string(), 2), Some(4));
    assert_eq!(c.add_model("Ka again".to_string(), "1".to_string(), 1), None);
    assert_eq!(c.add_model("Palio again".to_string(), "2".to_string(), 2), None);
    assert_eq!(c.add_model("Mobi".to_string(), "3".to_string(), 2), Some(5));
    for (m, code) in [(1, "2015-1"), (2, "2015-1"), (1, "2016-1"), (2, "2016-1"), (1, "2017-1")] {
        assert!(c.add_year("y".to_string(), "d".to_string(), code.to_string(), m, Some(1)).is_some());
    }
    assert_eq!(c.add_year("y".to_string(), "d".to_string(), "2015-1".to_string(), 1, None), None);
    assert_eq!(c.add_year("y".to_string(), "d".to_string(), "2016-1".to_string(), 2, None), None);
    assert_eq!(c.add_year("y".to_string(), "d".to_string(), "2017-1".to_string(), 2, None), Some(6));
    assert!(c.model_has_years(1));
    assert!(!c.model_has_years(3));
}

#[test]
fn whole_model_stage_twice_adds_nothing() {
    let mut c = two_types_one_period();
    c.store_brands(1, 1, &vec![entry("Ford", "22"), entry("Fiat", "21"), entry("Gurgel", "99")]);
    let answer = |brand: &str| -> Vec<FipeModels> {
        match brand {
            "22" => vec![model("Ka", 4403), model("Fiesta", 4404)],
            "21" => vec![model("Uno", 100)],
            _ => vec![],
        }
    };
    let mut run = |c: &mut Catalog| -> usize {
        let mut added = 0;
        for b in select_brands(c) {
            added += c.store_models(b.id, &answer(&b.fipe)).unwrap();
        }
        added
    };
    assert_eq!(run(&mut c), 3);
    let pending = select_brands(&c);
    assert_eq!(pending.len(), 1);
    assert_eq!(pending[0].fipe, "99");
    assert_eq!(run(&mut c), 0);
    assert_eq!(c.models().len(), 3);
}

#[test]
fn stored_periods_are_found_by_code() {
    let c = two_types_one_period();
    assert_eq!(c.find_reference(&"310".to_string()), Some(0));
    assert_eq!(c.find_reference(&"311".to_string()), None);
}

#[test]
fn replicas_get_the_first_label_of_a_repeated_value() {
    let mut c = Catalog::new();
    c.add_type("Cars".to_string());
    c.add_reference("janeiro/2024".to_string(), "2024-01-01".to_string(), "310".to_string());
    c.add_reference("fevereiro/2024".to_string(), "2024-02-01".to_string(), "311".to_string());
    c.store_brands(1, 1, &vec![entry("Ford", "22")]);
    c.store_brands(1, 2, &vec![entry("Ford", "22")]);
    c.store_models(1, &vec![model("Ka", 4403)]);
    c.store_models(2, &vec![model("Ka", 4403)]);
    let years = vec![entry("2015 Gasolina", "2015-1"), entry("2015 again", "2015-1")];
    assert_eq!(c.store_years(&"4403".to_string(), 1, &years, 2026), Some(2));
    let rows = c.years();
    assert_eq!(rows[0].description, "2015 Gasolina");
    assert_eq!(rows[1].description, "2015 Gasolina");
    assert_eq!(rows[0].value, rows[1].value);
    assert_eq!(rows[0].fuel_id, rows[1].fuel_id);
    assert_ne!(rows[0].model_id, rows[1].model_id);
}
