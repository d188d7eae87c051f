use wage_engine::engine::{gross_pay, hours_flags, is_hours_label, run_payroll, EngineError};
use wage_engine::models::{
    mul_scaled, Employee, PayFrequency, PayItem, PayItemsTable, PayPeriod, PayRunInput,
    PayRunResult,
};
use wage_engine::registry::{builtin_calculators, CalculatorRegistry, TaxLawRegistry};
use wage_engine::tax::{
    flat_rate, BuiltinCalculator, FlatStateCalculator, TaxCalculator, TaxLaw, TaxRules,
    UsFederalCalculator,
};

fn law(region: &str, version: &str, rate: Option<i64>) -> TaxLaw {
    TaxLaw { region: region.to_string(), version: version.to_string(), rules: TaxRules { rate } }
}

fn employee(id: &str, region: &str, rate: i64, freq: PayFrequency) -> Employee {
    Employee {
        id: id.to_string(),
        name: format!("Employee {}", id),
        home_region: region.to_string(),
        pay_rate: rate,
        pay_frequency: freq,
    }
}

fn item(description: &str, amount: i64) -> PayItem {
    PayItem { description: description.to_string(), amount }
}

fn period() -> PayPeriod {
    PayPeriod { start: "2025-01-01".to_string(), end: "2025-01-15".to_string() }
}

fn federal_only() -> (TaxLawRegistry, CalculatorRegistry<BuiltinCalculator>) {
    let mut laws = TaxLawRegistry::new();
    laws.register(law("US-FED", "2025", Some(100_000)));
    let calcs = builtin_calculators(&laws);
    (laws, calcs)
}

fn federal_and_oklahoma() -> (TaxLawRegistry, CalculatorRegistry<BuiltinCalculator>) {
    let mut laws = TaxLawRegistry::new();
    laws.register(law("US-FED", "2025", Some(100_000)));
    laws.register(law("US-OK", "2025", Some(50_000)));
    let calcs = builtin_calculators(&laws);
    (laws, calcs)
}

fn run(
    employees: Vec<Employee>,
    items: Vec<(&str, Vec<PayItem>)>,
    laws: &TaxLawRegistry,
    calcs: &CalculatorRegistry<BuiltinCalculator>,
) -> Result<PayRunResult, EngineError> {
    let mut table = PayItemsTable::new();
    for (id, list) in items {
        table.insert(id.to_string(), list);
    }
    run_payroll(PayRunInput { employees, pay_items: table, pay_period: period() }, laws, calcs)
}

#[test]
fn test_us_federal_calculator() {
    let calc = UsFederalCalculator;
    let law = law("US-FED", "2025", Some(100_000));
    let employee = Employee {
        id: "1".into(),
        name: "Test".into(),
        home_region: "US-OK".into(),
        pay_rate: 10_000,
        pay_frequency: PayFrequency::Salary,
    };
    let tax = calc.calculate(&employee, 100_000, &law);
    assert_eq!(tax, Some(10_000));
}

#[test]
fn salaried_employee_federal_only() {
    let (laws, calcs) = federal_only();
    let r = run(vec![employee("1", "US-FED", 100_000, PayFrequency::Salary)], vec![], &laws, &calcs)
        .unwrap();
    assert_eq!(r.period.start, "2025-01-01");
    assert_eq!(r.period.end, "2025-01-15");
    assert_eq!(r.results.len(), 1);
    let row = &r.results[0];
    assert_eq!(row.gross, 100_000);
    assert_eq!(row.taxes, 10_000);
    assert_eq!(row.net, 90_000);
    let d = row.details.as_ref().unwrap();
    assert_eq!(d.tax_region, "US-FED");
    assert_eq!(d.tax_version, "2025");
}

#[test]
fn hourly_employee_with_hours_item() {
    let (laws, calcs) = federal_and_oklahoma();
    let r = run(
        vec![employee("2", "US-OK", 2_000, PayFrequency::Hourly)],
        vec![("2", vec![item("Hours", 4_000)])],
        &laws,
        &calcs,
    )
    .unwrap();
    let row = &r.results[0];
    assert_eq!(row.gross, 80_000);
    assert_eq!(row.taxes, 4_000);
    assert_eq!(row.net, 76_000);
    assert_eq!(row.details.as_ref().unwrap().tax_region, "US-OK");
}

#[test]
fn hourly_employee_with_bonus_and_deduction() {
    let (laws, calcs) = federal_and_oklahoma();
    let items = vec![item("hours", 1_000), item("bonus", 5_000), item("healthcare", -3_000)];
    let r = run(
        vec![employee("3", "US-OK", 2_000, PayFrequency::Hourly)],
        vec![("3", items)],
        &laws,
        &calcs,
    )
    .unwrap();
    let row = &r.results[0];
    assert_eq!(row.gross, 22_000);
    assert_eq!(row.taxes, 1_100);
    assert_eq!(row.net, 20_900);
}

#[test]
fn unknown_region_without_federal_fallback() {
    let mut laws = TaxLawRegistry::new();
    laws.register(law("US-OK", "2025", Some(50_000)));
    let mut calcs = CalculatorRegistry::new();
    calcs.register(
        "US-OK".to_string(),
        BuiltinCalculator::FlatState(FlatStateCalculator { region: "US-OK".to_string() }),
    );
    let r = run(vec![employee("4", "US-CA", 50_000, PayFrequency::Salary)], vec![], &laws, &calcs)
        .unwrap();
    let row = &r.results[0];
    assert_eq!(row.gross, 50_000);
    assert_eq!(row.taxes, 0);
    assert_eq!(row.net, row.gross);
    assert!(row.details.is_none());
}

#[test]
fn unknown_region_with_federal_fallback() {
    let (laws, calcs) = federal_and_oklahoma();
    let r = run(vec![employee("5", "US-ZZ", 70_000, PayFrequency::Salary)], vec![], &laws, &calcs)
        .unwrap();
    let row = &r.results[0];
    assert_eq!(row.gross, 70_000);
    assert_eq!(row.taxes, 7_000);
    assert_eq!(row.net, 63_000);
    let d = row.details.as_ref().unwrap();
    assert_eq!(d.tax_region, "US-FED");
    assert_eq!(d.tax_version, "2025");
}

#[test]
fn duplicate_hours_items_use_the_first() {
    let laws = TaxLawRegistry::new();
    let calcs: CalculatorRegistry<BuiltinCalculator> = CalculatorRegistry::new();
    let items = vec![item("hours", 1_000), item("hours", 500), item("Tips", 2_000)];
    let r = run(
        vec![employee("6", "US-OK", 1_000, PayFrequency::Hourly)],
        vec![("6", items)],
        &laws,
        &calcs,
    )
    .unwrap();
    assert_eq!(r.results[0].gross, 12_000);
}

#[test]
fn rows_follow_employee_order_and_net_is_gross_less_taxes() {
    let (laws, calcs) = federal_and_oklahoma();
    let employees: Vec<Employee> = (0..50)
        .map(|i| {
            let region = if i % 3 == 0 { "US-OK" } else { "US-FED" };
            employee(&format!("e{}", i), region, 1_000 * (i as i64 + 1), PayFrequency::Salary)
        })
        .collect();
    let r = run(employees.clone(), vec![("e7", vec![item("bonus", 333)])], &laws, &calcs).unwrap();
    assert_eq!(r.results.len(), employees.len());
    for (i, row) in r.results.iter().enumerate() {
        assert_eq!(row.employee.id, employees[i].id);
        assert_eq!(row.net, row.gross - row.taxes);
    }
    assert_eq!(r.results[7].gross, 8_333);
}

#[test]
fn repeated_runs_are_identical() {
    let (laws, calcs) = federal_and_oklahoma();
    let make = || {
        (0..20)
            .map(|i| employee(&format!("{}", i), "US-OK", 1_234 * i as i64, PayFrequency::Hourly))
            .collect::<Vec<_>>()
    };
    let items = || vec![("3", vec![item("HOURS", 777), item("x", -5)])];
    let a = run(make(), items(), &laws, &calcs).unwrap();
    let b = run(make(), items(), &laws, &calcs).unwrap();
    assert_eq!(format!("{:?}", a), format!("{:?}", b));
}

#[test]
fn empty_registries_tax_nothing() {
    let laws = TaxLawRegistry::new();
    let calcs: CalculatorRegistry<BuiltinCalculator> = CalculatorRegistry::new();
    let r = run(
        vec![
            employee("a", "US-FED", 100_000, PayFrequency::Salary),
            employee("b", "US-OK", 1_500, PayFrequency::Hourly),
        ],
        vec![("b", vec![item("hours", 800)])],
        &laws,
        &calcs,
    )
    .unwrap();
    for row in &r.results {
        assert_eq!(row.taxes, 0);
        assert_eq!(row.net, row.gross);
        assert!(row.details.is_none());
    }
    assert_eq!(r.results[1].gross, 12_000);
}

#[test]
fn empty_run_echoes_period() {
    let (laws, calcs) = federal_only();
    let r = run(vec![], vec![], &laws, &calcs).unwrap();
    assert!(r.results.is_empty());
    assert_eq!(r.period.start, "2025-01-01");
}

#[test]
fn missing_hours_item_gives_zero_base() {
    let (laws, calcs) = federal_only();
    let r = run(
        vec![employee("h", "US-FED", 2_000, PayFrequency::Hourly)],
        vec![("h", vec![item("bonus", 1_000)])],
        &laws,
        &calcs,
    )
    .unwrap();
    assert_eq!(r.results[0].gross, 1_000);
    assert_eq!(r.results[0].taxes, 100);
}

#[test]
fn negative_gross_is_kept() {
    let (laws, calcs) = federal_only();
    let r = run(
        vec![employee("n", "US-FED", -1_000, PayFrequency::Salary)],
        vec![("n", vec![item("fee", -500)])],
        &laws,
        &calcs,
    )
    .unwrap();
    assert_eq!(r.results[0].gross, -1_500);
    assert_eq!(r.results[0].taxes, -150);
    assert_eq!(r.results[0].net, -1_350);
}

#[test]
fn amount_out_of_range_aborts_the_run() {
    let (laws, calcs) = federal_only();
    let r = run(
        vec![
            employee("ok", "US-FED", 100, PayFrequency::Salary),
            employee("big", "US-FED", i64::MAX, PayFrequency::Salary),
        ],
        vec![("big", vec![item("bonus", 1)])],
        &laws,
        &calcs,
    );
    assert_eq!(r.unwrap_err(), EngineError::AmountOutOfRange);
}

#[test]
fn tax_out_of_range_aborts_the_run() {
    let mut laws = TaxLawRegistry::new();
    laws.register(law("US-FED", "2025", Some(3_000_000)));
    let calcs = builtin_calculators(&laws);
    let r = run(vec![employee("x", "US-FED", i64::MAX, PayFrequency::Salary)], vec![], &laws, &calcs);
    assert_eq!(r.unwrap_err(), EngineError::AmountOutOfRange);
}

#[test]
fn later_pay_items_replace_earlier_ones() {
    let mut table = PayItemsTable::new();
    table.insert("a".to_string(), vec![item("bonus", 1)]);
    table.insert("a".to_string(), vec![item("bonus", 2), item("bonus", 3)]);
    assert_eq!(table.get(&"a".to_string()).len(), 2);
    assert_eq!(table.get(&"b".to_string()).len(), 0);
}

#[test]
fn law_registry_lookups() {
    let mut laws = TaxLawRegistry::new();
    laws.register(law("US-OK", "2024", Some(40_000)));
    laws.register(law("US-OK", "2025", Some(50_000)));
    laws.register(law("US-FED", "2025", Some(100_000)));
    assert_eq!(laws.get(&"US-OK-2024".to_string()).unwrap().rules.rate, Some(40_000));
    assert!(laws.get(&"US-OK".to_string()).is_none());
    assert_eq!(laws.for_region(&"US-OK".to_string()).unwrap().version, "2025");
    assert!(laws.for_region(&"US-CA".to_string()).is_none());
    assert_eq!(law("US-OK", "2025", None).key(), "US-OK-2025");
}

#[test]
fn builtin_calculators_cover_law_regions() {
    let (laws, calcs) = federal_and_oklahoma();
    assert!(matches!(calcs.get(&"US-FED".to_string()), Some(BuiltinCalculator::Federal(_))));
    match calcs.get(&"US-OK".to_string()) {
        Some(BuiltinCalculator::FlatState(c)) => assert_eq!(c.region, "US-OK"),
        _ => panic!("no calculator for US-OK"),
    }
    assert!(calcs.get(&"US-CA".to_string()).is_none());
    assert_eq!(calcs.get(&"US-OK".to_string()).unwrap().region_code(), "US-OK");
    assert_eq!(UsFederalCalculator.region_code(), "US-FED");
    let _ = laws;
}

#[test]
fn hours_label_is_case_insensitive() {
    let items = vec![item("HoUrS", 1), item("hour", 2), item("Hours ", 3), item("hours", 4)];
    assert_eq!(hours_flags(&items), vec![true, false, false, true]);
    assert!(is_hours_label("hours"));
    assert!(!is_hours_label("Hours"));
}

#[test]
fn gross_pay_from_flags() {
    let e = employee("g", "US-FED", 1_000, PayFrequency::Hourly);
    let items = vec![item("a", 300), item("b", 250), item("c", 7)];
    assert_eq!(gross_pay(&e, &items, &[false, true, true]), Some(2_500 + 300));
    assert_eq!(gross_pay(&e, &items, &[false, false, false]), Some(557));
    let s = employee("s", "US-FED", 1_000, PayFrequency::Salary);
    assert_eq!(gross_pay(&s, &items, &[true, false, false]), Some(1_257));
}

#[test]
fn flat_rate_rounds_toward_zero() {
    assert_eq!(flat_rate(999, &TaxRules { rate: Some(100_000) }), Some(99));
    assert_eq!(flat_rate(-999, &TaxRules { rate: Some(100_000) }), Some(-99));
    assert_eq!(flat_rate(1_000, &TaxRules { rate: None }), Some(0));
    assert_eq!(mul_scaled(150, 250, 100), Some(375));
    assert_eq!(mul_scaled(i64::MAX, 200, 100), None);
}

#[test]
fn one_worker_and_many_workers_agree() {
    let (laws, calcs) = federal_and_oklahoma();
    let make = || {
        (0..200)
            .map(|i| {
                let region = if i % 2 == 0 { "US-OK" } else { "US-ZZ" };
                employee(&format!("w{}", i), region, 997 * i as i64, PayFrequency::Hourly)
            })
            .collect::<Vec<_>>()
    };
    let items = || vec![("w10", vec![item("hours", 1_250), item("bonus", 40)])];
    let single = rayon::ThreadPoolBuilder::new().num_threads(1).build().unwrap();
    let a = single.install(|| run(make(), items(), &laws, &calcs).unwrap());
    let many = rayon::ThreadPoolBuilder::new().num_threads(8).build().unwrap();
    let b = many.install(|| run(make(), items(), &laws, &calcs).unwrap());
    assert_eq!(format!("{:?}", a), format!("{:?}", b));
    assert_eq!(a.results[10].gross, 997 * 10 * 1_250 / 100 + 40);
}
