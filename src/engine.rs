//! The payroll engine: gross, tax and net for every employee of a run.
use crate::models::{
    fits_i64, mul_scaled_wide, scaled_product, Employee, EmployeeModel, EmployeePayResult,
    PayFrequency, PayItem, PayItemsTable, PayRowModel, PayRunInput, PayRunModel, PayRunResult,
    TaxDetails, AMOUNT_SCALE,
};
use crate::registry::{CalculatorRegistry, TaxLawRegistry};
use crate::tax::{federal_region, TaxCalculator, TaxLaw};
use rayon::iter::{IndexedParallelIterator, IntoParallelRefIterator, ParallelIterator};
use vstd::prelude::*;

verus! {

/// Why a run was aborted.
#[derive(Debug, Clone, Copy, PartialEq, Eq, Structural)]
pub enum EngineError {
    /// A gross, tax or net amount of some employee does not fit in `i64`.
    AmountOutOfRange,
}

/// What `str::to_lowercase` returns for the characters `s`.
pub uninterp spec fn lower_of(s: Seq<char>) -> Seq<char>;

/// Relies on `str::to_lowercase`: its result depends on the characters
/// of `s` alone.
#[verifier::external_body]
fn lowercase(s: &str) -> (r: String)
    ensures
        r@ == lower_of(s@),
{
    s.to_lowercase()
}

pub open spec fn hours_label() -> Seq<char> {
    seq!['h', 'o', 'u', 'r', 's']
}

/// Whether a pay item's description names the hours worked.
pub open spec fn is_hours(description: Seq<char>) -> bool {
    lower_of(description) == hours_label()
}

/// For each item, whether it is an hours item.
pub open spec fn hours_flags_of(items: Seq<PayItem>) -> Seq<bool> {
    Seq::new(items.len(), |i: int| is_hours(items[i].description@))
}

/// Whether an already lowercased description is the hours label.
pub fn is_hours_label(lowered: &str) -> (r: bool)
    ensures
        r == (lowered@ == hours_label()),
{
    let n = lowered.unicode_len();
    if n != 5 {
        return false;
    }
    let r = lowered.get_char(0) == 'h' && lowered.get_char(1) == 'o' && lowered.get_char(2) == 'u'
        && lowered.get_char(3) == 'r' && lowered.get_char(4) == 's';
    proof {
        if r {
            assert(lowered@ =~= hours_label());
        }
    }
    r
}

/// For each item, whether its description is `hours` in any letter case.
pub fn hours_flags(items: &[PayItem]) -> (r: Vec<bool>)
    ensures
        r@ == hours_flags_of(items@),
{
    let mut flags: Vec<bool> = Vec::new();
    let mut i: usize = 0;
    while i < items.len()
        invariant
            i <= items@.len(),
            flags@ == hours_flags_of(items@).subrange(0, i as int),
        decreases items@.len() - i,
    {
        let lowered = lowercase(items[i].description.as_str());
        flags.push(is_hours_label(lowered.as_str()));
        i = i + 1;
    }
    assert(flags@ =~= hours_flags_of(items@));
    flags
}

/// The amount of the first flagged item at or after `i`, zero where none.
pub open spec fn first_flagged(items: Seq<PayItem>, flags: Seq<bool>, i: int) -> int
    decreases items.len() - i,
{
    if i < 0 || i >= items.len() {
        0
    } else if flags[i] {
        items[i].amount as int
    } else {
        first_flagged(items, flags, i + 1)
    }
}

/// The sum of the amounts of the unflagged items among the first `n`.
pub open spec fn unflagged_sum(items: Seq<PayItem>, flags: Seq<bool>, n: int) -> int
    decreases n,
{
    if n <= 0 {
        0
    } else {
        unflagged_sum(items, flags, n - 1) + if flags[n - 1] {
            0
        } else {
            items[n - 1].amount as int
        }
    }
}

/// Base pay before adjustments: rate times hours for an hourly employee,
/// the rate itself for a salaried one.
pub open spec fn base_pay(e: EmployeeModel, hours: int) -> int {
    match e.pay_frequency {
        PayFrequency::Hourly => scaled_product(e.pay_rate as int, hours, AMOUNT_SCALE as int),
        PayFrequency::Salary => e.pay_rate as int,
    }
}

/// Gross pay, where `flags` marks the hours items: base pay from the first
/// hours item, plus every item that is not an hours item.
pub open spec fn gross_with(e: EmployeeModel, items: Seq<PayItem>, flags: Seq<bool>) -> int {
    base_pay(e, first_flagged(items, flags, 0)) + unflagged_sum(items, flags, items.len() as int)
}

pub open spec fn gross_of(e: EmployeeModel, items: Seq<PayItem>) -> int {
    gross_with(e, items, hours_flags_of(items))
}

/// Gross pay of `employee`, where `flags[i]` tells whether `items[i]` is
/// an hours item; `None` where it does not fit in `i64`.
pub fn gross_pay(employee: &Employee, items: &[PayItem], flags: &[bool]) -> (r: Option<i64>)
    requires
        flags@.len() == items@.len(),
    ensures
        r == (if fits_i64(gross_with(employee@, items@, flags@)) {
            Some(gross_with(employee@, items@, flags@) as i64)
        } else {
            None
        }),
{
    let mut hours: i64 = 0;
    let mut found = false;
    let mut extra: i128 = 0;
    let mut i: usize = 0;
    let n: usize = items.len();
    proof {
        assert(n as int <= 0xffff_ffff_ffff_ffff);
    }
    while i < n
        invariant
            i <= n,
            n == items@.len(),
            n as int <= 0xffff_ffff_ffff_ffff,
            flags@.len() == items@.len(),
            extra == unflagged_sum(items@, flags@, i as int),
            -(i as int) * 0x8000_0000_0000_0000 <= extra <= (i as int) * 0x7fff_ffff_ffff_ffff,
            found ==> hours == first_flagged(items@, flags@, 0),
            !found ==> first_flagged(items@, flags@, 0) == first_flagged(items@, flags@, i as int),
            !found ==> hours == 0,
        decreases n - i,
    {
        if flags[i] {
            if !found {
                hours = items[i].amount;
                found = true;
            }
        } else {
            extra = extra + items[i].amount as i128;
        }
        i = i + 1;
    }
    proof {
        if !found {
            assert(first_flagged(items@, flags@, i as int) == 0);
        }
    }
    let base: i128 = match employee.pay_frequency {
        PayFrequency::Hourly => mul_scaled_wide(employee.pay_rate, hours, AMOUNT_SCALE),
        PayFrequency::Salary => employee.pay_rate as i128,
    };
    match base.checked_add(extra) {
        Some(g) => {
            if i64::MIN as i128 <= g && g <= i64::MAX as i128 {
                Some(g as i64)
            } else {
                None
            }
        },
        None => None,
    }
}

/// The law applied to an employee: the one of their home region, else
/// the federal one.
pub open spec fn law_used(e: EmployeeModel, laws: TaxLawRegistry) -> Option<TaxLaw> {
    match laws.law_for_region(e.home_region) {
        Some(l) => Some(l),
        None => laws.law_for_region(federal_region()),
    }
}

/// The calculator applied to an employee: the one of their home region,
/// else the federal one.
pub open spec fn calculator_used<C: TaxCalculator>(
    e: EmployeeModel,
    calcs: CalculatorRegistry<C>,
) -> Option<C> {
    match calcs.calculator_for(e.home_region) {
        Some(c) => Some(c),
        None => calcs.calculator_for(federal_region()),
    }
}

/// Tax on `gross`: what the calculator gives under the law where both
/// were found, zero where either is missing.
pub open spec fn tax_of<C: TaxCalculator>(
    e: EmployeeModel,
    gross: i64,
    laws: TaxLawRegistry,
    calcs: CalculatorRegistry<C>,
) -> Option<i64> {
    match (law_used(e, laws), calculator_used(e, calcs)) {
        (Some(l), Some(c)) => c.spec_tax(e, gross, l@),
        _ => Some(0),
    }
}

pub open spec fn details_of(e: EmployeeModel, laws: TaxLawRegistry) -> Option<(Seq<char>, Seq<char>)> {
    match law_used(e, laws) {
        Some(l) => Some((l.region@, l.version@)),
        None => None,
    }
}

/// The row of one employee with the given pay items.
pub open spec fn row_of<C: TaxCalculator>(
    e: EmployeeModel,
    items: Seq<PayItem>,
    laws: TaxLawRegistry,
    calcs: CalculatorRegistry<C>,
) -> Result<PayRowModel, EngineError> {
    let g = gross_of(e, items);
    if !fits_i64(g) {
        Err(EngineError::AmountOutOfRange)
    } else {
        match tax_of(e, g as i64, laws, calcs) {
            Some(t) => if fits_i64(g - t) {
                Ok(
                    PayRowModel {
                        employee: e,
                        gross: g as i64,
                        taxes: t,
                        net: (g - t) as i64,
                        details: details_of(e, laws),
                    },
                )
            } else {
                Err(EngineError::AmountOutOfRange)
            },
            None => Err(EngineError::AmountOutOfRange),
        }
    }
}

pub open spec fn row_view(r: Result<EmployeePayResult, EngineError>) -> Result<PayRowModel, EngineError> {
    match r {
        Ok(row) => Ok(row@),
        Err(e) => Err(e),
    }
}

/// Pay of one employee of a run.
pub fn pay_employee<C: TaxCalculator>(
    employee: &Employee,
    pay_items: &PayItemsTable,
    laws: &TaxLawRegistry,
    calcs: &CalculatorRegistry<C>,
) -> (r: Result<EmployeePayResult, EngineError>)
    ensures
        row_view(r) == row_of(employee@, pay_items.items_of(employee.id@), *laws, *calcs),
{
    let items = pay_items.get(&employee.id);
    let flags = hours_flags(items);
    let gross = match gross_pay(employee, items, flags.as_slice()) {
        Some(g) => g,
        None => return Err(EngineError::AmountOutOfRange),
    };
    proof {
        reveal_strlit("US-FED");
        assert("US-FED"@ =~= federal_region());
    }
    let federal = "US-FED".to_owned();
    let law = match laws.for_region(&employee.home_region) {
        Some(l) => Some(l),
        None => laws.for_region(&federal),
    };
    let calculator = match calcs.get(&employee.home_region) {
        Some(c) => Some(c),
        None => calcs.get(&federal),
    };
    let tax: Option<i64> = match (law, calculator) {
        (Some(l), Some(c)) => c.calculate(employee, gross, l),
        _ => Some(0),
    };
    let taxes = match tax {
        Some(t) => t,
        None => return Err(EngineError::AmountOutOfRange),
    };
    let net = match gross.checked_sub(taxes) {
        Some(n) => n,
        None => return Err(EngineError::AmountOutOfRange),
    };
    let details = match law {
        Some(l) => Some(TaxDetails { tax_region: l.region.clone(), tax_version: l.version.clone() }),
        None => None,
    };
    Ok(EmployeePayResult { employee: employee.duplicate(), gross, taxes, net, details })
}

/// Rows of all employees, in the order of `employees`.
pub open spec fn rows_of<C: TaxCalculator>(
    employees: Seq<Employee>,
    pay_items: PayItemsTable,
    laws: TaxLawRegistry,
    calcs: CalculatorRegistry<C>,
) -> Seq<Result<PayRowModel, EngineError>> {
    Seq::new(
        employees.len(),
        |i: int| row_of(employees[i]@, pay_items.items_of(employees[i].id@), laws, calcs),
    )
}

/// Relies on rayon's `par_iter().map(..).collect_into_vec(..)`: the
/// output holds the mapped value of each input at the input's index.
/// The mapped function is `pay_employee`.
#[verifier::external_body]
fn pay_in_parallel<C: TaxCalculator + Sync>(
    employees: &Vec<Employee>,
    pay_items: &PayItemsTable,
    laws: &TaxLawRegistry,
    calcs: &CalculatorRegistry<C>,
) -> (r: Vec<Result<EmployeePayResult, EngineError>>)
    ensures
        r@.len() == employees@.len(),
        forall|i: int|
            0 <= i < employees@.len() ==> row_view(#[trigger] r@[i]) == row_of(
                employees@[i]@,
                pay_items.items_of(employees@[i].id@),
                *laws,
                *calcs,
            ),
{
    let mut rows = Vec::new();
    employees.par_iter().map(|e| pay_employee(e, pay_items, laws, calcs)).collect_into_vec(&mut rows);
    rows
}

/// The result of a run: every row where all are computed, else the error.
pub open spec fn run_of<C: TaxCalculator>(
    input: PayRunInput,
    laws: TaxLawRegistry,
    calcs: CalculatorRegistry<C>,
) -> Result<PayRunModel, EngineError> {
    let rows = rows_of(input.employees@, input.pay_items, laws, calcs);
    if exists|i: int| 0 <= i < rows.len() && (#[trigger] rows[i]) is Err {
        Err(EngineError::AmountOutOfRange)
    } else {
        Ok(PayRunModel { period: input.pay_period@, results: Seq::new(rows.len(), |i: int| rows[i]->Ok_0) })
    }
}

pub open spec fn run_view(r: Result<PayRunResult, EngineError>) -> Result<PayRunModel, EngineError> {
    match r {
        Ok(res) => Ok(res@),
        Err(e) => Err(e),
    }
}

/// Runs a payroll: the employees are paid in parallel, and the rows come
/// out in the order of `input.employees`.
pub fn run_payroll<C: TaxCalculator + Sync>(
    input: PayRunInput,
    laws: &TaxLawRegistry,
    calcs: &CalculatorRegistry<C>,
) -> (r: Result<PayRunResult, EngineError>)
    ensures
        run_view(r) == run_of(input, *laws, *calcs),
{
    let rows = pay_in_parallel(&input.employees, &input.pay_items, laws, calcs);
    let ghost spec_rows = rows_of(input.employees@, input.pay_items, *laws, *calcs);
    let mut results: Vec<EmployeePayResult> = Vec::new();
    let mut i: usize = 0;
    while i < rows.len()
        invariant
            i <= rows@.len(),
            spec_rows == rows_of(input.employees@, input.pay_items, *laws, *calcs),
            rows@.len() == spec_rows.len(),
            forall|j: int| 0 <= j < rows@.len() ==> row_view(#[trigger] rows@[j]) == spec_rows[j],
            results@.len() == i,
            forall|j: int| 0 <= j < i ==> spec_rows[j] == Ok::<PayRowModel, EngineError>((#[trigger] results@[j])@),
        decreases rows@.len() - i,
    {
        match &rows[i] {
            Ok(row) => {
                results.push(row.duplicate());
            },
            Err(e) => {
                assert(row_view(rows@[i as int]) == spec_rows[i as int]);
                assert(spec_rows[i as int] is Err);
                assert(run_of(input, *laws, *calcs) is Err);
                return Err(*e);
            },
        }
        i = i + 1;
    }
    assert(!exists|j: int| 0 <= j < spec_rows.len() && (#[trigger] spec_rows[j]) is Err) by {
        assert forall|j: int| 0 <= j < spec_rows.len() implies !(#[trigger] spec_rows[j] is Err) by {
            assert(spec_rows[j] == Ok::<PayRowModel, EngineError>(results@[j]@));
        }
    }
    let r = PayRunResult { period: input.pay_period.duplicate(), results };
    assert(r.results@.map_values(|x: EmployeePayResult| x@) =~= Seq::new(
        spec_rows.len(),
        |j: int| spec_rows[j]->Ok_0,
    ));
    Ok(r)
}

} // verus!
