//! Properties of every pay run, proved over the engine's contract.
use crate::engine::{
    base_pay, first_flagged, gross_of, hours_flags_of, run_of, run_view, unflagged_sum, EngineError,
};
use crate::models::{EmployeeModel, PayItem, PayRunInput, AMOUNT_SCALE};
use crate::registry::{CalculatorRegistry, TaxLawRegistry};
use crate::tax::TaxCalculator;
use vstd::prelude::*;

verus! {

/// In every row of a successful run, net pay is gross pay less taxes.
pub proof fn lemma_net_is_gross_less_taxes<C: TaxCalculator>(
    input: PayRunInput,
    laws: TaxLawRegistry,
    calcs: CalculatorRegistry<C>,
)
    requires
        run_of(input, laws, calcs) is Ok,
    ensures
        forall|i: int|
            0 <= i < run_of(input, laws, calcs)->Ok_0.results.len() ==> {
                let row = #[trigger] run_of(input, laws, calcs)->Ok_0.results[i];
                row.net == row.gross - row.taxes
            },
{
}

/// A successful run has one row per employee, in the order of the
/// request, each carrying that employee.
pub proof fn lemma_rows_follow_employees<C: TaxCalculator>(
    input: PayRunInput,
    laws: TaxLawRegistry,
    calcs: CalculatorRegistry<C>,
)
    requires
        run_of(input, laws, calcs) is Ok,
    ensures
        run_of(input, laws, calcs)->Ok_0.results.len() == input.employees@.len(),
        run_of(input, laws, calcs)->Ok_0.period == input.pay_period@,
        forall|i: int|
            0 <= i < input.employees@.len() ==> (#[trigger] run_of(input, laws, calcs)->Ok_0.results[i]).employee
                == input.employees@[i]@,
{
}

/// Two runs on the same request and registries give the same result,
/// however the work was scheduled.
pub proof fn lemma_run_deterministic<C: TaxCalculator>(
    input: PayRunInput,
    laws: TaxLawRegistry,
    calcs: CalculatorRegistry<C>,
    first: Result<crate::models::PayRunResult, EngineError>,
    second: Result<crate::models::PayRunResult, EngineError>,
)
    requires
        run_view(first) == run_of(input, laws, calcs),
        run_view(second) == run_of(input, laws, calcs),
    ensures
        run_view(first) == run_view(second),
{
}

/// With no tax law and no calculator registered, no row is taxed and net
/// pay equals gross pay.
pub proof fn lemma_empty_registries_tax_nothing<C: TaxCalculator>(
    input: PayRunInput,
    laws: TaxLawRegistry,
    calcs: CalculatorRegistry<C>,
)
    requires
        laws.laws@.len() == 0,
        calcs.entries@.len() == 0,
        run_of(input, laws, calcs) is Ok,
    ensures
        forall|i: int|
            0 <= i < run_of(input, laws, calcs)->Ok_0.results.len() ==> {
                let row = #[trigger] run_of(input, laws, calcs)->Ok_0.results[i];
                row.taxes == 0 && row.net == row.gross && row.details is None
            },
{
}

/// Gross pay is not negative where the pay rate and every pay item are
/// not negative.
pub proof fn lemma_gross_nonnegative(e: EmployeeModel, items: Seq<PayItem>)
    requires
        e.pay_rate >= 0,
        forall|i: int| 0 <= i < items.len() ==> (#[trigger] items[i]).amount >= 0,
    ensures
        gross_of(e, items) >= 0,
{
    let flags = hours_flags_of(items);
    lemma_first_flagged_nonnegative(items, flags, 0);
    lemma_unflagged_sum_nonnegative(items, flags, items.len() as int);
    let h = first_flagged(items, flags, 0);
    let p = (e.pay_rate as int) * h;
    assert(p >= 0) by (nonlinear_arith)
        requires
            e.pay_rate >= 0,
            h >= 0,
            p == (e.pay_rate as int) * h,
    ;
    assert(p / (AMOUNT_SCALE as int) >= 0);
    assert(base_pay(e, h) >= 0);
}

proof fn lemma_first_flagged_nonnegative(items: Seq<PayItem>, flags: Seq<bool>, i: int)
    requires
        forall|j: int| 0 <= j < items.len() ==> (#[trigger] items[j]).amount >= 0,
    ensures
        first_flagged(items, flags, i) >= 0,
    decreases items.len() - i,
{
    if 0 <= i < items.len() && !flags[i] {
        lemma_first_flagged_nonnegative(items, flags, i + 1);
    }
}

proof fn lemma_unflagged_sum_nonnegative(items: Seq<PayItem>, flags: Seq<bool>, n: int)
    requires
        n <= items.len(),
        forall|j: int| 0 <= j < items.len() ==> (#[trigger] items[j]).amount >= 0,
    ensures
        unflagged_sum(items, flags, n) >= 0,
    decreases n,
{
    if n > 0 {
        lemma_unflagged_sum_nonnegative(items, flags, n - 1);
    }
}

} // verus!
