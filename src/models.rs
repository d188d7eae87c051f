//! Value types of a pay run: employees, pay items, the pay period, the
//! request handed to the engine and the rows it produces.
//!
//! Money is held in fixed point, as hundredths of a currency unit
//! (cents). The amount of an hours item is held at the same scale, as
//! hundredths of an hour.
use vstd::prelude::*;

verus! {

/// Fixed-point scale of amounts: an amount of `100` is one currency unit
/// (or one hour, for an hours item).
pub const AMOUNT_SCALE: i64 = 100;

/// How an employee is paid.
#[derive(Debug, Clone, Copy, PartialEq, Eq, Structural)]
pub enum PayFrequency {
    /// `pay_rate` is per hour; hours worked come from an hours item.
    Hourly,
    /// `pay_rate` is the amount for the whole pay period.
    Salary,
}

/// An employee to be paid in a run.
#[derive(Debug, Clone)]
pub struct Employee {
    pub id: String,
    pub name: String,
    /// Region code of the employee's tax jurisdiction, such as `US-OK`.
    pub home_region: String,
    /// Hourly rate or period salary, in hundredths.
    pub pay_rate: i64,
    pub pay_frequency: PayFrequency,
}

/// What the engine reads of an employee, as plain values.
pub ghost struct EmployeeModel {
    pub id: Seq<char>,
    pub name: Seq<char>,
    pub home_region: Seq<char>,
    pub pay_rate: i64,
    pub pay_frequency: PayFrequency,
}

impl View for Employee {
    type V = EmployeeModel;

    open spec fn view(&self) -> EmployeeModel {
        EmployeeModel {
            id: self.id@,
            name: self.name@,
            home_region: self.home_region@,
            pay_rate: self.pay_rate,
            pay_frequency: self.pay_frequency,
        }
    }
}

impl Employee {
    /// A field-by-field copy of this employee.
    pub fn duplicate(&self) -> (r: Employee)
        ensures
            r@ == self@,
    {
        Employee {
            id: self.id.clone(),
            name: self.name.clone(),
            home_region: self.home_region.clone(),
            pay_rate: self.pay_rate,
            pay_frequency: self.pay_frequency,
        }
    }
}

/// An earning or a deduction on an employee's pay. On an hourly
/// employee, an item described as `hours` (in any letter case) gives
/// the hours worked instead.
#[derive(Debug, Clone)]
pub struct PayItem {
    pub description: String,
    /// Amount in hundredths; negative for a deduction.
    pub amount: i64,
}

/// Inclusive start and end dates of a pay period, as `YYYY-MM-DD`.
#[derive(Debug, Clone)]
pub struct PayPeriod {
    pub start: String,
    pub end: String,
}

impl View for PayPeriod {
    type V = (Seq<char>, Seq<char>);

    open spec fn view(&self) -> (Seq<char>, Seq<char>) {
        (self.start@, self.end@)
    }
}

impl PayPeriod {
    /// A field-by-field copy of this period.
    pub fn duplicate(&self) -> (r: PayPeriod)
        ensures
            r@ == self@,
    {
        PayPeriod { start: self.start.clone(), end: self.end.clone() }
    }
}

/// The pay items of one employee.
#[derive(Debug, Clone)]
pub struct EmployeeItems {
    pub employee_id: String,
    pub items: Vec<PayItem>,
}

/// The index of the last of the first `n` elements of `s` that satisfy
/// `p`, or `-1` where none does.
pub open spec fn last_match<T>(s: Seq<T>, p: spec_fn(T) -> bool, n: int) -> int
    decreases n,
{
    if n <= 0 {
        -1
    } else if p(s[n - 1]) {
        n - 1
    } else {
        last_match(s, p, n - 1)
    }
}

pub proof fn lemma_last_match_bounds<T>(s: Seq<T>, p: spec_fn(T) -> bool, n: int)
    requires
        0 <= n <= s.len(),
    ensures
        -1 <= last_match(s, p, n) < n,
        last_match(s, p, n) >= 0 ==> p(s[last_match(s, p, n)]),
    decreases n,
{
    if n > 0 && !p(s[n - 1]) {
        lemma_last_match_bounds(s, p, n - 1);
    }
}

/// Whether an entry of a `PayItemsTable` is for the employee `id`.
pub open spec fn id_is(id: Seq<char>) -> spec_fn(EmployeeItems) -> bool {
    |e: EmployeeItems| e.employee_id@ == id
}

/// Pay items by employee id. An id with no entry has no items; where an
/// id was inserted twice, the later insertion stands.
#[derive(Debug, Clone)]
pub struct PayItemsTable {
    pub entries: Vec<EmployeeItems>,
}

impl PayItemsTable {
    pub open spec fn index_of(&self, id: Seq<char>) -> int {
        last_match(self.entries@, id_is(id), self.entries@.len() as int)
    }

    /// The items of the employee with the given id, empty where none.
    pub open spec fn items_of(&self, id: Seq<char>) -> Seq<PayItem> {
        let k = self.index_of(id);
        if k >= 0 {
            self.entries@[k].items@
        } else {
            Seq::empty()
        }
    }

    pub fn new() -> (r: PayItemsTable)
        ensures
            forall|id: Seq<char>| (#[trigger] r.items_of(id)) == Seq::<PayItem>::empty(),
    {
        PayItemsTable { entries: Vec::new() }
    }

    /// Sets the items of `employee_id`, replacing any it had.
    pub fn insert(&mut self, employee_id: String, items: Vec<PayItem>)
        ensures
            final(self).items_of(employee_id@) == items@,
            forall|id: Seq<char>|
                id != employee_id@ ==> (#[trigger] final(self).items_of(id)) == old(self).items_of(id),
    {
        self.entries.push(EmployeeItems { employee_id, items });
        assert forall|id: Seq<char>| id != employee_id@ implies (#[trigger] self.items_of(id))
            == old(self).items_of(id) by {
            assert(self.entries@.drop_last() == old(self).entries@);
            let p = id_is(id);
            assert(!p(self.entries@[self.entries@.len() - 1]));
            assert(forall|j: int| 0 <= j < old(self).entries@.len() ==> self.entries@[j] == old(self).entries@[j]);
            let n = old(self).entries@.len() as int;
            assert(last_match(self.entries@, p, n + 1) == last_match(self.entries@, p, n));
            lemma_last_match_prefix(self.entries@, old(self).entries@, p, n);
            lemma_last_match_bounds(old(self).entries@, p, n);
        }
    }

    /// The items of the employee with the given id, as a slice.
    pub fn get(&self, id: &String) -> (r: &[PayItem])
        ensures
            r@ == self.items_of(id@),
    {
        let mut found: Option<usize> = None;
        let mut i: usize = 0;
        let ghost p = id_is(id@);
        while i < self.entries.len()
            invariant
                i <= self.entries@.len(),
                p == id_is(id@),
                match found {
                    Some(k) => k as int == last_match(self.entries@, p, i as int),
                    None => last_match(self.entries@, p, i as int) == -1,
                },
            decreases self.entries@.len() - i,
        {
            if self.entries[i].employee_id == *id {
                found = Some(i);
            }
            i = i + 1;
        }
        proof {
            lemma_last_match_bounds(self.entries@, p, i as int);
        }
        match found {
            Some(k) => self.entries[k].items.as_slice(),
            None => &[],
        }
    }
}

/// `last_match` finds an index exactly where some element matches.
pub proof fn lemma_last_match_exists<T>(s: Seq<T>, p: spec_fn(T) -> bool, n: int)
    requires
        0 <= n <= s.len(),
    ensures
        last_match(s, p, n) >= 0 <==> exists|k: int| 0 <= k < n && p(#[trigger] s[k]),
    decreases n,
{
    lemma_last_match_bounds(s, p, n);
    if n > 0 {
        lemma_last_match_exists(s, p, n - 1);
        if !p(s[n - 1]) && exists|k: int| 0 <= k < n && p(#[trigger] s[k]) {
            let k = choose|k: int| 0 <= k < n && p(#[trigger] s[k]);
            assert(k < n - 1);
        }
    }
}

pub proof fn lemma_last_match_prefix<T>(s: Seq<T>, t: Seq<T>, p: spec_fn(T) -> bool, n: int)
    requires
        0 <= n <= t.len(),
        n <= s.len(),
        forall|j: int| 0 <= j < n ==> s[j] == t[j],
    ensures
        last_match(s, p, n) == last_match(t, p, n),
    decreases n,
{
    if n > 0 {
        lemma_last_match_prefix(s, t, p, n - 1);
    }
}

/// A pay-run request.
#[derive(Debug, Clone)]
pub struct PayRunInput {
    pub employees: Vec<Employee>,
    pub pay_items: PayItemsTable,
    pub pay_period: PayPeriod,
}

/// Where the tax rules applied to a row came from.
#[derive(Debug, Clone)]
pub struct TaxDetails {
    pub tax_region: String,
    pub tax_version: String,
}

/// The result for one employee. `details` is `None` where no tax law was
/// found for the employee.
#[derive(Debug, Clone)]
pub struct EmployeePayResult {
    pub employee: Employee,
    pub gross: i64,
    pub taxes: i64,
    pub net: i64,
    pub details: Option<TaxDetails>,
}

pub ghost struct PayRowModel {
    pub employee: EmployeeModel,
    pub gross: i64,
    pub taxes: i64,
    pub net: i64,
    pub details: Option<(Seq<char>, Seq<char>)>,
}

impl View for EmployeePayResult {
    type V = PayRowModel;

    open spec fn view(&self) -> PayRowModel {
        PayRowModel {
            employee: self.employee@,
            gross: self.gross,
            taxes: self.taxes,
            net: self.net,
            details: match self.details {
                Some(d) => Some((d.tax_region@, d.tax_version@)),
                None => None,
            },
        }
    }
}

impl EmployeePayResult {
    /// A field-by-field copy of this row.
    pub fn duplicate(&self) -> (r: EmployeePayResult)
        ensures
            r@ == self@,
    {
        let details = match &self.details {
            Some(d) => Some(TaxDetails { tax_region: d.tax_region.clone(), tax_version: d.tax_version.clone() }),
            None => None,
        };
        EmployeePayResult {
            employee: self.employee.duplicate(),
            gross: self.gross,
            taxes: self.taxes,
            net: self.net,
            details,
        }
    }
}

/// The result of a whole run: the period, and one row per employee.
#[derive(Debug, Clone)]
pub struct PayRunResult {
    pub period: PayPeriod,
    pub results: Vec<EmployeePayResult>,
}

pub ghost struct PayRunModel {
    pub period: (Seq<char>, Seq<char>),
    pub results: Seq<PayRowModel>,
}

impl View for PayRunResult {
    type V = PayRunModel;

    open spec fn view(&self) -> PayRunModel {
        PayRunModel {
            period: self.period@,
            results: self.results@.map_values(|r: EmployeePayResult| r@),
        }
    }
}


/// `n / d` rounded toward zero, for a positive `d`.
pub open spec fn div_toward_zero(n: int, d: int) -> int {
    if n >= 0 {
        n / d
    } else {
        -((-n) / d)
    }
}

/// `a * b / scale`, rounded toward zero: the product of two fixed-point
/// values brought back to the scale of `a`.
pub open spec fn scaled_product(a: int, b: int, scale: int) -> int {
    div_toward_zero(a * b, scale)
}

pub open spec fn fits_i64(x: int) -> bool {
    i64::MIN <= x <= i64::MAX
}

/// `scaled_product(a, b, scale)`, or `None` where it does not fit in `i64`.
pub fn mul_scaled(a: i64, b: i64, scale: i64) -> (r: Option<i64>)
    requires
        scale > 0,
    ensures
        r == (if fits_i64(scaled_product(a as int, b as int, scale as int)) {
            Some(scaled_product(a as int, b as int, scale as int) as i64)
        } else {
            None
        }),
{
    let q = mul_scaled_wide(a, b, scale);
    if i64::MIN as i128 <= q && q <= i64::MAX as i128 {
        Some(q as i64)
    } else {
        None
    }
}

/// `scaled_product(a, b, scale)` exactly, in a type wide enough for it.
pub fn mul_scaled_wide(a: i64, b: i64, scale: i64) -> (r: i128)
    requires
        scale > 0,
    ensures
        r == scaled_product(a as int, b as int, scale as int),
        -0x4000_0000_0000_0000_0000_0000_0000_0000 <= r <= 0x4000_0000_0000_0000_0000_0000_0000_0000,
{
    proof {
        assert(-0x8000_0000_0000_0000 <= a <= 0x7fff_ffff_ffff_ffff);
        assert(-0x8000_0000_0000_0000 <= b <= 0x7fff_ffff_ffff_ffff);
        assert(-0x4000_0000_0000_0000_0000_0000_0000_0000 <= (a as int) * (b as int)
            <= 0x4000_0000_0000_0000_0000_0000_0000_0000) by (nonlinear_arith)
            requires
                -0x8000_0000_0000_0000 <= a <= 0x7fff_ffff_ffff_ffff,
                -0x8000_0000_0000_0000 <= b <= 0x7fff_ffff_ffff_ffff,
        ;
    }
    let p: i128 = (a as i128) * (b as i128);
    let s: i128 = scale as i128;
    let q: i128 = if p >= 0 {
        p / s
    } else {
        -((-p) / s)
    };
    proof {
        if p >= 0 {
            assert(0 <= p / s <= p) by (nonlinear_arith)
                requires
                    p >= 0,
                    s > 0,
            ;
        } else {
            let m: int = -(p as int);
            assert(0 <= m / (s as int) <= m) by (nonlinear_arith)
                requires
                    m > 0,
                    s > 0,
            ;
        }
    }
    q
}

} // verus!
