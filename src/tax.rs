//! Tax laws, their registry, and the calculators that turn a gross amount
//! into the tax withheld.
use crate::models::{fits_i64, mul_scaled, scaled_product, Employee, EmployeeModel};
use vstd::prelude::*;
use vstd::string::*;

verus! {

/// Fixed-point scale of a tax rate: a rate of `1_000_000` is 100%.
pub const RATE_SCALE: i64 = 1_000_000;

/// Region code of the federal fallback.
pub open spec fn federal_region() -> Seq<char> {
    seq!['U', 'S', '-', 'F', 'E', 'D']
}

/// What a calculator reads of a law's rule payload: a flat rate in
/// millionths, absent where the payload has none or it is not a number.
#[derive(Debug, Clone, Copy, PartialEq, Eq, Structural)]
pub struct TaxRules {
    pub rate: Option<i64>,
}

/// The tax law of a region at one version.
#[derive(Debug, Clone)]
pub struct TaxLaw {
    pub region: String,
    pub version: String,
    pub rules: TaxRules,
}

pub ghost struct TaxLawModel {
    pub region: Seq<char>,
    pub version: Seq<char>,
    pub rate: Option<i64>,
}

impl View for TaxLaw {
    type V = TaxLawModel;

    open spec fn view(&self) -> TaxLawModel {
        TaxLawModel { region: self.region@, version: self.version@, rate: self.rules.rate }
    }
}

/// The registry key of a law: `{region}-{version}`.
pub open spec fn law_key(region: Seq<char>, version: Seq<char>) -> Seq<char> {
    region + seq!['-'] + version
}

impl TaxLaw {
    /// The key under which this law is registered.
    pub fn key(&self) -> (r: String)
        ensures
            r@ == law_key(self.region@, self.version@),
    {
        let mut k = self.region.clone();
        proof {
            reveal_strlit("-");
            assert("-"@ =~= seq!['-']);
        }
        k.append("-");
        k.append(self.version.as_str());
        k
    }
}

/// `gross * rate / RATE_SCALE` rounded toward zero, with an absent rate
/// taken as zero; `None` where the tax does not fit in `i64`.
pub open spec fn flat_rate_tax(gross: i64, rate: Option<i64>) -> Option<i64> {
    let r: int = match rate {
        Some(x) => x as int,
        None => 0,
    };
    let t = scaled_product(gross as int, r, RATE_SCALE as int);
    if fits_i64(t) {
        Some(t as i64)
    } else {
        None
    }
}

/// The tax of `gross` at the flat rate of `rules`.
pub fn flat_rate(gross: i64, rules: &TaxRules) -> (r: Option<i64>)
    ensures
        r == flat_rate_tax(gross, rules.rate),
{
    let rate: i64 = match rules.rate {
        Some(x) => x,
        None => 0,
    };
    mul_scaled(gross, rate, RATE_SCALE)
}

/// Computes the tax withheld for one employee in a region.
pub trait TaxCalculator {
    spec fn spec_region(&self) -> Seq<char>;

    /// The tax on `gross`, or `None` where it does not fit in `i64`.
    spec fn spec_tax(&self, employee: EmployeeModel, gross: i64, law: TaxLawModel) -> Option<i64>;

    /// The canonical region code of this calculator.
    fn region_code(&self) -> (r: &str)
        ensures
            r@ == self.spec_region(),
    ;

    fn calculate(&self, employee: &Employee, gross: i64, law: &TaxLaw) -> (r: Option<i64>)
        ensures
            r == self.spec_tax(employee@, gross, law@),
    ;
}

/// Federal flat rate: the law's rate applied to the gross.
#[derive(Debug, Clone, Copy)]
pub struct UsFederalCalculator;

impl TaxCalculator for UsFederalCalculator {
    open spec fn spec_region(&self) -> Seq<char> {
        federal_region()
    }

    open spec fn spec_tax(&self, employee: EmployeeModel, gross: i64, law: TaxLawModel) -> Option<i64> {
        flat_rate_tax(gross, law.rate)
    }

    fn region_code(&self) -> (r: &str) {
        proof {
            reveal_strlit("US-FED");
        }
        "US-FED"
    }

    fn calculate(&self, employee: &Employee, gross: i64, law: &TaxLaw) -> (r: Option<i64>) {
        flat_rate(gross, &law.rules)
    }
}

/// Flat rate of one region: the law's rate applied to the gross.
#[derive(Debug, Clone)]
pub struct FlatStateCalculator {
    pub region: String,
}

impl TaxCalculator for FlatStateCalculator {
    open spec fn spec_region(&self) -> Seq<char> {
        self.region@
    }

    open spec fn spec_tax(&self, employee: EmployeeModel, gross: i64, law: TaxLawModel) -> Option<i64> {
        flat_rate_tax(gross, law.rate)
    }

    fn region_code(&self) -> (r: &str) {
        self.region.as_str()
    }

    fn calculate(&self, employee: &Employee, gross: i64, law: &TaxLaw) -> (r: Option<i64>) {
        flat_rate(gross, &law.rules)
    }
}

/// Either of the calculators that come with the library, so that both
/// can share one registry.
#[derive(Debug, Clone)]
pub enum BuiltinCalculator {
    Federal(UsFederalCalculator),
    FlatState(FlatStateCalculator),
}

impl TaxCalculator for BuiltinCalculator {
    open spec fn spec_region(&self) -> Seq<char> {
        match self {
            BuiltinCalculator::Federal(c) => c.spec_region(),
            BuiltinCalculator::FlatState(c) => c.spec_region(),
        }
    }

    open spec fn spec_tax(&self, employee: EmployeeModel, gross: i64, law: TaxLawModel) -> Option<i64> {
        match self {
            BuiltinCalculator::Federal(c) => c.spec_tax(employee, gross, law),
            BuiltinCalculator::FlatState(c) => c.spec_tax(employee, gross, law),
        }
    }

    fn region_code(&self) -> (r: &str) {
        match self {
            BuiltinCalculator::Federal(c) => c.region_code(),
            BuiltinCalculator::FlatState(c) => c.region_code(),
        }
    }

    fn calculate(&self, employee: &Employee, gross: i64, law: &TaxLaw) -> (r: Option<i64>) {
        match self {
            BuiltinCalculator::Federal(c) => c.calculate(employee, gross, law),
            BuiltinCalculator::FlatState(c) => c.calculate(employee, gross, law),
        }
    }
}

} // verus!
