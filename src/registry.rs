//! In-memory registries of tax laws and of tax calculators. Both keep
//! their entries in registration order; a lookup returns the entry
//! registered last among those that match.
use crate::models::{last_match, lemma_last_match_bounds, lemma_last_match_exists};
use crate::tax::{
    federal_region, law_key, BuiltinCalculator, FlatStateCalculator, TaxCalculator, TaxLaw,
    UsFederalCalculator,
};
use vstd::prelude::*;

verus! {

pub open spec fn key_is(key: Seq<char>) -> spec_fn(TaxLaw) -> bool {
    |l: TaxLaw| law_key(l.region@, l.version@) == key
}

pub open spec fn region_is(region: Seq<char>) -> spec_fn(TaxLaw) -> bool {
    |l: TaxLaw| l.region@ == region
}

pub open spec fn calc_key_is<C>(region: Seq<char>) -> spec_fn((String, C)) -> bool {
    |e: (String, C)| e.0@ == region
}

/// The element of `s` at `k`, where `k` is an index of it.
pub open spec fn entry_at<T>(s: Seq<T>, k: int) -> Option<T> {
    if 0 <= k < s.len() {
        Some(s[k])
    } else {
        None
    }
}

/// Tax laws, each under the key `{region}-{version}`.
#[derive(Debug, Clone)]
pub struct TaxLawRegistry {
    pub laws: Vec<TaxLaw>,
}

impl TaxLawRegistry {
    /// The law registered last under `key`.
    pub open spec fn law_for_key(&self, key: Seq<char>) -> Option<TaxLaw> {
        entry_at(self.laws@, last_match(self.laws@, key_is(key), self.laws@.len() as int))
    }

    /// The law registered last for `region`, whatever its version.
    pub open spec fn law_for_region(&self, region: Seq<char>) -> Option<TaxLaw> {
        entry_at(self.laws@, last_match(self.laws@, region_is(region), self.laws@.len() as int))
    }

    pub fn new() -> (r: TaxLawRegistry)
        ensures
            r.laws@.len() == 0,
    {
        TaxLawRegistry { laws: Vec::new() }
    }

    /// Adds `law`; it takes precedence over every law registered before.
    pub fn register(&mut self, law: TaxLaw)
        ensures
            final(self).laws@ == old(self).laws@.push(law),
    {
        self.laws.push(law);
    }

    /// The law registered last under the composite key `key`.
    pub fn get(&self, key: &String) -> (r: Option<&TaxLaw>)
        ensures
            match r {
                Some(l) => self.law_for_key(key@) == Some(*l),
                None => self.law_for_key(key@) is None,
            },
    {
        let ghost p = key_is(key@);
        let mut found: Option<usize> = None;
        let mut i: usize = 0;
        while i < self.laws.len()
            invariant
                i <= self.laws@.len(),
                p == key_is(key@),
                match found {
                    Some(k) => k as int == last_match(self.laws@, p, i as int),
                    None => last_match(self.laws@, p, i as int) == -1,
                },
            decreases self.laws@.len() - i,
        {
            let k = self.laws[i].key();
            if k == *key {
                found = Some(i);
            }
            i = i + 1;
        }
        proof {
            lemma_last_match_bounds(self.laws@, p, i as int);
        }
        match found {
            Some(k) => Some(&self.laws[k]),
            None => None,
        }
    }

    /// The law registered last for `region`, whatever its version.
    pub fn for_region(&self, region: &String) -> (r: Option<&TaxLaw>)
        ensures
            match r {
                Some(l) => self.law_for_region(region@) == Some(*l),
                None => self.law_for_region(region@) is None,
            },
    {
        let ghost p = region_is(region@);
        let mut found: Option<usize> = None;
        let mut i: usize = 0;
        while i < self.laws.len()
            invariant
                i <= self.laws@.len(),
                p == region_is(region@),
                match found {
                    Some(k) => k as int == last_match(self.laws@, p, i as int),
                    None => last_match(self.laws@, p, i as int) == -1,
                },
            decreases self.laws@.len() - i,
        {
            if self.laws[i].region == *region {
                found = Some(i);
            }
            i = i + 1;
        }
        proof {
            lemma_last_match_bounds(self.laws@, p, i as int);
        }
        match found {
            Some(k) => Some(&self.laws[k]),
            None => None,
        }
    }
}

/// Tax calculators by region code.
#[derive(Debug, Clone)]
pub struct CalculatorRegistry<C> {
    pub entries: Vec<(String, C)>,
}

impl<C: TaxCalculator> CalculatorRegistry<C> {
    /// The calculator registered last under `region`.
    pub open spec fn calculator_for(&self, region: Seq<char>) -> Option<C> {
        match entry_at(
            self.entries@,
            last_match(self.entries@, calc_key_is::<C>(region), self.entries@.len() as int),
        ) {
            Some(e) => Some(e.1),
            None => None,
        }
    }

    pub fn new() -> (r: CalculatorRegistry<C>)
        ensures
            r.entries@.len() == 0,
    {
        CalculatorRegistry { entries: Vec::new() }
    }

    /// Adds `calculator` under `region`; it takes precedence over every
    /// calculator registered there before.
    pub fn register(&mut self, region: String, calculator: C)
        ensures
            final(self).entries@ == old(self).entries@.push((region, calculator)),
    {
        self.entries.push((region, calculator));
    }

    /// The calculator registered last under `region`.
    pub fn get(&self, region: &String) -> (r: Option<&C>)
        ensures
            match r {
                Some(c) => self.calculator_for(region@) == Some(*c),
                None => self.calculator_for(region@) is None,
            },
    {
        let ghost p = calc_key_is::<C>(region@);
        let mut found: Option<usize> = None;
        let mut i: usize = 0;
        while i < self.entries.len()
            invariant
                i <= self.entries@.len(),
                p == calc_key_is::<C>(region@),
                match found {
                    Some(k) => k as int == last_match(self.entries@, p, i as int),
                    None => last_match(self.entries@, p, i as int) == -1,
                },
            decreases self.entries@.len() - i,
        {
            if self.entries[i].0 == *region {
                found = Some(i);
            }
            i = i + 1;
        }
        proof {
            lemma_last_match_bounds(self.entries@, p, i as int);
        }
        match found {
            Some(k) => Some(&self.entries[k].1),
            None => None,
        }
    }
}

/// Whether some law in `laws` is for `region`.
pub open spec fn has_region(laws: Seq<TaxLaw>, region: Seq<char>) -> bool {
    exists|j: int| 0 <= j < laws.len() && (#[trigger] laws[j]).region@ == region
}

/// The calculators for a set of laws: the federal calculator under
/// `US-FED`, and a flat-rate calculator under every other region that
/// some law is for.
pub fn builtin_calculators(laws: &TaxLawRegistry) -> (r: CalculatorRegistry<BuiltinCalculator>)
    ensures
        r.calculator_for(federal_region()) == Some(BuiltinCalculator::Federal(UsFederalCalculator)),
        forall|g: Seq<char>|
            g != federal_region() ==> match #[trigger] r.calculator_for(g) {
                Some(c) => has_region(laws.laws@, g) && c is FlatState && c->FlatState_0.region@ == g,
                None => !has_region(laws.laws@, g),
            },
{
    proof {
        reveal_strlit("US-FED");
        assert("US-FED"@ =~= federal_region());
    }
    let mut r: CalculatorRegistry<BuiltinCalculator> = CalculatorRegistry::new();
    r.register("US-FED".to_owned(), BuiltinCalculator::Federal(UsFederalCalculator));
    let mut i: usize = 0;
    while i < laws.laws.len()
        invariant
            i <= laws.laws@.len(),
            r.entries@.len() >= 1,
            r.entries@[0].0@ == federal_region(),
            r.entries@[0].1 == BuiltinCalculator::Federal(UsFederalCalculator),
            forall|k: int|
                1 <= k < r.entries@.len() ==> {
                    let e = #[trigger] r.entries@[k];
                    &&& e.0@ != federal_region()
                    &&& e.1 is FlatState
                    &&& e.1->FlatState_0.region@ == e.0@
                    &&& has_region(laws.laws@.subrange(0, i as int), e.0@)
                },
            forall|g: Seq<char>|
                g != federal_region() && has_region(laws.laws@.subrange(0, i as int), g) ==> exists|k: int|
                    1 <= k < r.entries@.len() && (#[trigger] r.entries@[k]).0@ == g,
        decreases laws.laws@.len() - i,
    {
        let region = laws.laws[i].region.clone();
        let ghost old_entries = r.entries@;
        let ghost prev = laws.laws@.subrange(0, i as int);
        let ghost next = laws.laws@.subrange(0, i + 1);
        proof {
            reveal_strlit("US-FED");
            assert("US-FED"@ =~= federal_region());
        }
        let fed = "US-FED".to_owned();
        let is_federal = region == fed;
        if !is_federal {
            r.register(region.clone(), BuiltinCalculator::FlatState(FlatStateCalculator { region }));
        }
        proof {
            assert forall|g: Seq<char>| has_region(prev, g) implies has_region(next, g) by {
                let j = choose|j: int| 0 <= j < prev.len() && (#[trigger] prev[j]).region@ == g;
                assert(next[j] == prev[j]);
            }
            assert forall|g: Seq<char>|
                g != federal_region() && has_region(next, g) implies exists|k: int|
                    1 <= k < r.entries@.len() && (#[trigger] r.entries@[k]).0@ == g by {
                let j = choose|j: int| 0 <= j < next.len() && (#[trigger] next[j]).region@ == g;
                if j < i {
                    assert(prev[j] == next[j]);
                    assert(has_region(prev, g));
                    let k = choose|k: int| 1 <= k < old_entries.len() && (#[trigger] old_entries[k]).0@ == g;
                    assert(r.entries@[k] == old_entries[k]);
                } else {
                    assert(next[j] == laws.laws@[j]);
                    let k = r.entries@.len() - 1;
                    assert(r.entries@[k].0@ == g);
                }
            }
            assert forall|k: int| 1 <= k < r.entries@.len() implies has_region(
                next,
                (#[trigger] r.entries@[k]).0@,
            ) by {
                if k < old_entries.len() {
                    assert(r.entries@[k] == old_entries[k]);
                    assert(has_region(prev, old_entries[k].0@));
                } else {
                    assert(next[i as int].region@ == r.entries@[k].0@);
                }
            }
        }
        i = i + 1;
    }
    proof {
        assert(laws.laws@.subrange(0, i as int) =~= laws.laws@);
        let s = r.entries@;
        let n = s.len() as int;
        let pf = calc_key_is::<BuiltinCalculator>(federal_region());
        lemma_last_match_bounds(s, pf, n);
        lemma_last_match_exists(s, pf, n);
        assert(pf(s[0]));
        assert forall|g: Seq<char>| g != federal_region() implies match #[trigger] r.calculator_for(g) {
            Some(c) => has_region(laws.laws@, g) && c is FlatState && c->FlatState_0.region@ == g,
            None => !has_region(laws.laws@, g),
        } by {
            let p = calc_key_is::<BuiltinCalculator>(g);
            lemma_last_match_bounds(s, p, n);
            lemma_last_match_exists(s, p, n);
            if has_region(laws.laws@, g) {
                let k = choose|k: int| 1 <= k < s.len() && (#[trigger] s[k]).0@ == g;
                assert(p(s[k]));
            }
            let m = last_match(s, p, n);
            if m >= 0 {
                assert(m != 0);
            }
        }
    }
    r
}

} // verus!
