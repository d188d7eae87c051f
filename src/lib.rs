//! A payroll engine: for each employee of a pay run, gross pay from
//! salary or hours and pay items, tax from the law and calculator of the
//! employee's region (or the federal fallback), and net pay.
//!
//! Amounts are fixed-point integers: hundredths of a currency unit, and
//! millionths for tax rates.

pub mod engine;
pub mod laws;
pub mod models;
pub mod registry;
pub mod tax;
