//! Risk-oriented holder analysis for a fungible token on the Solana ledger.
//!
//! Given the raw account data of a mint and its token accounts, the crate
//! decodes the holder set, filters it by a minimum displayed balance,
//! classifies each surviving holder as a freshly created ("bundle") wallet
//! and/or a large native-balance holder ("whale"), aggregates the results
//! into a ranked summary, and renders a fixed-layout text report.
//!
//! All network transport stays outside this crate: callers fetch account
//! bytes, signature histories and balances, and hand them in as plain values.

pub mod aggregate;
pub mod arith;
pub mod classify;
pub mod config;
pub mod fetcher;
pub mod filter;
pub mod format;
pub mod holders;
pub mod types;

use vstd::prelude::*;

verus! {

/// The whole compute core of one report request, composed: filter the
/// fetched holders by the minimum displayed amount, classify the
/// survivors against their lookup outcomes, rank and count them, and
/// render the report text. Callers supply one lookup outcome per holder
/// that passes the filter; network work stays with them.
pub fn generate_report_text(
    all_holders: Vec<types::TokenHolder>,
    lookups: Vec<types::LookupOutcome>,
    now: i64,
    min_ui_amount: u64,
    max_age_hours: u64,
    minimum_sol: u64,
    top_k: usize,
) -> (r: (aggregate::AggregateReport, String))
    requires
        lookups@.len() == filter::spec_filtered(all_holders@, min_ui_amount).len(),
    ensures
        ({
            let cl = classify::spec_classified(
                filter::spec_filtered(all_holders@, min_ui_amount),
                lookups@,
                now,
                max_age_hours,
                minimum_sol,
            );
            &&& r.0.total_holders == all_holders@.len()
            &&& r.0.filtered_count == cl.len()
            &&& r.0.bundle_count == aggregate::count_fresh(cl)
            &&& r.0.whale_count == aggregate::count_whale(cl)
            &&& r.0.ranked@ == aggregate::sort_desc(cl)
            &&& r.0.top_k == top_k
            &&& r.1@ == format::spec_report_text(r.0, min_ui_amount, max_age_hours, minimum_sol)
        }),
{
    let total_holders = all_holders.len();
    let filtered = filter::filter_by_minimum_ui_amount(all_holders, min_ui_amount);
    let classified = classify::classify_all(filtered, lookups, now, max_age_hours, minimum_sol);
    let report = aggregate::aggregate(classified, total_holders, top_k);
    let text = format::build_report(&report, min_ui_amount, max_age_hours, minimum_sol);
    (report, text)
}

} // verus!
