use holder_report::aggregate::aggregate;
use holder_report::generate_report_text;
use holder_report::classify::classify_all;
use holder_report::filter::filter_by_minimum_ui_amount;
use holder_report::format::{build_report, format_number, truncate_address};
use holder_report::types::{LookupOutcome, TokenHolder};

fn holder(owner: &str, balance: u64, decimals: u8) -> TokenHolder {
    TokenHolder::new(String::from(owner), balance, decimals)
}

fn ok_lookup(creation: i64, lamports: u64) -> LookupOutcome {
    LookupOutcome { block_times: Some(vec![Some(creation)]), lamports: Some(lamports) }
}

#[test]
fn format_number_plain() {
    assert_eq!(format_number(999, 0), "999.00");
}

#[test]
fn format_number_thousands() {
    assert_eq!(format_number(1500, 0), "1.50K");
}

#[test]
fn format_number_millions() {
    assert_eq!(format_number(2_300_000, 0), "2.30M");
}

#[test]
fn format_number_with_decimals() {
    // 1_500_000 smallest units at 3 decimals is 1500.0 displayed.
    assert_eq!(format_number(1_500_000, 3), "1.50K");
    // 1_234_567 at 3 decimals is 1234.567, rounded to 1.23K.
    assert_eq!(format_number(1_234_567, 3), "1.23K");
    // 999_999 at 3 decimals is 999.999: below the K bound, shown plain.
    assert_eq!(format_number(999_999, 3), "1000.00");
}

#[test]
fn truncate_short_address_verbatim() {
    assert_eq!(truncate_address("Ab1"), "Ab1");
}

#[test]
fn truncate_long_address() {
    assert_eq!(truncate_address("123456789012345"), "123456...012345");
}

#[test]
fn end_to_end_report() {
    // Ten holders at 6 decimals; the threshold of 2,000,000 displayed
    // tokens means a raw balance of 2e12; three fall below it.
    let decimals = 6u8;
    let all = vec![
        holder("walletA", 9_000_000_000_000, decimals),
        holder("walletB", 3_000_000_000_000, decimals),
        holder("walletC", 8_000_000_000_000, decimals),
        holder("tiny1", 1_000_000_000_000, decimals),
        holder("walletD", 7_000_000_000_000, decimals),
        holder("walletE", 6_000_000_000_000, decimals),
        holder("tiny2", 500_000_000_000, decimals),
        holder("walletF", 5_000_000_000_000, decimals),
        holder("tiny3", 999, decimals),
        holder("walletG", 4_000_000_000_000, decimals),
    ];
    let total = all.len();
    let filtered = filter_by_minimum_ui_amount(all, 2_000_000);
    assert_eq!(filtered.len(), 7);
    // Filter keeps input order.
    let owners: Vec<&str> = filtered.iter().map(|h| h.owner.as_str()).collect();
    assert_eq!(owners, vec!["walletA", "walletB", "walletC", "walletD", "walletE", "walletF", "walletG"]);

    let now = 1_700_000_000i64;
    // walletA (index 0) is a whale; walletC (index 2) is freshly created.
    let lookups = vec![
        ok_lookup(now - 1_000_000, 40_000_000_000),
        ok_lookup(now - 1_000_000, 1_000),
        ok_lookup(now - 100, 1_000),
        ok_lookup(now - 1_000_000, 1_000),
        ok_lookup(now - 1_000_000, 1_000),
        ok_lookup(now - 1_000_000, 1_000),
        ok_lookup(now - 1_000_000, 1_000),
    ];
    let classified = classify_all(filtered, lookups, now, 48, 40);
    let report = aggregate(classified, total, 3);
    assert_eq!(report.total_holders, 10);
    assert_eq!(report.filtered_count, 7);
    assert_eq!(report.bundle_count, 1);
    assert_eq!(report.whale_count, 1);
    // Ranked by balance, descending.
    assert_eq!(report.ranked[0].holder.owner, "walletA");
    assert_eq!(report.ranked[1].holder.owner, "walletC");
    assert_eq!(report.ranked[2].holder.owner, "walletD");

    let text = build_report(&report, 2_000_000, 48, 40);
    assert!(text.contains("📊 Total holders: 10"));
    assert!(text.contains("✅ Holders with 2.00M+ tokens: 7"));
    assert!(text.contains("🆕 Bundle wallets (created within 48h): 1 (14.3%)"));
    assert!(text.contains("🐋 Whales (40+ SOL): 1 (14.3%)"));
    assert!(text.contains("1. 9.00M tokens 🐋\n   walletA"));
    assert!(text.contains("2. 8.00M tokens 🆕\n   walletC"));
    assert!(text.contains("3. 7.00M tokens\n   walletD"));
    assert!(text.contains("... and 4 more holders"));
    assert!(text.contains("🆕 = Bundle wallet (created within 48h)"));
    assert!(text.contains("🐋 = Whale (40+ SOL)"));
}

#[test]
fn failed_lookup_degrades_to_false() {
    let decimals = 0u8;
    let holders = vec![
        holder("first", 300, decimals),
        holder("second", 500, decimals),
        holder("third", 400, decimals),
    ];
    let now = 1_700_000_000i64;
    let lookups = vec![
        ok_lookup(now - 10, 50_000_000_000),
        // Both lookups for "second" failed.
        LookupOutcome { block_times: None, lamports: None },
        ok_lookup(now - 10, 50_000_000_000),
    ];
    let classified = classify_all(holders, lookups, now, 48, 40);
    assert!(!classified[1].flags.is_fresh_wallet);
    assert!(!classified[1].flags.is_whale);
    let report = aggregate(classified, 3, 3);
    // "second" still ranks first, by balance, with clear flags.
    assert_eq!(report.ranked[0].holder.owner, "second");
    assert!(!report.ranked[0].flags.is_fresh_wallet);
    assert!(!report.ranked[0].flags.is_whale);
    assert_eq!(report.ranked[1].holder.owner, "third");
    assert_eq!(report.ranked[2].holder.owner, "first");
}

#[test]
fn empty_filtered_set_report() {
    let decimals = 0u8;
    let all = vec![holder("small1", 10, decimals), holder("small2", 20, decimals)];
    let total = all.len();
    let filtered = filter_by_minimum_ui_amount(all, 2_000_000);
    assert_eq!(filtered.len(), 0);
    let classified = classify_all(filtered, vec![], 0, 48, 40);
    let report = aggregate(classified, total, 3);
    let text = build_report(&report, 2_000_000, 48, 40);
    let expected = "🎯 Token Holders Report\n\n\
        📊 Total holders: 2\n\
        ✅ Holders with 2.00M+ tokens: 0\n\
        🆕 Bundle wallets (created within 48h): 0 (0.0%)\n\
        🐋 Whales (40+ SOL): 0 (0.0%)\n\n\
        ✅ No bundle wallets or whales detected!\n\n\
        No holders found with the minimum balance.";
    assert_eq!(text, expected);
}

#[test]
fn filter_is_idempotent() {
    let decimals = 2u8;
    let all = vec![
        holder("a", 500_000, decimals),
        holder("b", 100, decimals),
        holder("c", 700_000, decimals),
        holder("d", 499_999, decimals),
    ];
    let once = filter_by_minimum_ui_amount(all, 5_000);
    let owners_once: Vec<String> = once.iter().map(|h| h.owner.clone()).collect();
    let twice = filter_by_minimum_ui_amount(once, 5_000);
    let owners_twice: Vec<String> = twice.iter().map(|h| h.owner.clone()).collect();
    assert_eq!(owners_once, owners_twice);
    assert_eq!(owners_once, vec!["a", "c"]);
}

#[test]
fn filter_zero_threshold_keeps_all() {
    let all = vec![holder("a", 1, 0), holder("b", 2, 0)];
    let kept = filter_by_minimum_ui_amount(all, 0);
    assert_eq!(kept.len(), 2);
}

#[test]
fn sort_is_stable_on_equal_balances() {
    let holders = vec![
        holder("x", 100, 0),
        holder("y", 100, 0),
        holder("z", 200, 0),
        holder("w", 100, 0),
    ];
    let lookups = vec![
        LookupOutcome { block_times: None, lamports: None },
        LookupOutcome { block_times: None, lamports: None },
        LookupOutcome { block_times: None, lamports: None },
        LookupOutcome { block_times: None, lamports: None },
    ];
    let classified = classify_all(holders, lookups, 0, 48, 40);
    let report = aggregate(classified, 4, 3);
    let owners: Vec<&str> = report.ranked.iter().map(|c| c.holder.owner.as_str()).collect();
    // z outranks the rest; x, y, w keep their input order.
    assert_eq!(owners, vec!["z", "x", "y", "w"]);
}

#[test]
fn extreme_decimals_never_reach_threshold() {
    // At 30 decimals even the largest raw balance displays below 1.
    let all = vec![holder("dust", u64::MAX, 30)];
    let kept = filter_by_minimum_ui_amount(all, 1);
    assert_eq!(kept.len(), 0);
}

#[test]
fn extreme_decimals_format_as_zero() {
    assert_eq!(format_number(5, 30), "0.00");
    assert_eq!(format_number(u64::MAX, 30), "0.00");
}

#[test]
fn amount_columns_align() {
    let holders = vec![holder("alpha", 999, 0), holder("beta", 1500, 0)];
    let lookups = vec![
        LookupOutcome { block_times: None, lamports: None },
        LookupOutcome { block_times: None, lamports: None },
    ];
    let classified = classify_all(holders, lookups, 0, 48, 40);
    let report = aggregate(classified, 2, 3);
    let text = build_report(&report, 0, 48, 40);
    // "1.50K" is one character narrower than "999.00" and gets a leading
    // space so the two amounts align.
    assert!(text.contains("1.  1.50K tokens\n   beta"));
    assert!(text.contains("2. 999.00 tokens\n   alpha"));
}

#[test]
fn composed_pipeline_matches_stages() {
    let decimals = 6u8;
    let make_holders = || {
        vec![
            holder("walletA", 9_000_000_000_000, decimals),
            holder("tiny1", 1_000_000_000_000, decimals),
            holder("walletC", 8_000_000_000_000, decimals),
        ]
    };
    let now = 1_700_000_000i64;
    let make_lookups = || {
        vec![ok_lookup(now - 1_000_000, 40_000_000_000), ok_lookup(now - 100, 1_000)]
    };

    let staged_filtered = filter_by_minimum_ui_amount(make_holders(), 2_000_000);
    let staged_classified = classify_all(staged_filtered, make_lookups(), now, 48, 40);
    let staged_report = aggregate(staged_classified, 3, 3);
    let staged_text = build_report(&staged_report, 2_000_000, 48, 40);

    let (report, text) = generate_report_text(make_holders(), make_lookups(), now, 2_000_000, 48, 40, 3);
    assert_eq!(text, staged_text);
    assert_eq!(report.total_holders, 3);
    assert_eq!(report.filtered_count, 2);
    assert_eq!(report.whale_count, 1);
    assert_eq!(report.bundle_count, 1);
    assert!(text.contains("1. 9.00M tokens 🐋\n   walletA"));
    assert!(text.contains("2. 8.00M tokens 🆕\n   walletC"));
}
