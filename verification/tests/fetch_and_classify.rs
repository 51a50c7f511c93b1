use holder_report::classify::{get_wallet_creation_time, is_new_wallet, is_whale};
use holder_report::fetcher::{
    collect_holders, fetch_token_holders, get_mint_decimals, validate_mint_address,
};
use holder_report::holders::Holder;
use holder_report::types::{ClassifyError, FetchError};

/// A well-formed 165-byte token account blob: owner bytes at 32..64 and a
/// little-endian amount at 64..72, optional-field tags cleared, state
/// initialized.
fn token_account_bytes(owner: [u8; 32], amount: u64) -> Vec<u8> {
    let mut data = vec![0u8; 165];
    data[32..64].copy_from_slice(&owner);
    data[64..72].copy_from_slice(&amount.to_le_bytes());
    // delegate tag at 72..76 and native tag at 109..113 stay zero (None);
    // the state byte at 108 is 1 (initialized).
    data[108] = 1;
    data
}

/// A well-formed 82-byte mint blob with the given decimals at offset 44.
fn mint_bytes(decimals: u8) -> Vec<u8> {
    let mut data = vec![0u8; 82];
    data[44] = decimals;
    data[45] = 1; // initialized
    data
}

#[test]
fn validate_mint_address_accepts_system_key() {
    // Thirty-two '1' characters decode to the all-zero 32-byte key.
    let r = validate_mint_address("11111111111111111111111111111111");
    assert_eq!(r, Ok(vec![0u8; 32]));
}

#[test]
fn validate_mint_address_rejects_garbage() {
    assert_eq!(validate_mint_address("not a mint address"), Err(FetchError::InvalidMintAddress));
    assert_eq!(validate_mint_address(""), Err(FetchError::InvalidMintAddress));
}

#[test]
fn mint_decimals_read_from_data() {
    assert_eq!(get_mint_decimals(&mint_bytes(6)), Ok(6));
    assert_eq!(get_mint_decimals(&mint_bytes(0)), Ok(0));
}

#[test]
fn mint_decimals_rejects_malformed_data() {
    assert_eq!(get_mint_decimals(&vec![0u8; 10]), Err(FetchError::UpstreamUnavailable));
    let mut bad = mint_bytes(6);
    bad[45] = 7; // not a boolean initialized byte
    assert_eq!(get_mint_decimals(&bad), Err(FetchError::UpstreamUnavailable));
}

#[test]
fn collect_holders_skips_zero_and_malformed() {
    let accounts = vec![
        token_account_bytes([0u8; 32], 500),
        token_account_bytes([1u8; 32], 0), // zero balance: dropped
        vec![1u8; 10],                     // malformed: skipped, not fatal
        token_account_bytes([0u8; 32], 700),
    ];
    let holders = collect_holders(&accounts, 2);
    assert_eq!(holders.len(), 2);
    for h in &holders {
        assert!(h.balance > 0);
        assert_eq!(h.decimals, 2);
        assert_eq!(h.holding_duration, None);
    }
    assert_eq!(holders[0].balance, 500);
    assert_eq!(holders[1].balance, 700);
    // The all-zero owner key renders as the system address.
    assert_eq!(holders[0].owner, "11111111111111111111111111111111");
}

#[test]
fn collect_holders_rejects_bad_close_authority_tag() {
    // A blob whose only flaw is the close-authority tag at 129..133 must
    // fail to decode and be skipped.
    let mut bad = token_account_bytes([0u8; 32], 500);
    bad[129] = 2;
    let accounts = vec![bad, token_account_bytes([0u8; 32], 900)];
    let holders = collect_holders(&accounts, 2);
    assert_eq!(holders.len(), 1);
    assert_eq!(holders[0].balance, 900);
}

#[test]
fn fetch_token_holders_end_to_end() {
    let mint = mint_bytes(4);
    let accounts = vec![token_account_bytes([0u8; 32], 1_234), token_account_bytes([2u8; 32], 0)];
    let holders = fetch_token_holders(&mint, &accounts).unwrap();
    assert_eq!(holders.len(), 1);
    assert_eq!(holders[0].balance, 1_234);
    assert_eq!(holders[0].decimals, 4);
}

#[test]
fn fetch_token_holders_bad_mint_is_fatal() {
    let accounts = vec![token_account_bytes([0u8; 32], 5)];
    assert_eq!(
        fetch_token_holders(&vec![0u8; 5], &accounts).unwrap_err(),
        FetchError::UpstreamUnavailable
    );
}

#[test]
fn creation_time_is_oldest_signature() {
    // Newest first: the creation proxy is the last entry.
    let times = vec![Some(300i64), Some(200), Some(100)];
    assert_eq!(get_wallet_creation_time(&times), Ok(100));
}

#[test]
fn creation_time_error_variants() {
    assert_eq!(get_wallet_creation_time(&vec![]), Err(ClassifyError::NoHistory));
    assert_eq!(
        get_wallet_creation_time(&vec![Some(300i64), None]),
        Err(ClassifyError::NoBlockTime)
    );
}

#[test]
fn freshness_boundary() {
    let now = 1_700_000_000i64;
    // Exactly 48 hours old still counts as fresh; one second more does not.
    let at_bound = vec![Some(now - 48 * 3600)];
    assert_eq!(is_new_wallet(&at_bound, now, 48), Ok(true));
    let beyond = vec![Some(now - 48 * 3600 - 1)];
    assert_eq!(is_new_wallet(&beyond, now, 48), Ok(false));
}

#[test]
fn whale_boundary() {
    // 40 SOL is 40e9 lamports.
    assert!(is_whale(40_000_000_000, 40));
    assert!(!is_whale(39_999_999_999, 40));
    assert!(is_whale(0, 0));
}

#[test]
fn holder_eligibility_and_duration() {
    let h = Holder {
        wallet: String::from("w"),
        balance: 1_000,
        first_seen: 1_700_000_000 - 7_200,
        never_sold: true,
        never_transferred: true,
    };
    assert!(h.is_eligible(1_000));
    assert!(!h.is_eligible(1_001));
    assert_eq!(h.holding_duration_hours(1_700_000_000), 2);
}
