use vstd::prelude::*;

use std::str::FromStr;
use solana_program_pack::Pack;
use crate::types::{FetchError, TokenHolder};

verus! {

/// The base58 text of a byte string, as the ledger SDK renders addresses.
pub uninterp spec fn base58_of(b: Seq<u8>) -> Seq<char>;

/// What parsing an address string yields: the 32 bytes it denotes, or
/// nothing when the string is not a well-formed address.
pub uninterp spec fn parsed_key(s: Seq<char>) -> Option<Seq<u8>>;

/// A little-endian unsigned integer read from a byte string.
pub open spec fn le_bytes(b: Seq<u8>) -> nat
    decreases b.len(),
{
    if b.len() == 0 {
        0
    } else {
        (b[0] + 256 * le_bytes(b.drop_first())) as nat
    }
}

/// A 4-byte optional-field tag of the token-account layout: 0 or 1 in the
/// first byte, zeroes after it.
pub open spec fn spec_coption_tag_ok(t: Seq<u8>) -> bool
    recommends
        t.len() == 4,
{
    (t[0] == 0 || t[0] == 1) && t[1] == 0 && t[2] == 0 && t[3] == 0
}

/// Whether a 165-byte blob decodes as a token account: the three
/// optional-field tags well formed (delegate at 72, native marker at 109,
/// close authority at 129) and the state byte at 108 one of the three
/// account states.
pub open spec fn spec_token_account_ok(b: Seq<u8>) -> bool
    recommends
        b.len() == 165,
{
    &&& spec_coption_tag_ok(b.subrange(72, 76))
    &&& b[108] <= 2
    &&& spec_coption_tag_ok(b.subrange(109, 113))
    &&& spec_coption_tag_ok(b.subrange(129, 133))
}

/// The raw balance stored in a token-account blob: bytes 64..72, little
/// endian.
pub open spec fn spec_token_amount(b: Seq<u8>) -> nat {
    le_bytes(b.subrange(64, 72))
}

/// The owner bytes stored in a token-account blob: bytes 32..64.
pub open spec fn spec_token_owner(b: Seq<u8>) -> Seq<u8> {
    b.subrange(32, 64)
}

/// Whether an 82-byte blob decodes as a mint: both authority tags well
/// formed (offsets 0 and 46) and the initialized byte at 45 boolean.
pub open spec fn spec_mint_ok(b: Seq<u8>) -> bool
    recommends
        b.len() == 82,
{
    &&& spec_coption_tag_ok(b.subrange(0, 4))
    &&& (b[45] == 0 || b[45] == 1)
    &&& spec_coption_tag_ok(b.subrange(46, 50))
}

/// Relies on `spl_token::state::Account::unpack_from_slice` for the
/// token-account byte layout: owner at 32..64, amount at 64..72 little
/// endian, decode failing exactly on a bad tag of one of the three
/// optional fields (delegate, native marker, close authority) or a bad
/// state byte. Also relies on the address type's `to_string`, which
/// renders the owner bytes in base58.
#[verifier::external_body]
#[allow(deprecated)]
fn unpack_token_account(data: &Vec<u8>) -> (r: Result<(String, u64), ()>)
    requires
        data@.len() == 165,
    ensures
        match r {
            Ok(p) => {
                &&& spec_token_account_ok(data@)
                &&& p.0@ == base58_of(spec_token_owner(data@))
                &&& p.1 as nat == spec_token_amount(data@)
            },
            Err(_) => !spec_token_account_ok(data@),
        },
{
    match spl_token::state::Account::unpack_from_slice(data.as_slice()) {
        Ok(a) => Ok((a.owner.to_string(), a.amount)),
        Err(_) => Err(()),
    }
}

/// Relies on `spl_token::state::Mint::unpack_from_slice` for the mint byte
/// layout: the decimals field is the byte at offset 44, and decoding fails
/// exactly on a bad authority tag or initialized byte.
#[verifier::external_body]
#[allow(deprecated)]
fn unpack_mint_decimals(data: &Vec<u8>) -> (r: Result<u8, ()>)
    requires
        data@.len() == 82,
    ensures
        match r {
            Ok(d) => spec_mint_ok(data@) && d == data@[44],
            Err(_) => !spec_mint_ok(data@),
        },
{
    match spl_token::state::Mint::unpack_from_slice(data.as_slice()) {
        Ok(m) => Ok(m.decimals),
        Err(_) => Err(()),
    }
}

/// Relies on `solana_pubkey::Pubkey::from_str`: parses base58 text into
/// exactly 32 bytes, failing on any other input.
#[verifier::external_body]
fn parse_pubkey(s: &str) -> (r: Result<Vec<u8>, ()>)
    ensures
        match r {
            Ok(b) => parsed_key(s@) == Some(b@) && b@.len() == 32,
            Err(_) => parsed_key(s@) is None,
        },
{
    match solana_pubkey::Pubkey::from_str(s) {
        Ok(p) => Ok(p.to_bytes().to_vec()),
        Err(_) => Err(()),
    }
}

/// Checks that a mint address is a well-formed ledger identifier and
/// returns its 32 key bytes; anything else is `InvalidMintAddress`.
pub fn validate_mint_address(mint_address: &str) -> (r: Result<Vec<u8>, FetchError>)
    ensures
        match r {
            Ok(b) => parsed_key(mint_address@) == Some(b@) && b@.len() == 32,
            Err(e) => e == FetchError::InvalidMintAddress && parsed_key(mint_address@) is None,
        },
{
    match parse_pubkey(mint_address) {
        Ok(b) => Ok(b),
        Err(_) => Err(FetchError::InvalidMintAddress),
    }
}

/// The decimal precision a mint account's data carries, or
/// `UpstreamUnavailable` when the data does not decode as a mint.
pub open spec fn spec_mint_decimals(data: Seq<u8>) -> Result<u8, FetchError> {
    if data.len() == 82 && spec_mint_ok(data) {
        Ok(data[44])
    } else {
        Err(FetchError::UpstreamUnavailable)
    }
}

/// Extracts the decimal precision from a mint account's raw data.
pub fn get_mint_decimals(mint_data: &Vec<u8>) -> (r: Result<u8, FetchError>)
    ensures
        r == spec_mint_decimals(mint_data@),
{
    if mint_data.len() != 82 {
        Err(FetchError::UpstreamUnavailable)
    } else {
        match unpack_mint_decimals(mint_data) {
            Ok(d) => Ok(d),
            Err(_) => Err(FetchError::UpstreamUnavailable),
        }
    }
}

/// Whether a candidate blob contributes a holder: it decodes as a token
/// account and its balance is nonzero.
pub open spec fn spec_account_kept(b: Seq<u8>) -> bool {
    b.len() == 165 && spec_token_account_ok(b) && spec_token_amount(b) > 0
}

/// The `(owner text, raw balance)` pairs of the kept accounts, in input
/// order: one pair per blob that decodes with a nonzero balance; blobs
/// that fail to decode are skipped, never fatal.
pub open spec fn spec_collected(accs: Seq<Seq<u8>>) -> Seq<(Seq<char>, nat)>
    decreases accs.len(),
{
    if accs.len() == 0 {
        Seq::empty()
    } else {
        spec_collected(accs.drop_last()) + (if spec_account_kept(accs.last()) {
            seq![(base58_of(spec_token_owner(accs.last())), spec_token_amount(accs.last()))]
        } else {
            Seq::<(Seq<char>, nat)>::empty()
        })
    }
}

proof fn lemma_collected_le(accs: Seq<Seq<u8>>)
    ensures
        spec_collected(accs).len() <= accs.len(),
    decreases accs.len(),
{
    if accs.len() > 0 {
        lemma_collected_le(accs.drop_last());
    }
}

/// Decodes every candidate account blob and keeps the holders with a
/// nonzero balance, in input order; a blob that fails to decode is skipped
/// and never aborts the fetch. Every returned holder has `balance > 0`.
pub fn collect_holders(accounts: &Vec<Vec<u8>>, decimals: u8) -> (r: Vec<TokenHolder>)
    ensures
        ({
            let c = spec_collected(accounts@.map_values(|a: Vec<u8>| a@));
            &&& r@.len() == c.len()
            &&& forall|i: int|
                0 <= i < r@.len() ==> {
                    &&& (#[trigger] r@[i]).owner@ == c[i].0
                    &&& r@[i].balance as nat == c[i].1
                    &&& r@[i].decimals == decimals
                    &&& r@[i].holding_duration is None
                }
        }),
        forall|i: int| 0 <= i < r@.len() ==> (#[trigger] r@[i]).balance > 0,
{
    let ghost views = accounts@.map_values(|a: Vec<u8>| a@);
    let mut out: Vec<TokenHolder> = Vec::new();
    let mut j: usize = 0;
    proof {
        assert(views.take(0) =~= Seq::<Seq<u8>>::empty());
    }
    while j < accounts.len()
        invariant
            j <= accounts.len(),
            views == accounts@.map_values(|a: Vec<u8>| a@),
            views.len() == accounts@.len(),
            out@.len() == spec_collected(views.take(j as int)).len(),
            forall|i: int|
                0 <= i < out@.len() ==> {
                    &&& (#[trigger] out@[i]).owner@ == spec_collected(views.take(j as int))[i].0
                    &&& out@[i].balance as nat == spec_collected(views.take(j as int))[i].1
                    &&& out@[i].decimals == decimals
                    &&& out@[i].holding_duration is None
                },
            forall|i: int| 0 <= i < out@.len() ==> (#[trigger] out@[i]).balance > 0,
        decreases accounts@.len() - j,
    {
        let data = &accounts[j];
        let ghost b = views[j as int];
        proof {
            assert(data@ == b);
            let t = views.take(j + 1);
            assert(t.drop_last() =~= views.take(j as int));
            assert(t.last() == b);
            lemma_collected_le(views.take(j as int));
        }
        if data.len() == 165 {
            match unpack_token_account(data) {
                Ok(p) => {
                    let (owner, amount) = p;
                    if amount > 0 {
                        out.push(TokenHolder::new(owner, amount, decimals));
                        proof {
                            assert(spec_account_kept(b));
                        }
                    } else {
                        proof {
                            assert(!spec_account_kept(b));
                        }
                    }
                },
                Err(_) => {
                    proof {
                        assert(!spec_account_kept(b));
                    }
                },
            }
        } else {
            proof {
                assert(!spec_account_kept(b));
            }
        }
        proof {
            let t = views.take(j + 1);
            if spec_account_kept(b) {
                assert(spec_collected(t) =~= spec_collected(views.take(j as int)) + seq![
                    (base58_of(spec_token_owner(b)), spec_token_amount(b)),
                ]);
            } else {
                assert(spec_collected(t) =~= spec_collected(views.take(j as int)));
            }
        }
        j = j + 1;
    }
    proof {
        assert(views.take(views.len() as int) =~= views);
    }
    out
}

/// Builds the holder list of a mint from raw account data: reads the
/// decimal precision from the mint account, then decodes every candidate
/// token account, keeping exactly the decodable ones with a nonzero
/// balance, in input order.
pub fn fetch_token_holders(mint_data: &Vec<u8>, accounts: &Vec<Vec<u8>>) -> (r: Result<
    Vec<TokenHolder>,
    FetchError,
>)
    ensures
        match r {
            Ok(holders) => {
                let c = spec_collected(accounts@.map_values(|a: Vec<u8>| a@));
                &&& spec_mint_decimals(mint_data@) matches Ok(d) && ({
                    &&& holders@.len() == c.len()
                    &&& forall|i: int|
                        0 <= i < holders@.len() ==> {
                            &&& (#[trigger] holders@[i]).owner@ == c[i].0
                            &&& holders@[i].balance as nat == c[i].1
                            &&& holders@[i].decimals == d
                            &&& holders@[i].balance > 0
                        }
                })
            },
            Err(e) => spec_mint_decimals(mint_data@) == Err::<u8, FetchError>(e),
        },
{
    match get_mint_decimals(mint_data) {
        Ok(decimals) => Ok(collect_holders(accounts, decimals)),
        Err(e) => Err(e),
    }
}

} // verus!
