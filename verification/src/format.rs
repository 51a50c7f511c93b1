use vstd::prelude::*;

use vstd::arithmetic::div_mod::lemma_div_is_ordered;
use vstd::string::{StrSliceExecFns, StringExecFns};
use crate::arith::{
    pow10, round_div, lemma_pow10_positive, lemma_pow10_mono, lemma_pow10_even, lemma_pow10_20,
    lemma_pow10_21, lemma_pow10_22, pow10_u128,
};
use crate::types::ClassifiedHolder;

verus! {

/// The decimal digit character for a value below ten.
pub open spec fn digit_char(d: nat) -> char {
    if d == 0 {
        '0'
    } else if d == 1 {
        '1'
    } else if d == 2 {
        '2'
    } else if d == 3 {
        '3'
    } else if d == 4 {
        '4'
    } else if d == 5 {
        '5'
    } else if d == 6 {
        '6'
    } else if d == 7 {
        '7'
    } else if d == 8 {
        '8'
    } else {
        '9'
    }
}

/// The decimal rendering of a natural number, no leading zeroes.
pub open spec fn dec_str(n: nat) -> Seq<char>
    decreases n,
{
    if n < 10 {
        seq![digit_char(n)]
    } else {
        dec_str(n / 10) + seq![digit_char(n % 10)]
    }
}

/// A value scaled to hundredths, rendered with exactly two decimal places.
pub open spec fn fixed2(scaled: nat) -> Seq<char> {
    dec_str(scaled / 100) + "."@ + seq![digit_char((scaled % 100) / 10), digit_char(scaled % 10)]
}

/// The fixed display layout of an amount `balance / 10^decimals`: rendered
/// in millions with an `M` suffix from one million up, in thousands with a
/// `K` suffix from one thousand up, plainly below that; always with two
/// decimal places, rounded to the nearest hundredth, halves up.
pub open spec fn spec_format_number(balance: u64, decimals: u8) -> Seq<char> {
    let d = decimals as nat;
    if balance as nat >= pow10(d + 6) {
        fixed2(round_div(100 * balance as nat, pow10(d + 6))) + "M"@
    } else if balance as nat >= pow10(d + 3) {
        fixed2(round_div(100 * balance as nat, pow10(d + 3))) + "K"@
    } else {
        fixed2(round_div(100 * balance as nat, pow10(d)))
    }
}

fn digit_str(d: u8) -> (r: &'static str)
    requires
        d < 10,
    ensures
        r@ == seq![digit_char(d as nat)],
{
    proof {
        reveal_strlit("0");
        reveal_strlit("1");
        reveal_strlit("2");
        reveal_strlit("3");
        reveal_strlit("4");
        reveal_strlit("5");
        reveal_strlit("6");
        reveal_strlit("7");
        reveal_strlit("8");
        reveal_strlit("9");
    }
    let r = match d {
        0 => "0",
        1 => "1",
        2 => "2",
        3 => "3",
        4 => "4",
        5 => "5",
        6 => "6",
        7 => "7",
        8 => "8",
        _ => "9",
    };
    proof {
        assert(r@ =~= seq![digit_char(d as nat)]);
    }
    r
}

fn u128_to_string(n: u128) -> (r: String)
    ensures
        r@ == dec_str(n as nat),
    decreases n,
{
    if n < 10 {
        let mut s = String::new();
        s.append(digit_str(n as u8));
        proof {
            assert(s@ =~= dec_str(n as nat));
        }
        s
    } else {
        let mut s = u128_to_string(n / 10);
        s.append(digit_str((n % 10) as u8));
        s
    }
}

fn u64_to_string(n: u64) -> (r: String)
    ensures
        r@ == dec_str(n as nat),
{
    u128_to_string(n as u128)
}

fn usize_to_string(n: usize) -> (r: String)
    ensures
        r@ == dec_str(n as nat),
{
    u128_to_string(n as u128)
}

fn fixed2_string(scaled: u128) -> (r: String)
    ensures
        r@ == fixed2(scaled as nat),
{
    let mut s = u128_to_string(scaled / 100);
    s.append(".");
    let f = (scaled % 100) as u8;
    s.append(digit_str(f / 10));
    s.append(digit_str(f % 10));
    proof {
        assert((f % 10) as nat == (scaled as nat) % 10);
        assert(s@ =~= fixed2(scaled as nat));
    }
    s
}

/// `round_div(100 * balance, 10^k)`: the amount scaled to hundredths of
/// the unit `10^k` selects.
fn scaled_hundredths(balance: u64, k: u32) -> (r: u128)
    ensures
        r == round_div(100 * balance as nat, pow10(k as nat)),
{
    if k > 21 {
        proof {
            lemma_pow10_positive(k as nat);
            lemma_pow10_22();
            lemma_pow10_mono(22, k as nat);
            lemma_pow10_even(k as nat);
            let n = 100 * balance as nat;
            let p = pow10(k as nat);
            lemma_div_is_ordered(pow10(22) as int, p as int, 2);
            assert(n < p / 2);
            assert(p / 2 + p / 2 == p);
            assert(n + p / 2 < p);
            vstd::arithmetic::div_mod::lemma_basic_div((n + p / 2) as int, p as int);
            assert(round_div(n, p) == 0);
        }
        0
    } else {
        let p = pow10_u128(k);
        proof {
            lemma_pow10_positive(k as nat);
            lemma_pow10_21();
            lemma_pow10_mono(k as nat, 21);
        }
        ((balance as u128) * 100 + p / 2) / p
    }
}

/// Formats the displayed amount `balance / 10^decimals` in the fixed
/// layout the report uses.
pub fn format_number(balance: u64, decimals: u8) -> (r: String)
    ensures
        r@ == spec_format_number(balance, decimals),
{
    let d = decimals as u32;
    if crate::arith::balance_ge_pow10(balance, d + 6) {
        proof {
            if d + 6 > 19 {
                lemma_pow10_20();
                lemma_pow10_mono(20, (d + 6) as nat);
            }
        }
        let mut s = fixed2_string(scaled_hundredths(balance, d + 6));
        s.append("M");
        s
    } else if crate::arith::balance_ge_pow10(balance, d + 3) {
        proof {
            if d + 3 > 19 {
                lemma_pow10_20();
                lemma_pow10_mono(20, (d + 3) as nat);
            }
        }
        let mut s = fixed2_string(scaled_hundredths(balance, d + 3));
        s.append("K");
        s
    } else {
        fixed2_string(scaled_hundredths(balance, d))
    }
}


/// An address longer than twelve characters is shown as its first six
/// characters, an ellipsis, and its last six; shorter addresses are shown
/// verbatim. Counted in characters, not bytes.
pub open spec fn spec_truncate_address(s: Seq<char>) -> Seq<char> {
    if s.len() > 12 {
        s.subrange(0, 6) + "..."@ + s.subrange(s.len() - 6, s.len() as int)
    } else {
        s
    }
}

/// Shortens an address for display as the layout prescribes.
pub fn truncate_address(address: &str) -> (r: String)
    ensures
        r@ == spec_truncate_address(address@),
{
    let n = address.unicode_len();
    if n > 12 {
        let head = address.substring_char(0, 6);
        let tail = address.substring_char(n - 6, n);
        let mut out = head.to_owned();
        out.append("...");
        out.append(tail);
        out
    } else {
        address.to_owned()
    }
}

/// The share of `count` over `total` rendered with one decimal place, as
/// the report prints percentages; `0.0` over an empty population.
pub open spec fn spec_permille_str(count: nat, total: nat) -> Seq<char> {
    let p = crate::aggregate::spec_permille(count, total);
    dec_str(p / 10) + "."@ + seq![digit_char(p % 10)]
}

fn permille_string(count: usize, total: usize) -> (r: String)
    ensures
        r@ == spec_permille_str(count as nat, total as nat),
{
    let p: u128 = if total == 0 {
        0
    } else {
        (1000u128 * (count as u128) + (total as u128) / 2) / (total as u128)
    };
    proof {
        assert(p as nat == crate::aggregate::spec_permille(count as nat, total as nat));
    }
    let mut s = u128_to_string(p / 10);
    s.append(".");
    s.append(digit_str((p % 10) as u8));
    proof {
        assert(s@ =~= spec_permille_str(count as nat, total as nat));
    }
    s
}

/// A run of `n` spaces, the fill the column alignment uses.
pub open spec fn spaces(n: nat) -> Seq<char>
    decreases n,
{
    if n == 0 {
        Seq::empty()
    } else {
        spaces((n - 1) as nat) + " "@
    }
}

fn spaces_string(n: usize) -> (r: String)
    ensures
        r@ == spaces(n as nat),
{
    let mut s = String::new();
    let mut i: usize = 0;
    while i < n
        invariant
            i <= n,
            s@ == spaces(i as nat),
        decreases n - i,
    {
        s.append(" ");
        i = i + 1;
    }
    s
}

/// An amount left-padded with spaces to the column width `w`, so the
/// listed amounts align; amounts already at least `w` wide stand as they
/// are.
pub open spec fn spec_padded_amount(c: ClassifiedHolder, w: nat) -> Seq<char> {
    let a = spec_format_number(c.holder.balance, c.holder.decimals);
    if a.len() < w {
        spaces((w - a.len()) as nat) + a
    } else {
        a
    }
}

fn padded_amount(c: &ClassifiedHolder, w: usize) -> (r: String)
    ensures
        r@ == spec_padded_amount(*c, w as nat),
{
    let a = format_number(c.holder.balance, c.holder.decimals);
    let n = a.as_str().unicode_len();
    if n < w {
        let mut s = spaces_string(w - n);
        s.append(a.as_str());
        s
    } else {
        a
    }
}

/// The widest rendered amount among the listed holders: the column width.
pub open spec fn spec_max_amount_len(s: Seq<ClassifiedHolder>) -> nat
    decreases s.len(),
{
    if s.len() == 0 {
        0
    } else {
        let rest = spec_max_amount_len(s.drop_last());
        let a = spec_format_number(s.last().holder.balance, s.last().holder.decimals).len();
        if a > rest {
            a
        } else {
            rest
        }
    }
}

fn max_amount_len(v: &Vec<ClassifiedHolder>, k: usize) -> (r: usize)
    requires
        k <= v@.len(),
    ensures
        r == spec_max_amount_len(v@.take(k as int)),
{
    let mut m: usize = 0;
    let mut j: usize = 0;
    proof {
        assert(v@.take(0) =~= Seq::<ClassifiedHolder>::empty());
    }
    while j < k
        invariant
            j <= k <= v@.len(),
            m == spec_max_amount_len(v@.take(j as int)),
        decreases k - j,
    {
        let a = format_number(v[j].holder.balance, v[j].holder.decimals);
        let n = a.as_str().unicode_len();
        proof {
            let t = v@.take(j + 1);
            assert(t.drop_last() =~= v@.take(j as int));
            assert(t.last() == v@[j as int]);
        }
        if n > m {
            m = n;
        }
        j = j + 1;
    }
    m
}

/// Whether any listed holder carries the fresh-wallet flag.
pub open spec fn spec_any_fresh(s: Seq<ClassifiedHolder>) -> bool
    decreases s.len(),
{
    if s.len() == 0 {
        false
    } else {
        spec_any_fresh(s.drop_last()) || s.last().flags.is_fresh_wallet
    }
}

/// Whether any listed holder carries the whale flag.
pub open spec fn spec_any_whale(s: Seq<ClassifiedHolder>) -> bool
    decreases s.len(),
{
    if s.len() == 0 {
        false
    } else {
        spec_any_whale(s.drop_last()) || s.last().flags.is_whale
    }
}

fn used_markers(v: &Vec<ClassifiedHolder>, k: usize) -> (r: (bool, bool))
    requires
        k <= v@.len(),
    ensures
        r.0 == spec_any_fresh(v@.take(k as int)),
        r.1 == spec_any_whale(v@.take(k as int)),
{
    let mut fresh = false;
    let mut whale = false;
    let mut j: usize = 0;
    proof {
        assert(v@.take(0) =~= Seq::<ClassifiedHolder>::empty());
    }
    while j < k
        invariant
            j <= k <= v@.len(),
            fresh == spec_any_fresh(v@.take(j as int)),
            whale == spec_any_whale(v@.take(j as int)),
        decreases k - j,
    {
        proof {
            let t = v@.take(j + 1);
            assert(t.drop_last() =~= v@.take(j as int));
            assert(t.last() == v@[j as int]);
        }
        if v[j].flags.is_fresh_wallet {
            fresh = true;
        }
        if v[j].flags.is_whale {
            whale = true;
        }
        j = j + 1;
    }
    (fresh, whale)
}

/// The markers appended to a listed holder: the fresh-wallet glyph, the
/// whale glyph, both or neither.
pub open spec fn spec_marker(c: ClassifiedHolder) -> Seq<char> {
    (if c.flags.is_fresh_wallet {
        " \u{1F195}"@
    } else {
        Seq::<char>::empty()
    }) + (if c.flags.is_whale {
        " \u{1F40B}"@
    } else {
        Seq::<char>::empty()
    })
}

/// One listed holder: rank, aligned amount, markers, and the truncated
/// address on its own line.
pub open spec fn spec_entry(c: ClassifiedHolder, rank: nat, w: nat) -> Seq<char> {
    dec_str(rank) + ". "@ + spec_padded_amount(c, w) + " tokens"@ + spec_marker(c) + "\n   "@
        + spec_truncate_address(c.holder.owner@) + "\n\n"@
}

/// The first `j` listed holders, each rendered by `spec_entry`, in rank
/// order.
pub open spec fn spec_entries_upto(s: Seq<ClassifiedHolder>, w: nat, j: nat) -> Seq<char>
    recommends
        j <= s.len(),
    decreases j,
{
    if j == 0 {
        Seq::<char>::empty()
    } else {
        spec_entries_upto(s, w, (j - 1) as nat) + spec_entry(s[j - 1], j, w)
    }
}

fn entry_string(c: &ClassifiedHolder, rank: usize, w: usize) -> (r: String)
    requires
        rank >= 1,
    ensures
        r@ == spec_entry(*c, rank as nat, w as nat),
{
    let mut s = usize_to_string(rank);
    s.append(". ");
    let amount = padded_amount(c, w);
    s.append(amount.as_str());
    s.append(" tokens");
    if c.flags.is_fresh_wallet {
        s.append(" \u{1F195}");
    }
    if c.flags.is_whale {
        s.append(" \u{1F40B}");
    }
    s.append("\n   ");
    let addr = truncate_address(c.holder.owner.as_str());
    s.append(addr.as_str());
    s.append("\n\n");
    proof {
        assert(s@ =~= spec_entry(*c, rank as nat, w as nat));
    }
    s
}


/// The report header: total and filtered counts, and both flag counts
/// with their percentage shares.
pub open spec fn spec_header(
    r: crate::aggregate::AggregateReport,
    min_ui_amount: u64,
    max_age_hours: u64,
    minimum_sol: u64,
) -> Seq<char> {
    "\u{1F3AF} Token Holders Report\n\n\u{1F4CA} Total holders: "@ + dec_str(r.total_holders as nat)
        + "\n\u{2705} Holders with "@ + spec_format_number(min_ui_amount, 0) + "+ tokens: "@
        + dec_str(r.filtered_count as nat) + "\n\u{1F195} Bundle wallets (created within "@
        + dec_str(max_age_hours as nat) + "h): "@ + dec_str(r.bundle_count as nat) + " ("@
        + spec_permille_str(r.bundle_count as nat, r.filtered_count as nat)
        + "%)\n\u{1F40B} Whales ("@ + dec_str(minimum_sol as nat) + "+ SOL): "@
        + dec_str(r.whale_count as nat) + " ("@
        + spec_permille_str(r.whale_count as nat, r.filtered_count as nat) + "%)\n\n"@
}

/// The warning block: the all-clear line when both counts are zero, else
/// one warning line per nonzero count.
pub open spec fn spec_warnings(r: crate::aggregate::AggregateReport) -> Seq<char> {
    if r.bundle_count == 0 && r.whale_count == 0 {
        "\u{2705} No bundle wallets or whales detected!\n\n"@
    } else {
        (if r.bundle_count > 0 {
            "\u{26A0}\u{FE0F} Warning: "@ + spec_permille_str(
                r.bundle_count as nat,
                r.filtered_count as nat,
            ) + "% are bundle wallets\n"@
        } else {
            Seq::<char>::empty()
        }) + (if r.whale_count > 0 {
            "\u{1F40B} "@ + spec_permille_str(r.whale_count as nat, r.filtered_count as nat)
                + "% are whales with significant SOL holdings\n"@
        } else {
            Seq::<char>::empty()
        }) + "\n"@
    }
}

/// The holders the report lists: the first `top_k` of the ranking, or all
/// of it when it is shorter.
pub open spec fn spec_shown(r: crate::aggregate::AggregateReport) -> Seq<ClassifiedHolder> {
    if r.top_k <= r.ranked@.len() {
        r.ranked@.take(r.top_k as int)
    } else {
        r.ranked@
    }
}

/// The legend: one line per marker that a listed holder actually carries,
/// nothing when no listed holder carries one.
pub open spec fn spec_legend(
    r: crate::aggregate::AggregateReport,
    max_age_hours: u64,
    minimum_sol: u64,
) -> Seq<char> {
    let f = spec_any_fresh(spec_shown(r));
    let w = spec_any_whale(spec_shown(r));
    if !f && !w {
        Seq::<char>::empty()
    } else {
        "\n"@ + (if f {
            "\u{1F195} = Bundle wallet (created within "@ + dec_str(max_age_hours as nat) + "h)"@
        } else {
            Seq::<char>::empty()
        }) + (if f && w {
            "\n"@
        } else {
            Seq::<char>::empty()
        }) + (if w {
            "\u{1F40B} = Whale ("@ + dec_str(minimum_sol as nat) + "+ SOL)"@
        } else {
            Seq::<char>::empty()
        })
    }
}

/// The report body: the single no-holders line over an empty ranking,
/// else the top list with aligned amounts, a count of the unlisted rest,
/// and the legend.
pub open spec fn spec_body(
    r: crate::aggregate::AggregateReport,
    max_age_hours: u64,
    minimum_sol: u64,
) -> Seq<char> {
    if r.ranked@.len() == 0 {
        "No holders found with the minimum balance."@
    } else {
        let shown = spec_shown(r);
        let w = spec_max_amount_len(shown);
        "Top "@ + dec_str(r.top_k as nat)
            + " Holders:\n\u{2501}\u{2501}\u{2501}\u{2501}\u{2501}\u{2501}\u{2501}\u{2501}\u{2501}\u{2501}\u{2501}\u{2501}\u{2501}\u{2501}\u{2501}\u{2501}\u{2501}\u{2501}\u{2501}\u{2501}\u{2501}\u{2501}\n"@
            + spec_entries_upto(shown, w, shown.len()) + (if r.ranked@.len() > r.top_k {
            "... and "@ + dec_str((r.ranked@.len() - r.top_k) as nat) + " more holders\n"@
        } else {
            Seq::<char>::empty()
        }) + spec_legend(r, max_age_hours, minimum_sol)
    }
}

/// The whole report text, exactly as rendered.
pub open spec fn spec_report_text(
    r: crate::aggregate::AggregateReport,
    min_ui_amount: u64,
    max_age_hours: u64,
    minimum_sol: u64,
) -> Seq<char> {
    spec_header(r, min_ui_amount, max_age_hours, minimum_sol) + spec_warnings(r) + spec_body(
        r,
        max_age_hours,
        minimum_sol,
    )
}

fn header_string(
    r: &crate::aggregate::AggregateReport,
    min_ui_amount: u64,
    max_age_hours: u64,
    minimum_sol: u64,
) -> (out: String)
    ensures
        out@ == spec_header(*r, min_ui_amount, max_age_hours, minimum_sol),
{
    let mut s = "\u{1F3AF} Token Holders Report\n\n\u{1F4CA} Total holders: ".to_owned();
    s.append(usize_to_string(r.total_holders).as_str());
    s.append("\n\u{2705} Holders with ");
    s.append(format_number(min_ui_amount, 0).as_str());
    s.append("+ tokens: ");
    s.append(usize_to_string(r.filtered_count).as_str());
    s.append("\n\u{1F195} Bundle wallets (created within ");
    s.append(u64_to_string(max_age_hours).as_str());
    s.append("h): ");
    s.append(usize_to_string(r.bundle_count).as_str());
    s.append(" (");
    s.append(permille_string(r.bundle_count, r.filtered_count).as_str());
    s.append("%)\n\u{1F40B} Whales (");
    s.append(u64_to_string(minimum_sol).as_str());
    s.append("+ SOL): ");
    s.append(usize_to_string(r.whale_count).as_str());
    s.append(" (");
    s.append(permille_string(r.whale_count, r.filtered_count).as_str());
    s.append("%)\n\n");
    proof {
        assert(s@ =~= spec_header(*r, min_ui_amount, max_age_hours, minimum_sol));
    }
    s
}

fn warnings_string(r: &crate::aggregate::AggregateReport) -> (out: String)
    ensures
        out@ == spec_warnings(*r),
{
    if r.bundle_count == 0 && r.whale_count == 0 {
        "\u{2705} No bundle wallets or whales detected!\n\n".to_owned()
    } else {
        let mut s = String::new();
        if r.bundle_count > 0 {
            s.append("\u{26A0}\u{FE0F} Warning: ");
            s.append(permille_string(r.bundle_count, r.filtered_count).as_str());
            s.append("% are bundle wallets\n");
        }
        if r.whale_count > 0 {
            s.append("\u{1F40B} ");
            s.append(permille_string(r.whale_count, r.filtered_count).as_str());
            s.append("% are whales with significant SOL holdings\n");
        }
        s.append("\n");
        proof {
            assert(s@ =~= spec_warnings(*r));
        }
        s
    }
}

fn entries_string(v: &Vec<ClassifiedHolder>, k: usize, w: usize) -> (out: String)
    requires
        k <= v@.len(),
    ensures
        out@ == spec_entries_upto(v@.take(k as int), w as nat, k as nat),
{
    let ghost shown = v@.take(k as int);
    let mut s = String::new();
    let mut j: usize = 0;
    while j < k
        invariant
            j <= k <= v@.len(),
            shown == v@.take(k as int),
            s@ == spec_entries_upto(shown, w as nat, j as nat),
        decreases k - j,
    {
        let e = entry_string(&v[j], j + 1, w);
        s.append(e.as_str());
        proof {
            assert(shown[j as int] == v@[j as int]);
            assert(Seq::<char>::empty() + spec_entries_upto(shown, w as nat, j as nat) =~= spec_entries_upto(shown, w as nat, j as nat));
            assert(s@ == spec_entries_upto(shown, w as nat, (j + 1) as nat));
        }
        j = j + 1;
    }
    s
}

fn legend_string(
    r: &crate::aggregate::AggregateReport,
    k: usize,
    max_age_hours: u64,
    minimum_sol: u64,
) -> (out: String)
    requires
        k <= r.ranked@.len(),
        r.ranked@.take(k as int) == spec_shown(*r),
    ensures
        out@ == spec_legend(*r, max_age_hours, minimum_sol),
{
    let markers = used_markers(&r.ranked, k);
    if !markers.0 && !markers.1 {
        String::new()
    } else {
        let mut s = "\n".to_owned();
        if markers.0 {
            s.append("\u{1F195} = Bundle wallet (created within ");
            s.append(u64_to_string(max_age_hours).as_str());
            s.append("h)");
        }
        if markers.0 && markers.1 {
            s.append("\n");
        }
        if markers.1 {
            s.append("\u{1F40B} = Whale (");
            s.append(u64_to_string(minimum_sol).as_str());
            s.append("+ SOL)");
        }
        proof {
            assert(s@ =~= spec_legend(*r, max_age_hours, minimum_sol));
        }
        s
    }
}

#[verifier::rlimit(100)]
fn body_string(
    r: &crate::aggregate::AggregateReport,
    max_age_hours: u64,
    minimum_sol: u64,
) -> (out: String)
    ensures
        out@ == spec_body(*r, max_age_hours, minimum_sol),
{
    if r.ranked.len() == 0 {
        "No holders found with the minimum balance.".to_owned()
    } else {
        let len = r.ranked.len();
        let k = if r.top_k <= len {
            r.top_k
        } else {
            len
        };
        proof {
            if r.top_k > r.ranked@.len() {
                assert(r.ranked@.take(r.ranked@.len() as int) =~= r.ranked@);
            }
            assert(r.ranked@.take(k as int) == spec_shown(*r));
        }
        let ghost shown = spec_shown(*r);
        let w = max_amount_len(&r.ranked, k);
        let mut s = "Top ".to_owned();
        s.append(usize_to_string(r.top_k).as_str());
        s.append(
            " Holders:\n\u{2501}\u{2501}\u{2501}\u{2501}\u{2501}\u{2501}\u{2501}\u{2501}\u{2501}\u{2501}\u{2501}\u{2501}\u{2501}\u{2501}\u{2501}\u{2501}\u{2501}\u{2501}\u{2501}\u{2501}\u{2501}\u{2501}\n",
        );
        let entries = entries_string(&r.ranked, k, w);
        s.append(entries.as_str());
        proof {
            assert(shown.len() == k as nat);
            assert(entries@ == spec_entries_upto(shown, w as nat, shown.len()));
        }
        if len > r.top_k {
            s.append("... and ");
            s.append(usize_to_string(len - r.top_k).as_str());
            s.append(" more holders\n");
        } else {
            proof {
                assert(s@ + Seq::<char>::empty() =~= s@);
            }
        }
        let legend = legend_string(r, k, max_age_hours, minimum_sol);
        s.append(legend.as_str());
        proof {
            assert(s@ =~= spec_body(*r, max_age_hours, minimum_sol));
        }
        s
    }
}

/// Renders the aggregate into the fixed-layout text report: header counts
/// and shares, the warning block, and either the ranked top list with its
/// legend or the single no-holders line.
pub fn build_report(
    r: &crate::aggregate::AggregateReport,
    min_ui_amount: u64,
    max_age_hours: u64,
    minimum_sol: u64,
) -> (out: String)
    ensures
        out@ == spec_report_text(*r, min_ui_amount, max_age_hours, minimum_sol),
{
    let mut s = header_string(r, min_ui_amount, max_age_hours, minimum_sol);
    s.append(warnings_string(r).as_str());
    s.append(body_string(r, max_age_hours, minimum_sol).as_str());
    s
}

} // verus!
