//! The lookup tables of the ticker normalizer, and how they are searched.
//!
//! Each table is stated once as a sequence of string literals and once as the
//! array that the executable code walks; the array's contract ties the two.

use vstd::prelude::*;

use crate::text::{chars_of, ends_with, same_text};

verus! {

/// The suffixes that vendors hang on a symbol to name a market.
pub open spec fn vendor_suffixes() -> Seq<&'static str> {
    seq!["_EQ", "_US", "_BE", "_DE", "_GB", "_FR", "_NL", "_ES", "_IT"]
}

/// Symbols that are rewritten as a whole, each with what it becomes. Where a
/// symbol is listed twice, the earlier entry counts.
pub open spec fn special_mappings() -> Seq<(&'static str, &'static str)> {
    seq![
        ("SSLNL", "SSLN"),
        ("SGLNL", "SGLN"),
        ("3GLD", "3GLD"),
        ("SGLN", "SGLN"),
        ("PHGP", "PHGP"),
        ("PHAU", "PHAU"),
        ("3LTS", "3LTS"),
        ("3USL", "3USL"),
        ("LLOY1", "LLOY"),
        ("VOD1", "VOD"),
        ("BARC1", "BARC"),
        ("TSCO1", "TSCO"),
        ("BPL1", "BP"),
        ("BPL", "BP"),
        ("AZNL1", "AZN"),
        ("AZNL", "AZN"),
        ("SGLN1", "SGLN"),
        ("MAG5", "MAG5"),
        ("MAG5L", "MAG5"),
        ("MAG7", "MAG7"),
        ("MAG7L", "MAG7"),
        ("GLD3", "GLD3"),
        ("3UKL", "3UKL"),
        ("5QQQ", "5QQQ"),
        ("TSL3", "TSL3"),
        ("NVD3", "NVD3"),
        ("AVL", "AV"),
        ("UUL", "UU"),
        ("BAL", "BA"),
        ("SLL", "SL"),
        ("AU", "AUT"),
        ("RBL", "RKT"),
        ("MICCL", "MICC"),
    ]
}

/// Symbols after which a trailing `1` is a vendor's row version, not part of
/// the symbol.
pub open spec fn protected_stems() -> Seq<&'static str> {
    seq!["LLOY", "BARC", "VOD", "HSBA", "TSCO", "BP", "AZN", "RR", "NG", "SGLN", "SSLN"]
}

/// Symbols of the United States markets: they never get the London suffix by
/// their shape alone.
pub open spec fn us_exclusions() -> Seq<&'static str> {
    seq![
        "AAPL", "MSFT", "GOOG", "AMZN", "NVDA", "TSLA", "META", "NFLX", "AMD", "INTC", "PYPL",
        "ADBE", "CSCO", "PEP", "COST", "AVGO", "QCOM", "TXN", "ORCL", "CRM", "IBM", "UBER", "ABNB",
        "SNOW", "PLTR", "SQ", "SHOP", "SPOT", "GOOGL", "JPM", "BAC", "WFC", "C", "GS", "MS", "BLK",
        "AXP", "V", "MA", "COF", "USB", "CAT", "DE", "GE", "GM", "F", "BA", "LMT", "RTX", "HON",
        "UPS", "FDX", "UNP", "MMM", "WMT", "TGT", "HD", "LOW", "MCD", "SBUX", "NKE", "KO", "PG",
        "CL", "MO", "PM", "DIS", "CMCSA", "JNJ", "PFE", "MRK", "ABBV", "LLY", "UNH", "CVS", "AMGN",
        "GILD", "BMY", "ISRG", "TMO", "ABT", "DHR", "XOM", "CVX", "COP", "SLB", "EOG", "OXY", "KMI",
        "HAL", "T", "VZ", "TMUS", "SPY", "QQQ", "DIA", "IWM", "IVV", "VOO", "VTI", "GLD", "SLV",
        "ARKK", "SMH", "XLF", "XLE", "XLK", "XLV", "Z", "O", "D", "R", "K", "X", "S", "M", "A", "G",
    ]
}

/// Whether `s` is one of the entries of `table`.
pub open spec fn listed(table: Seq<&'static str>, s: Seq<char>) -> bool {
    exists|k: int| 0 <= k < table.len() && (#[trigger] table[k])@ == s
}

/// The first entry of `table` that `s` ends with, if there is one.
pub open spec fn trailing_entry(table: Seq<&'static str>, s: Seq<char>) -> Option<Seq<char>>
    decreases table.len(),
{
    if table.len() == 0 {
        None
    } else if table.first()@.is_suffix_of(s) {
        Some(table.first()@)
    } else {
        trailing_entry(table.drop_first(), s)
    }
}

/// What the first pair of `table` whose key is `s` maps it to, if there is one.
pub open spec fn mapped(table: Seq<(&'static str, &'static str)>, s: Seq<char>) -> Option<
    Seq<char>,
>
    decreases table.len(),
{
    if table.len() == 0 {
        None
    } else if table.first().0@ == s {
        Some(table.first().1@)
    } else {
        mapped(table.drop_first(), s)
    }
}

/// The table of [`vendor_suffixes`].
pub fn vendor_suffix_table() -> (t: [&'static str; 9])
    ensures
        t@ == vendor_suffixes(),
{
    ["_EQ", "_US", "_BE", "_DE", "_GB", "_FR", "_NL", "_ES", "_IT"]
}

/// The table of [`special_mappings`].
pub fn special_mapping_table() -> (t: [(&'static str, &'static str); 33])
    ensures
        t@ == special_mappings(),
{
    [
        ("SSLNL", "SSLN"),
        ("SGLNL", "SGLN"),
        ("3GLD", "3GLD"),
        ("SGLN", "SGLN"),
        ("PHGP", "PHGP"),
        ("PHAU", "PHAU"),
        ("3LTS", "3LTS"),
        ("3USL", "3USL"),
        ("LLOY1", "LLOY"),
        ("VOD1", "VOD"),
        ("BARC1", "BARC"),
        ("TSCO1", "TSCO"),
        ("BPL1", "BP"),
        ("BPL", "BP"),
        ("AZNL1", "AZN"),
        ("AZNL", "AZN"),
        ("SGLN1", "SGLN"),
        ("MAG5", "MAG5"),
        ("MAG5L", "MAG5"),
        ("MAG7", "MAG7"),
        ("MAG7L", "MAG7"),
        ("GLD3", "GLD3"),
        ("3UKL", "3UKL"),
        ("5QQQ", "5QQQ"),
        ("TSL3", "TSL3"),
        ("NVD3", "NVD3"),
        ("AVL", "AV"),
        ("UUL", "UU"),
        ("BAL", "BA"),
        ("SLL", "SL"),
        ("AU", "AUT"),
        ("RBL", "RKT"),
        ("MICCL", "MICC"),
    ]
}

/// The table of [`protected_stems`].
pub fn protected_stem_table() -> (t: [&'static str; 11])
    ensures
        t@ == protected_stems(),
{
    ["LLOY", "BARC", "VOD", "HSBA", "TSCO", "BP", "AZN", "RR", "NG", "SGLN", "SSLN"]
}

/// The table of [`us_exclusions`].
pub fn us_exclusion_table() -> (t: [&'static str; 118])
    ensures
        t@ == us_exclusions(),
{
    [
        "AAPL", "MSFT", "GOOG", "AMZN", "NVDA", "TSLA", "META", "NFLX", "AMD", "INTC", "PYPL",
        "ADBE", "CSCO", "PEP", "COST", "AVGO", "QCOM", "TXN", "ORCL", "CRM", "IBM", "UBER", "ABNB",
        "SNOW", "PLTR", "SQ", "SHOP", "SPOT", "GOOGL", "JPM", "BAC", "WFC", "C", "GS", "MS", "BLK",
        "AXP", "V", "MA", "COF", "USB", "CAT", "DE", "GE", "GM", "F", "BA", "LMT", "RTX", "HON",
        "UPS", "FDX", "UNP", "MMM", "WMT", "TGT", "HD", "LOW", "MCD", "SBUX", "NKE", "KO", "PG",
        "CL", "MO", "PM", "DIS", "CMCSA", "JNJ", "PFE", "MRK", "ABBV", "LLY", "UNH", "CVS", "AMGN",
        "GILD", "BMY", "ISRG", "TMO", "ABT", "DHR", "XOM", "CVX", "COP", "SLB", "EOG", "OXY", "KMI",
        "HAL", "T", "VZ", "TMUS", "SPY", "QQQ", "DIA", "IWM", "IVV", "VOO", "VTI", "GLD", "SLV",
        "ARKK", "SMH", "XLF", "XLE", "XLK", "XLV", "Z", "O", "D", "R", "K", "X", "S", "M", "A", "G",
    ]
}

/// Tells whether `sym` is one of the entries of `table`.
pub fn is_listed(table: &[&'static str], sym: &Vec<char>) -> (b: bool)
    ensures
        b == listed(table@, sym@),
{
    let mut k: usize = 0;
    while k < table.len()
        invariant
            k <= table.len(),
            forall|j: int| 0 <= j < k ==> (#[trigger] table@[j])@ != sym@,
        decreases table.len() - k,
    {
        let entry = chars_of(table[k]);
        if same_text(sym, &entry) {
            return true;
        }
        k += 1;
    }
    false
}

/// Finds the first entry of `table` that `sym` ends with.
pub fn find_trailing_entry(table: &[&'static str], sym: &Vec<char>) -> (r: Option<Vec<char>>)
    ensures
        match r {
            Some(entry) => trailing_entry(table@, sym@) == Some(entry@),
            None => trailing_entry(table@, sym@) is None,
        },
{
    let mut k: usize = 0;
    assert(table@.skip(0) == table@);
    while k < table.len()
        invariant
            k <= table.len(),
            trailing_entry(table@, sym@) == trailing_entry(table@.skip(k as int), sym@),
        decreases table.len() - k,
    {
        let entry = chars_of(table[k]);
        assert(table@.skip(k as int).drop_first() == table@.skip(k + 1));
        if ends_with(sym, &entry) {
            return Some(entry);
        }
        k += 1;
    }
    None
}

/// Finds what the first pair of `table` whose key is `sym` maps it to.
pub fn find_mapped(table: &[(&'static str, &'static str)], sym: &Vec<char>) -> (r: Option<
    Vec<char>,
>)
    ensures
        match r {
            Some(value) => mapped(table@, sym@) == Some(value@),
            None => mapped(table@, sym@) is None,
        },
{
    let mut k: usize = 0;
    assert(table@.skip(0) == table@);
    while k < table.len()
        invariant
            k <= table.len(),
            mapped(table@, sym@) == mapped(table@.skip(k as int), sym@),
        decreases table.len() - k,
    {
        let key = chars_of(table[k].0);
        assert(table@.skip(k as int).drop_first() == table@.skip(k + 1));
        if same_text(sym, &key) {
            return Some(chars_of(table[k].1));
        }
        k += 1;
    }
    None
}

} // verus!
