//! Ticker symbols: one canonical spelling for what several vendors call by
//! different names.
//!
//! A raw ticker is put in upper case, cleaned, freed of vendor suffixes and
//! artifacts, and then given the London suffix `.L` where its shape or its
//! origin says that it is listed there. Lengths are counted in UTF-8 bytes,
//! which for the ASCII symbols of the exchanges is the number of characters.

use vstd::prelude::*;

use crate::tables::{
    find_mapped, find_trailing_entry, is_listed, listed, mapped, protected_stem_table,
    protected_stems, special_mapping_table, special_mappings, trailing_entry, us_exclusion_table,
    us_exclusions, vendor_suffix_table, vendor_suffixes,
};
use crate::text::{
    chars_of, contains_char, contains_run, contains_text, is_trimmed, lemma_trimmed_fixed,
    lemma_trimmed_keeps, lemma_without_absent, lemma_without_contains, remove_char, slice_of,
    string_of, to_uppercase, trim, trimmed, uppercase_of, utf8_len, utf8_len_at_most, without,
};

verus! {

/// An upper-case ticker without the white space around it and without `$`.
pub open spec fn cleaned(upper: Seq<char>) -> Seq<char> {
    without(trimmed(upper), '$')
}

/// Every vendor suffix that `s` ends with shortens `s`.
pub proof fn lemma_vendor_suffix_shortens(s: Seq<char>)
    ensures
        match trailing_entry(vendor_suffixes(), s) {
            Some(suffix) => 0 < suffix.len() <= s.len(),
            None => true,
        },
{
    reveal_with_fuel(trailing_entry, 10);
    reveal_strlit("_EQ");
    reveal_strlit("_US");
    reveal_strlit("_BE");
    reveal_strlit("_DE");
    reveal_strlit("_GB");
    reveal_strlit("_FR");
    reveal_strlit("_NL");
    reveal_strlit("_ES");
    reveal_strlit("_IT");
}

/// `s` with the vendor suffixes taken off its end, one after the other, until
/// it ends with none.
pub open spec fn strip_suffixes(s: Seq<char>) -> Seq<char>
    decreases s.len(),
    via strip_suffixes_decreases
{
    match trailing_entry(vendor_suffixes(), s) {
        Some(suffix) => strip_suffixes(s.take(s.len() - suffix.len())),
        None => s,
    }
}

#[via_fn]
proof fn strip_suffixes_decreases(s: Seq<char>) {
    lemma_vendor_suffix_shortens(s);
}

/// The bare symbol of a cleaned ticker: no vendor suffix, no `_`.
pub open spec fn stem_of(clean: Seq<char>) -> Seq<char> {
    without(strip_suffixes(clean), '_')
}

/// What the special mappings make of `sym`: the value of the first pair whose
/// key it is, and `sym` itself where there is none.
pub open spec fn rewritten(sym: Seq<char>) -> Seq<char> {
    match mapped(special_mappings(), sym) {
        Some(value) => value,
        None => sym,
    }
}

/// Whether `sym` ends with the character `c`.
pub open spec fn ends_in(sym: Seq<char>, c: char) -> bool {
    sym.len() > 0 && sym.last() == c
}

/// Whether `sym` starts with the character `c`.
pub open spec fn starts_in(sym: Seq<char>, c: char) -> bool {
    sym.len() > 0 && sym.first() == c
}

/// Whether the `1` at the end of `sym` is a vendor's row version: `sym` is
/// longer than three bytes and what stands before the `1` is a protected stem.
pub open spec fn has_artifact(sym: Seq<char>) -> bool {
    ends_in(sym, '1') && utf8_len(sym) > 3 && listed(protected_stems(), sym.drop_last())
}

/// `sym` without the row version at its end, if it has one.
pub open spec fn without_artifact(sym: Seq<char>) -> Seq<char> {
    if has_artifact(sym) {
        sym.drop_last()
    } else {
        sym
    }
}

/// Whether the vendor named London for the ticker, and not the United States.
pub open spec fn explicit_uk(clean: Seq<char>) -> bool {
    contains_run(clean, "_EQ"@) && !contains_run(clean, "_US"@)
}

/// Whether `sym` has the shape of a London symbol: at most five bytes, or an
/// `L` at its end, and not a symbol of the United States.
pub open spec fn likely_uk(sym: Seq<char>) -> bool {
    (utf8_len(sym) <= 5 || ends_in(sym, 'L')) && !listed(us_exclusions(), sym)
}

/// Whether the `L` at the end of `sym` marks a London listing and is no part
/// of the symbol.
pub open spec fn has_listing_mark(sym: Seq<char>) -> bool {
    likely_uk(sym) && ends_in(sym, 'L') && utf8_len(sym) > 3
}

/// `sym` without the listing mark at its end, if it has one.
pub open spec fn without_listing_mark(sym: Seq<char>) -> Seq<char> {
    if has_listing_mark(sym) {
        sym.drop_last()
    } else {
        sym
    }
}

/// Whether `sym` has the shape of a leveraged or inverse product: `3`, `5` or
/// `7` in front, or `2`, `3`, `5` or `7` at the end.
pub open spec fn leveraged(sym: Seq<char>) -> bool {
    ||| starts_in(sym, '3')
    ||| starts_in(sym, '5')
    ||| starts_in(sym, '7')
    ||| ends_in(sym, '2')
    ||| ends_in(sym, '3')
    ||| ends_in(sym, '5')
    ||| ends_in(sym, '7')
}

/// Whether the symbol `sym` of the cleaned ticker `clean` is listed in
/// London. The shape of a leveraged product is looked for after the listing
/// mark is gone.
pub open spec fn in_london(clean: Seq<char>, sym: Seq<char>) -> bool {
    explicit_uk(clean) || likely_uk(sym) || leveraged(without_listing_mark(sym))
}

/// The symbol `sym` of the cleaned ticker `clean` with its market: the
/// listing mark goes, and `.L` is appended for a London listing unless the
/// symbol holds a `.` already (as one that ends in `.L` does).
pub open spec fn with_market(clean: Seq<char>, sym: Seq<char>) -> Seq<char> {
    let listing = without_listing_mark(sym);
    if in_london(clean, sym) && !listing.contains('.') {
        listing.push('.').push('L')
    } else {
        listing
    }
}

/// The canonical form of an upper-case ticker. One that holds a `.` once it
/// is cleaned is canonical already.
pub open spec fn canonical(upper: Seq<char>) -> Seq<char> {
    let clean = cleaned(upper);
    if clean.contains('.') {
        clean
    } else {
        with_market(clean, without_artifact(rewritten(stem_of(clean))))
    }
}

/// The canonical form of a raw ticker: the empty ticker stays empty, any
/// other is put in upper case first.
pub open spec fn normalized(raw: Seq<char>) -> Seq<char> {
    if raw.len() == 0 {
        Seq::empty()
    } else {
        canonical(uppercase_of(raw))
    }
}

/// Takes the vendor suffixes off the end of `v`.
pub fn strip_vendor_suffixes(v: &Vec<char>) -> (r: Vec<char>)
    ensures
        r@ == strip_suffixes(v@),
{
    let table = vendor_suffix_table();
    let mut r = slice_of(v, 0, v.len());
    assert(r@ == v@);
    loop
        invariant
            table@ == vendor_suffixes(),
            strip_suffixes(r@) == strip_suffixes(v@),
        ensures
            r@ == strip_suffixes(v@),
        decreases r.len(),
    {
        proof {
            lemma_vendor_suffix_shortens(r@);
        }
        match find_trailing_entry(&table, &r) {
            Some(suffix) => {
                r.truncate(r.len() - suffix.len());
            },
            None => {
                break ;
            },
        }
    }
    r
}

/// Applies the special mappings to `sym`.
pub fn rewrite_special(sym: Vec<char>) -> (r: Vec<char>)
    ensures
        r@ == rewritten(sym@),
{
    let table = special_mapping_table();
    match find_mapped(&table, &sym) {
        Some(value) => value,
        None => sym,
    }
}

/// Tells whether `sym` ends with the character `c`.
pub fn ends_in_char(sym: &Vec<char>, c: char) -> (b: bool)
    ensures
        b == ends_in(sym@, c),
{
    sym.len() > 0 && sym[sym.len() - 1] == c
}

/// Tells whether `sym` starts with the character `c`.
pub fn starts_in_char(sym: &Vec<char>, c: char) -> (b: bool)
    ensures
        b == starts_in(sym@, c),
{
    sym.len() > 0 && sym[0] == c
}

/// Takes the row version off the end of `sym`, if it has one.
pub fn drop_artifact(sym: Vec<char>) -> (r: Vec<char>)
    ensures
        r@ == without_artifact(sym@),
{
    if ends_in_char(&sym, '1') && !utf8_len_at_most(&sym, 3) {
        let stem = slice_of(&sym, 0, sym.len() - 1);
        let table = protected_stem_table();
        if is_listed(&table, &stem) {
            return stem;
        }
    }
    sym
}

/// Tells whether the vendor named London for the cleaned ticker `clean`.
pub fn is_explicit_uk(clean: &Vec<char>) -> (b: bool)
    ensures
        b == explicit_uk(clean@),
{
    let london = chars_of("_EQ");
    let states = chars_of("_US");
    contains_text(clean, &london) && !contains_text(clean, &states)
}

/// Tells whether `sym` has the shape of a London symbol.
pub fn is_likely_uk(sym: &Vec<char>) -> (b: bool)
    ensures
        b == likely_uk(sym@),
{
    let table = us_exclusion_table();
    (utf8_len_at_most(sym, 5) || ends_in_char(sym, 'L')) && !is_listed(&table, sym)
}

/// Tells whether `sym` has the shape of a leveraged or inverse product.
pub fn is_leveraged(sym: &Vec<char>) -> (b: bool)
    ensures
        b == leveraged(sym@),
{
    starts_in_char(sym, '3') || starts_in_char(sym, '5') || starts_in_char(sym, '7')
        || ends_in_char(sym, '2') || ends_in_char(sym, '3') || ends_in_char(sym, '5')
        || ends_in_char(sym, '7')
}

/// Gives the symbol `sym` of the cleaned ticker `clean` its market.
pub fn append_market(clean: &Vec<char>, sym: Vec<char>) -> (r: Vec<char>)
    ensures
        r@ == with_market(clean@, sym@),
{
    let explicit = is_explicit_uk(clean);
    let likely = is_likely_uk(&sym);
    let mut listing = sym;
    if likely && ends_in_char(&listing, 'L') && !utf8_len_at_most(&listing, 3) {
        listing.pop();
    }
    let london = explicit || likely || is_leveraged(&listing);
    if london && !contains_char(&listing, '.') {
        listing.push('.');
        listing.push('L');
    }
    listing
}

/// The canonical form of a ticker that is in upper case already.
pub fn canonical_ticker(upper: &str) -> (r: String)
    ensures
        r@ == canonical(upper@),
{
    let chars = chars_of(upper);
    let inner = trim(&chars);
    let clean = remove_char(&inner, '$');
    if contains_char(&clean, '.') {
        return string_of(&clean);
    }
    let stripped = strip_vendor_suffixes(&clean);
    let stem = remove_char(&stripped, '_');
    let sym = drop_artifact(rewrite_special(stem));
    let listing = append_market(&clean, sym);
    string_of(&listing)
}

/// The canonical form of a raw ticker. No ticker is refused; the empty one
/// comes back empty.
pub fn normalize_ticker(ticker: String) -> (r: String)
    ensures
        r@ == normalized(ticker@),
{
    if ticker.as_str().is_empty() {
        return String::new();
    }
    let upper = to_uppercase(ticker.as_str());
    canonical_ticker(upper.as_str())
}

/// Cleaning keeps a `.`, and brings none in.
pub proof fn lemma_cleaned_keeps_dot(upper: Seq<char>)
    ensures
        cleaned(upper).contains('.') <==> upper.contains('.'),
        !cleaned(upper).contains('$'),
{
    lemma_trimmed_keeps(upper, '.');
    lemma_without_contains(trimmed(upper), '$', '.');
    lemma_without_contains(trimmed(upper), '$', '$');
}

/// A ticker in canonical form is its own canonical form: one that holds a
/// `.`, holds no `$` and has no white space at either end comes back
/// unchanged.
pub proof fn lemma_canonical_form_is_fixed(s: Seq<char>)
    requires
        s.contains('.'),
        !s.contains('$'),
        is_trimmed(s),
    ensures
        canonical(s) == s,
{
    lemma_trimmed_fixed(s);
    lemma_without_absent(s, '$');
}

/// Normalizing twice gives what normalizing once gives, for an upper-case
/// ticker that holds a `.` and whose cleaned form has no white space at
/// either end.
pub proof fn lemma_canonical_idempotent(upper: Seq<char>)
    requires
        upper.contains('.'),
        is_trimmed(cleaned(upper)),
    ensures
        canonical(canonical(upper)) == canonical(upper),
{
    lemma_cleaned_keeps_dot(upper);
    lemma_canonical_form_is_fixed(cleaned(upper));
}

/// Where taking `$` out of a ticker that holds a `.` bares white space at one
/// of its ends, the second normalization trims it: the result differs from
/// the first.
pub proof fn lemma_canonical_trims_again(upper: Seq<char>)
    requires
        upper.contains('.'),
        !is_trimmed(cleaned(upper)),
    ensures
        canonical(canonical(upper)) != canonical(upper),
{
    let c = cleaned(upper);
    lemma_cleaned_keeps_dot(upper);
    lemma_trimmed_keeps(c, '.');
    lemma_without_contains(trimmed(c), '$', '.');
    lemma_without_contains(c, '$', '$');
    assert(!trimmed(c).contains('$')) by {
        lemma_trimmed_keeps(c, '$');
    }
    lemma_without_absent(trimmed(c), '$');
    lemma_trimmed_fixed(c);
}

/// Normalizing twice gives what normalizing once gives, for a raw ticker that
/// holds a `.`, keeps it in upper case, and whose canonical form has no white
/// space at either end and is its own upper case.
pub proof fn lemma_normalized_idempotent(raw: Seq<char>)
    requires
        raw.contains('.'),
        uppercase_of(raw).contains('.'),
        is_trimmed(normalized(raw)),
        uppercase_of(normalized(raw)) == normalized(raw),
    ensures
        normalized(normalized(raw)) == normalized(raw),
{
    let upper = uppercase_of(raw);
    lemma_cleaned_keeps_dot(upper);
    lemma_canonical_form_is_fixed(cleaned(upper));
}

} // verus!
