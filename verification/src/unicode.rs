//! Unicode normalization and case folding, as the `unicode-normalization`
//! and `unicode-casefold` crates compute them.
use unicode_casefold::UnicodeCaseFold;
use unicode_normalization::UnicodeNormalization;
use vstd::prelude::*;

verus! {

/// The NFKC normal form of `s` (`UnicodeNormalization::nfkc`).
pub uninterp spec fn nfkc_of(s: Seq<char>) -> Seq<char>;

/// The NFC normal form of `s` (`UnicodeNormalization::nfc`).
pub uninterp spec fn nfc_of(s: Seq<char>) -> Seq<char>;

/// The full default case folding of `s` (`UnicodeCaseFold::case_fold`).
pub uninterp spec fn case_fold_of(s: Seq<char>) -> Seq<char>;

/// `unicode_normalization::UnicodeNormalization::nfkc`, collected; a function
/// of the text alone.
#[verifier::external_body]
pub(crate) fn nfkc(s: &str) -> (r: String)
    ensures
        r@ == nfkc_of(s@),
{
    s.nfkc().collect()
}

/// `unicode_normalization::UnicodeNormalization::nfc`, collected; a function
/// of the text alone.
#[verifier::external_body]
pub(crate) fn nfc(s: &str) -> (r: String)
    ensures
        r@ == nfc_of(s@),
{
    s.nfc().collect()
}

/// `unicode_casefold::UnicodeCaseFold::case_fold` over the characters of
/// `s`, collected; a function of the text alone.
#[verifier::external_body]
pub(crate) fn case_fold(s: &str) -> (r: String)
    ensures
        r@ == case_fold_of(s@),
{
    s.chars().case_fold().collect()
}

} // verus!
