//! Which Player evidence may be classified, and why a classification can be
//! withheld.
use vstd::prelude::*;

use crate::domain::RepoError;
use crate::json::{json_get, json_str};
use crate::player_models::{cards_refused, validate_cards, PlayerCard, PlayerEvidence};
use crate::text::copy_string;

verus! {

#[derive(Clone, Copy, Debug, PartialEq, Eq, Structural)]
pub enum PlayerClassificationEligibility {
    Eligible,
    Ineligible,
}

#[derive(Clone, Copy, Debug, PartialEq, Eq, Structural)]
pub enum PlayerClassificationReason {
    IneligibleEvidence,
    UnsupportedFormat,
    ClassifierUnavailable,
    ClassifierFailed,
}

/// Only an official decklist that carries its complete deck is eligible.
pub fn classification_eligibility(evidence: &PlayerEvidence) -> (r: PlayerClassificationEligibility)
    ensures
        evidence.spec_is_complete_official_deck() ==> r == PlayerClassificationEligibility::Eligible,
        !evidence.spec_is_complete_official_deck() ==> r
            == PlayerClassificationEligibility::Ineligible,
{
    if evidence.is_complete_official_deck() {
        PlayerClassificationEligibility::Eligible
    } else {
        PlayerClassificationEligibility::Ineligible
    }
}

pub fn is_classification_eligible(evidence: &PlayerEvidence) -> (r: bool)
    ensures
        r == evidence.spec_is_complete_official_deck(),
{
    match classification_eligibility(evidence) {
        PlayerClassificationEligibility::Eligible => true,
        PlayerClassificationEligibility::Ineligible => false,
    }
}

/// A card as the classifier reads it.
#[derive(Debug, PartialEq, Eq)]
pub struct CanonicalCard {
    pub oracle_id: String,
    pub quantity: u16,
    pub basic_land: bool,
}

/// A complete deck handed to the classifier.
#[derive(Debug, PartialEq, Eq)]
pub struct CompleteDeck {
    pub format: String,
    pub complete: bool,
    pub cards: Vec<CanonicalCard>,
}

/// What classifying evidence came to: a stored run (`T`), or the reason
/// none was made.
#[derive(Debug, PartialEq, Eq)]
pub enum PlayerClassificationOutcome<T> {
    Classified(T),
    Unclassified { reason: PlayerClassificationReason },
}

/// `deck` is the complete deck in `format` made of `cards`, in order.
pub open spec fn deck_of(format: Seq<char>, cards: Seq<PlayerCard>, deck: CompleteDeck) -> bool {
    &&& deck.format@ == format
    &&& deck.complete
    &&& deck.cards@.len() == cards.len()
    &&& forall|i: int|
        0 <= i < cards.len() ==> {
            &&& (#[trigger] deck.cards@[i]).oracle_id@ == cards[i].oracle_id@
            &&& deck.cards@[i].quantity == cards[i].quantity
            &&& deck.cards@[i].basic_land == cards[i].basic_land
        }
}

fn canonical_cards(cards: &Vec<PlayerCard>) -> (r: Vec<CanonicalCard>)
    ensures
        r@.len() == cards@.len(),
        forall|i: int|
            0 <= i < cards@.len() ==> {
                &&& (#[trigger] r@[i]).oracle_id@ == cards@[i].oracle_id@
                &&& r@[i].quantity == cards@[i].quantity
                &&& r@[i].basic_land == cards@[i].basic_land
            },
{
    let mut out: Vec<CanonicalCard> = Vec::new();
    let mut i: usize = 0;
    while i < cards.len()
        invariant
            i <= cards@.len(),
            out@.len() == i,
            forall|k: int|
                0 <= k < i ==> {
                    &&& (#[trigger] out@[k]).oracle_id@ == cards@[k].oracle_id@
                    &&& out@[k].quantity == cards@[k].quantity
                    &&& out@[k].basic_land == cards@[k].basic_land
                },
        decreases cards.len() - i,
    {
        out.push(
            CanonicalCard {
                oracle_id: copy_string(cards[i].oracle_id.as_str()),
                quantity: cards[i].quantity,
                basic_land: cards[i].basic_land,
            },
        );
        i = i + 1;
    }
    out
}

/// The outcome of classifying evidence that was already committed.
/// Ineligible evidence is left unclassified; eligible evidence must name
/// its format and hold a valid complete deck. The current classifier assets
/// come from `assets`; `classify` classifies the deck with them, and a
/// deck it cannot classify is left unclassified (unsupported format, or any
/// other failure); a result is stored by `persist`.
pub open spec fn classification_reply<S, R, T, A, C, P>(
    evidence: PlayerEvidence,
    assets: A,
    classify: C,
    persist: P,
    r: Result<PlayerClassificationOutcome<T>, RepoError>,
) -> bool where
    A: FnOnce() -> Result<S, RepoError>,
    C: FnOnce(CompleteDeck, S) -> Result<R, RepoError>,
    P: FnOnce(R) -> Result<T, RepoError>,
 {
    let format = json_str(json_get(evidence.payload, "format"@));
    if !evidence.spec_is_complete_official_deck() {
        r == Ok::<PlayerClassificationOutcome<T>, RepoError>(
            PlayerClassificationOutcome::Unclassified { reason: PlayerClassificationReason::IneligibleEvidence },
        )
    } else if format is None || cards_refused(evidence.cards@, true) {
        r == Err::<PlayerClassificationOutcome<T>, RepoError>(RepoError::InvalidRequest)
    } else {
        exists|current: Result<S, RepoError>|
            #[trigger] assets.ensures((), current) && match current {
                Err(_) => r == Err::<PlayerClassificationOutcome<T>, RepoError>(RepoError::AssetsInvalid),
                Ok(set) => exists|deck: CompleteDeck, result: Result<R, RepoError>|
                    deck_of(format->0, evidence.cards@, deck) && #[trigger] classify.ensures((deck, set), result)
                        && match result {
                        Err(RepoError::FormatUnsupported) => r == Ok::<PlayerClassificationOutcome<T>, RepoError>(
                            PlayerClassificationOutcome::Unclassified {
                                reason: PlayerClassificationReason::UnsupportedFormat,
                            },
                        ),
                        Err(_) => r == Ok::<PlayerClassificationOutcome<T>, RepoError>(
                            PlayerClassificationOutcome::Unclassified {
                                reason: PlayerClassificationReason::ClassifierFailed,
                            },
                        ),
                        Ok(found) => exists|stored: Result<T, RepoError>|
                            #[trigger] persist.ensures((found,), stored) && match stored {
                                Ok(run) => r == Ok::<PlayerClassificationOutcome<T>, RepoError>(
                                    PlayerClassificationOutcome::Classified(run),
                                ),
                                Err(e) => r == Err::<PlayerClassificationOutcome<T>, RepoError>(e),
                            },
                    },
            }
    }
}

/// Classifies committed evidence and stores the run; the evidence itself is
/// never changed.
pub fn classify_and_persist<S, R, T, A, C, P>(
    evidence: &PlayerEvidence,
    assets: A,
    classify: C,
    persist: P,
) -> (r: Result<PlayerClassificationOutcome<T>, RepoError>) where
    A: FnOnce() -> Result<S, RepoError>,
    C: FnOnce(CompleteDeck, S) -> Result<R, RepoError>,
    P: FnOnce(R) -> Result<T, RepoError>,
    requires
        assets.requires(()),
        forall|d: CompleteDeck, s: S| #[trigger] classify.requires((d, s)),
        forall|x: R| #[trigger] persist.requires((x,)),
    ensures
        classification_reply(*evidence, assets, classify, persist, r),
{
    if !is_classification_eligible(evidence) {
        return Ok(
            PlayerClassificationOutcome::Unclassified { reason: PlayerClassificationReason::IneligibleEvidence },
        );
    }
    let format = match evidence.payload.get("format") {
        Some(value) => match value.as_str() {
            Some(text) => copy_string(text),
            None => {
                return Err(RepoError::InvalidRequest);
            },
        },
        None => {
            return Err(RepoError::InvalidRequest);
        },
    };
    if let Err(error) = validate_cards(evidence.cards.as_slice(), true) {
        return Err(error);
    }
    let deck = CompleteDeck { format, complete: true, cards: canonical_cards(&evidence.cards) };
    let current = assets();
    let ghost got = current;
    assert(assets.ensures((), got));
    let set = match current {
        Ok(set) => set,
        Err(_) => {
            return Err(RepoError::AssetsInvalid);
        },
    };
    let ghost handed = deck;
    let ghost with = set;
    let result = classify(deck, set);
    let ghost classified = result;
    assert(classify.ensures((handed, with), classified));
    match result {
        Ok(found) => {
            let ghost f = found;
            let stored = persist(found);
            assert(persist.ensures((f,), stored));
            match stored {
                Ok(run) => Ok(PlayerClassificationOutcome::Classified(run)),
                Err(error) => Err(error),
            }
        },
        Err(RepoError::FormatUnsupported) => Ok(
            PlayerClassificationOutcome::Unclassified { reason: PlayerClassificationReason::UnsupportedFormat },
        ),
        Err(_) => Ok(
            PlayerClassificationOutcome::Unclassified { reason: PlayerClassificationReason::ClassifierFailed },
        ),
    }
}

} // verus!
