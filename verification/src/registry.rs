//! The validator registry: the complete, fixed, ordered list of available
//! validators, and the severity filter that selects the active subset.
//!
//! Membership is decided at build time; extension means adding a validator to
//! the fixed list and recompiling. A validator participates exactly when its
//! level is at or below the configured threshold; skipped validators are not
//! invoked at all.

use vstd::prelude::*;

use crate::block::{Block, BlockV};
use crate::paired::{mate_qualities_check, names_check, MateQualitiesValidator, NamesValidator};
use crate::single::{alphabet_check, lengths_check, name_marker_check, plus_line_check,
    quality_range_check, AlphabetValidator, LengthsValidator, NameMarkerValidator,
    PlusLineValidator, QualityRangeValidator};
use crate::validators::{check_view, level_at_most, level_rank, Error, ErrorV, ValidationLevel};

verus! {

/// One entry of the registry: a tag naming a concrete validator.
#[derive(Clone, Copy, Debug, PartialEq, Eq, Structural)]
pub enum ValidatorId {
    NameMarker,
    Alphabet,
    Lengths,
    QualityRange,
    PlusLine,
    PairedNames,
    MateQualities,
}

/// The fixed registry order: single-read validators first, then the
/// paired-read validators.
pub open spec fn registry_order() -> Seq<ValidatorId> {
    seq![
        ValidatorId::NameMarker,
        ValidatorId::Alphabet,
        ValidatorId::Lengths,
        ValidatorId::QualityRange,
        ValidatorId::PlusLine,
        ValidatorId::PairedNames,
        ValidatorId::MateQualities,
    ]
}

/// The registry as a value: the complete ordered list of validators.
pub fn registry() -> (r: Vec<ValidatorId>)
    ensures
        r@ == registry_order(),
{
    let mut v: Vec<ValidatorId> = Vec::new();
    v.push(ValidatorId::NameMarker);
    v.push(ValidatorId::Alphabet);
    v.push(ValidatorId::Lengths);
    v.push(ValidatorId::QualityRange);
    v.push(ValidatorId::PlusLine);
    v.push(ValidatorId::PairedNames);
    v.push(ValidatorId::MateQualities);
    proof {
        assert(v@ =~= registry_order());
    }
    v
}

/// The fixed severity of each validator.
pub open spec fn id_level(id: ValidatorId) -> ValidationLevel {
    match id {
        ValidatorId::NameMarker => ValidationLevel::Low,
        ValidatorId::Alphabet => ValidationLevel::Low,
        ValidatorId::Lengths => ValidationLevel::High,
        ValidatorId::QualityRange => ValidationLevel::Medium,
        ValidatorId::PlusLine => ValidationLevel::Low,
        ValidatorId::PairedNames => ValidationLevel::Medium,
        ValidatorId::MateQualities => ValidationLevel::Medium,
    }
}

/// Whether a validator participates under the given threshold: its level
/// must be at or below the threshold.
pub open spec fn is_active(id: ValidatorId, threshold: ValidationLevel) -> bool {
    level_rank(id_level(id)) <= level_rank(threshold)
}

/// Decides [`is_active`].
pub fn active(id: ValidatorId, threshold: ValidationLevel) -> (r: bool)
    ensures
        r == is_active(id, threshold),
{
    let l = match id {
        ValidatorId::NameMarker => ValidationLevel::Low,
        ValidatorId::Alphabet => ValidationLevel::Low,
        ValidatorId::Lengths => ValidationLevel::High,
        ValidatorId::QualityRange => ValidationLevel::Medium,
        ValidatorId::PlusLine => ValidationLevel::Low,
        ValidatorId::PairedNames => ValidationLevel::Medium,
        ValidatorId::MateQualities => ValidationLevel::Medium,
    };
    level_at_most(l, threshold)
}

/// The judgment of a single-read validator on one record; `None` for a
/// paired-read tag.
pub open spec fn single_check(id: ValidatorId, b: BlockV) -> Option<ErrorV> {
    match id {
        ValidatorId::NameMarker => name_marker_check(b),
        ValidatorId::Alphabet => alphabet_check(b),
        ValidatorId::Lengths => lengths_check(b),
        ValidatorId::QualityRange => quality_range_check(b),
        ValidatorId::PlusLine => plus_line_check(b),
        ValidatorId::PairedNames => None,
        ValidatorId::MateQualities => None,
    }
}

/// The judgment of a paired-read validator on one pair; `None` for a
/// single-read tag.
pub open spec fn paired_check(id: ValidatorId, b: BlockV, d: BlockV) -> Option<ErrorV> {
    match id {
        ValidatorId::PairedNames => names_check(b, d),
        ValidatorId::MateQualities => mate_qualities_check(b, d),
        _ => None,
    }
}

/// Runs a single-read validator; returns `Ok(())` for a paired-read tag.
pub fn run_single(id: ValidatorId, b: &Block) -> (r: Result<(), Error>)
    ensures
        check_view(r) == single_check(id, b@),
{
    match id {
        ValidatorId::NameMarker => NameMarkerValidator.validate(b),
        ValidatorId::Alphabet => AlphabetValidator.validate(b),
        ValidatorId::Lengths => LengthsValidator.validate(b),
        ValidatorId::QualityRange => QualityRangeValidator.validate(b),
        ValidatorId::PlusLine => PlusLineValidator.validate(b),
        ValidatorId::PairedNames => Ok(()),
        ValidatorId::MateQualities => Ok(()),
    }
}

/// Runs a paired-read validator; returns `Ok(())` for a single-read tag.
pub fn run_paired(id: ValidatorId, b: &Block, d: &Block) -> (r: Result<(), Error>)
    ensures
        check_view(r) == paired_check(id, b@, d@),
{
    match id {
        ValidatorId::PairedNames => NamesValidator.validate(b, d),
        ValidatorId::MateQualities => MateQualitiesValidator.validate(b, d),
        _ => Ok(()),
    }
}

/// The errors of one pair as a sequence: `None` becomes the empty sequence.
pub open spec fn opt_errs(o: Option<ErrorV>) -> Seq<ErrorV> {
    match o {
        None => Seq::empty(),
        Some(e) => seq![e],
    }
}

/// Every error one validator contributes for one pair, in order: nothing
/// when it is inactive; for a single-read check its judgment of the first
/// then the second record; for a paired-read check its one judgment. A
/// single-read tag has no paired judgment and a paired-read tag no
/// single-read one, so the inapplicable parts below are empty.
pub open spec fn validator_errors(
    id: ValidatorId,
    threshold: ValidationLevel,
    b: BlockV,
    d: BlockV,
) -> Seq<ErrorV> {
    if !is_active(id, threshold) {
        Seq::empty()
    } else {
        opt_errs(single_check(id, b)) + opt_errs(single_check(id, d)) + opt_errs(
            paired_check(id, b, d),
        )
    }
}

/// The errors a prefix of the registry contributes for one pair, in
/// registry order.
pub open spec fn errors_from(
    ids: Seq<ValidatorId>,
    threshold: ValidationLevel,
    b: BlockV,
    d: BlockV,
) -> Seq<ErrorV>
    decreases ids.len(),
{
    if ids.len() == 0 {
        Seq::empty()
    } else {
        errors_from(ids.drop_last(), threshold, b, d) + validator_errors(
            ids.last(),
            threshold,
            b,
            d,
        )
    }
}

/// Every error the registry contributes for one pair, in registry order.
pub open spec fn pair_errors(threshold: ValidationLevel, b: BlockV, d: BlockV) -> Seq<ErrorV> {
    errors_from(registry_order(), threshold, b, d)
}

/// Unfolding step: the errors of a prefix one longer.
pub proof fn lemma_errors_from_step(
    ids: Seq<ValidatorId>,
    i: int,
    threshold: ValidationLevel,
    b: BlockV,
    d: BlockV,
)
    requires
        0 <= i < ids.len(),
    ensures
        errors_from(ids.take(i + 1), threshold, b, d) == errors_from(ids.take(i), threshold, b, d)
            + validator_errors(ids[i], threshold, b, d),
{
    let t = ids.take(i + 1);
    assert(t.drop_last() =~= ids.take(i));
    assert(t.last() == ids[i]);
}

} // verus!
