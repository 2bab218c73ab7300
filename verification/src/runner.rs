//! The validation runner: lockstep iteration over two record lists, bounded
//! error aggregation, and the final report.
//!
//! The orchestrator walks the two mate record lists pair by pair, runs the
//! active validators in registry order against each pair, and collects every
//! failure, bounded by the configured cap. Once the cap is reached no further
//! error is recorded. In strict mode (the lenient flag unset) the run stops
//! immediately after the pair whose validation produced a high-severity
//! error. When one list is exhausted before the other and the run was not
//! stopped early, exactly one structural mate-count error is recorded (still
//! subject to the cap); no pair is fabricated. Errors are reported in a fixed
//! deterministic order: registry order within each pair, pairs in stream
//! order.

use vstd::prelude::*;
use vstd::string::*;

use crate::block::{Block, BlockV};
use crate::fastq::{parse_all, parse_fastq, ParseError};
use crate::registry::{active, is_active, lemma_errors_from_step, opt_errs, pair_errors,
    paired_check, registry, registry_order, run_paired, run_single, single_check,
    validator_errors};
use crate::validators::{check_view, Error, ErrorV, LineType, ValidationLevel};

verus! {

/// What a run is configured with: the severity threshold selecting the
/// active validators, the lenient flag, and the error cap.
#[derive(Clone, Copy, Debug, PartialEq, Eq, Structural)]
pub struct RunConfig {
    pub threshold: ValidationLevel,
    pub lenient: bool,
    pub cap: usize,
}

/// The report of one run: pairs processed, error counts by severity, the
/// ordered (possibly capped) error list, and the final pass/fail verdict.
#[derive(Debug, PartialEq, Eq)]
pub struct Summary {
    pub pairs: usize,
    pub low_count: usize,
    pub medium_count: usize,
    pub high_count: usize,
    pub errors: Vec<Error>,
    pub pass: bool,
}

/// The mathematical state of a run: the error list so far, the pairs pulled
/// so far, and whether strict mode stopped the run early.
#[verifier::ext_equal]
pub ghost struct RunModel {
    pub errors: Seq<ErrorV>,
    pub pairs: nat,
    pub early: bool,
}

/// The views of a list of records.
pub open spec fn blocks_view(s: Seq<Block>) -> Seq<BlockV> {
    s.map_values(|b: Block| b@)
}

/// The views of a list of errors.
pub open spec fn errors_view(s: Seq<Error>) -> Seq<ErrorV> {
    s.map_values(|e: Error| e@)
}

/// Appends one error unless the cap is already reached.
pub open spec fn cap_push(acc: Seq<ErrorV>, e: ErrorV, cap: nat) -> Seq<ErrorV> {
    if acc.len() < cap {
        acc.push(e)
    } else {
        acc
    }
}

/// Appends errors in order, dropping every one produced after the cap is
/// reached.
pub open spec fn cap_extend(acc: Seq<ErrorV>, new: Seq<ErrorV>, cap: nat) -> Seq<ErrorV>
    decreases new.len(),
{
    if new.len() == 0 {
        acc
    } else {
        cap_extend(cap_push(acc, new[0], cap), new.drop_first(), cap)
    }
}

/// Whether the list holds a high-severity error.
pub open spec fn has_high(errs: Seq<ErrorV>) -> bool {
    exists|k: int| 0 <= k < errs.len() && errs[k].level == ValidationLevel::High
}

/// How many errors of the given severity the list holds.
pub open spec fn count_level(errs: Seq<ErrorV>, level: ValidationLevel) -> nat
    decreases errs.len(),
{
    if errs.len() == 0 {
        0
    } else {
        count_level(errs.drop_last(), level) + if errs.last().level == level {
            1nat
        } else {
            0nat
        }
    }
}

/// How many errors with the given code the list holds.
pub open spec fn count_code(errs: Seq<ErrorV>, code: Seq<char>) -> nat
    decreases errs.len(),
{
    if errs.len() == 0 {
        0
    } else {
        count_code(errs.drop_last(), code) + if errs.last().code == code {
            1nat
        } else {
            0nat
        }
    }
}

/// The structural error recorded when one mate stream is exhausted before
/// the other.
pub open spec fn mate_count_error() -> ErrorV {
    ErrorV {
        code: "P002"@,
        name: "MateCountCheck"@,
        message: "Mate streams yield different numbers of records".spec_bytes(),
        line_type: LineType::Name,
        line_offset: None,
        level: ValidationLevel::High,
    }
}

/// The state of the run after the first `i` pairs. Each processed pair
/// contributes its errors in registry order, capped; in strict mode the run
/// stops immediately after the pair that brought a high-severity error in.
pub open spec fn run_upto(cfg: RunConfig, r1: Seq<BlockV>, r2: Seq<BlockV>, i: nat) -> RunModel
    decreases i,
{
    if i == 0 {
        RunModel { errors: Seq::empty(), pairs: 0, early: false }
    } else {
        let m = run_upto(cfg, r1, r2, (i - 1) as nat);
        if m.early {
            m
        } else {
            let errs = cap_extend(m.errors, pair_errors(cfg.threshold, r1[i - 1], r2[i - 1]),
                cfg.cap as nat);
            RunModel { errors: errs, pairs: m.pairs + 1, early: !cfg.lenient && has_high(errs) }
        }
    }
}

/// The smaller of the two record counts: how many pairs the streams offer.
pub open spec fn pair_count(r1: Seq<BlockV>, r2: Seq<BlockV>) -> nat {
    if r1.len() <= r2.len() {
        r1.len()
    } else {
        r2.len()
    }
}

/// The complete run: all offered pairs, then — unless strict mode already
/// stopped the run — one structural error when the counts differ.
pub open spec fn run_model(cfg: RunConfig, r1: Seq<BlockV>, r2: Seq<BlockV>) -> RunModel {
    let m = run_upto(cfg, r1, r2, pair_count(r1, r2));
    if !m.early && r1.len() != r2.len() {
        RunModel {
            errors: cap_push(m.errors, mate_count_error(), cfg.cap as nat),
            pairs: m.pairs,
            early: false,
        }
    } else {
        m
    }
}

/// The final verdict over the complete (possibly capped) error list: the run
/// fails exactly when a high-severity error exists or the cap was reached
/// under strict mode.
pub open spec fn run_passed(cfg: RunConfig, errs: Seq<ErrorV>) -> bool {
    !has_high(errs) && (cfg.lenient || errs.len() < cfg.cap)
}

/// What [`run_pairs`] promises of its summary.
pub open spec fn summarizes(s: Summary, cfg: RunConfig, m: RunModel) -> bool {
    &&& errors_view(s.errors@) == m.errors
    &&& s.pairs as nat == m.pairs
    &&& s.pass == run_passed(cfg, m.errors)
    &&& s.low_count as nat == count_level(m.errors, ValidationLevel::Low)
    &&& s.medium_count as nat == count_level(m.errors, ValidationLevel::Medium)
    &&& s.high_count as nat == count_level(m.errors, ValidationLevel::High)
}

/// Appending one error to the list changes `has_high` exactly when the
/// error is high-severity.
proof fn lemma_has_high_push(errs: Seq<ErrorV>, e: ErrorV)
    ensures
        has_high(errs.push(e)) == (has_high(errs) || e.level == ValidationLevel::High),
{
    if has_high(errs) {
        let k = choose|k: int| 0 <= k < errs.len() && errs[k].level == ValidationLevel::High;
        assert(errs.push(e)[k].level == ValidationLevel::High);
    }
    if e.level == ValidationLevel::High {
        assert(errs.push(e)[errs.len() as int].level == ValidationLevel::High);
    }
    if has_high(errs.push(e)) {
        let k = choose|k: int|
            0 <= k < errs.push(e).len() && errs.push(e)[k].level == ValidationLevel::High;
        if k < errs.len() {
            assert(errs[k].level == ValidationLevel::High);
        }
    }
}

/// Extending by one error is one capped push.
proof fn lemma_cap_extend_one(acc: Seq<ErrorV>, e: ErrorV, cap: nat)
    ensures
        cap_extend(acc, seq![e], cap) == cap_push(acc, e, cap),
{
    assert(seq![e][0] == e);
    assert(seq![e].drop_first() =~= Seq::<ErrorV>::empty());
    assert(cap_extend(cap_push(acc, e, cap), seq![e].drop_first(), cap) == cap_push(acc, e, cap));
}

/// Capped extension distributes over concatenation.
proof fn lemma_cap_extend_concat(acc: Seq<ErrorV>, x: Seq<ErrorV>, y: Seq<ErrorV>, cap: nat)
    ensures
        cap_extend(acc, x + y, cap) == cap_extend(cap_extend(acc, x, cap), y, cap),
    decreases x.len(),
{
    if x.len() == 0 {
        assert(x + y =~= y);
    } else {
        assert((x + y)[0] == x[0]);
        assert((x + y).drop_first() =~= x.drop_first() + y);
        lemma_cap_extend_concat(cap_push(acc, x[0], cap), x.drop_first(), y, cap);
    }
}

/// Capped extension keeps the list within the cap.
proof fn lemma_cap_extend_len(acc: Seq<ErrorV>, new: Seq<ErrorV>, cap: nat)
    requires
        acc.len() <= cap,
    ensures
        cap_extend(acc, new, cap).len() <= cap,
        acc.len() <= cap_extend(acc, new, cap).len(),
    decreases new.len(),
{
    if new.len() > 0 {
        lemma_cap_extend_len(cap_push(acc, new[0], cap), new.drop_first(), cap);
    }
}

/// Every element of a capped extension comes from the accumulator or from
/// the new errors.
proof fn lemma_cap_extend_elems(acc: Seq<ErrorV>, new: Seq<ErrorV>, cap: nat)
    ensures
        forall|k: int|
            0 <= k < cap_extend(acc, new, cap).len() ==> acc.contains(
                #[trigger] cap_extend(acc, new, cap)[k],
            ) || new.contains(cap_extend(acc, new, cap)[k]),
    decreases new.len(),
{
    if new.len() > 0 {
        let acc2 = cap_push(acc, new[0], cap);
        lemma_cap_extend_elems(acc2, new.drop_first(), cap);
        assert forall|k: int| 0 <= k < cap_extend(acc, new, cap).len() implies acc.contains(
            #[trigger] cap_extend(acc, new, cap)[k],
        ) || new.contains(cap_extend(acc, new, cap)[k]) by {
            let e = cap_extend(acc, new, cap)[k];
            assert(cap_extend(acc, new, cap) == cap_extend(acc2, new.drop_first(), cap));
            if acc2.contains(e) {
                let j = choose|j: int| 0 <= j < acc2.len() && acc2[j] == e;
                if j < acc.len() {
                    assert(acc[j] == e);
                } else {
                    assert(new[0] == e);
                }
            } else {
                let j = choose|j: int|
                    0 <= j < new.drop_first().len() && new.drop_first()[j] == e;
                assert(new[j + 1] == e);
            }
        }
    }
}

/// Once strict mode stops the run, later pairs leave the state unchanged.
proof fn lemma_run_upto_early_stable(
    cfg: RunConfig,
    r1: Seq<BlockV>,
    r2: Seq<BlockV>,
    i: nat,
    j: nat,
)
    requires
        i <= j,
        run_upto(cfg, r1, r2, i).early,
    ensures
        run_upto(cfg, r1, r2, j) == run_upto(cfg, r1, r2, i),
    decreases j,
{
    if j > i {
        lemma_run_upto_early_stable(cfg, r1, r2, i, (j - 1) as nat);
    }
}

/// The error list never exceeds the cap, at any point of the run.
proof fn lemma_run_upto_cap(cfg: RunConfig, r1: Seq<BlockV>, r2: Seq<BlockV>, i: nat)
    ensures
        run_upto(cfg, r1, r2, i).errors.len() <= cfg.cap,
    decreases i,
{
    if i > 0 {
        lemma_run_upto_cap(cfg, r1, r2, (i - 1) as nat);
        let m = run_upto(cfg, r1, r2, (i - 1) as nat);
        if !m.early {
            lemma_cap_extend_len(m.errors, pair_errors(cfg.threshold, r1[i - 1], r2[i - 1]),
                cfg.cap as nat);
        }
    }
}

/// Law: the reported error list never exceeds the configured cap, for every
/// input and configuration, and the stopping point is a pure function of the
/// inputs.
pub proof fn lemma_error_cap(cfg: RunConfig, r1: Seq<BlockV>, r2: Seq<BlockV>)
    ensures
        run_model(cfg, r1, r2).errors.len() <= cfg.cap,
{
    lemma_run_upto_cap(cfg, r1, r2, pair_count(r1, r2));
}

/// Law: the run is deterministic. Any two runs over the same configuration
/// and the same record lists report the same ordered error list, the same
/// pair count and the same verdict.
pub proof fn lemma_run_deterministic(
    cfg: RunConfig,
    r1: Seq<BlockV>,
    r2: Seq<BlockV>,
    m1: RunModel,
    m2: RunModel,
)
    requires
        m1 == run_model(cfg, r1, r2),
        m2 == run_model(cfg, r1, r2),
    ensures
        m1.errors == m2.errors,
        m1.pairs == m2.pairs,
        run_passed(cfg, m1.errors) == run_passed(cfg, m2.errors),
{
}

/// In a lenient run no pair stops the iteration early.
proof fn lemma_lenient_no_early(cfg: RunConfig, r1: Seq<BlockV>, r2: Seq<BlockV>, i: nat)
    requires
        cfg.lenient,
    ensures
        !run_upto(cfg, r1, r2, i).early,
        run_upto(cfg, r1, r2, i).pairs == i,
    decreases i,
{
    if i > 0 {
        lemma_lenient_no_early(cfg, r1, r2, (i - 1) as nat);
    }
}

/// No validator produces the structural mate-count code.
proof fn lemma_validator_errors_not_structural(
    id: crate::registry::ValidatorId,
    t: ValidationLevel,
    b: BlockV,
    d: BlockV,
)
    ensures
        forall|k: int|
            0 <= k < validator_errors(id, t, b, d).len() ==> (#[trigger] validator_errors(
                id,
                t,
                b,
                d,
            )[k]).code != "P002"@,
{
    lemma_codes_distinct();
    let ve = validator_errors(id, t, b, d);
    assert forall|k: int| 0 <= k < ve.len() implies (#[trigger] ve[k]).code != "P002"@ by {
        if is_active(id, t) {
            let sa = opt_errs(single_check(id, b));
            let sb = opt_errs(single_check(id, d));
            let sc = opt_errs(paired_check(id, b, d));
            assert(ve == sa + sb + sc);
            if k < sa.len() {
                assert(ve[k] == single_check(id, b).unwrap());
            } else if k < sa.len() + sb.len() {
                assert(ve[k] == single_check(id, d).unwrap());
            } else {
                assert(ve[k] == paired_check(id, b, d).unwrap());
            }
        }
    }
}

/// No validator code equals the structural mate-count code.
proof fn lemma_codes_distinct()
    ensures
        "S001"@ != "P002"@,
        "S002"@ != "P002"@,
        "S003"@ != "P002"@,
        "S004"@ != "P002"@,
        "S005"@ != "P002"@,
        "P001"@ != "P002"@,
        "P003"@ != "P002"@,
{
    reveal_strlit("S001");
    reveal_strlit("S002");
    reveal_strlit("S003");
    reveal_strlit("S004");
    reveal_strlit("S005");
    reveal_strlit("P001");
    reveal_strlit("P002");
    reveal_strlit("P003");
    assert(("S001"@)[0] == 'S' && ("P002"@)[0] == 'P');
    assert(("S002"@)[0] == 'S');
    assert(("S003"@)[0] == 'S');
    assert(("S004"@)[0] == 'S');
    assert(("S005"@)[0] == 'S');
    assert(("P001"@)[3] == '1' && ("P002"@)[3] == '2');
    assert(("P003"@)[3] == '3');
}

/// No error gathered from the pairs carries the structural mate-count code.
proof fn lemma_run_upto_not_structural(cfg: RunConfig, r1: Seq<BlockV>, r2: Seq<BlockV>, i: nat)
    ensures
        forall|k: int|
            0 <= k < run_upto(cfg, r1, r2, i).errors.len() ==> (#[trigger] run_upto(
                cfg,
                r1,
                r2,
                i,
            ).errors[k]).code != "P002"@,
    decreases i,
{
    if i > 0 {
        lemma_run_upto_not_structural(cfg, r1, r2, (i - 1) as nat);
        let m = run_upto(cfg, r1, r2, (i - 1) as nat);
        if !m.early {
            let new = pair_errors(cfg.threshold, r1[i - 1], r2[i - 1]);
            lemma_pair_errors_not_structural(cfg.threshold, r1[i - 1], r2[i - 1]);
            lemma_cap_extend_elems(m.errors, new, cfg.cap as nat);
            let errs = cap_extend(m.errors, new, cfg.cap as nat);
            assert forall|k: int| 0 <= k < errs.len() implies (#[trigger] errs[k]).code
                != "P002"@ by {
                if m.errors.contains(errs[k]) {
                    let j = choose|j: int| 0 <= j < m.errors.len() && m.errors[j] == errs[k];
                    assert(m.errors[j].code != "P002"@);
                } else {
                    let j = choose|j: int| 0 <= j < new.len() && new[j] == errs[k];
                    assert(new[j].code != "P002"@);
                }
            }
        }
    }
}

/// No error of one pair carries the structural mate-count code.
proof fn lemma_pair_errors_not_structural(t: ValidationLevel, b: BlockV, d: BlockV)
    ensures
        forall|k: int|
            0 <= k < pair_errors(t, b, d).len() ==> (#[trigger] pair_errors(t, b, d)[k]).code
                != "P002"@,
{
    lemma_errors_from_not_structural(registry_order(), t, b, d);
}

/// No error of a registry prefix carries the structural mate-count code.
proof fn lemma_errors_from_not_structural(
    ids: Seq<crate::registry::ValidatorId>,
    t: ValidationLevel,
    b: BlockV,
    d: BlockV,
)
    ensures
        forall|k: int|
            0 <= k < crate::registry::errors_from(ids, t, b, d).len() ==> (
            #[trigger] crate::registry::errors_from(ids, t, b, d)[k]).code != "P002"@,
    decreases ids.len(),
{
    if ids.len() > 0 {
        lemma_errors_from_not_structural(ids.drop_last(), t, b, d);
        lemma_validator_errors_not_structural(ids.last(), t, b, d);
    }
}

/// A list without the code counts zero of it.
proof fn lemma_count_code_zero(errs: Seq<ErrorV>, code: Seq<char>)
    requires
        forall|k: int| 0 <= k < errs.len() ==> (#[trigger] errs[k]).code != code,
    ensures
        count_code(errs, code) == 0,
    decreases errs.len(),
{
    if errs.len() > 0 {
        assert(errs.last().code != code);
        assert(forall|k: int|
            0 <= k < errs.drop_last().len() ==> (#[trigger] errs.drop_last()[k]).code != code);
        lemma_count_code_zero(errs.drop_last(), code);
    }
}

/// Law: when the two streams yield different record counts and neither
/// strict mode nor the cap interferes (the run is lenient and the cap is not
/// yet reached when the streams end), the run records exactly one structural
/// mate-count error, and processes exactly the pairs both streams offer — no
/// pair is fabricated.
pub proof fn lemma_mate_count_mismatch(cfg: RunConfig, r1: Seq<BlockV>, r2: Seq<BlockV>)
    requires
        r1.len() != r2.len(),
        cfg.lenient,
        run_upto(cfg, r1, r2, pair_count(r1, r2)).errors.len() < cfg.cap,
    ensures
        count_code(run_model(cfg, r1, r2).errors, "P002"@) == 1,
        run_model(cfg, r1, r2).errors.last() == mate_count_error(),
        run_model(cfg, r1, r2).pairs == pair_count(r1, r2),
        run_model(cfg, r1, r2).pairs <= r1.len(),
        run_model(cfg, r1, r2).pairs <= r2.len(),
{
    let n = pair_count(r1, r2);
    lemma_lenient_no_early(cfg, r1, r2, n);
    let m = run_upto(cfg, r1, r2, n);
    lemma_run_upto_not_structural(cfg, r1, r2, n);
    lemma_count_code_zero(m.errors, "P002"@);
    let errs = run_model(cfg, r1, r2).errors;
    assert(errs == m.errors.push(mate_count_error()));
    assert(errs.drop_last() =~= m.errors);
    assert(errs.last() == mate_count_error());
    assert(count_code(errs, "P002"@) == count_code(m.errors, "P002"@) + 1);
}

/// Records one check's outcome: a failure is appended unless the cap is
/// already reached, and the high-severity flag is kept in step.
fn record_outcome(errors: &mut Vec<Error>, hh: &mut bool, r: Result<(), Error>, cap: usize)
    requires
        old(errors)@.len() <= cap,
        *old(hh) == has_high(errors_view(old(errors)@)),
    ensures
        errors_view(final(errors)@) == cap_extend(
            errors_view(old(errors)@),
            crate::registry::opt_errs(check_view(r)),
            cap as nat,
        ),
        final(errors)@.len() <= cap,
        *final(hh) == has_high(errors_view(final(errors)@)),
{
    match r {
        Ok(_) => {
            proof {
                assert(crate::registry::opt_errs(check_view(r)) =~= Seq::<ErrorV>::empty());
            }
        },
        Err(e) => {
            proof {
                let ghost ev = e@;
                lemma_cap_extend_one(errors_view(errors@), ev, cap as nat);
            }
            if errors.len() < cap {
                let high = matches!(e.level, ValidationLevel::High);
                proof {
                    lemma_has_high_push(errors_view(errors@), e@);
                }
                let ghost before = errors_view(errors@);
                let ghost ev = e@;
                errors.push(e);
                proof {
                    assert(errors_view(errors@) =~= before.push(ev));
                }
                *hh = *hh || high;
            }
        },
    }
}

/// Runs the active validators over the pairs the two record lists offer, in
/// lockstep and in registry order, and reports the aggregate.
pub fn run_pairs(cfg: &RunConfig, recs1: &Vec<Block>, recs2: &Vec<Block>) -> (s: Summary)
    ensures
        summarizes(s, *cfg, run_model(*cfg, blocks_view(recs1@), blocks_view(recs2@))),
{
    let ghost r1 = blocks_view(recs1@);
    let ghost r2 = blocks_view(recs2@);
    let n = if recs1.len() <= recs2.len() {
        recs1.len()
    } else {
        recs2.len()
    };
    proof {
        assert(n as nat == pair_count(r1, r2));
    }
    let reg = registry();
    let mut errors: Vec<Error> = Vec::new();
    let mut hh = false;
    let mut early = false;
    let mut i: usize = 0;
    while i < n && !early
        invariant
            i <= n,
            n as nat == pair_count(r1, r2),
            n <= recs1@.len() && n <= recs2@.len(),
            r1 == blocks_view(recs1@),
            r2 == blocks_view(recs2@),
            reg@ == registry_order(),
            errors_view(errors@) == run_upto(*cfg, r1, r2, i as nat).errors,
            run_upto(*cfg, r1, r2, i as nat).pairs == i as nat,
            run_upto(*cfg, r1, r2, i as nat).early == early,
            hh == has_high(errors_view(errors@)),
            errors@.len() <= cfg.cap,
        decreases n - i,
    {
        let b = &recs1[i];
        let d = &recs2[i];
        proof {
            assert(r1[i as int] == b@);
            assert(r2[i as int] == d@);
        }
        let ghost prev = errors_view(errors@);
        let mut j: usize = 0;
        while j < reg.len()
            invariant
                j <= reg@.len(),
                reg@ == registry_order(),
                errors_view(errors@) == cap_extend(
                    prev,
                    crate::registry::errors_from(registry_order().take(j as int), cfg.threshold,
                        b@, d@),
                    cfg.cap as nat,
                ),
                hh == has_high(errors_view(errors@)),
                errors@.len() <= cfg.cap,
            decreases reg@.len() - j,
        {
            let id = reg[j];
            let ghost state = errors_view(errors@);
            let ghost ef = crate::registry::errors_from(registry_order().take(j as int),
                cfg.threshold, b@, d@);
            if active(id, cfg.threshold) {
                let ra = run_single(id, b);
                let ghost s1 = crate::registry::opt_errs(check_view(ra));
                record_outcome(&mut errors, &mut hh, ra, cfg.cap);
                let rb = run_single(id, d);
                let ghost s2 = crate::registry::opt_errs(check_view(rb));
                record_outcome(&mut errors, &mut hh, rb, cfg.cap);
                let rc = run_paired(id, b, d);
                let ghost s3 = crate::registry::opt_errs(check_view(rc));
                record_outcome(&mut errors, &mut hh, rc, cfg.cap);
                proof {
                    let cap = cfg.cap as nat;
                    assert(validator_errors(id, cfg.threshold, b@, d@) == s1 + s2 + s3);
                    lemma_cap_extend_concat(state, s1, s2, cap);
                    lemma_cap_extend_concat(state, s1 + s2, s3, cap);
                    assert((s1 + s2) + s3 =~= s1 + s2 + s3);
                    lemma_cap_extend_concat(prev, ef, validator_errors(id, cfg.threshold, b@, d@),
                        cap);
                    lemma_errors_from_step(registry_order(), j as int, cfg.threshold, b@, d@);
                }
            } else {
                proof {
                    assert(validator_errors(id, cfg.threshold, b@, d@) =~= Seq::<
                        ErrorV,
                    >::empty());
                    lemma_cap_extend_concat(prev, ef, validator_errors(id, cfg.threshold, b@, d@),
                        cfg.cap as nat);
                    lemma_errors_from_step(registry_order(), j as int, cfg.threshold, b@, d@);
                }
            }
            j = j + 1;
        }
        proof {
            assert(registry_order().take(reg@.len() as int) =~= registry_order());
        }
        i = i + 1;
        early = if cfg.lenient {
            false
        } else {
            hh
        };
    }
    let ghost m_end = run_upto(*cfg, r1, r2, pair_count(r1, r2));
    proof {
        if early {
            lemma_run_upto_early_stable(*cfg, r1, r2, i as nat, pair_count(r1, r2));
        }
        assert(m_end == run_upto(*cfg, r1, r2, i as nat));
    }
    if !early && recs1.len() != recs2.len() {
        let message = "Mate streams yield different numbers of records".as_bytes_vec();
        let e = Error::new("P002", "MateCountCheck", message, LineType::Name, None,
            ValidationLevel::High);
        proof {
            assert(e@ =~= mate_count_error());
            lemma_has_high_push(errors_view(errors@), e@);
        }
        if errors.len() < cfg.cap {
            let high = matches!(e.level, ValidationLevel::High);
            let ghost before = errors_view(errors@);
            let ghost ev = e@;
            errors.push(e);
            proof {
                assert(errors_view(errors@) =~= before.push(ev));
            }
            hh = hh || high;
        }
    }
    let ghost model = run_model(*cfg, r1, r2);
    proof {
        assert(errors_view(errors@) == model.errors);
    }
    let mut low_count: usize = 0;
    let mut medium_count: usize = 0;
    let mut high_count: usize = 0;
    let mut k: usize = 0;
    while k < errors.len()
        invariant
            k <= errors@.len(),
            low_count <= k,
            medium_count <= k,
            high_count <= k,
            low_count as nat == count_level(errors_view(errors@).take(k as int),
                ValidationLevel::Low),
            medium_count as nat == count_level(errors_view(errors@).take(k as int),
                ValidationLevel::Medium),
            high_count as nat == count_level(errors_view(errors@).take(k as int),
                ValidationLevel::High),
        decreases errors@.len() - k,
    {
        proof {
            let ev = errors_view(errors@);
            assert(ev.take(k + 1).drop_last() =~= ev.take(k as int));
            assert(ev.take(k + 1).last() == ev[k as int]);
        }
        match errors[k].level {
            ValidationLevel::Low => {
                low_count = low_count + 1;
            },
            ValidationLevel::Medium => {
                medium_count = medium_count + 1;
            },
            ValidationLevel::High => {
                high_count = high_count + 1;
            },
        }
        k = k + 1;
    }
    proof {
        assert(errors_view(errors@).take(errors@.len() as int) =~= errors_view(errors@));
    }
    let pass = !hh && (cfg.lenient || errors.len() < cfg.cap);
    Summary { pairs: i, low_count, medium_count, high_count, errors, pass }
}

/// A fatal parse failure, tagged with the mate stream it struck.
#[derive(Clone, Copy, Debug, PartialEq, Eq, Structural)]
pub enum RunError {
    FirstMate(ParseError),
    SecondMate(ParseError),
}

/// The complete validation run over two already-decoded FASTQ byte sources:
/// both are parsed up front, then validated pair by pair. A fatal parse
/// failure on either source aborts the run and is reported apart from all
/// validation output.
pub fn run(cfg: &RunConfig, data1: &[u8], data2: &[u8]) -> (r: Result<Summary, RunError>)
    ensures
        match (parse_all(data1@), parse_all(data2@)) {
            (Err(e), _) => r == Err::<Summary, RunError>(RunError::FirstMate(e)),
            (Ok(_), Err(e)) => r == Err::<Summary, RunError>(RunError::SecondMate(e)),
            (Ok(b1), Ok(b2)) => r matches Ok(s) && summarizes(s, *cfg, run_model(*cfg, b1, b2)),
        },
{
    let recs1 = match parse_fastq(data1) {
        Ok(v) => v,
        Err(e) => {
            return Err(RunError::FirstMate(e));
        },
    };
    let recs2 = match parse_fastq(data2) {
        Ok(v) => v,
        Err(e) => {
            return Err(RunError::SecondMate(e));
        },
    };
    Ok(run_pairs(cfg, &recs1, &recs2))
}

} // verus!
