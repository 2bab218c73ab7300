//! Single-read validators: independent, stateless checks against one record.
//!
//! Each validator carries a stable code (`S` plus a three-digit number), a
//! name and a fixed [`ValidationLevel`], and judges one [`Block`] in
//! isolation. `validate` returns `Ok(())` on conformance and otherwise an
//! [`Error`] quoting the offending bytes.

use vstd::prelude::*;
use vstd::string::*;

use crate::block::{Block, BlockV};
use crate::validators::{check_view, compose_msg3, compose_msg5, Error, ErrorV, LineType,
    ValidationLevel, LOWER_A_BYTE, LOWER_C_BYTE, LOWER_G_BYTE, LOWER_N_BYTE, LOWER_T_BYTE,
    MARKER_BYTE, UPPER_A_BYTE, UPPER_C_BYTE, UPPER_G_BYTE, UPPER_N_BYTE, UPPER_T_BYTE};

verus! {

/// Whether a name line begins with the expected marker byte `@`.
pub open spec fn starts_with_marker(name: Seq<u8>) -> bool {
    name.len() > 0 && name[0] == MARKER_BYTE
}

/// The name with its leading `@` marker removed, when present.
pub open spec fn name_tail(name: Seq<u8>) -> Seq<u8> {
    if starts_with_marker(name) {
        name.drop_first()
    } else {
        name
    }
}

/// Whether a sequence symbol is within the allowed alphabet.
pub open spec fn is_base(c: u8) -> bool {
    ||| c == UPPER_A_BYTE
    ||| c == UPPER_C_BYTE
    ||| c == UPPER_G_BYTE
    ||| c == UPPER_T_BYTE
    ||| c == UPPER_N_BYTE
    ||| c == LOWER_A_BYTE
    ||| c == LOWER_C_BYTE
    ||| c == LOWER_G_BYTE
    ||| c == LOWER_T_BYTE
    ||| c == LOWER_N_BYTE
}

/// Whether every sequence symbol is within the allowed alphabet.
pub open spec fn alphabet_ok(sequence: Seq<u8>) -> bool {
    forall|i: int| 0 <= i < sequence.len() ==> is_base(#[trigger] sequence[i])
}

/// Whether a quality byte falls within the accepted encoding range: the
/// printable ASCII bytes `!` (33) through `~` (126).
pub open spec fn quality_in_range(c: u8) -> bool {
    33 <= c <= 126
}

/// Whether every quality byte falls within the accepted encoding range.
pub open spec fn quality_ok(quality: Seq<u8>) -> bool {
    forall|i: int| 0 <= i < quality.len() ==> quality_in_range(#[trigger] quality[i])
}

/// Whether the plus line is empty or echoes the name (marker excluded).
pub open spec fn plus_line_ok(b: BlockV) -> bool {
    b.plus_line.len() == 0 || b.plus_line == name_tail(b.name)
}

/// What `NameMarkerValidator` reports when the marker is missing.
pub open spec fn name_marker_message(name: Seq<u8>) -> Seq<u8> {
    "Name does not begin with '@' (got '".spec_bytes() + name + "')".spec_bytes()
}

/// The judgment of `NameMarkerValidator` on one record.
pub open spec fn name_marker_check(b: BlockV) -> Option<ErrorV> {
    if starts_with_marker(b.name) {
        None
    } else {
        Some(
            ErrorV {
                code: "S001"@,
                name: "NameMarkerValidator"@,
                message: name_marker_message(b.name),
                line_type: LineType::Name,
                line_offset: Some(1u32),
                level: ValidationLevel::Low,
            },
        )
    }
}

/// What `AlphabetValidator` reports on a symbol outside the alphabet.
pub open spec fn alphabet_message(sequence: Seq<u8>) -> Seq<u8> {
    "Sequence uses a symbol outside ACGTNacgtn (got '".spec_bytes() + sequence
        + "')".spec_bytes()
}

/// The judgment of `AlphabetValidator` on one record.
pub open spec fn alphabet_check(b: BlockV) -> Option<ErrorV> {
    if alphabet_ok(b.sequence) {
        None
    } else {
        Some(
            ErrorV {
                code: "S002"@,
                name: "AlphabetValidator"@,
                message: alphabet_message(b.sequence),
                line_type: LineType::Sequence,
                line_offset: Some(2u32),
                level: ValidationLevel::Low,
            },
        )
    }
}

/// What `LengthsValidator` reports when the lengths differ.
pub open spec fn lengths_message(b: BlockV) -> Seq<u8> {
    "Sequence '".spec_bytes() + b.sequence + "' and quality '".spec_bytes() + b.quality
        + "' differ in length".spec_bytes()
}

/// The judgment of `LengthsValidator` on one record.
pub open spec fn lengths_check(b: BlockV) -> Option<ErrorV> {
    if b.sequence.len() == b.quality.len() {
        None
    } else {
        Some(
            ErrorV {
                code: "S003"@,
                name: "LengthsValidator"@,
                message: lengths_message(b),
                line_type: LineType::Quality,
                line_offset: Some(4u32),
                level: ValidationLevel::High,
            },
        )
    }
}

/// What `QualityRangeValidator` reports on an out-of-range quality byte.
pub open spec fn quality_range_message(quality: Seq<u8>) -> Seq<u8> {
    "Quality has a byte outside the accepted range (got '".spec_bytes() + quality
        + "')".spec_bytes()
}

/// The judgment of `QualityRangeValidator` on one record.
pub open spec fn quality_range_check(b: BlockV) -> Option<ErrorV> {
    if quality_ok(b.quality) {
        None
    } else {
        Some(
            ErrorV {
                code: "S004"@,
                name: "QualityRangeValidator"@,
                message: quality_range_message(b.quality),
                line_type: LineType::Quality,
                line_offset: Some(4u32),
                level: ValidationLevel::Medium,
            },
        )
    }
}

/// What `PlusLineValidator` reports when the plus line neither is empty nor
/// echoes the name.
pub open spec fn plus_line_message(b: BlockV) -> Seq<u8> {
    "Plus line '".spec_bytes() + b.plus_line + "' neither is empty nor echoes the name '".spec_bytes()
        + b.name + "'".spec_bytes()
}

/// The judgment of `PlusLineValidator` on one record.
pub open spec fn plus_line_check(b: BlockV) -> Option<ErrorV> {
    if plus_line_ok(b) {
        None
    } else {
        Some(
            ErrorV {
                code: "S005"@,
                name: "PlusLineValidator"@,
                message: plus_line_message(b),
                line_type: LineType::Plus,
                line_offset: Some(3u32),
                level: ValidationLevel::Low,
            },
        )
    }
}

/// [S001] (low) Checks that the name begins with the marker byte `@`.
pub struct NameMarkerValidator;

impl NameMarkerValidator {
    pub fn code(&self) -> (r: &'static str)
        ensures
            r@ == "S001"@,
    {
        "S001"
    }

    pub fn name(&self) -> (r: &'static str)
        ensures
            r@ == "NameMarkerValidator"@,
    {
        "NameMarkerValidator"
    }

    pub fn level(&self) -> (r: ValidationLevel)
        ensures
            r == ValidationLevel::Low,
    {
        ValidationLevel::Low
    }

    pub fn validate(&self, b: &Block) -> (r: Result<(), Error>)
        ensures
            check_view(r) == name_marker_check(b@),
    {
        if b.name.len() > 0 && b.name[0] == MARKER_BYTE {
            Ok(())
        } else {
            let message = compose_msg3("Name does not begin with '@' (got '", b.name.as_slice(), "')");
            Err(Error::new("S001", "NameMarkerValidator", message, LineType::Name, Some(1u32),
                ValidationLevel::Low))
        }
    }
}

/// [S002] (low) Checks that every sequence symbol is within `ACGTNacgtn`.
pub struct AlphabetValidator;

impl AlphabetValidator {
    pub fn code(&self) -> (r: &'static str)
        ensures
            r@ == "S002"@,
    {
        "S002"
    }

    pub fn name(&self) -> (r: &'static str)
        ensures
            r@ == "AlphabetValidator"@,
    {
        "AlphabetValidator"
    }

    pub fn level(&self) -> (r: ValidationLevel)
        ensures
            r == ValidationLevel::Low,
    {
        ValidationLevel::Low
    }

    pub fn validate(&self, b: &Block) -> (r: Result<(), Error>)
        ensures
            check_view(r) == alphabet_check(b@),
    {
        let mut i: usize = 0;
        let mut bad = false;
        while i < b.sequence.len() && !bad
            invariant
                i <= b.sequence.len(),
                !bad ==> forall|j: int| 0 <= j < i ==> is_base(#[trigger] b.sequence@[j]),
                bad ==> !alphabet_ok(b@.sequence),
            decreases b.sequence.len() - i + (if bad { 0int } else { 1int }),
        {
            let c = b.sequence[i];
            let ok = c == UPPER_A_BYTE || c == UPPER_C_BYTE || c == UPPER_G_BYTE || c == UPPER_T_BYTE || c == UPPER_N_BYTE || c == LOWER_A_BYTE
                || c == LOWER_C_BYTE || c == LOWER_G_BYTE || c == LOWER_T_BYTE || c == LOWER_N_BYTE;
            if !ok {
                bad = true;
            } else {
                i = i + 1;
            }
        }
        if bad {
            let message = compose_msg3("Sequence uses a symbol outside ACGTNacgtn (got '",
                b.sequence.as_slice(), "')");
            Err(Error::new("S002", "AlphabetValidator", message, LineType::Sequence, Some(2u32),
                ValidationLevel::Low))
        } else {
            Ok(())
        }
    }
}

/// [S003] (high) Checks that the sequence and quality lengths are equal.
pub struct LengthsValidator;

impl LengthsValidator {
    pub fn code(&self) -> (r: &'static str)
        ensures
            r@ == "S003"@,
    {
        "S003"
    }

    pub fn name(&self) -> (r: &'static str)
        ensures
            r@ == "LengthsValidator"@,
    {
        "LengthsValidator"
    }

    pub fn level(&self) -> (r: ValidationLevel)
        ensures
            r == ValidationLevel::High,
    {
        ValidationLevel::High
    }

    pub fn validate(&self, b: &Block) -> (r: Result<(), Error>)
        ensures
            check_view(r) == lengths_check(b@),
    {
        if b.sequence.len() == b.quality.len() {
            Ok(())
        } else {
            let message = compose_msg5("Sequence '", b.sequence.as_slice(), "' and quality '",
                b.quality.as_slice(), "' differ in length");
            Err(Error::new("S003", "LengthsValidator", message, LineType::Quality, Some(4u32),
                ValidationLevel::High))
        }
    }
}

/// [S004] (medium) Checks that every quality byte is within the accepted
/// encoding range `!` through `~`.
pub struct QualityRangeValidator;

impl QualityRangeValidator {
    pub fn code(&self) -> (r: &'static str)
        ensures
            r@ == "S004"@,
    {
        "S004"
    }

    pub fn name(&self) -> (r: &'static str)
        ensures
            r@ == "QualityRangeValidator"@,
    {
        "QualityRangeValidator"
    }

    pub fn level(&self) -> (r: ValidationLevel)
        ensures
            r == ValidationLevel::Medium,
    {
        ValidationLevel::Medium
    }

    pub fn validate(&self, b: &Block) -> (r: Result<(), Error>)
        ensures
            check_view(r) == quality_range_check(b@),
    {
        let mut i: usize = 0;
        let mut bad = false;
        while i < b.quality.len() && !bad
            invariant
                i <= b.quality.len(),
                !bad ==> forall|j: int| 0 <= j < i ==> quality_in_range(#[trigger] b.quality@[j]),
                bad ==> !quality_ok(b@.quality),
            decreases b.quality.len() - i + (if bad { 0int } else { 1int }),
        {
            let c = b.quality[i];
            if c < 33 || c > 126 {
                bad = true;
            } else {
                i = i + 1;
            }
        }
        if bad {
            let message = compose_msg3("Quality has a byte outside the accepted range (got '",
                b.quality.as_slice(), "')");
            Err(Error::new("S004", "QualityRangeValidator", message, LineType::Quality, Some(4u32),
                ValidationLevel::Medium))
        } else {
            Ok(())
        }
    }
}

/// [S005] (low) Checks that the plus line is empty or echoes the name.
pub struct PlusLineValidator;

impl PlusLineValidator {
    pub fn code(&self) -> (r: &'static str)
        ensures
            r@ == "S005"@,
    {
        "S005"
    }

    pub fn name(&self) -> (r: &'static str)
        ensures
            r@ == "PlusLineValidator"@,
    {
        "PlusLineValidator"
    }

    pub fn level(&self) -> (r: ValidationLevel)
        ensures
            r == ValidationLevel::Low,
    {
        ValidationLevel::Low
    }

    pub fn validate(&self, b: &Block) -> (r: Result<(), Error>)
        ensures
            check_view(r) == plus_line_check(b@),
    {
        let ok = if b.plus_line.len() == 0 {
            true
        } else {
            let skip: usize = if b.name.len() > 0 && b.name[0] == MARKER_BYTE {
                1
            } else {
                0
            };
            proof {
                assert(name_tail(b@.name) =~= b@.name.subrange(skip as int, b@.name.len() as int));
            }
            suffix_matches(&b.plus_line, &b.name, skip)
        };
        if ok {
            Ok(())
        } else {
            let message = compose_msg5("Plus line '", b.plus_line.as_slice(),
                "' neither is empty nor echoes the name '", b.name.as_slice(), "'");
            Err(Error::new("S005", "PlusLineValidator", message, LineType::Plus, Some(3u32),
                ValidationLevel::Low))
        }
    }
}

/// Decides whether `a` equals `b` with its first `skip` bytes removed.
fn suffix_matches(a: &Vec<u8>, b: &Vec<u8>, skip: usize) -> (r: bool)
    requires
        skip <= b@.len(),
    ensures
        r == (a@ == b@.subrange(skip as int, b@.len() as int)),
{
    if a.len() != b.len() - skip {
        proof {
            assert(a@.len() != b@.subrange(skip as int, b@.len() as int).len());
        }
        return false;
    }
    let blen = b.len();
    let mut i: usize = 0;
    while i < a.len()
        invariant
            i <= a@.len(),
            skip <= b@.len(),
            blen == b@.len(),
            a@.len() == b@.len() - skip,
            forall|j: int| 0 <= j < i ==> a@[j] == b@[skip + j],
        decreases a@.len() - i,
    {
        proof {
            assert(skip + i < b@.len());
        }
        if a[i] != b[skip + i] {
            proof {
                assert(a@[i as int] != b@.subrange(skip as int, b@.len() as int)[i as int]);
            }
            return false;
        }
        i = i + 1;
    }
    proof {
        assert(a@ =~= b@.subrange(skip as int, b@.len() as int));
    }
    true
}

} // verus!
