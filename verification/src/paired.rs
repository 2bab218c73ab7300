//! Paired-read validators: stateless checks comparing two mate records.

use vstd::prelude::*;
use vstd::string::*;

use crate::block::{Block, BlockV};
use crate::validators::{check_view, compose_msg5, Error, ErrorV, LineType, ValidationLevel,
    DIGIT_NINE_BYTE, DIGIT_ZERO_BYTE, SLASH_BYTE};

verus! {

/// Whether a byte is an ASCII decimal digit.
pub open spec fn is_digit_byte(c: u8) -> bool {
    DIGIT_ZERO_BYTE <= c <= DIGIT_NINE_BYTE
}

/// Whether a name ends in a recognized trailing mate-index marker: a final
/// `/` followed by a single digit (for example `/1` or `/2`).
pub open spec fn has_mate_marker(name: Seq<u8>) -> bool {
    name.len() >= 2 && name[name.len() - 2] == SLASH_BYTE && is_digit_byte(name[name.len() - 1])
}

/// The name with a recognized trailing mate-index marker stripped.
pub open spec fn stripped_name(name: Seq<u8>) -> Seq<u8> {
    if has_mate_marker(name) {
        name.take(name.len() - 2)
    } else {
        name
    }
}

/// Whether two mate names match once a recognized trailing mate-index marker
/// is stripped from both. Exact byte equality is not required.
pub open spec fn names_match(b: Seq<u8>, d: Seq<u8>) -> bool {
    stripped_name(b) == stripped_name(d)
}

/// What `NamesValidator` reports on unrelated names, quoting both raw names.
pub open spec fn names_mismatch_message(b: Seq<u8>, d: Seq<u8>) -> Seq<u8> {
    "Names do not match (expected '".spec_bytes() + b + "', got '".spec_bytes() + d
        + "')".spec_bytes()
}

/// The judgment of `NamesValidator` on one pair of records.
pub open spec fn names_check(b: BlockV, d: BlockV) -> Option<ErrorV> {
    if names_match(b.name, d.name) {
        None
    } else {
        Some(
            ErrorV {
                code: "P001"@,
                name: "NamesValidator"@,
                message: names_mismatch_message(b.name, d.name),
                line_type: LineType::Name,
                line_offset: Some(1u32),
                level: ValidationLevel::Medium,
            },
        )
    }
}

/// What `MateQualitiesValidator` reports when the quality lengths differ.
pub open spec fn mate_qualities_message(b: BlockV, d: BlockV) -> Seq<u8> {
    "Mate qualities '".spec_bytes() + b.quality + "' and '".spec_bytes() + d.quality
        + "' differ in length".spec_bytes()
}

/// The judgment of `MateQualitiesValidator` on one pair of records.
pub open spec fn mate_qualities_check(b: BlockV, d: BlockV) -> Option<ErrorV> {
    if b.quality.len() == d.quality.len() {
        None
    } else {
        Some(
            ErrorV {
                code: "P003"@,
                name: "MateQualitiesValidator"@,
                message: mate_qualities_message(b, d),
                line_type: LineType::Quality,
                line_offset: Some(4u32),
                level: ValidationLevel::Medium,
            },
        )
    }
}

/// The length of a name once a recognized mate-index marker is stripped.
fn stripped_len(name: &Vec<u8>) -> (r: usize)
    ensures
        r <= name@.len(),
        stripped_name(name@) == name@.take(r as int),
{
    let n = name.len();
    if n >= 2 && name[n - 2] == SLASH_BYTE && name[n - 1] >= DIGIT_ZERO_BYTE && name[n - 1]
        <= DIGIT_NINE_BYTE {
        proof {
            assert(has_mate_marker(name@));
        }
        n - 2
    } else {
        proof {
            assert(!has_mate_marker(name@));
            assert(name@.take(n as int) =~= name@);
        }
        n
    }
}

/// Decides whether the first `alen` bytes of `a` equal the first `blen`
/// bytes of `b`.
fn prefixes_eq(a: &Vec<u8>, alen: usize, b: &Vec<u8>, blen: usize) -> (r: bool)
    requires
        alen <= a@.len(),
        blen <= b@.len(),
    ensures
        r == (a@.take(alen as int) == b@.take(blen as int)),
{
    if alen != blen {
        proof {
            assert(a@.take(alen as int).len() != b@.take(blen as int).len());
        }
        return false;
    }
    let mut i: usize = 0;
    while i < alen
        invariant
            i <= alen <= a@.len(),
            alen == blen <= b@.len(),
            forall|j: int| 0 <= j < i ==> a@[j] == b@[j],
        decreases alen - i,
    {
        if a[i] != b[i] {
            proof {
                assert(a@.take(alen as int)[i as int] != b@.take(blen as int)[i as int]);
            }
            return false;
        }
        i = i + 1;
    }
    proof {
        assert(a@.take(alen as int) =~= b@.take(blen as int));
    }
    true
}

/// [P001] (medium) Checks that each paired read name is the same, once a
/// recognized trailing mate-index marker is stripped from both.
pub struct NamesValidator;

impl NamesValidator {
    pub fn code(&self) -> (r: &'static str)
        ensures
            r@ == "P001"@,
    {
        "P001"
    }

    pub fn name(&self) -> (r: &'static str)
        ensures
            r@ == "NamesValidator"@,
    {
        "NamesValidator"
    }

    pub fn level(&self) -> (r: ValidationLevel)
        ensures
            r == ValidationLevel::Medium,
    {
        ValidationLevel::Medium
    }

    pub fn validate(&self, b: &Block, d: &Block) -> (r: Result<(), Error>)
        ensures
            check_view(r) == names_check(b@, d@),
    {
        let bl = stripped_len(&b.name);
        let dl = stripped_len(&d.name);
        if prefixes_eq(&b.name, bl, &d.name, dl) {
            Ok(())
        } else {
            let message = compose_msg5("Names do not match (expected '", b.name.as_slice(),
                "', got '", d.name.as_slice(), "')");
            Err(Error::new("P001", "NamesValidator", message, LineType::Name, Some(1u32),
                ValidationLevel::Medium))
        }
    }
}

/// [P003] (medium) Checks that the mates' quality strings have equal length.
pub struct MateQualitiesValidator;

impl MateQualitiesValidator {
    pub fn code(&self) -> (r: &'static str)
        ensures
            r@ == "P003"@,
    {
        "P003"
    }

    pub fn name(&self) -> (r: &'static str)
        ensures
            r@ == "MateQualitiesValidator"@,
    {
        "MateQualitiesValidator"
    }

    pub fn level(&self) -> (r: ValidationLevel)
        ensures
            r == ValidationLevel::Medium,
    {
        ValidationLevel::Medium
    }

    pub fn validate(&self, b: &Block, d: &Block) -> (r: Result<(), Error>)
        ensures
            check_view(r) == mate_qualities_check(b@, d@),
    {
        if b.quality.len() == d.quality.len() {
            Ok(())
        } else {
            let message = compose_msg5("Mate qualities '", b.quality.as_slice(), "' and '",
                d.quality.as_slice(), "' differ in length");
            Err(Error::new("P003", "MateQualitiesValidator", message, LineType::Quality,
                Some(4u32), ValidationLevel::Medium))
        }
    }
}

/// Law: records with identical names always pass `NamesValidator`.
pub proof fn lemma_identical_names_pass(b: BlockV, d: BlockV)
    requires
        b.name == d.name,
    ensures
        names_check(b, d) is None,
{
}

/// Law: names that differ only in a recognized trailing mate-index marker
/// (a final `/` followed by a single digit) always pass `NamesValidator`.
pub proof fn lemma_mate_marker_names_pass(b: BlockV, d: BlockV, base: Seq<u8>, m1: u8, m2: u8)
    requires
        is_digit_byte(m1),
        is_digit_byte(m2),
        b.name == base + seq![SLASH_BYTE, m1],
        d.name == base + seq![SLASH_BYTE, m2],
    ensures
        names_check(b, d) is None,
{
    assert(b.name[b.name.len() - 2] == SLASH_BYTE);
    assert(d.name[d.name.len() - 2] == SLASH_BYTE);
    assert(b.name[b.name.len() - 1] == m1);
    assert(d.name[d.name.len() - 1] == m2);
    assert(stripped_name(b.name) =~= base);
    assert(stripped_name(d.name) =~= base);
}

/// Law: on unrelated names (names that still differ once any recognized
/// mate-index marker is stripped) `NamesValidator` reports an error with
/// code `P001` whose message contains both raw names.
pub proof fn lemma_unrelated_names_fail(b: BlockV, d: BlockV)
    requires
        !names_match(b.name, d.name),
    ensures
        names_check(b, d) is Some,
        names_check(b, d).unwrap().code == "P001"@,
        contains_bytes(names_check(b, d).unwrap().message, b.name),
        contains_bytes(names_check(b, d).unwrap().message, d.name),
{
    let pre = "Names do not match (expected '".spec_bytes();
    let mid = "', got '".spec_bytes();
    let post = "')".spec_bytes();
    let msg = names_mismatch_message(b.name, d.name);
    assert(msg.subrange(pre.len() as int, (pre.len() + b.name.len()) as int) =~= b.name);
    assert(contains_bytes(msg, b.name)) by {
        assert(bytes_at(msg, pre.len() as int, b.name));
    }
    let doff: int = pre.len() as int + b.name.len() as int + mid.len() as int;
    assert(msg.subrange(doff, doff + d.name.len()) =~= d.name);
    assert(contains_bytes(msg, d.name)) by {
        assert(bytes_at(msg, doff, d.name));
    }
}

/// Whether `needle` occurs in `hay` starting at `at`.
pub open spec fn bytes_at(hay: Seq<u8>, at: int, needle: Seq<u8>) -> bool {
    0 <= at && at + needle.len() <= hay.len() && hay.subrange(at, at + needle.len()) == needle
}

/// Whether `needle` occurs anywhere in `hay`.
pub open spec fn contains_bytes(hay: Seq<u8>, needle: Seq<u8>) -> bool {
    exists|at: int| bytes_at(hay, at, needle)
}

} // verus!
