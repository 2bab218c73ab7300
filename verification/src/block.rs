//! The record data model: one parsed four-line FASTQ record.

use vstd::prelude::*;
use vstd::string::*;

verus! {

/// The mathematical value of a [`Block`]: its four fields as byte sequences.
pub ghost struct BlockV {
    pub name: Seq<u8>,
    pub sequence: Seq<u8>,
    pub plus_line: Seq<u8>,
    pub quality: Seq<u8>,
}

/// One parsed FASTQ record.
///
/// All four fields are raw byte strings: a `Block` is representable even when
/// malformed (for example with mismatched sequence and quality lengths).
/// Validity is a validator's judgment, never a construction-time guarantee.
/// The `name` field keeps its leading marker byte (`@`); the `plus_line`
/// field holds what follows the `+` marker of the third line, so it is empty
/// for a bare plus line.
#[derive(Debug, PartialEq, Eq)]
pub struct Block {
    pub name: Vec<u8>,
    pub sequence: Vec<u8>,
    pub plus_line: Vec<u8>,
    pub quality: Vec<u8>,
}

impl View for Block {
    type V = BlockV;

    open spec fn view(&self) -> BlockV {
        BlockV {
            name: self.name@,
            sequence: self.sequence@,
            plus_line: self.plus_line@,
            quality: self.quality@,
        }
    }
}

impl Block {
    /// Builds a record from string fields, stored as their UTF-8 bytes.
    pub fn new(name: &str, sequence: &str, plus_line: &str, quality: &str) -> (b: Block)
        ensures
            b@.name == name.spec_bytes(),
            b@.sequence == sequence.spec_bytes(),
            b@.plus_line == plus_line.spec_bytes(),
            b@.quality == quality.spec_bytes(),
    {
        Block {
            name: name.as_bytes_vec(),
            sequence: sequence.as_bytes_vec(),
            plus_line: plus_line.as_bytes_vec(),
            quality: quality.as_bytes_vec(),
        }
    }

    /// Builds a record directly from byte fields.
    pub fn from_bytes(name: Vec<u8>, sequence: Vec<u8>, plus_line: Vec<u8>, quality: Vec<u8>) -> (b:
        Block)
        ensures
            b@.name == name@,
            b@.sequence == sequence@,
            b@.plus_line == plus_line@,
            b@.quality == quality@,
    {
        Block { name, sequence, plus_line, quality }
    }

    /// The raw name line, marker byte included.
    pub fn name(&self) -> (r: &[u8])
        ensures
            r@ == self@.name,
    {
        self.name.as_slice()
    }

    /// The raw sequence line.
    pub fn sequence(&self) -> (r: &[u8])
        ensures
            r@ == self@.sequence,
    {
        self.sequence.as_slice()
    }

    /// What follows the `+` marker of the plus line.
    pub fn plus_line(&self) -> (r: &[u8])
        ensures
            r@ == self@.plus_line,
    {
        self.plus_line.as_slice()
    }

    /// The raw quality line.
    pub fn quality(&self) -> (r: &[u8])
        ensures
            r@ == self@.quality,
    {
        self.quality.as_slice()
    }
}

} // verus!
