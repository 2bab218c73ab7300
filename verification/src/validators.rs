//! Severity levels, line tags, and the error value produced by failed checks.

use vstd::prelude::*;
use vstd::string::*;

verus! {

/// ASCII `@`, the marker byte that opens a name line.
pub const MARKER_BYTE: u8 = 64;

/// ASCII `+`, the marker byte that opens a plus line.
pub const PLUS_BYTE: u8 = 43;

/// ASCII line feed.
pub const NEWLINE_BYTE: u8 = 10;

/// ASCII carriage return.
pub const CARRIAGE_RETURN_BYTE: u8 = 13;

/// ASCII `/`, the separator of a trailing mate-index marker.
pub const SLASH_BYTE: u8 = 47;

/// ASCII `0`.
pub const DIGIT_ZERO_BYTE: u8 = 48;

/// ASCII `9`.
pub const DIGIT_NINE_BYTE: u8 = 57;

/// ASCII `A`.
pub const UPPER_A_BYTE: u8 = 65;

/// ASCII `C`.
pub const UPPER_C_BYTE: u8 = 67;

/// ASCII `G`.
pub const UPPER_G_BYTE: u8 = 71;

/// ASCII `T`.
pub const UPPER_T_BYTE: u8 = 84;

/// ASCII `N`.
pub const UPPER_N_BYTE: u8 = 78;

/// ASCII `a`.
pub const LOWER_A_BYTE: u8 = 97;

/// ASCII `c`.
pub const LOWER_C_BYTE: u8 = 99;

/// ASCII `g`.
pub const LOWER_G_BYTE: u8 = 103;

/// ASCII `t`.
pub const LOWER_T_BYTE: u8 = 116;

/// ASCII `n`.
pub const LOWER_N_BYTE: u8 = 110;

/// ASCII `.`.
pub const DOT_BYTE: u8 = 46;

/// ASCII `z`.
pub const LOWER_Z_BYTE: u8 = 122;

/// Severity of a validator, ordered `Low < Medium < High`.
///
/// A configured threshold selects the active validator subset: a validator
/// participates exactly when its level is at or below the threshold, so a
/// `High` threshold runs every check and a `Low` threshold runs only the
/// cheap, low-severity ones.
#[derive(Clone, Copy, Debug, PartialEq, Eq, Structural)]
pub enum ValidationLevel {
    Low,
    Medium,
    High,
}

/// Position of `ValidationLevel` in the total order `Low < Medium < High`.
pub open spec fn level_rank(l: ValidationLevel) -> int {
    match l {
        ValidationLevel::Low => 0,
        ValidationLevel::Medium => 1,
        ValidationLevel::High => 2,
    }
}

/// Decides `level_rank(a) <= level_rank(b)`.
pub fn level_at_most(a: ValidationLevel, b: ValidationLevel) -> (r: bool)
    ensures
        r == (level_rank(a) <= level_rank(b)),
{
    let ra: u8 = match a {
        ValidationLevel::Low => 0,
        ValidationLevel::Medium => 1,
        ValidationLevel::High => 2,
    };
    let rb: u8 = match b {
        ValidationLevel::Low => 0,
        ValidationLevel::Medium => 1,
        ValidationLevel::High => 2,
    };
    ra <= rb
}

/// Which of the four record lines a failed check implicates.
#[derive(Clone, Copy, Debug, PartialEq, Eq, Structural)]
pub enum LineType {
    Name,
    Sequence,
    Plus,
    Quality,
}

/// The mathematical value of an [`Error`].
#[verifier::ext_equal]
pub ghost struct ErrorV {
    pub code: Seq<char>,
    pub name: Seq<char>,
    pub message: Seq<u8>,
    pub line_type: LineType,
    pub line_offset: Option<u32>,
    pub level: ValidationLevel,
}

/// One failed check, produced once and owned by the aggregator until flushed.
///
/// `message` is kept as raw bytes so that offending values are quoted
/// byte-exactly; rendering for humans (lossy text decoding) is left to the
/// caller at the reporting edge.
#[derive(Debug, PartialEq, Eq)]
pub struct Error {
    pub code: String,
    pub name: String,
    pub message: Vec<u8>,
    pub line_type: LineType,
    pub line_offset: Option<u32>,
    pub level: ValidationLevel,
}

impl View for Error {
    type V = ErrorV;

    open spec fn view(&self) -> ErrorV {
        ErrorV {
            code: self.code@,
            name: self.name@,
            message: self.message@,
            line_type: self.line_type,
            line_offset: self.line_offset,
            level: self.level,
        }
    }
}

impl Error {
    /// Builds an error from a validator's stable code and name, a message,
    /// the implicated line, its 1-based offset when line-specific, and the
    /// severity of the check that failed.
    pub fn new(
        code: &str,
        name: &str,
        message: Vec<u8>,
        line_type: LineType,
        line_offset: Option<u32>,
        level: ValidationLevel,
    ) -> (e: Error)
        ensures
            e@ == (ErrorV {
                code: code@,
                name: name@,
                message: message@,
                line_type,
                line_offset,
                level,
            }),
    {
        Error { code: code.to_owned(), name: name.to_owned(), message, line_type, line_offset, level }
    }
}

/// The outcome of one check, at the specification level: `None` on
/// conformance, `Some` error otherwise.
pub open spec fn check_view(r: Result<(), Error>) -> Option<ErrorV> {
    match r {
        Ok(_) => None,
        Err(e) => Some(e@),
    }
}

/// Appends all of `src` to `dst`.
pub fn push_all(dst: &mut Vec<u8>, src: &[u8])
    ensures
        final(dst)@ == old(dst)@ + src@,
{
    let mut i: usize = 0;
    while i < src.len()
        invariant
            i <= src@.len(),
            dst@ == old(dst)@ + src@.subrange(0, i as int),
        decreases src@.len() - i,
    {
        dst.push(src[i]);
        i = i + 1;
        proof {
            assert(dst@ =~= old(dst)@ + src@.subrange(0, i as int));
        }
    }
    proof {
        assert(dst@ =~= old(dst)@ + src@);
    }
}

/// Builds `pre ++ a ++ post` as bytes.
pub fn compose_msg3(pre: &str, a: &[u8], post: &str) -> (r: Vec<u8>)
    ensures
        r@ == pre.spec_bytes() + a@ + post.spec_bytes(),
{
    let mut m = pre.as_bytes_vec();
    push_all(&mut m, a);
    push_all(&mut m, post.as_bytes());
    proof {
        assert(m@ =~= pre.spec_bytes() + a@ + post.spec_bytes());
    }
    m
}

/// Builds `pre ++ a ++ mid ++ b ++ post` as bytes.
pub fn compose_msg5(pre: &str, a: &[u8], mid: &str, b: &[u8], post: &str) -> (r: Vec<u8>)
    ensures
        r@ == pre.spec_bytes() + a@ + mid.spec_bytes() + b@ + post.spec_bytes(),
{
    let mut m = pre.as_bytes_vec();
    push_all(&mut m, a);
    push_all(&mut m, mid.as_bytes());
    push_all(&mut m, b);
    push_all(&mut m, post.as_bytes());
    proof {
        assert(m@ =~= pre.spec_bytes() + a@ + mid.spec_bytes() + b@ + post.spec_bytes());
    }
    m
}

} // verus!
