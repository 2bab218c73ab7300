//! The FASTQ wire format: parsing bytes into records and rendering records
//! back to bytes.
//!
//! A record is four newline-terminated lines: a name line, a sequence line, a
//! plus line opening with `+`, and a quality line. Policy for
//! carriage-return-terminated lines: one `\r` immediately before each `\n` is
//! silently stripped; comparisons elsewhere stay byte-exact. Bytes after the
//! last newline, or a record with fewer than four remaining lines, are a
//! truncated record. The name line's content is kept raw (its `@` marker, if
//! any, is judged by a validator, not by the parser); a plus line that does
//! not open with `+` is a malformed record shape, rejected here.

use vstd::prelude::*;

use crate::block::{Block, BlockV};
use crate::validators::{CARRIAGE_RETURN_BYTE, NEWLINE_BYTE, PLUS_BYTE};

verus! {

/// How a record failed to parse.
#[derive(Clone, Copy, Debug, PartialEq, Eq, Structural)]
pub enum ParseErrorKind {
    /// Fewer than four newline-terminated lines remained.
    Truncated,
    /// The third line does not open with the `+` marker.
    MissingPlus,
}

/// A fatal parse failure: the zero-based index of the record it struck, and
/// its kind.
#[derive(Clone, Copy, Debug, PartialEq, Eq, Structural)]
pub struct ParseError {
    pub record: usize,
    pub kind: ParseErrorKind,
}

/// The position of the first newline at or after `i`, or the length when no
/// newline remains.
pub open spec fn find_nl(s: Seq<u8>, i: int) -> int
    decreases s.len() - i,
{
    if i >= s.len() {
        s.len() as int
    } else if s[i] == NEWLINE_BYTE {
        i
    } else {
        find_nl(s, i + 1)
    }
}

/// `find_nl` stays within `[i, s.len()]`, finds a newline when it reports
/// one, and skips none.
pub proof fn lemma_find_nl(s: Seq<u8>, i: int)
    requires
        0 <= i <= s.len(),
    ensures
        i <= find_nl(s, i) <= s.len(),
        find_nl(s, i) < s.len() ==> s[find_nl(s, i)] == NEWLINE_BYTE,
        forall|j: int| i <= j < find_nl(s, i) ==> s[j] != NEWLINE_BYTE,
    decreases s.len() - i,
{
    if i < s.len() && s[i] != NEWLINE_BYTE {
        lemma_find_nl(s, i + 1);
    }
}

/// A line with one carriage return before its terminating newline stripped.
pub open spec fn strip_cr(line: Seq<u8>) -> Seq<u8> {
    if line.len() > 0 && line.last() == CARRIAGE_RETURN_BYTE {
        line.drop_last()
    } else {
        line
    }
}

/// The records parsed from `s` starting at position `i`, the next record
/// having index `k`; or the first fatal parse failure.
pub open spec fn parse_from(s: Seq<u8>, i: int, k: int) -> Result<Seq<BlockV>, ParseError>
    decreases s.len() - i,
{
    if i >= s.len() {
        Ok(Seq::empty())
    } else {
        let e1 = find_nl(s, i);
        let e2 = find_nl(s, e1 + 1);
        let e3 = find_nl(s, e2 + 1);
        let e4 = find_nl(s, e3 + 1);
        if e4 >= s.len() {
            Err(ParseError { record: k as usize, kind: ParseErrorKind::Truncated })
        } else {
            let plus_raw = strip_cr(s.subrange(e2 + 1, e3));
            if plus_raw.len() == 0 || plus_raw[0] != PLUS_BYTE {
                Err(ParseError { record: k as usize, kind: ParseErrorKind::MissingPlus })
            } else {
                let block = BlockV {
                    name: strip_cr(s.subrange(i, e1)),
                    sequence: strip_cr(s.subrange(e1 + 1, e2)),
                    plus_line: plus_raw.drop_first(),
                    quality: strip_cr(s.subrange(e3 + 1, e4)),
                };
                proof {
                    lemma_find_nl_bounds(s, i);
                    lemma_find_nl_bounds(s, e1 + 1);
                    lemma_find_nl_bounds(s, e2 + 1);
                    lemma_find_nl_bounds(s, e3 + 1);
                }
                match parse_from(s, e4 + 1, k + 1) {
                    Ok(rest) => Ok(seq![block] + rest),
                    Err(e) => Err(e),
                }
            }
        }
    }
}

/// `find_nl` never passes the length, and when it reports a position inside
/// the input that position is at or after where the search began.
pub proof fn lemma_find_nl_bounds(s: Seq<u8>, i: int)
    ensures
        find_nl(s, i) <= s.len(),
        find_nl(s, i) < s.len() ==> i <= find_nl(s, i),
    decreases s.len() - i,
{
    if i < s.len() && s[i] != NEWLINE_BYTE {
        lemma_find_nl_bounds(s, i + 1);
    }
}

/// The whole input as records: parsing starts at the first byte.
pub open spec fn parse_all(s: Seq<u8>) -> Result<Seq<BlockV>, ParseError> {
    parse_from(s, 0, 0)
}

/// What [`parse_fastq`] returns, at the specification level.
pub open spec fn parse_result_view(r: Result<Vec<Block>, ParseError>) -> Result<
    Seq<BlockV>,
    ParseError,
> {
    match r {
        Ok(v) => Ok(crate::runner::blocks_view(v@)),
        Err(e) => Err(e),
    }
}

/// The position of the first newline at or after `from`, or the length when
/// no newline remains.
pub fn find_newline(data: &[u8], from: usize) -> (r: usize)
    requires
        from <= data@.len(),
    ensures
        r as int == find_nl(data@, from as int),
{
    let mut i = from;
    while i < data.len()
        invariant
            from <= i <= data@.len(),
            find_nl(data@, from as int) == find_nl(data@, i as int),
        decreases data@.len() - i,
    {
        if data[i] == NEWLINE_BYTE {
            return i;
        }
        i = i + 1;
    }
    i
}

/// Copies the line `[start, end)` out of the input, stripping one trailing
/// carriage return.
pub fn copy_line(data: &[u8], start: usize, end: usize) -> (r: Vec<u8>)
    requires
        start <= end <= data@.len(),
    ensures
        r@ == strip_cr(data@.subrange(start as int, end as int)),
{
    let mut v: Vec<u8> = Vec::new();
    let mut i = start;
    while i < end
        invariant
            start <= i <= end <= data@.len(),
            v@ == data@.subrange(start as int, i as int),
        decreases end - i,
    {
        v.push(data[i]);
        i = i + 1;
        proof {
            assert(v@ =~= data@.subrange(start as int, i as int));
        }
    }
    if v.len() > 0 && v[v.len() - 1] == CARRIAGE_RETURN_BYTE {
        v.pop();
        proof {
            assert(v@ =~= strip_cr(data@.subrange(start as int, end as int)));
        }
    }
    v
}

/// Parses the whole input as FASTQ records.
///
/// Returns every record in file order, or the first fatal parse failure with
/// the index of the record it struck. The sources are drained up front: a
/// parse failure anywhere in the input is reported even when it lies beyond
/// the point where a paired run would stop.
pub fn parse_fastq(data: &[u8]) -> (r: Result<Vec<Block>, ParseError>)
    ensures
        parse_result_view(r) == parse_all(data@),
{
    let ghost s = data@;
    let mut acc: Vec<Block> = Vec::new();
    let mut pos: usize = 0;
    let mut k: usize = 0;
    while pos < data.len()
        invariant
            pos <= s.len(),
            s == data@,
            4 * k <= pos,
            parse_from(s, 0, 0) == (match parse_from(s, pos as int, k as int) {
                Ok(rest) => Ok::<Seq<BlockV>, ParseError>(
                    crate::runner::blocks_view(acc@) + rest,
                ),
                Err(e) => Err(e),
            }),
        decreases s.len() - pos,
    {
        let e1 = find_newline(data, pos);
        proof {
            lemma_find_nl(s, pos as int);
        }
        let n2 = if e1 < data.len() {
            e1 + 1
        } else {
            e1
        };
        let e2 = find_newline(data, n2);
        proof {
            lemma_find_nl(s, n2 as int);
            assert(e2 as int == find_nl(s, e1 + 1)) by {
                if e1 >= data.len() {
                    assert(find_nl(s, e1 as int) == s.len());
                }
            }
        }
        let n3 = if e2 < data.len() {
            e2 + 1
        } else {
            e2
        };
        let e3 = find_newline(data, n3);
        proof {
            lemma_find_nl(s, n3 as int);
            assert(e3 as int == find_nl(s, e2 + 1)) by {
                if e2 >= data.len() {
                    assert(find_nl(s, e2 as int) == s.len());
                }
            }
        }
        let n4 = if e3 < data.len() {
            e3 + 1
        } else {
            e3
        };
        let e4 = find_newline(data, n4);
        proof {
            lemma_find_nl(s, n4 as int);
            assert(e4 as int == find_nl(s, e3 + 1)) by {
                if e3 >= data.len() {
                    assert(find_nl(s, e3 as int) == s.len());
                }
            }
        }
        if e4 == data.len() {
            return Err(ParseError { record: k, kind: ParseErrorKind::Truncated });
        }
        proof {
            assert((e3 as int) < s.len()) by {
                if e3 as int >= s.len() {
                    assert(find_nl(s, e3 as int + 1) == s.len());
                }
            }
            assert((e2 as int) < s.len()) by {
                if e2 as int >= s.len() {
                    assert(find_nl(s, e2 as int + 1) == s.len());
                }
            }
            assert((e1 as int) < s.len()) by {
                if e1 as int >= s.len() {
                    assert(find_nl(s, e1 as int + 1) == s.len());
                }
            }
        }
        let plus_raw = copy_line(data, e2 + 1, e3);
        if plus_raw.len() == 0 || plus_raw[0] != PLUS_BYTE {
            return Err(ParseError { record: k, kind: ParseErrorKind::MissingPlus });
        }
        let name = copy_line(data, pos, e1);
        let sequence = copy_line(data, e1 + 1, e2);
        let mut plus_line = plus_raw;
        plus_line.remove(0);
        let quality = copy_line(data, e3 + 1, e4);
        let ghost block = BlockV {
            name: strip_cr(s.subrange(pos as int, e1 as int)),
            sequence: strip_cr(s.subrange(e1 + 1, e2 as int)),
            plus_line: strip_cr(s.subrange(e2 + 1, e3 as int)).drop_first(),
            quality: strip_cr(s.subrange(e3 + 1, e4 as int)),
        };
        let b = Block::from_bytes(name, sequence, plus_line, quality);
        proof {
            assert(plus_line@ =~= block.plus_line);
            assert(b@ == block);
        }
        let ghost acc_old = crate::runner::blocks_view(acc@);
        acc.push(b);
        proof {
            assert(crate::runner::blocks_view(acc@) =~= acc_old.push(block));
            if parse_from(s, e4 + 1, k + 1) is Ok {
                let rest = parse_from(s, e4 + 1, k + 1).unwrap();
                assert(acc_old + (seq![block] + rest) =~= acc_old.push(block) + rest);
            }
        }
        pos = e4 + 1;
        k = k + 1;
    }
    proof {
        assert(parse_from(s, pos as int, k as int) == Ok::<Seq<BlockV>, ParseError>(Seq::empty()));
        assert(crate::runner::blocks_view(acc@) + Seq::<BlockV>::empty() =~= crate::runner::blocks_view(acc@));
    }
    Ok(acc)
}

/// One record rendered back to its four newline-terminated lines: the raw
/// name line, the sequence, the plus line behind its `+` marker, and the
/// quality.
pub open spec fn render_block(b: BlockV) -> Seq<u8> {
    b.name + seq![NEWLINE_BYTE] + b.sequence + seq![NEWLINE_BYTE] + seq![PLUS_BYTE] + b.plus_line
        + seq![NEWLINE_BYTE] + b.quality + seq![NEWLINE_BYTE]
}

/// Appends the four lines of one record to the output.
pub fn write_record(out: &mut Vec<u8>, b: &Block)
    ensures
        final(out)@ == old(out)@ + render_block(b@),
{
    crate::validators::push_all(out, b.name.as_slice());
    out.push(NEWLINE_BYTE);
    crate::validators::push_all(out, b.sequence.as_slice());
    out.push(NEWLINE_BYTE);
    out.push(PLUS_BYTE);
    crate::validators::push_all(out, b.plus_line.as_slice());
    out.push(NEWLINE_BYTE);
    crate::validators::push_all(out, b.quality.as_slice());
    out.push(NEWLINE_BYTE);
    proof {
        assert(out@ =~= old(out)@ + render_block(b@));
    }
}

} // verus!
