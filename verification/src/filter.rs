//! Name-based filtering: a set of record names read from newline-delimited
//! text, and the copy of a FASTQ stream restricted to named records.

use vstd::prelude::*;

use crate::block::BlockV;
use crate::fastq::{find_nl, find_newline, lemma_find_nl_bounds, parse_all, parse_fastq,
    render_block, strip_cr, write_record, ParseError};
use crate::runner::blocks_view;
use crate::validators::NEWLINE_BYTE;

verus! {

/// A set of record names, each an arbitrary byte string.
pub struct NameSet {
    items: Vec<Vec<u8>>,
}

impl NameSet {
    /// The stored names as byte sequences, in insertion order.
    pub closed spec fn names_seq(&self) -> Seq<Seq<u8>> {
        self.items@.map_values(|v: Vec<u8>| v@)
    }

    #[verifier::type_invariant]
    spec fn inv(&self) -> bool {
        self.names_seq().no_duplicates()
    }

    /// The empty name set.
    pub fn new() -> (r: NameSet)
        ensures
            r@ == Set::<Seq<u8>>::empty(),
    {
        let r = NameSet { items: Vec::new() };
        proof {
            assert(r.names_seq() =~= Seq::<Seq<u8>>::empty());
            assert(r@ =~= Set::<Seq<u8>>::empty());
        }
        r
    }

    /// Whether the set holds this name.
    pub fn contains(&self, name: &[u8]) -> (r: bool)
        ensures
            r == self@.contains(name@),
    {
        let mut i: usize = 0;
        while i < self.items.len()
            invariant
                i <= self.items@.len(),
                forall|j: int| 0 <= j < i ==> self.names_seq()[j] != name@,
            decreases self.items@.len() - i,
        {
            if bytes_eq(self.items[i].as_slice(), name) {
                proof {
                    assert(self.names_seq()[i as int] == name@);
                    assert(self.names_seq().contains(name@));
                }
                return true;
            }
            i = i + 1;
        }
        proof {
            assert(!self.names_seq().contains(name@));
        }
        false
    }

    /// Adds a name; adding one already present changes nothing.
    pub fn insert(self, name: Vec<u8>) -> (r: NameSet)
        ensures
            r@ == self@.insert(name@),
    {
        proof {
            use_type_invariant(&self);
        }
        if self.contains(name.as_slice()) {
            proof {
                assert(self@.insert(name@) =~= self@);
            }
            self
        } else {
            let ghost before = self.names_seq();
            proof {
                assert(!before.contains(name@));
            }
            let NameSet { mut items } = self;
            items.push(name);
            proof {
                assert(items@.map_values(|v: Vec<u8>| v@) =~= before.push(name@));
                assert(before.push(name@).no_duplicates()) by {
                    assert forall|x: int, y: int|
                        0 <= x < y < before.push(name@).len() implies before.push(name@)[x]
                        != before.push(name@)[y] by {
                        if y == before.len() {
                            if before[x] == name@ {
                                assert(before.contains(name@));
                            }
                        }
                    }
                }
            }
            let r = NameSet { items };
            proof {
                assert(r.names_seq() =~= before.push(name@));
                assert(before.push(name@) =~= before + seq![name@]);
                Seq::lemma_to_set_insert_commutes(before, name@);
            }
            r
        }
    }

    /// How many distinct names the set holds.
    pub fn len(&self) -> (r: usize)
        ensures
            r as nat == self@.len(),
    {
        proof {
            use_type_invariant(self);
            self.names_seq().unique_seq_to_set();
        }
        self.items.len()
    }
}

impl View for NameSet {
    type V = Set<Seq<u8>>;

    closed spec fn view(&self) -> Set<Seq<u8>> {
        self.names_seq().to_set()
    }
}

/// Decides byte-for-byte equality of two byte strings.
pub fn bytes_eq(a: &[u8], b: &[u8]) -> (r: bool)
    ensures
        r == (a@ == b@),
{
    if a.len() != b.len() {
        proof {
            assert(a@.len() != b@.len());
        }
        return false;
    }
    let mut i: usize = 0;
    while i < a.len()
        invariant
            i <= a@.len(),
            a@.len() == b@.len(),
            forall|j: int| 0 <= j < i ==> a@[j] == b@[j],
        decreases a@.len() - i,
    {
        if a[i] != b[i] {
            return false;
        }
        i = i + 1;
    }
    proof {
        assert(a@ =~= b@);
    }
    true
}

/// The newline-delimited lines of the input from position `i` on, one
/// trailing carriage return stripped from each. A final fragment without a
/// terminating newline is a line of its own; empty input holds no line.
pub open spec fn lines_from(s: Seq<u8>, i: int) -> Seq<Seq<u8>>
    decreases s.len() - i,
{
    if i >= s.len() {
        Seq::empty()
    } else {
        let e = find_nl(s, i);
        let line = strip_cr(s.subrange(i, e));
        if e >= s.len() {
            seq![line]
        } else {
            proof {
                lemma_find_nl_bounds(s, i);
            }
            seq![line] + lines_from(s, e + 1)
        }
    }
}

/// The set of names the input lists, one per line.
pub open spec fn line_names(s: Seq<u8>) -> Set<Seq<u8>> {
    lines_from(s, 0).to_set()
}

/// Reads a set of record names, one per newline-delimited line.
pub fn read_names(data: &[u8]) -> (r: NameSet)
    ensures
        r@ == line_names(data@),
{
    let ghost s = data@;
    let mut names = NameSet::new();
    let ghost mut processed = Seq::<Seq<u8>>::empty();
    let mut pos: usize = 0;
    while pos < data.len()
        invariant
            pos <= s.len(),
            s == data@,
            lines_from(s, 0) == processed + lines_from(s, pos as int),
            names@ == processed.to_set(),
        decreases s.len() - pos,
    {
        let e = find_newline(data, pos);
        proof {
            crate::fastq::lemma_find_nl(s, pos as int);
        }
        let line = crate::fastq::copy_line(data, pos, e);
        let ghost lv = line@;
        proof {
            assert(processed.push(lv) =~= processed + seq![lv]);
            Seq::lemma_to_set_insert_commutes(processed, lv);
            if (e as int) < s.len() {
                assert(lines_from(s, pos as int) == seq![lv] + lines_from(s, e + 1));
                assert(processed + (seq![lv] + lines_from(s, e + 1)) =~= processed.push(lv)
                    + lines_from(s, e + 1));
            } else {
                assert(lines_from(s, pos as int) == seq![lv]);
                assert(processed + seq![lv] =~= processed.push(lv) + lines_from(s, s.len() as int));
            }
        }
        names = names.insert(line);
        proof {
            processed = processed.push(lv);
        }
        if e == data.len() {
            proof {
                assert(lines_from(s, 0) == processed + lines_from(s, s.len() as int));
            }
            return names;
        }
        pos = e + 1;
    }
    proof {
        assert(lines_from(s, pos as int) =~= Seq::<Seq<u8>>::empty());
        assert(processed + lines_from(s, pos as int) =~= processed);
    }
    names
}

/// What a filtered copy writes: the four lines of exactly the records whose
/// raw name is in the set, byte-identical rendering, in original order.
pub open spec fn render_filtered(blocks: Seq<BlockV>, names: Set<Seq<u8>>) -> Seq<u8>
    decreases blocks.len(),
{
    if blocks.len() == 0 {
        Seq::empty()
    } else {
        render_filtered(blocks.drop_last(), names) + if names.contains(blocks.last().name) {
            render_block(blocks.last())
        } else {
            Seq::empty()
        }
    }
}

/// Copies the records whose name is in the set, in original order, rendering
/// each back to its four lines; fails on the first malformed record.
pub fn copy_filtered(data: &[u8], names: &NameSet) -> (r: Result<Vec<u8>, ParseError>)
    ensures
        match parse_all(data@) {
            Ok(blocks) => r matches Ok(out) && out@ == render_filtered(blocks, names@),
            Err(e) => r == Err::<Vec<u8>, ParseError>(e),
        },
{
    let blocks = match parse_fastq(data) {
        Ok(blocks) => blocks,
        Err(e) => {
            return Err(e);
        },
    };
    let ghost bv = blocks_view(blocks@);
    let mut out: Vec<u8> = Vec::new();
    let mut i: usize = 0;
    while i < blocks.len()
        invariant
            i <= blocks@.len(),
            bv == blocks_view(blocks@),
            out@ == render_filtered(bv.take(i as int), names@),
        decreases blocks@.len() - i,
    {
        proof {
            assert(bv[i as int] == blocks@[i as int]@);
            assert(bv.take(i + 1).drop_last() =~= bv.take(i as int));
            assert(bv.take(i + 1).last() == bv[i as int]);
        }
        if names.contains(blocks[i].name.as_slice()) {
            write_record(&mut out, &blocks[i]);
        }
        i = i + 1;
    }
    proof {
        assert(bv.take(blocks@.len() as int) =~= bv);
    }
    Ok(out)
}

} // verus!
