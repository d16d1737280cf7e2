//! The table of blocks of an NSIS header and the region of each block.
use crate::bytes::{u32_at, u64_at, ByteReader};
use crate::error::AnalysisError;
use vstd::prelude::*;
use vstd::slice::slice_subrange;

verus! {

/// How many kinds of block a header has.
pub const BLOCK_COUNT: usize = 8;

/// Where a block starts and how many items it holds.
#[derive(Debug, Clone, Copy, PartialEq, Eq, Structural)]
pub struct BlockHeader {
    pub offset: u64,
    pub num: u32,
}

/// The kinds of block, in the order of the table.
#[derive(Debug, Clone, Copy, PartialEq, Eq, Structural)]
pub enum BlockType {
    Pages,
    Sections,
    Entries,
    Strings,
    LangTables,
    CtlColors,
    BgFont,
    Data,
}

/// The table of blocks: one header per kind.
#[derive(Debug, Clone, Copy)]
pub struct BlockHeaders(pub [BlockHeader; 8]);

/// The first position from `from` on whose block has an offset other than
/// zero, or the length of the table where there is none.
pub open spec fn next_present(blocks: Seq<BlockHeader>, from: int) -> int
    decreases blocks.len() - from,
{
    if from < 0 || from >= blocks.len() {
        blocks.len() as int
    } else if blocks[from].offset > 0 {
        from
    } else {
        next_present(blocks, from + 1)
    }
}

/// Where the block at `index` ends: at the offset of the next block behind
/// it whose offset is not zero, and at its own start where there is none.
pub open spec fn region_end(blocks: Seq<BlockHeader>, index: int) -> int {
    let next = next_present(blocks, index + 1);
    if next < blocks.len() {
        blocks[next].offset as int
    } else {
        blocks[index].offset as int
    }
}

/// Whether the block at `index` lies in data of `len` bytes.
pub open spec fn region_in_bounds(blocks: Seq<BlockHeader>, index: int, len: int) -> bool {
    blocks[index].offset <= region_end(blocks, index) <= len
}

impl BlockType {
    /// The place of the kind in the table.
    pub open spec fn spec_index(self) -> int {
        match self {
            BlockType::Pages => 0,
            BlockType::Sections => 1,
            BlockType::Entries => 2,
            BlockType::Strings => 3,
            BlockType::LangTables => 4,
            BlockType::CtlColors => 5,
            BlockType::BgFont => 6,
            BlockType::Data => 7,
        }
    }

    /// The place of the kind in the table.
    pub fn index(self) -> (i: usize)
        ensures
            i == self.spec_index(),
            i < BLOCK_COUNT,
    {
        match self {
            BlockType::Pages => 0,
            BlockType::Sections => 1,
            BlockType::Entries => 2,
            BlockType::Strings => 3,
            BlockType::LangTables => 4,
            BlockType::CtlColors => 5,
            BlockType::BgFont => 6,
            BlockType::Data => 7,
        }
    }

    /// Where the block of this kind starts and ends. The scan for the end
    /// goes forward from the kind: offsets need not be sorted.
    pub fn bounds(self, blocks: &BlockHeaders) -> (range: (u64, u64))
        ensures
            range.0 == blocks.0@[self.spec_index()].offset,
            range.1 == region_end(blocks.0@, self.spec_index()),
    {
        let own = self.index();
        let start = blocks.0[own].offset;
        let mut i: usize = own + 1;
        while i < BLOCK_COUNT
            invariant
                own < i <= BLOCK_COUNT,
                own == self.spec_index(),
                start == blocks.0@[own as int].offset,
                next_present(blocks.0@, i as int) == next_present(blocks.0@, own + 1),
            decreases BLOCK_COUNT - i,
        {
            if blocks.0[i].offset > 0 {
                return (start, blocks.0[i].offset);
            }
            i = i + 1;
        }
        (start, start)
    }

    /// The bytes of the block of this kind in `data`, or a truncation error
    /// where its bounds are not an interval inside `data`.
    pub fn get<'data>(self, data: &'data [u8], blocks: &BlockHeaders) -> (result: Result<
        &'data [u8],
        AnalysisError,
    >)
        ensures
            region_in_bounds(blocks.0@, self.spec_index(), data@.len() as int) ==> result is Ok
                && result->Ok_0@ == data@.subrange(
                blocks.0@[self.spec_index()].offset as int,
                region_end(blocks.0@, self.spec_index()),
            ),
            !region_in_bounds(blocks.0@, self.spec_index(), data@.len() as int) ==> result == Err::<
                &[u8],
                AnalysisError,
            >(AnalysisError::TruncatedData),
    {
        let (start, end) = self.bounds(blocks);
        if start > end || end > data.len() as u64 {
            return Err(AnalysisError::TruncatedData);
        }
        Ok(slice_subrange(data, start as usize, end as usize))
    }
}

/// The bytes that one stored block header takes: twelve with 64-bit
/// offsets, eight with 32-bit ones.
pub open spec fn entry_len(wide: bool) -> int {
    if wide {
        12
    } else {
        8
    }
}

/// The block header stored at `pos`.
pub open spec fn header_at(data: Seq<u8>, pos: int, wide: bool) -> BlockHeader {
    if wide {
        BlockHeader { offset: u64_at(data, pos), num: u32_at(data, pos + 8) }
    } else {
        BlockHeader { offset: u32_at(data, pos) as u64, num: u32_at(data, pos + 4) }
    }
}

impl BlockHeaders {
    /// The headers, in the order of the table.
    pub fn iter(&self) -> (headers: &[BlockHeader; 8])
        ensures
            *headers == self.0,
    {
        &self.0
    }

    /// The headers, in the order of the table, to be changed in place.
    pub fn iter_mut(&mut self) -> (headers: &mut [BlockHeader; 8])
        ensures
            *headers == old(self).0,
            final(self).0 == *final(headers),
    {
        &mut self.0
    }

    /// The header of one kind of block.
    pub fn index(&self, kind: BlockType) -> (header: &BlockHeader)
        ensures
            *header == self.0@[kind.spec_index()],
    {
        &self.0[kind.index()]
    }

    /// Reads the table at the start of `data` and returns it with the bytes
    /// behind it. With `wide` the offsets are stored in 64 bits; otherwise in
    /// 32 bits, and widened. Either way the table has the same shape.
    pub fn read_dynamic_from_prefix(data: &[u8], wide: bool) -> (result: Result<
        (Self, &[u8]),
        AnalysisError,
    >)
        ensures
            data@.len() >= BLOCK_COUNT * entry_len(wide) ==> {
                &&& result is Ok
                &&& forall|k: int|
                    0 <= k < BLOCK_COUNT ==> (#[trigger] result->Ok_0.0.0@[k]) == header_at(
                        data@,
                        k * entry_len(wide),
                        wide,
                    )
                &&& result->Ok_0.1@ == data@.skip(BLOCK_COUNT * entry_len(wide))
            },
            data@.len() < BLOCK_COUNT * entry_len(wide) ==> result == Err::<
                (Self, &[u8]),
                AnalysisError,
            >(AnalysisError::TruncatedData),
    {
        let width: usize = if wide {
            12
        } else {
            8
        };
        if data.len() < BLOCK_COUNT * width {
            return Err(AnalysisError::TruncatedData);
        }
        let mut reader = ByteReader::new(data);
        let mut headers = [BlockHeader { offset: 0, num: 0 };8];
        let mut k: usize = 0;
        while k < BLOCK_COUNT
            invariant
                k <= BLOCK_COUNT,
                width == entry_len(wide),
                data@.len() >= BLOCK_COUNT * width,
                reader.wf(),
                reader.data() == data@,
                reader.position() == k * width,
                forall|j: int| 0 <= j < k ==> (#[trigger] headers@[j]) == header_at(data@, j * width, wide),
            decreases BLOCK_COUNT - k,
        {
            let offset = if wide {
                match reader.read_u64() {
                    Ok(n) => n,
                    Err(e) => {
                        return Err(e);
                    },
                }
            } else {
                match reader.read_u32() {
                    Ok(n) => n as u64,
                    Err(e) => {
                        return Err(e);
                    },
                }
            };
            let num = match reader.read_u32() {
                Ok(n) => n,
                Err(e) => {
                    return Err(e);
                },
            };
            headers[k] = BlockHeader { offset, num };
            k = k + 1;
        }
        let rest = slice_subrange(data, BLOCK_COUNT * width, data.len());
        assert(rest@ =~= data@.skip(BLOCK_COUNT * entry_len(wide)));
        Ok((BlockHeaders(headers), rest))
    }
}

/// A block whose end is found lies between its own offset and the offset of
/// the next block that is present; a block behind which none is present is
/// empty.
pub proof fn lemma_region(blocks: Seq<BlockHeader>, index: int)
    requires
        0 <= index < blocks.len(),
    ensures
        index < next_present(blocks, index + 1) <= blocks.len(),
        next_present(blocks, index + 1) < blocks.len() ==> blocks[next_present(
            blocks,
            index + 1,
        )].offset > 0 && region_end(blocks, index) == blocks[next_present(blocks, index + 1)].offset,
        next_present(blocks, index + 1) == blocks.len() ==> region_end(blocks, index)
            == blocks[index].offset,
        forall|j: int| index < j < next_present(blocks, index + 1) ==> blocks[j].offset == 0,
{
    lemma_next_present(blocks, index + 1);
}

/// `next_present` finds the first block from `from` on that is present.
pub proof fn lemma_next_present(blocks: Seq<BlockHeader>, from: int)
    requires
        0 <= from <= blocks.len(),
    ensures
        from <= next_present(blocks, from) <= blocks.len(),
        next_present(blocks, from) < blocks.len() ==> blocks[next_present(blocks, from)].offset > 0,
        forall|j: int| from <= j < next_present(blocks, from) ==> blocks[j].offset == 0,
    decreases blocks.len() - from,
{
    if from < blocks.len() && blocks[from].offset == 0 {
        lemma_next_present(blocks, from + 1);
    }
}

} // verus!
