//! The flags of a file entry, and the rules that lay their stored bits out
//! by version.
use crate::inno::version::InnoVersion;
use vstd::prelude::*;

verus! {

/// Per-file install behaviour, one bit per flag.
#[derive(Debug, Clone, Copy, PartialEq, Eq, Structural)]
pub struct FileFlags {
    pub bits: u64,
}

pub const CONFIRM_OVERWRITE: u64 = 0x1;

pub const NEVER_UNINSTALL: u64 = 0x2;

pub const RESTART_REPLACE: u64 = 0x4;

pub const DELETE_AFTER_INSTALL: u64 = 0x8;

pub const REGISTER_SERVER: u64 = 0x10;

pub const REGISTER_TYPE_LIB: u64 = 0x20;

pub const SHARED_FILE: u64 = 0x40;

pub const COMPARE_TIME_STAMP: u64 = 0x80;

pub const FONT_IS_NOT_TRUE_TYPE: u64 = 0x100;

pub const SKIP_IF_SOURCE_DOESNT_EXIST: u64 = 0x200;

pub const OVERWRITE_READ_ONLY: u64 = 0x400;

pub const OVERWRITE_SAME_VERSION: u64 = 0x800;

pub const CUSTOM_DEST_NAME: u64 = 0x1000;

pub const ONLY_IF_DEST_FILE_EXISTS: u64 = 0x2000;

pub const NO_REG_ERROR: u64 = 0x4000;

pub const UNINS_RESTART_DELETE: u64 = 0x8000;

pub const ONLY_IF_DOESNT_EXIST: u64 = 0x1_0000;

pub const IGNORE_VERSION: u64 = 0x2_0000;

pub const PROMPT_IF_OLDER: u64 = 0x4_0000;

pub const DONT_COPY: u64 = 0x8_0000;

pub const UNINS_REMOVE_READ_ONLY: u64 = 0x10_0000;

pub const RECURSE_SUB_DIRS_EXTERNAL: u64 = 0x20_0000;

pub const REPLACE_SAME_VERSION_IF_CONTENTS_DIFFER: u64 = 0x40_0000;

pub const DONT_VERIFY_CHECKSUM: u64 = 0x80_0000;

pub const UNINS_NO_SHARED_FILE_PROMPT: u64 = 0x100_0000;

pub const CREATE_ALL_SUB_DIRS: u64 = 0x200_0000;

pub const BITS_32: u64 = 0x400_0000;

pub const BITS_64: u64 = 0x800_0000;

pub const EXTERNAL_SIZE_PRESET: u64 = 0x1000_0000;

pub const SET_NTFS_COMPRESSION: u64 = 0x2000_0000;

pub const UNSET_NTFS_COMPRESSION: u64 = 0x4000_0000;

pub const GAC_INSTALL: u64 = 0x8000_0000;

pub const IS_README_FILE: u64 = 0x1_0000_0000;

impl FileFlags {
    /// No flag.
    pub fn empty() -> (flags: Self)
        ensures
            flags.bits == 0,
    {
        FileFlags { bits: 0 }
    }

    /// Whether every flag of `mask` is set.
    pub fn contains(&self, mask: u64) -> (result: bool)
        ensures
            result == (self.bits & mask == mask),
    {
        self.bits & mask == mask
    }

    /// Adds the flags of `mask`; none is taken away.
    pub fn insert(&mut self, mask: u64)
        ensures
            final(self).bits == old(self).bits | mask,
    {
        self.bits = self.bits | mask;
    }
}

/// How many rules lay the stored flags out.
pub const FLAG_RULES: usize = 20;

/// Whether the `i`-th rule applies to a producer of version `v`.
pub open spec fn rule_applies(v: InnoVersion, i: int) -> bool {
    if i == 0 {
        true
    } else if i == 1 {
        !v.since(2, 0, 0) && !v.isx
    } else if i == 2 {
        true
    } else if i == 3 {
        v.since(1, 2, 5)
    } else if i == 4 {
        v.since(1, 2, 6)
    } else if i == 5 {
        v.since(1, 3, 21)
    } else if i == 6 {
        v.since(1, 3, 25)
    } else if i == 7 {
        v.since(2, 0, 5)
    } else if i == 8 {
        v.since(3, 0, 1)
    } else if i == 9 {
        v.since(3, 0, 5)
    } else if i == 10 {
        v.since(4, 0, 0) || (v.isx && v.since(3, 0, 6))
    } else if i == 11 {
        v.since(4, 0, 5)
    } else if i == 12 {
        v.since(4, 1, 8)
    } else if i == 13 {
        v.since(4, 2, 1)
    } else if i == 14 {
        v.since(4, 2, 5)
    } else if i == 15 {
        v.since(5, 0, 3)
    } else if i == 16 {
        v.since(5, 1, 0)
    } else if i == 17 {
        v.since(5, 1, 2)
    } else if i == 18 {
        v.since(5, 2, 0)
    } else {
        v.since(5, 2, 5)
    }
}

/// The flags that the `i`-th rule adds, in the order of their stored bits.
pub open spec fn rule_flags(i: int) -> Seq<u64> {
    if i == 0 {
        seq![CONFIRM_OVERWRITE, NEVER_UNINSTALL, RESTART_REPLACE, DELETE_AFTER_INSTALL, REGISTER_SERVER, REGISTER_TYPE_LIB, SHARED_FILE]
    } else if i == 1 {
        seq![IS_README_FILE]
    } else if i == 2 {
        seq![COMPARE_TIME_STAMP, FONT_IS_NOT_TRUE_TYPE]
    } else if i == 3 {
        seq![SKIP_IF_SOURCE_DOESNT_EXIST]
    } else if i == 4 {
        seq![OVERWRITE_READ_ONLY]
    } else if i == 5 {
        seq![OVERWRITE_SAME_VERSION, CUSTOM_DEST_NAME]
    } else if i == 6 {
        seq![ONLY_IF_DEST_FILE_EXISTS]
    } else if i == 7 {
        seq![NO_REG_ERROR]
    } else if i == 8 {
        seq![UNINS_RESTART_DELETE]
    } else if i == 9 {
        seq![ONLY_IF_DOESNT_EXIST, IGNORE_VERSION, PROMPT_IF_OLDER]
    } else if i == 10 {
        seq![DONT_COPY]
    } else if i == 11 {
        seq![UNINS_REMOVE_READ_ONLY]
    } else if i == 12 {
        seq![RECURSE_SUB_DIRS_EXTERNAL]
    } else if i == 13 {
        seq![REPLACE_SAME_VERSION_IF_CONTENTS_DIFFER]
    } else if i == 14 {
        seq![DONT_VERIFY_CHECKSUM]
    } else if i == 15 {
        seq![UNINS_NO_SHARED_FILE_PROMPT]
    } else if i == 16 {
        seq![CREATE_ALL_SUB_DIRS]
    } else if i == 17 {
        seq![BITS_32, BITS_64]
    } else if i == 18 {
        seq![EXTERNAL_SIZE_PRESET, SET_NTFS_COMPRESSION, UNSET_NTFS_COMPRESSION]
    } else {
        seq![GAC_INSTALL]
    }
}

/// The flags that the first `n` rules lay out for version `v`: each rule
/// that applies adds its flags behind those of the rules before it, and no
/// rule takes one away.
pub open spec fn layout_upto(v: InnoVersion, n: int) -> Seq<u64>
    decreases n,
{
    if n <= 0 {
        Seq::empty()
    } else if rule_applies(v, n - 1) {
        layout_upto(v, n - 1) + rule_flags(n - 1)
    } else {
        layout_upto(v, n - 1)
    }
}

/// The flags that a producer of version `v` stores, in the order of their
/// bits on disk.
pub open spec fn flag_layout(v: InnoVersion) -> Seq<u64> {
    layout_upto(v, FLAG_RULES as int)
}

/// Whether the `i`-th rule applies to a producer of version `v`.
pub fn applies(v: &InnoVersion, i: usize) -> (result: bool)
    requires
        i < FLAG_RULES,
    ensures
        result == rule_applies(*v, i as int),
{
    if i == 0 {
        true
    } else if i == 1 {
        !v.at_least(2, 0, 0) && !v.is_isx()
    } else if i == 2 {
        true
    } else if i == 3 {
        v.at_least(1, 2, 5)
    } else if i == 4 {
        v.at_least(1, 2, 6)
    } else if i == 5 {
        v.at_least(1, 3, 21)
    } else if i == 6 {
        v.at_least(1, 3, 25)
    } else if i == 7 {
        v.at_least(2, 0, 5)
    } else if i == 8 {
        v.at_least(3, 0, 1)
    } else if i == 9 {
        v.at_least(3, 0, 5)
    } else if i == 10 {
        v.at_least(4, 0, 0) || (v.is_isx() && v.at_least(3, 0, 6))
    } else if i == 11 {
        v.at_least(4, 0, 5)
    } else if i == 12 {
        v.at_least(4, 1, 8)
    } else if i == 13 {
        v.at_least(4, 2, 1)
    } else if i == 14 {
        v.at_least(4, 2, 5)
    } else if i == 15 {
        v.at_least(5, 0, 3)
    } else if i == 16 {
        v.at_least(5, 1, 0)
    } else if i == 17 {
        v.at_least(5, 1, 2)
    } else if i == 18 {
        v.at_least(5, 2, 0)
    } else {
        v.at_least(5, 2, 5)
    }
}

/// Appends the flags that the `i`-th rule adds.
pub fn push_rule_flags(layout: &mut Vec<u64>, i: usize)
    requires
        i < FLAG_RULES,
    ensures
        final(layout)@ == old(layout)@ + rule_flags(i as int),
        final(layout)@.len() <= old(layout)@.len() + 7,
{
    if i == 0 {
        layout.push(CONFIRM_OVERWRITE);
        layout.push(NEVER_UNINSTALL);
        layout.push(RESTART_REPLACE);
        layout.push(DELETE_AFTER_INSTALL);
        layout.push(REGISTER_SERVER);
        layout.push(REGISTER_TYPE_LIB);
        layout.push(SHARED_FILE);
    } else if i == 1 {
        layout.push(IS_README_FILE);
    } else if i == 2 {
        layout.push(COMPARE_TIME_STAMP);
        layout.push(FONT_IS_NOT_TRUE_TYPE);
    } else if i == 3 {
        layout.push(SKIP_IF_SOURCE_DOESNT_EXIST);
    } else if i == 4 {
        layout.push(OVERWRITE_READ_ONLY);
    } else if i == 5 {
        layout.push(OVERWRITE_SAME_VERSION);
        layout.push(CUSTOM_DEST_NAME);
    } else if i == 6 {
        layout.push(ONLY_IF_DEST_FILE_EXISTS);
    } else if i == 7 {
        layout.push(NO_REG_ERROR);
    } else if i == 8 {
        layout.push(UNINS_RESTART_DELETE);
    } else if i == 9 {
        layout.push(ONLY_IF_DOESNT_EXIST);
        layout.push(IGNORE_VERSION);
        layout.push(PROMPT_IF_OLDER);
    } else if i == 10 {
        layout.push(DONT_COPY);
    } else if i == 11 {
        layout.push(UNINS_REMOVE_READ_ONLY);
    } else if i == 12 {
        layout.push(RECURSE_SUB_DIRS_EXTERNAL);
    } else if i == 13 {
        layout.push(REPLACE_SAME_VERSION_IF_CONTENTS_DIFFER);
    } else if i == 14 {
        layout.push(DONT_VERIFY_CHECKSUM);
    } else if i == 15 {
        layout.push(UNINS_NO_SHARED_FILE_PROMPT);
    } else if i == 16 {
        layout.push(CREATE_ALL_SUB_DIRS);
    } else if i == 17 {
        layout.push(BITS_32);
        layout.push(BITS_64);
    } else if i == 18 {
        layout.push(EXTERNAL_SIZE_PRESET);
        layout.push(SET_NTFS_COMPRESSION);
        layout.push(UNSET_NTFS_COMPRESSION);
    } else {
        layout.push(GAC_INSTALL);
    }
    assert(layout@ =~= old(layout)@ + rule_flags(i as int));
}

/// The flags that a producer of version `v` stores, in the order of their
/// bits on disk.
pub fn stored_flags(v: &InnoVersion) -> (layout: Vec<u64>)
    ensures
        layout@ == flag_layout(*v),
        layout@.len() <= 7 * FLAG_RULES,
{
    let mut layout: Vec<u64> = Vec::new();
    let mut i: usize = 0;
    while i < FLAG_RULES
        invariant
            i <= FLAG_RULES,
            layout@ == layout_upto(*v, i as int),
            layout@.len() <= 7 * i,
        decreases FLAG_RULES - i,
    {
        if applies(v, i) {
            push_rule_flags(&mut layout, i);
        }
        i = i + 1;
    }
    layout
}

/// What the rules up to `n` laid out stays, in place, when one more rule is
/// taken: the layout only grows at its end.
pub proof fn lemma_layout_grows(v: InnoVersion, n: int)
    requires
        0 <= n,
    ensures
        layout_upto(v, n).is_prefix_of(layout_upto(v, n + 1)),
{
    if rule_applies(v, n) {
        assert(layout_upto(v, n + 1) =~= layout_upto(v, n) + rule_flags(n));
    }
}

/// The bytes that `count` stored flags take: one per eight flags, and a
/// fourth where that makes three.
pub open spec fn flag_bytes(count: int) -> int {
    let whole = (count + 7) / 8;
    if whole == 3 {
        4
    } else {
        whole
    }
}

/// Whether the stored bit of the `k`-th flag is set in the bytes at `pos`.
pub open spec fn stored_bit(data: Seq<u8>, pos: int, k: int) -> bool {
    data[pos + k / 8] & (1u8 << ((k % 8) as u8)) != 0
}

/// The union of the first `n` flags of `layout` whose stored bit is set.
pub open spec fn decoded_flags(data: Seq<u8>, pos: int, layout: Seq<u64>, n: int) -> u64
    decreases n,
{
    if n <= 0 {
        0
    } else {
        decoded_flags(data, pos, layout, n - 1) | (if stored_bit(data, pos, n - 1) {
            layout[n - 1]
        } else {
            0
        })
    }
}

/// Decodes the flags stored in `bytes` under `layout`.
pub fn decode_flags(bytes: &[u8], layout: &Vec<u64>) -> (bits: u64)
    requires
        bytes@.len() * 8 >= layout@.len(),
    ensures
        bits == decoded_flags(bytes@, 0, layout@, layout@.len() as int),
{
    let mut bits: u64 = 0;
    let mut k: usize = 0;
    while k < layout.len()
        invariant
            k <= layout@.len(),
            bytes@.len() * 8 >= layout@.len(),
            bits == decoded_flags(bytes@, 0, layout@, k as int),
        decreases layout.len() - k,
    {
        let byte = bytes[k / 8];
        let shift: u8 = (k % 8) as u8;
        if byte & (1u8 << shift) != 0 {
            bits = bits | layout[k];
        } else {
            assert(bits | 0 == bits) by (bit_vector);
        }
        k = k + 1;
    }
    bits
}

/// Flags are only ever added: what the first `n` rules gave stays in what
/// `n + 1` rules give.
pub proof fn lemma_flags_accumulate(data: Seq<u8>, pos: int, layout: Seq<u64>, n: int)
    requires
        0 <= n,
    ensures
        decoded_flags(data, pos, layout, n) & decoded_flags(data, pos, layout, n + 1)
            == decoded_flags(data, pos, layout, n),
{
    let a = decoded_flags(data, pos, layout, n);
    let b = if stored_bit(data, pos, n) {
        layout[n]
    } else {
        0
    };
    assert(a & (a | b) == a) by (bit_vector);
}

/// The stored flags depend on the bytes that hold them alone: decoding a
/// copy of those bytes gives what decoding them in place gives.
pub proof fn lemma_decoded_flags_in_place(
    data: Seq<u8>,
    pos: int,
    bytes: Seq<u8>,
    layout: Seq<u64>,
    n: int,
)
    requires
        0 <= pos,
        pos + bytes.len() <= data.len(),
        bytes == data.subrange(pos, pos + bytes.len()),
        n <= 8 * bytes.len(),
    ensures
        decoded_flags(bytes, 0, layout, n) == decoded_flags(data, pos, layout, n),
    decreases n,
{
    if n > 0 {
        lemma_decoded_flags_in_place(data, pos, bytes, layout, n - 1);
        assert(bytes[(n - 1) / 8] == data[pos + (n - 1) / 8]);
    }
}

/// The bytes that `count` stored flags take.
pub fn flag_byte_count(count: usize) -> (n: usize)
    requires
        count <= 7 * FLAG_RULES,
    ensures
        n == flag_bytes(count as int),
        8 * n >= count,
{
    let whole = (count + 7) / 8;
    if whole == 3 {
        4
    } else {
        whole
    }
}

} // verus!
