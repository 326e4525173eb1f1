//! Identifiers of the underlying blockchain: hashes, shards and blocks.

use vstd::prelude::*;

use crate::assoc::Key;

verus! {

/// Workchain number of the masterchain.
pub const MASTERCHAIN_ID: i32 = -1;

/// Shard prefix that covers a whole workchain.
pub const SHARD_FULL: u64 = 0x8000_0000_0000_0000;

/// A 256-bit value, as four words with the most significant word first.
#[derive(Clone, Copy, Debug, PartialEq, Eq, PartialOrd, Ord, Hash, Structural)]
pub struct UInt256 {
    pub w0: u64,
    pub w1: u64,
    pub w2: u64,
    pub w3: u64,
}

impl UInt256 {
    /// The number that the four words stand for.
    pub open spec fn as_nat(self) -> nat {
        (((self.w0 as nat * 0x1_0000_0000_0000_0000 + self.w1 as nat) * 0x1_0000_0000_0000_0000
            + self.w2 as nat) * 0x1_0000_0000_0000_0000 + self.w3 as nat) as nat
    }

    /// The value with all bits clear.
    pub fn zero() -> (r: UInt256)
        ensures
            r.as_nat() == 0,
    {
        UInt256 { w0: 0, w1: 0, w2: 0, w3: 0 }
    }

    /// Whether the value is smaller than `other`.
    ///
    /// The order of the numbers is the lexicographic order of their 32
    /// big-endian bytes.
    pub fn less(&self, other: &UInt256) -> (r: bool)
        ensures
            r == (self.as_nat() < other.as_nat()),
    {
        if self.w0 != other.w0 {
            self.w0 < other.w0
        } else if self.w1 != other.w1 {
            self.w1 < other.w1
        } else if self.w2 != other.w2 {
            self.w2 < other.w2
        } else {
            self.w3 < other.w3
        }
    }

    /// The four most significant bytes, most significant first.
    pub fn leading_bytes(&self) -> (r: [u8; 4])
        ensures
            r@.len() == 4,
            forall|i: int| 0 <= i < 4 ==> #[trigger] r@[i] == self.byte(i),
    {
        let w: u64 = self.w0;
        let b0: u8 = (w / 0x100_0000_0000_0000) as u8;
        let b1: u8 = ((w / 0x1_0000_0000_0000) % 256) as u8;
        let b2: u8 = ((w / 0x100_0000_0000) % 256) as u8;
        let b3: u8 = ((w / 0x1_0000_0000) % 256) as u8;
        [b0, b1, b2, b3]
    }

    /// Byte `i` of the most significant word, counted from its top.
    pub open spec fn byte(self, i: int) -> u8 {
        (if i == 0 {
            self.w0 as int / 0x100_0000_0000_0000
        } else if i == 1 {
            (self.w0 as int / 0x1_0000_0000_0000) % 256
        } else if i == 2 {
            (self.w0 as int / 0x100_0000_0000) % 256
        } else {
            (self.w0 as int / 0x1_0000_0000) % 256
        }) as u8
    }
}

impl Key for UInt256 {
    fn same(&self, other: &Self) -> (r: bool) {
        *self == *other
    }
}

/// Two values with the same number have the same words.
pub proof fn uint256_number_is_identity(a: UInt256, b: UInt256)
    ensures
        a.as_nat() == b.as_nat() <==> a == b,
{
}

/// A shard of a workchain.
#[derive(Clone, Copy, Debug, PartialEq, Eq, PartialOrd, Ord, Hash, Structural)]
pub struct ShardIdent {
    pub workchain_id: i32,
    pub prefix: u64,
}

impl ShardIdent {
    /// Whether the shard belongs to the masterchain.
    pub fn is_masterchain(&self) -> (r: bool)
        ensures
            r == self.masterchain(),
    {
        self.workchain_id == MASTERCHAIN_ID
    }

    /// Whether the shard belongs to the masterchain.
    pub open spec fn masterchain(self) -> bool {
        self.workchain_id == MASTERCHAIN_ID
    }
}

impl Default for ShardIdent {
    fn default() -> (r: Self)
        ensures
            r == (ShardIdent { workchain_id: 0, prefix: SHARD_FULL }),
    {
        ShardIdent { workchain_id: 0, prefix: SHARD_FULL }
    }
}

/// Full identifier of a block.
#[derive(Clone, Copy, Debug, PartialEq, Eq, PartialOrd, Ord, Hash, Structural)]
pub struct BlockIdExt {
    pub shard_id: ShardIdent,
    pub seq_no: u32,
    pub root_hash: UInt256,
    pub file_hash: UInt256,
}

impl BlockIdExt {
    /// The identifier that stands in where no block is known.
    pub open spec fn placeholder() -> BlockIdExt {
        BlockIdExt {
            shard_id: ShardIdent { workchain_id: 0, prefix: SHARD_FULL },
            seq_no: 0,
            root_hash: UInt256 { w0: 0, w1: 0, w2: 0, w3: 0 },
            file_hash: UInt256 { w0: 0, w1: 0, w2: 0, w3: 0 },
        }
    }
}

impl BlockIdExt {
    /// Whether the block comes before `other`: by shard, then by seqno, then by
    /// root hash, then by file hash.
    pub open spec fn before(self, other: BlockIdExt) -> bool {
        if self.shard_id.workchain_id != other.shard_id.workchain_id {
            self.shard_id.workchain_id < other.shard_id.workchain_id
        } else if self.shard_id.prefix != other.shard_id.prefix {
            self.shard_id.prefix < other.shard_id.prefix
        } else if self.seq_no != other.seq_no {
            self.seq_no < other.seq_no
        } else if self.root_hash != other.root_hash {
            self.root_hash.as_nat() < other.root_hash.as_nat()
        } else {
            self.file_hash.as_nat() < other.file_hash.as_nat()
        }
    }

    /// Whether the block comes before `other`.
    pub fn less(&self, other: &BlockIdExt) -> (r: bool)
        ensures
            r == self.before(*other),
    {
        if self.shard_id.workchain_id != other.shard_id.workchain_id {
            self.shard_id.workchain_id < other.shard_id.workchain_id
        } else if self.shard_id.prefix != other.shard_id.prefix {
            self.shard_id.prefix < other.shard_id.prefix
        } else if self.seq_no != other.seq_no {
            self.seq_no < other.seq_no
        } else if self.root_hash != other.root_hash {
            self.root_hash.less(&other.root_hash)
        } else {
            self.file_hash.less(&other.file_hash)
        }
    }
}

/// Of two different blocks exactly one comes before the other, and the order
/// is transitive.
pub proof fn blocks_are_ordered(a: BlockIdExt, b: BlockIdExt, c: BlockIdExt)
    ensures
        a != b ==> a.before(b) != b.before(a),
        !a.before(a),
        a.before(b) && b.before(c) ==> a.before(c),
{
    uint256_number_is_identity(a.root_hash, b.root_hash);
    uint256_number_is_identity(b.root_hash, c.root_hash);
    uint256_number_is_identity(a.root_hash, c.root_hash);
    uint256_number_is_identity(a.file_hash, b.file_hash);
}

impl Default for BlockIdExt {
    fn default() -> (r: Self)
        ensures
            r == BlockIdExt::placeholder(),
    {
        BlockIdExt {
            shard_id: ShardIdent { workchain_id: 0, prefix: SHARD_FULL },
            seq_no: 0,
            root_hash: UInt256 { w0: 0, w1: 0, w2: 0, w3: 0 },
            file_hash: UInt256 { w0: 0, w1: 0, w2: 0, w3: 0 },
        }
    }
}

impl Key for BlockIdExt {
    fn same(&self, other: &Self) -> (r: bool) {
        *self == *other
    }
}

/// Blocks of one shard are ordered by seqno, whatever their hashes; those of one seqno by
/// root hash; and blocks of different workchains by workchain, whatever their seqnos.
pub proof fn later_blocks_come_after(a: BlockIdExt, b: BlockIdExt)
    ensures
        a.shard_id == b.shard_id && a.seq_no < b.seq_no ==> a.before(b) && !b.before(a),
        a.shard_id == b.shard_id && a.seq_no == b.seq_no && a.root_hash.as_nat()
            < b.root_hash.as_nat() ==> a.before(b) && !b.before(a),
        a.shard_id == b.shard_id && a.seq_no == b.seq_no && a.root_hash == b.root_hash ==> (
        a.before(b) <==> a.file_hash.as_nat() < b.file_hash.as_nat()),
        a.shard_id.workchain_id < b.shard_id.workchain_id ==> a.before(b) && !b.before(a),
{
}

} // verus!
