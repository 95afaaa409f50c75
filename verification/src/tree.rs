//! The binary search tree over the IP address space.
//!
//! The tree occupies the first `node_count` node slots of the file. Each
//! node holds a left and a right child reference, packed according to the
//! record size; one bit of the queried address, most significant first,
//! selects the side at every step.

use vstd::prelude::*;
use crate::LookupError;
use crate::model::be_val;

verus! {

/// Bytes per tree node: two record-size-bit values packed together.
pub open spec fn spec_node_bytes(rs: u8) -> nat {
    ((rs as nat) / 4)
}

/// The child reference of `node` on the given side. With 24 or 32 bits per
/// record the two values sit side by side; with 28 bits they share the
/// middle byte, the left value taking its high nibble.
pub open spec fn spec_node_child(tree: Seq<u8>, rs: u8, node: nat, right: bool) -> nat {
    let base = (node * spec_node_bytes(rs)) as int;
    if rs == 24 {
        if right {
            be_val(tree, base + 3, 3)
        } else {
            be_val(tree, base, 3)
        }
    } else if rs == 28 {
        if right {
            ((tree[base + 3] % 16) * 0x1000000 + be_val(tree, base + 4, 3)) as nat
        } else {
            ((tree[base + 3] / 16) * 0x1000000 + be_val(tree, base, 3)) as nat
        }
    } else {
        if right {
            be_val(tree, base + 4, 4)
        } else {
            be_val(tree, base, 4)
        }
    }
}

/// Walks the tree from `node`, consuming the address bits from index `i`
/// on. A child equal to `node_count` means no entry; a smaller child is the
/// next node; a larger one encodes the data-section offset `child - nc`.
/// A node slot beyond the tree bytes is a structural fault; running out of
/// bits is a plain miss.
pub open spec fn spec_find(
    tree: Seq<u8>,
    nc: u32,
    rs: u8,
    key: u128,
    width: nat,
    node: nat,
    i: nat,
) -> Result<Option<u64>, LookupError>
    decreases width - i,
{
    if i >= width {
        Ok(None)
    } else {
        let nb = spec_node_bytes(rs);
        if node * nb + nb > tree.len() {
            Err(LookupError::Traversal)
        } else {
            let right = ((key >> (((width - 1 - i)) as u128)) & 1) == 1;
            let child = spec_node_child(tree, rs, node, right);
            if child == nc {
                Ok(None)
            } else if child < nc {
                spec_find(tree, nc, rs, key, width, child, (i + 1) as nat)
            } else {
                Ok(Some((child - nc) as u64))
            }
        }
    }
}

/// Reads the child reference of `node` on the given side.
pub(crate) fn node_child(tree: &[u8], rs: u8, node: u32, right: bool) -> (r: Result<
    u32,
    LookupError,
>)
    requires
        rs == 24 || rs == 28 || rs == 32,
    ensures
        match r {
            Ok(c) => (node as nat) * spec_node_bytes(rs) + spec_node_bytes(rs) <= tree@.len()
                && c as nat == spec_node_child(tree@, rs, node as nat, right),
            Err(e) => e == LookupError::Traversal && (node as nat) * spec_node_bytes(rs)
                + spec_node_bytes(rs) > tree@.len(),
        },
{
    let nb: u64 = (rs / 4) as u64;
    assert((node as u64) * nb <= 0xFFFFFFFFu64 * 8) by (nonlinear_arith)
        requires
            node as u64 <= 0xFFFFFFFFu64,
            nb <= 8,
    ;
    let base64: u64 = (node as u64) * nb;
    if base64 > tree.len() as u64 || tree.len() as u64 - base64 < nb {
        return Err(LookupError::Traversal);
    }
    let base = base64 as usize;
    proof {
        crate::model::lemma_pow256_bounds();
    }
    if rs == 24 {
        let off: usize = if right {
            base + 3
        } else {
            base
        };
        Ok(read_be3(tree, off))
    } else if rs == 28 {
        let mid = tree[base + 3];
        if right {
            Ok(((mid % 16) as u32) * 0x1000000 + read_be3(tree, base + 4))
        } else {
            Ok(((mid / 16) as u32) * 0x1000000 + read_be3(tree, base))
        }
    } else {
        let off: usize = if right {
            base + 4
        } else {
            base
        };
        let v = crate::decode::read_be(tree, off, 4);
        Ok(v as u32)
    }
}

/// Reads a 3-byte big-endian value.
fn read_be3(d: &[u8], pos: usize) -> (r: u32)
    requires
        pos + 3 <= d@.len(),
    ensures
        r as nat == be_val(d@, pos as int, 3),
        r < 0x1000000,
{
    proof {
        crate::model::lemma_pow256_bounds();
    }
    let v = crate::decode::read_be(d, pos, 3);
    v as u32
}

/// Walks the tree for `key`, starting at `node` with bit index `i`.
pub(crate) fn find_from(
    tree: &[u8],
    nc: u32,
    rs: u8,
    key: u128,
    width: u32,
    node: u32,
    i: u32,
) -> (r: Result<Option<u64>, LookupError>)
    requires
        rs == 24 || rs == 28 || rs == 32,
        i <= width,
        width <= 128,
    ensures
        r == spec_find(tree@, nc, rs, key, width as nat, node as nat, i as nat),
    decreases width - i,
{
    if i >= width {
        return Ok(None);
    }
    let child = match node_child(tree, rs, node, ((key >> ((width - 1 - i) as u128)) & 1) == 1) {
        Ok(c) => c,
        Err(e) => {
            return Err(e);
        },
    };
    if child == nc {
        Ok(None)
    } else if child < nc {
        find_from(tree, nc, rs, key, width, child, i + 1)
    } else {
        Ok(Some((child - nc) as u64))
    }
}

} // verus!
