//! The trailing metadata block: locating its marker and decoding the map
//! behind it.
//!
//! The marker is searched backward from the end of the file, within a
//! bounded window, so a corrupt file never costs a full scan. The map after
//! the marker is decoded with the same selective walker discipline as the
//! data section, against the same model.

use vstd::prelude::*;
use vstd::string::StringSliceAdditionalSpecFns;
use crate::FormatError;
use crate::decode::{
    bytes_eq, decode_text, decode_unsigned, enter_dict, lemma_entry_step, skip_value,
};
use crate::model::{spec_decode, spec_entries, Value};

verus! {

/// Pointer-follow and nesting depth bound for every decode in this crate.
pub const FUEL: u32 = 128;

/// The marker byte sequence that introduces the metadata block:
/// three marker bytes, then the ASCII text `MaxMind.com`.
pub open spec fn spec_marker() -> Seq<u8> {
    seq![
        0xabu8,
        0xcdu8,
        0xefu8,
        0x4du8,
        0x61u8,
        0x78u8,
        0x4du8,
        0x69u8,
        0x6eu8,
        0x64u8,
        0x2eu8,
        0x63u8,
        0x6fu8,
        0x6du8,
    ]
}

/// True when the marker stands at `i`.
pub open spec fn marker_at(d: Seq<u8>, i: int) -> bool {
    0 <= i && i + 14 <= d.len() && d.subrange(i, i + 14) == spec_marker()
}

/// The lowest position the backward search will look at: the marker must
/// begin within the last 128 KiB of the file (plus its own length).
pub open spec fn window_lo(len: int) -> int {
    if len - 131086 > 0 {
        len - 131086
    } else {
        0
    }
}

/// Scans downward from `i` to `lo` for the marker.
pub open spec fn spec_scan(d: Seq<u8>, i: int, lo: int) -> Option<int>
    decreases i - lo + 1,
{
    if i < lo {
        None
    } else if marker_at(d, i) {
        Some(i)
    } else {
        spec_scan(d, i - 1, lo)
    }
}

/// The position of the last marker occurrence within the search window.
pub open spec fn spec_marker_pos(d: Seq<u8>) -> Option<int> {
    spec_scan(d, d.len() - 14, window_lo(d.len() as int))
}

/// The metadata fields as the walk over the map collects them: present or
/// absent, unbounded until validated.
pub struct MetaAccM {
    pub node_count: Option<nat>,
    pub record_size: Option<nat>,
    pub ip_version: Option<nat>,
    pub build_epoch: Option<nat>,
    pub major: Option<nat>,
    pub minor: Option<nat>,
}

/// The collection state before any key has been seen.
pub open spec fn empty_meta_m() -> MetaAccM {
    MetaAccM {
        node_count: None,
        record_size: None,
        ip_version: None,
        build_epoch: None,
        major: None,
        minor: None,
    }
}

/// Folds the entries of the metadata map: each known key must carry an
/// unsigned integer; unknown keys are passed over.
pub open spec fn proj_meta(es: Seq<(Seq<u8>, Value)>, acc: MetaAccM) -> Option<MetaAccM>
    decreases es.len(),
{
    if es.len() == 0 {
        Some(acc)
    } else {
        let (k, v) = es.first();
        let step: Option<MetaAccM> = if k == "node_count".spec_bytes() {
            match v {
                Value::Unsigned(n) => Some(MetaAccM { node_count: Some(n), ..acc }),
                _ => None,
            }
        } else if k == "record_size".spec_bytes() {
            match v {
                Value::Unsigned(n) => Some(MetaAccM { record_size: Some(n), ..acc }),
                _ => None,
            }
        } else if k == "ip_version".spec_bytes() {
            match v {
                Value::Unsigned(n) => Some(MetaAccM { ip_version: Some(n), ..acc }),
                _ => None,
            }
        } else if k == "build_epoch".spec_bytes() {
            match v {
                Value::Unsigned(n) => Some(MetaAccM { build_epoch: Some(n), ..acc }),
                _ => None,
            }
        } else if k == "binary_format_major_version".spec_bytes() {
            match v {
                Value::Unsigned(n) => Some(MetaAccM { major: Some(n), ..acc }),
                _ => None,
            }
        } else if k == "binary_format_minor_version".spec_bytes() {
            match v {
                Value::Unsigned(n) => Some(MetaAccM { minor: Some(n), ..acc }),
                _ => None,
            }
        } else {
            Some(acc)
        };
        match step {
            Some(a2) => proj_meta(es.drop_first(), a2),
            None => None,
        }
    }
}

/// The parsed, validated metadata of an open database.
#[derive(Clone, Copy, Debug, PartialEq, Eq, Structural)]
pub struct Metadata {
    /// Number of nodes in the search tree.
    pub node_count: u32,
    /// Bits per tree record: 24, 28 or 32.
    pub record_size: u8,
    /// Address family the tree is built over: 4 or 6.
    pub ip_version: u8,
    /// When the database was built, in seconds since the Unix epoch.
    pub build_epoch: u64,
    /// Major version of the binary format.
    pub binary_format_major: u16,
    /// Minor version of the binary format.
    pub binary_format_minor: u16,
}

/// The collected fields, projected from the map at the start of `md`, or
/// `None` where the bytes do not decode as a map of the expected types.
pub open spec fn spec_meta_at(md: Seq<u8>) -> Option<MetaAccM> {
    match spec_decode(md, 0, FUEL as nat) {
        Some((Value::Dict(es), _)) => proj_meta(es, empty_meta_m()),
        _ => None,
    }
}

/// Checks the collected fields: the four required keys must be present,
/// every field must fit its machine type, the record size must be 24, 28
/// or 32 and the address family 4 or 6. Absent optional fields are zero.
pub open spec fn spec_validate(acc: MetaAccM) -> Result<Metadata, FormatError> {
    match (acc.node_count, acc.record_size, acc.ip_version, acc.major) {
        (Some(nc), Some(rs), Some(iv), Some(ma)) => {
            let be = match acc.build_epoch {
                Some(n) => n,
                None => 0,
            };
            let mi = match acc.minor {
                Some(n) => n,
                None => 0,
            };
            if nc > 0xFFFFFFFF || !(rs == 24 || rs == 28 || rs == 32) || !(iv == 4 || iv == 6)
                || be > 0xFFFFFFFFFFFFFFFF || ma > 0xFFFF || mi > 0xFFFF {
                Err(FormatError::MetadataInvalid)
            } else {
                Ok(
                    Metadata {
                        node_count: nc as u32,
                        record_size: rs as u8,
                        ip_version: iv as u8,
                        build_epoch: be as u64,
                        binary_format_major: ma as u16,
                        binary_format_minor: mi as u16,
                    },
                )
            }
        },
        _ => Err(FormatError::MetadataInvalid),
    }
}

/// Parses the trailing metadata block of a whole database file: locates the
/// marker, decodes the map after it, validates the fields. On success also
/// gives the marker position, where the data section ends.
pub open spec fn spec_parse_metadata(d: Seq<u8>) -> Result<(Metadata, int), FormatError> {
    match spec_marker_pos(d) {
        None => Err(FormatError::MetadataNotFound),
        Some(i) => match spec_meta_at(d.subrange(i + 14, d.len() as int)) {
            None => Err(FormatError::MetadataMalformed),
            Some(acc) => match spec_validate(acc) {
                Ok(m) => Ok((m, i)),
                Err(e) => Err(e),
            },
        },
    }
}

/// The marker bytes as a value.
fn marker_bytes() -> (r: Vec<u8>)
    ensures
        r@ == spec_marker(),
{
    let v: Vec<u8> = vec![
        0xABu8,
        0xCDu8,
        0xEFu8,
        0x4Du8,
        0x61u8,
        0x78u8,
        0x4Du8,
        0x69u8,
        0x6Eu8,
        0x64u8,
        0x2Eu8,
        0x63u8,
        0x6Fu8,
        0x6Du8,
    ];
    proof {
        assert(v@ =~= spec_marker());
    }
    v
}

/// Finds the last marker occurrence within the search window.
fn find_marker(d: &[u8]) -> (r: Option<usize>)
    ensures
        match spec_marker_pos(d@) {
            Some(i) => r matches Some(p) && p as int == i,
            None => r is None,
        },
        r matches Some(p) ==> marker_at(d@, p as int),
{
    let dlen = d.len();
    if dlen < 14 {
        return None;
    }
    let marker = marker_bytes();
    let lo: usize = if dlen > 131086 {
        dlen - 131086
    } else {
        0
    };
    let mut i: usize = dlen - 14;
    loop
        invariant
            dlen == d@.len(),
            lo == window_lo(d@.len() as int),
            lo <= i <= d@.len() - 14,
            marker@ == spec_marker(),
            spec_marker_pos(d@) == spec_scan(d@, i as int, lo as int),
        decreases i - lo,
    {
        let window = vstd::slice::slice_subrange(d, i, i + 14);
        if bytes_eq(window, marker.as_slice()) {
            return Some(i);
        }
        if i == lo {
            proof {
                assert(spec_scan(d@, lo as int - 1, lo as int) is None);
            }
            return None;
        }
        i = i - 1;
    }
}

/// The metadata fields as the executable walk carries them.
#[derive(Clone, Copy)]
pub(crate) struct MetaAcc {
    pub node_count: Option<u128>,
    pub record_size: Option<u128>,
    pub ip_version: Option<u128>,
    pub build_epoch: Option<u128>,
    pub major: Option<u128>,
    pub minor: Option<u128>,
}

impl MetaAcc {
    /// The model-level collection state this value stands for.
    pub(crate) open spec fn m(&self) -> MetaAccM {
        MetaAccM {
            node_count: match self.node_count {
                Some(n) => Some(n as nat),
                None => None,
            },
            record_size: match self.record_size {
                Some(n) => Some(n as nat),
                None => None,
            },
            ip_version: match self.ip_version {
                Some(n) => Some(n as nat),
                None => None,
            },
            build_epoch: match self.build_epoch {
                Some(n) => Some(n as nat),
                None => None,
            },
            major: match self.major {
                Some(n) => Some(n as nat),
                None => None,
            },
            minor: match self.minor {
                Some(n) => Some(n as nat),
                None => None,
            },
        }
    }
}

/// Walks the entries of the metadata map, collecting the known fields.
fn walk_meta(d: &[u8], pos: usize, n: usize, fuel: u32, acc: MetaAcc) -> (r: Result<
    (MetaAcc, usize),
    FormatError,
>)
    ensures
        match spec_entries(d@, pos as int, n as nat, fuel as nat) {
            Some((es, end)) => match proj_meta(es, acc.m()) {
                Some(out) => r matches Ok(t) && t.0.m() == out && t.1 as int == end,
                None => r == Err::<(MetaAcc, usize), FormatError>(FormatError::MetadataMalformed),
            },
            None => r == Err::<(MetaAcc, usize), FormatError>(FormatError::MetadataMalformed),
        },
{
    let mut a = acc;
    let mut cur = pos;
    let mut i: usize = 0;
    while i < n
        invariant
            i <= n,
            match (
                spec_entries(d@, pos as int, n as nat, fuel as nat),
                spec_entries(d@, cur as int, (n - i) as nat, fuel as nat),
            ) {
                (Some(t), Some(t2)) => t.1 == t2.1 && proj_meta(t.0, acc.m()) == proj_meta(
                    t2.0,
                    a.m(),
                ),
                (None, None) => true,
                _ => false,
            },
        decreases n - i,
    {
        let (kb, p1) = match decode_text(d, cur, fuel) {
            Ok(t) => t,
            Err(_) => {
                return Err(FormatError::MetadataMalformed);
            },
        };
        proof {
            lemma_entry_step(d@, cur as int, (n - i) as nat, fuel as nat, kb@, p1 as int);
        }
        let known: u8 = if bytes_eq(kb.as_slice(), "node_count".as_bytes()) {
            1
        } else if bytes_eq(kb.as_slice(), "record_size".as_bytes()) {
            2
        } else if bytes_eq(kb.as_slice(), "ip_version".as_bytes()) {
            3
        } else if bytes_eq(kb.as_slice(), "build_epoch".as_bytes()) {
            4
        } else if bytes_eq(kb.as_slice(), "binary_format_major_version".as_bytes()) {
            5
        } else if bytes_eq(kb.as_slice(), "binary_format_minor_version".as_bytes()) {
            6
        } else {
            0
        };
        if known == 0 {
            cur = match skip_value(d, p1, fuel) {
                Ok(p) => p,
                Err(_) => {
                    return Err(FormatError::MetadataMalformed);
                },
            };
        } else {
            let (v, p2) = match decode_unsigned(d, p1, fuel) {
                Ok(t) => t,
                Err(_) => {
                    return Err(FormatError::MetadataMalformed);
                },
            };
            a = if known == 1 {
                MetaAcc { node_count: Some(v), ..a }
            } else if known == 2 {
                MetaAcc { record_size: Some(v), ..a }
            } else if known == 3 {
                MetaAcc { ip_version: Some(v), ..a }
            } else if known == 4 {
                MetaAcc { build_epoch: Some(v), ..a }
            } else if known == 5 {
                MetaAcc { major: Some(v), ..a }
            } else {
                MetaAcc { minor: Some(v), ..a }
            };
            cur = p2;
        }
        i = i + 1;
    }
    Ok((a, cur))
}

/// Parses and validates the trailing metadata block of the file `d`.
/// On success also returns the marker position.
pub fn parse_metadata(d: &[u8]) -> (r: Result<(Metadata, usize), FormatError>)
    ensures
        match spec_parse_metadata(d@) {
            Ok((m, i)) => r matches Ok(t) && t.0 == m && t.1 as int == i,
            Err(e) => r == Err::<(Metadata, usize), FormatError>(e),
        },
        r matches Ok(t) ==> t.1 + 14 <= d@.len(),
{
    let i = match find_marker(d) {
        Some(i) => i,
        None => {
            return Err(FormatError::MetadataNotFound);
        },
    };
    let dlen = d.len();
    let md = vstd::slice::slice_subrange(d, i + 14, dlen);
    let (n, inside, rf, _) = match enter_dict(md, 0, FUEL) {
        Ok(t) => t,
        Err(_) => {
            return Err(FormatError::MetadataMalformed);
        },
    };
    let start = MetaAcc {
        node_count: None,
        record_size: None,
        ip_version: None,
        build_epoch: None,
        major: None,
        minor: None,
    };
    let (acc, _) = match walk_meta(md, inside, n, rf, start) {
        Ok(t) => t,
        Err(_) => {
            return Err(FormatError::MetadataMalformed);
        },
    };
    let nc = match acc.node_count {
        Some(v) => v,
        None => {
            return Err(FormatError::MetadataInvalid);
        },
    };
    let rs = match acc.record_size {
        Some(v) => v,
        None => {
            return Err(FormatError::MetadataInvalid);
        },
    };
    let iv = match acc.ip_version {
        Some(v) => v,
        None => {
            return Err(FormatError::MetadataInvalid);
        },
    };
    let ma = match acc.major {
        Some(v) => v,
        None => {
            return Err(FormatError::MetadataInvalid);
        },
    };
    let be = match acc.build_epoch {
        Some(v) => v,
        None => 0,
    };
    let mi = match acc.minor {
        Some(v) => v,
        None => 0,
    };
    if nc > 0xFFFFFFFF || !(rs == 24 || rs == 28 || rs == 32) || !(iv == 4 || iv == 6) || be
        > 0xFFFFFFFFFFFFFFFF || ma > 0xFFFF || mi > 0xFFFF {
        return Err(FormatError::MetadataInvalid);
    }
    Ok(
        (
            Metadata {
                node_count: nc as u32,
                record_size: rs as u8,
                ip_version: iv as u8,
                build_epoch: be as u64,
                binary_format_major: ma as u16,
                binary_format_minor: mi as u16,
            },
            i,
        ),
    )
}

} // verus!
