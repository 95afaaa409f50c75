//! The mathematical model of the database's self-describing data section.
//!
//! [`spec_decode`] is a full, generic decoder at the specification level: it
//! gives every well-formed byte range a [`Value`], following pointer
//! indirection up to a fuel bound. The executable code never materializes
//! these values; it decodes selectively, and its contracts state that what it
//! returns is exactly the projection ([`proj_value`]) of this full decoding.

use vstd::prelude::*;
use vstd::string::StringSliceAdditionalSpecFns;
use vstd::utf8::valid_utf8;
use crate::ext::wide_bits;

verus! {

/// A decoded value of the data section: a tagged variant over every kind
/// the format can encode.
pub enum Value {
    /// UTF-8 string payload, kept as its raw bytes.
    Text(Seq<u8>),
    /// Raw byte array.
    Blob(Seq<u8>),
    /// Unsigned integer of 16, 32, 64 or 128 bits.
    Unsigned(nat),
    /// Signed 32-bit integer.
    Signed(int),
    /// IEEE-754 double, kept as its bit pattern.
    DoubleBits(u64),
    /// IEEE-754 single-precision float, kept as its bit pattern.
    SingleBits(u32),
    /// Boolean, encoded in the size field of the control byte.
    Boolean(bool),
    /// Map: ordered key/value pairs, keys are strings.
    Dict(Seq<(Seq<u8>, Value)>),
    /// Array: ordered values.
    List(Seq<Value>),
    /// End-of-data marker.
    EndMarker,
}

/// 256 to the n-th power: the exclusive upper bound of an n-byte value.
pub open spec fn pow256(n: nat) -> nat
    decreases n,
{
    if n == 0 {
        1
    } else {
        256 * pow256((n - 1) as nat)
    }
}

pub proof fn lemma_pow256_bounds()
    ensures
        pow256(1) == 0x100,
        pow256(2) == 0x10000,
        pow256(3) == 0x1000000,
        pow256(4) == 0x100000000,
        pow256(8) == 0x10000000000000000,
        pow256(16) == 0x100000000000000000000000000000000,
{
    assert(pow256(0) == 1);
    assert(pow256(1) == 0x100);
    assert(pow256(2) == 0x10000);
    assert(pow256(3) == 0x1000000);
    assert(pow256(4) == 0x100000000);
    assert(pow256(5) == 0x10000000000);
    assert(pow256(6) == 0x1000000000000);
    assert(pow256(7) == 0x100000000000000);
    assert(pow256(8) == 0x10000000000000000);
    assert(pow256(9) == 0x1000000000000000000);
    assert(pow256(10) == 0x100000000000000000000);
    assert(pow256(11) == 0x10000000000000000000000);
    assert(pow256(12) == 0x1000000000000000000000000);
    assert(pow256(13) == 0x100000000000000000000000000);
    assert(pow256(14) == 0x10000000000000000000000000000);
    assert(pow256(15) == 0x1000000000000000000000000000000);
    assert(pow256(16) == 0x100000000000000000000000000000000);
}

pub proof fn lemma_pow256_mono(a: nat, b: nat)
    requires
        a <= b,
    ensures
        pow256(a) <= pow256(b),
    decreases b,
{
    if a < b {
        lemma_pow256_mono(a, (b - 1) as nat);
    }
}

/// The big-endian value of the `n` bytes of `d` starting at `pos`.
pub open spec fn be_val(d: Seq<u8>, pos: int, n: nat) -> nat
    decreases n,
{
    if n == 0 {
        0
    } else {
        (be_val(d, pos, (n - 1) as nat) * 256 + d[pos + n - 1]) as nat
    }
}

/// A parsed control byte of a non-pointer value: its type tag, its payload
/// size (after any extended-size bytes), and where the payload begins.
pub struct SpecCtrl {
    pub kind: nat,
    pub size: nat,
    pub payload: int,
}

/// Parses the control byte at `pos`, for every kind but pointers.
/// Type tag 0 extends the type from the following byte; size field values
/// 29, 30 and 31 extend the size from 1, 2 or 3 following bytes.
pub open spec fn spec_ctrl(d: Seq<u8>, pos: int) -> Option<SpecCtrl> {
    if !(0 <= pos < d.len()) {
        None
    } else {
        let c = d[pos];
        let t0 = c / 32;
        let s5 = (c % 32) as nat;
        if t0 == 1 {
            None
        } else if t0 == 0 && pos + 2 > d.len() {
            None
        } else {
            let kind: nat = if t0 == 0 {
                (d[pos + 1] + 7) as nat
            } else {
                t0 as nat
            };
            let kpos: int = if t0 == 0 {
                pos + 2
            } else {
                pos + 1
            };
            if s5 < 29 {
                Some(SpecCtrl { kind, size: s5, payload: kpos })
            } else {
                let ext = (s5 - 28) as nat;
                if kpos + ext > d.len() {
                    None
                } else {
                    let base: nat = if s5 == 29 {
                        29
                    } else if s5 == 30 {
                        285
                    } else {
                        65821
                    };
                    Some(
                        SpecCtrl {
                            kind,
                            size: base + be_val(d, kpos, ext),
                            payload: kpos + ext,
                        },
                    )
                }
            }
        }
    }
}

/// Parses the pointer control byte at `pos`: the target offset it redirects
/// to and the position just after the pointer bytes.
pub open spec fn spec_ptr(d: Seq<u8>, pos: int) -> Option<(int, int)> {
    if !(0 <= pos < d.len()) {
        None
    } else {
        let c = d[pos];
        if c / 32 != 1 {
            None
        } else {
            let ss = (c % 32) / 8;
            let vvv = (c % 8) as nat;
            if pos + 2 + ss > d.len() {
                None
            } else {
                let target: int = if ss == 0 {
                    (vvv * 256 + be_val(d, pos + 1, 1)) as int
                } else if ss == 1 {
                    (vvv * 65536 + be_val(d, pos + 1, 2) + 2048) as int
                } else if ss == 2 {
                    (vvv * 0x1000000 + be_val(d, pos + 1, 3) + 526336) as int
                } else {
                    be_val(d, pos + 1, 4) as int
                };
                Some((target, pos + 2 + ss))
            }
        }
    }
}

/// Decodes the value at `pos`, following pointers transparently. Yields the
/// value and the position just after its encoding in the original stream.
/// `None` on any structural fault: an unknown control byte, a payload past
/// the buffer end, a key that is not a string, or fuel exhausted by nesting
/// or by a pointer chain.
pub open spec fn spec_decode(d: Seq<u8>, pos: int, fuel: nat) -> Option<(Value, int)>
    decreases fuel, 0nat,
{
    if fuel == 0 {
        None
    } else if !(0 <= pos < d.len()) {
        None
    } else if d[pos] / 32 == 1 {
        match spec_ptr(d, pos) {
            None => None,
            Some((target, next)) => match spec_decode(d, target, (fuel - 1) as nat) {
                None => None,
                Some((v, _)) => Some((v, next)),
            },
        }
    } else {
        match spec_ctrl(d, pos) {
            None => None,
            Some(ctl) => {
                let k = ctl.kind;
                let sz = ctl.size;
                let p = ctl.payload;
                if k == 7 {
                    match spec_entries(d, p, sz, (fuel - 1) as nat) {
                        None => None,
                        Some((es, end)) => Some((Value::Dict(es), end)),
                    }
                } else if k == 11 {
                    match spec_items(d, p, sz, (fuel - 1) as nat) {
                        None => None,
                        Some((vs, end)) => Some((Value::List(vs), end)),
                    }
                } else if k == 14 {
                    if sz <= 1 {
                        Some((Value::Boolean(sz == 1), p))
                    } else {
                        None
                    }
                } else if k == 13 {
                    if sz == 0 {
                        Some((Value::EndMarker, p))
                    } else {
                        None
                    }
                } else if p + sz > d.len() {
                    None
                } else if k == 2 {
                    Some((Value::Text(d.subrange(p, p + sz)), p + sz))
                } else if k == 4 {
                    Some((Value::Blob(d.subrange(p, p + sz)), p + sz))
                } else if k == 3 {
                    if sz == 8 {
                        Some((Value::DoubleBits(be_val(d, p, 8) as u64), p + 8))
                    } else {
                        None
                    }
                } else if k == 15 {
                    if sz == 4 {
                        Some((Value::SingleBits(be_val(d, p, 4) as u32), p + 4))
                    } else {
                        None
                    }
                } else if k == 5 {
                    if sz <= 2 {
                        Some((Value::Unsigned(be_val(d, p, sz)), p + sz))
                    } else {
                        None
                    }
                } else if k == 6 {
                    if sz <= 4 {
                        Some((Value::Unsigned(be_val(d, p, sz)), p + sz))
                    } else {
                        None
                    }
                } else if k == 9 {
                    if sz <= 8 {
                        Some((Value::Unsigned(be_val(d, p, sz)), p + sz))
                    } else {
                        None
                    }
                } else if k == 10 {
                    if sz <= 16 {
                        Some((Value::Unsigned(be_val(d, p, sz)), p + sz))
                    } else {
                        None
                    }
                } else if k == 8 {
                    if sz <= 4 {
                        let n = be_val(d, p, sz);
                        let v: int = if sz == 4 && n >= 0x80000000 {
                            n - 0x100000000
                        } else {
                            n as int
                        };
                        Some((Value::Signed(v), p + sz))
                    } else {
                        None
                    }
                } else {
                    None
                }
            },
        }
    }
}

/// Decodes `n` key/value pairs of a map in sequence, starting at `pos`.
/// Every key must decode to a string.
pub open spec fn spec_entries(d: Seq<u8>, pos: int, n: nat, fuel: nat) -> Option<
    (Seq<(Seq<u8>, Value)>, int),
>
    decreases fuel, n,
{
    if n == 0 {
        Some((Seq::empty(), pos))
    } else {
        match spec_decode(d, pos, fuel) {
            Some((Value::Text(k), p1)) => match spec_decode(d, p1, fuel) {
                Some((v, p2)) => match spec_entries(d, p2, (n - 1) as nat, fuel) {
                    Some((rest, end)) => Some((seq![(k, v)] + rest, end)),
                    None => None,
                },
                None => None,
            },
            _ => None,
        }
    }
}

/// Decodes `n` values of an array in sequence, starting at `pos`.
pub open spec fn spec_items(d: Seq<u8>, pos: int, n: nat, fuel: nat) -> Option<(Seq<Value>, int)>
    decreases fuel, n,
{
    if n == 0 {
        Some((Seq::empty(), pos))
    } else {
        match spec_decode(d, pos, fuel) {
            Some((v, p1)) => match spec_items(d, p1, (n - 1) as nat, fuel) {
                Some((rest, end)) => Some((seq![v] + rest, end)),
                None => None,
            },
            None => None,
        }
    }
}

/// A sequence built by putting one element in front decomposes back into
/// that element and the rest.
pub proof fn lemma_cons<T>(x: T, rest: Seq<T>)
    ensures
        (seq![x] + rest).len() == rest.len() + 1,
        (seq![x] + rest).first() == x,
        (seq![x] + rest).drop_first() == rest,
{
    assert((seq![x] + rest).drop_first() =~= rest);
}

/// The projected form of one record: exactly the fields a lookup reports.
/// The country code is kept as its raw UTF-8 bytes; the coordinates as
/// IEEE-754 double bit patterns.
pub struct RecordM {
    pub iso: Option<Seq<u8>>,
    pub lat: Option<u64>,
    pub lon: Option<u64>,
    pub radius: Option<u16>,
}

/// The projection state before any field has been seen.
pub open spec fn empty_record_m() -> RecordM {
    RecordM { iso: None, lat: None, lon: None, radius: None }
}

/// Projects one coordinate value: a double as it stands, a single-precision
/// float widened; anything else is a type fault.
pub open spec fn proj_coord(v: Value) -> Option<u64> {
    match v {
        Value::DoubleBits(b) => Some(b),
        Value::SingleBits(s) => Some(wide_bits(s)),
        _ => None,
    }
}

/// Folds the entries of the `country` map over the projection state,
/// in order, later keys shadowing earlier ones.
pub open spec fn proj_country(es: Seq<(Seq<u8>, Value)>, acc: RecordM) -> Option<RecordM>
    decreases es.len(),
{
    if es.len() == 0 {
        Some(acc)
    } else {
        let (k, v) = es.first();
        let step: Option<RecordM> = if k == "iso_code".spec_bytes() {
            match v {
                Value::Text(b) => if valid_utf8(b) {
                    Some(RecordM { iso: Some(b), ..acc })
                } else {
                    None
                },
                _ => None,
            }
        } else {
            Some(acc)
        };
        match step {
            Some(a2) => proj_country(es.drop_first(), a2),
            None => None,
        }
    }
}

/// Folds the entries of the `location` map over the projection state.
/// The accuracy radius must be an unsigned integer fitting 16 bits.
pub open spec fn proj_location(es: Seq<(Seq<u8>, Value)>, acc: RecordM) -> Option<RecordM>
    decreases es.len(),
{
    if es.len() == 0 {
        Some(acc)
    } else {
        let (k, v) = es.first();
        let step: Option<RecordM> = if k == "latitude".spec_bytes() {
            match proj_coord(v) {
                Some(b) => Some(RecordM { lat: Some(b), ..acc }),
                None => None,
            }
        } else if k == "longitude".spec_bytes() {
            match proj_coord(v) {
                Some(b) => Some(RecordM { lon: Some(b), ..acc }),
                None => None,
            }
        } else if k == "accuracy_radius".spec_bytes() {
            match v {
                Value::Unsigned(n) => if n < 0x10000 {
                    Some(RecordM { radius: Some(n as u16), ..acc })
                } else {
                    None
                },
                _ => None,
            }
        } else {
            Some(acc)
        };
        match step {
            Some(a2) => proj_location(es.drop_first(), a2),
            None => None,
        }
    }
}

/// Folds the entries of a record's top-level map: `country` and `location`
/// must be maps and are projected; every other key is passed over.
pub open spec fn proj_top(es: Seq<(Seq<u8>, Value)>, acc: RecordM) -> Option<RecordM>
    decreases es.len(),
{
    if es.len() == 0 {
        Some(acc)
    } else {
        let (k, v) = es.first();
        let step: Option<RecordM> = if k == "country".spec_bytes() {
            match v {
                Value::Dict(ces) => proj_country(ces, acc),
                _ => None,
            }
        } else if k == "location".spec_bytes() {
            match v {
                Value::Dict(les) => proj_location(les, acc),
                _ => None,
            }
        } else {
            Some(acc)
        };
        match step {
            Some(a2) => proj_top(es.drop_first(), a2),
            None => None,
        }
    }
}

/// Projects a decoded value to a record: the value must be a map.
pub open spec fn proj_value(v: Value) -> Option<RecordM> {
    match v {
        Value::Dict(es) => proj_top(es, empty_record_m()),
        _ => None,
    }
}

/// The record projected from the value encoded at `pos`, or `None` where
/// the bytes there are structurally invalid or carry unexpected types.
pub open spec fn spec_project_at(d: Seq<u8>, pos: int, fuel: nat) -> Option<RecordM> {
    match spec_decode(d, pos, fuel) {
        Some((v, _)) => proj_value(v),
        None => None,
    }
}

} // verus!
