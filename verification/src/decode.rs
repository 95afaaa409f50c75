//! The executable, selective decoder for the data section.
//!
//! Every function here is verified against the full decoding model in
//! [`crate::model`]: a skip consumes exactly the bytes the model says the
//! value occupies, and the record projector returns exactly the projection
//! of the model's full decoding — selectivity changes what is materialized,
//! never what is observed.

use vstd::prelude::*;
use vstd::slice::{slice_subrange, slice_to_vec};
use vstd::string::StringSliceAdditionalSpecFns;
use vstd::utf8::{decode_utf8, decode_utf8_encode_utf8, valid_utf8};
use crate::LookupError;
use crate::ext::{utf8_string, widen_single};
use crate::model::{
    be_val, empty_record_m, lemma_pow256_bounds, pow256, proj_coord, proj_country, proj_location,
    proj_top, proj_value, spec_ctrl, spec_decode, spec_entries, spec_items, spec_project_at,
    spec_ptr, RecordM, Value,
};

verus! {

/// Reads the big-endian value of the `n` bytes at `pos`.
pub(crate) fn read_be(d: &[u8], pos: usize, n: usize) -> (r: u128)
    requires
        n <= 16,
        pos + n <= d@.len(),
    ensures
        r as nat == be_val(d@, pos as int, n as nat),
        (r as nat) < pow256(n as nat),
    decreases n,
{
    if n == 0 {
        0
    } else {
        let _dlen = d.len();
        let hi = read_be(d, pos, n - 1);
        proof {
            lemma_pow256_bounds();
            crate::model::lemma_pow256_mono((n - 1) as nat, 15);
        }
        hi * 256 + (d[pos + (n - 1)] as u128)
    }
}

/// A parsed non-pointer control byte.
pub(crate) struct Ctrl {
    pub kind: u16,
    pub size: usize,
    pub payload: usize,
}

/// Parses the control byte at `pos` (type tag, extended size, payload start).
pub(crate) fn read_ctrl(d: &[u8], pos: usize) -> (r: Result<Ctrl, LookupError>)
    ensures
        match spec_ctrl(d@, pos as int) {
            Some(c) => r matches Ok(ct) && ct.kind as nat == c.kind && ct.size as nat == c.size
                && ct.payload as int == c.payload,
            None => r == Err::<Ctrl, LookupError>(LookupError::DataMalformed),
        },
{
    if pos >= d.len() {
        return Err(LookupError::DataMalformed);
    }
    let c = d[pos];
    let t0 = c / 32;
    let s5 = c % 32;
    if t0 == 1 {
        return Err(LookupError::DataMalformed);
    }
    if t0 == 0 && d.len() - pos < 2 {
        return Err(LookupError::DataMalformed);
    }
    let kind: u16 = if t0 == 0 {
        d[pos + 1] as u16 + 7
    } else {
        t0 as u16
    };
    let kpos: usize = if t0 == 0 {
        pos + 2
    } else {
        pos + 1
    };
    if s5 < 29 {
        Ok(Ctrl { kind, size: s5 as usize, payload: kpos })
    } else {
        let ext: usize = (s5 - 28) as usize;
        if d.len() - kpos < ext {
            return Err(LookupError::DataMalformed);
        }
        let base: usize = if s5 == 29 {
            29
        } else if s5 == 30 {
            285
        } else {
            65821
        };
        let extv = read_be(d, kpos, ext);
        proof {
            lemma_pow256_bounds();
            crate::model::lemma_pow256_mono(ext as nat, 3);
        }
        Ok(Ctrl { kind, size: base + (extv as usize), payload: kpos + ext })
    }
}

/// Parses the pointer control byte at `pos`: target offset and the position
/// just after the pointer bytes.
pub(crate) fn read_ptr(d: &[u8], pos: usize) -> (r: Result<(usize, usize), LookupError>)
    ensures
        match spec_ptr(d@, pos as int) {
            Some((t, nx)) => r matches Ok(p) && p.0 as int == t && p.1 as int == nx,
            None => r == Err::<(usize, usize), LookupError>(LookupError::DataMalformed),
        },
{
    if pos >= d.len() {
        return Err(LookupError::DataMalformed);
    }
    let c = d[pos];
    if c / 32 != 1 {
        return Err(LookupError::DataMalformed);
    }
    let ss = (c % 32) / 8;
    let vvv = (c % 8) as usize;
    if d.len() - (pos + 1) < (ss as usize) + 1 {
        return Err(LookupError::DataMalformed);
    }
    proof {
        lemma_pow256_bounds();
    }
    let target: usize = if ss == 0 {
        vvv * 256 + (read_be(d, pos + 1, 1) as usize)
    } else if ss == 1 {
        vvv * 65536 + (read_be(d, pos + 1, 2) as usize) + 2048
    } else if ss == 2 {
        vvv * 0x1000000 + (read_be(d, pos + 1, 3) as usize) + 526336
    } else {
        read_be(d, pos + 1, 4) as usize
    };
    Ok((target, pos + 2 + (ss as usize)))
}

/// Skips the value at `pos`: advances to exactly the position the model
/// says the value's encoding ends, validating the value on the way
/// (pointers are followed, containers entered) without materializing it.
pub(crate) fn skip_value(d: &[u8], pos: usize, fuel: u32) -> (r: Result<usize, LookupError>)
    ensures
        match spec_decode(d@, pos as int, fuel as nat) {
            Some(t) => r matches Ok(p) && p as int == t.1,
            None => r == Err::<usize, LookupError>(LookupError::DataMalformed),
        },
    decreases fuel, 0int,
{
    if fuel == 0 {
        return Err(LookupError::DataMalformed);
    }
    if pos >= d.len() {
        return Err(LookupError::DataMalformed);
    }
    if d[pos] / 32 == 1 {
        let (target, next) = read_ptr(d, pos)?;
        let _ = skip_value(d, target, fuel - 1)?;
        return Ok(next);
    }
    let ctl = read_ctrl(d, pos)?;
    let k = ctl.kind;
    let sz = ctl.size;
    let p = ctl.payload;
    if k == 7 {
        let end = skip_entries(d, p, sz, fuel - 1)?;
        Ok(end)
    } else if k == 11 {
        let end = skip_items(d, p, sz, fuel - 1)?;
        Ok(end)
    } else if k == 14 {
        if sz <= 1 {
            Ok(p)
        } else {
            Err(LookupError::DataMalformed)
        }
    } else if k == 13 {
        if sz == 0 {
            Ok(p)
        } else {
            Err(LookupError::DataMalformed)
        }
    } else if sz > d.len() - p {
        Err(LookupError::DataMalformed)
    } else if k == 2 || k == 4 {
        Ok(p + sz)
    } else if k == 3 {
        if sz == 8 {
            Ok(p + 8)
        } else {
            Err(LookupError::DataMalformed)
        }
    } else if k == 15 {
        if sz == 4 {
            Ok(p + 4)
        } else {
            Err(LookupError::DataMalformed)
        }
    } else if k == 5 {
        if sz <= 2 {
            Ok(p + sz)
        } else {
            Err(LookupError::DataMalformed)
        }
    } else if k == 6 {
        if sz <= 4 {
            Ok(p + sz)
        } else {
            Err(LookupError::DataMalformed)
        }
    } else if k == 9 {
        if sz <= 8 {
            Ok(p + sz)
        } else {
            Err(LookupError::DataMalformed)
        }
    } else if k == 10 {
        if sz <= 16 {
            Ok(p + sz)
        } else {
            Err(LookupError::DataMalformed)
        }
    } else if k == 8 {
        if sz <= 4 {
            Ok(p + sz)
        } else {
            Err(LookupError::DataMalformed)
        }
    } else {
        Err(LookupError::DataMalformed)
    }
}

/// Skips `n` map entries, checking that each key is a string.
pub(crate) fn skip_entries(d: &[u8], pos: usize, n: usize, fuel: u32) -> (r: Result<
    usize,
    LookupError,
>)
    ensures
        match spec_entries(d@, pos as int, n as nat, fuel as nat) {
            Some(t) => r matches Ok(p) && p as int == t.1,
            None => r == Err::<usize, LookupError>(LookupError::DataMalformed),
        },
    decreases fuel, n,
{
    let mut cur = pos;
    let mut i: usize = 0;
    while i < n
        invariant
            i <= n,
            match (
                spec_entries(d@, pos as int, n as nat, fuel as nat),
                spec_entries(d@, cur as int, (n - i) as nat, fuel as nat),
            ) {
                (Some(t), Some(t2)) => t.1 == t2.1,
                (None, None) => true,
                _ => false,
            },
        decreases n - i,
    {
        let (_, p1) = match decode_text(d, cur, fuel) {
            Ok(t) => t,
            Err(e) => {
                return Err(e);
            },
        };
        cur = match skip_value(d, p1, fuel) {
            Ok(p) => p,
            Err(e) => {
                return Err(e);
            },
        };
        i = i + 1;
    }
    Ok(cur)
}

/// Skips `n` array items.
pub(crate) fn skip_items(d: &[u8], pos: usize, n: usize, fuel: u32) -> (r: Result<
    usize,
    LookupError,
>)
    ensures
        match spec_items(d@, pos as int, n as nat, fuel as nat) {
            Some(t) => r matches Ok(p) && p as int == t.1,
            None => r == Err::<usize, LookupError>(LookupError::DataMalformed),
        },
    decreases fuel, n,
{
    let mut cur = pos;
    let mut i: usize = 0;
    while i < n
        invariant
            i <= n,
            match (
                spec_items(d@, pos as int, n as nat, fuel as nat),
                spec_items(d@, cur as int, (n - i) as nat, fuel as nat),
            ) {
                (Some(t), Some(t2)) => t.1 == t2.1,
                (None, None) => true,
                _ => false,
            },
        decreases n - i,
    {
        cur = match skip_value(d, cur, fuel) {
            Ok(p) => p,
            Err(e) => {
                return Err(e);
            },
        };
        i = i + 1;
    }
    Ok(cur)
}

/// Decodes the value at `pos`, which must be a string (possibly behind
/// pointers); hands back its bytes and the position after its encoding.
pub(crate) fn decode_text(d: &[u8], pos: usize, fuel: u32) -> (r: Result<
    (Vec<u8>, usize),
    LookupError,
>)
    ensures
        match spec_decode(d@, pos as int, fuel as nat) {
            Some((Value::Text(b), nx)) => r matches Ok(t) && t.0@ == b && t.1 as int == nx,
            _ => r == Err::<(Vec<u8>, usize), LookupError>(LookupError::DataMalformed),
        },
    decreases fuel,
{
    if fuel == 0 {
        return Err(LookupError::DataMalformed);
    }
    if pos >= d.len() {
        return Err(LookupError::DataMalformed);
    }
    if d[pos] / 32 == 1 {
        let (target, next) = read_ptr(d, pos)?;
        let (b, _) = decode_text(d, target, fuel - 1)?;
        return Ok((b, next));
    }
    let ctl = read_ctrl(d, pos)?;
    if ctl.kind != 2 {
        return Err(LookupError::DataMalformed);
    }
    if ctl.size > d.len() - ctl.payload {
        return Err(LookupError::DataMalformed);
    }
    let b = slice_to_vec(slice_subrange(d, ctl.payload, ctl.payload + ctl.size));
    Ok((b, ctl.payload + ctl.size))
}

/// Decodes the value at `pos`, which must be an unsigned integer of any
/// width (possibly behind pointers).
pub(crate) fn decode_unsigned(d: &[u8], pos: usize, fuel: u32) -> (r: Result<
    (u128, usize),
    LookupError,
>)
    ensures
        match spec_decode(d@, pos as int, fuel as nat) {
            Some((Value::Unsigned(n), nx)) => r matches Ok(t) && t.0 as nat == n && t.1 as int
                == nx,
            _ => r == Err::<(u128, usize), LookupError>(LookupError::DataMalformed),
        },
    decreases fuel,
{
    if fuel == 0 {
        return Err(LookupError::DataMalformed);
    }
    if pos >= d.len() {
        return Err(LookupError::DataMalformed);
    }
    if d[pos] / 32 == 1 {
        let (target, next) = read_ptr(d, pos)?;
        let (v, _) = decode_unsigned(d, target, fuel - 1)?;
        return Ok((v, next));
    }
    let ctl = read_ctrl(d, pos)?;
    let k = ctl.kind;
    let cap: usize = if k == 5 {
        2
    } else if k == 6 {
        4
    } else if k == 9 {
        8
    } else if k == 10 {
        16
    } else {
        return Err(LookupError::DataMalformed);
    };
    if ctl.size > cap {
        return Err(LookupError::DataMalformed);
    }
    if ctl.size > d.len() - ctl.payload {
        return Err(LookupError::DataMalformed);
    }
    let v = read_be(d, ctl.payload, ctl.size);
    Ok((v, ctl.payload + ctl.size))
}

/// Decodes the value at `pos`, which must be a coordinate: an IEEE-754
/// double kept as its bits, or a single-precision float widened exactly.
pub(crate) fn decode_coord(d: &[u8], pos: usize, fuel: u32) -> (r: Result<
    (u64, usize),
    LookupError,
>)
    ensures
        match spec_decode(d@, pos as int, fuel as nat) {
            Some((v, nx)) => match proj_coord(v) {
                Some(b) => r matches Ok(t) && t.0 == b && t.1 as int == nx,
                None => r == Err::<(u64, usize), LookupError>(LookupError::DataMalformed),
            },
            None => r == Err::<(u64, usize), LookupError>(LookupError::DataMalformed),
        },
    decreases fuel,
{
    if fuel == 0 {
        return Err(LookupError::DataMalformed);
    }
    if pos >= d.len() {
        return Err(LookupError::DataMalformed);
    }
    if d[pos] / 32 == 1 {
        let (target, next) = read_ptr(d, pos)?;
        let (v, _) = decode_coord(d, target, fuel - 1)?;
        return Ok((v, next));
    }
    let ctl = read_ctrl(d, pos)?;
    proof {
        lemma_pow256_bounds();
    }
    if ctl.kind == 3 {
        if ctl.size != 8 {
            return Err(LookupError::DataMalformed);
        }
        if ctl.size > d.len() - ctl.payload {
            return Err(LookupError::DataMalformed);
        }
        let v = read_be(d, ctl.payload, 8);
        Ok((v as u64, ctl.payload + 8))
    } else if ctl.kind == 15 {
        if ctl.size != 4 {
            return Err(LookupError::DataMalformed);
        }
        if ctl.size > d.len() - ctl.payload {
            return Err(LookupError::DataMalformed);
        }
        let v = read_be(d, ctl.payload, 4);
        Ok((widen_single(v as u32), ctl.payload + 4))
    } else {
        Err(LookupError::DataMalformed)
    }
}

/// Compares two byte slices for equality.
pub(crate) fn bytes_eq(a: &[u8], b: &[u8]) -> (r: bool)
    ensures
        r == (a@ == b@),
{
    if a.len() != b.len() {
        return false;
    }
    let mut i: usize = 0;
    while i < a.len()
        invariant
            i <= a@.len(),
            a@.len() == b@.len(),
            forall|j: int| 0 <= j < i ==> a@[j] == b@[j],
        decreases a@.len() - i,
    {
        if a[i] != b[i] {
            return false;
        }
        i = i + 1;
    }
    proof {
        assert(a@ =~= b@);
    }
    true
}

/// One step of a map-entry walk: once the key at `pos` is known to decode
/// as the string `k` ending at `p1`, the whole entry sequence decomposes
/// into that first entry and the rest.
pub(crate) proof fn lemma_entry_step(d: Seq<u8>, pos: int, n: nat, fuel: nat, k: Seq<u8>, p1: int)
    requires
        n > 0,
        spec_decode(d, pos, fuel) == Some((Value::Text(k), p1)),
    ensures
        match spec_decode(d, p1, fuel) {
            Some((v, p2)) => match spec_entries(d, p2, (n - 1) as nat, fuel) {
                Some((rest, end)) => spec_entries(d, pos, n, fuel) == Some(
                    ((seq![(k, v)] + rest), end),
                ) && (seq![(k, v)] + rest).first() == (k, v) && (seq![(k, v)]
                    + rest).drop_first() == rest && (seq![(k, v)] + rest).len() == rest.len() + 1,
                None => spec_entries(d, pos, n, fuel) is None,
            },
            None => spec_entries(d, pos, n, fuel) is None,
        },
{
    match spec_decode(d, p1, fuel) {
        Some((v, p2)) => match spec_entries(d, p2, (n - 1) as nat, fuel) {
            Some((rest, end)) => {
                crate::model::lemma_cons((k, v), rest);
            },
            None => {},
        },
        None => {},
    }
}

/// The partially projected record as the executable walkers carry it: the
/// country code already checked and decoded as UTF-8, the coordinates as
/// double bit patterns.
pub(crate) struct RecM {
    pub iso: Option<String>,
    pub lat: Option<u64>,
    pub lon: Option<u64>,
    pub radius: Option<u16>,
}

impl RecM {
    /// The model-level projection state this value stands for.
    pub(crate) open spec fn m(&self) -> RecordM {
        RecordM {
            iso: match self.iso {
                Some(s) => Some(vstd::utf8::encode_utf8(s@)),
                None => None,
            },
            lat: self.lat,
            lon: self.lon,
            radius: self.radius,
        }
    }
}

/// Enters the map value at `pos`, following pointers: hands back the entry
/// count, the position of the first entry, the fuel the model charges the
/// entries with, and — where the map stood behind a pointer — the position
/// in the original stream to continue at.
pub(crate) fn enter_dict(d: &[u8], pos: usize, fuel: u32) -> (r: Result<
    (usize, usize, u32, Option<usize>),
    LookupError,
>)
    ensures
        r matches Ok(t) ==> (match spec_entries(d@, t.1 as int, t.0 as nat, t.2 as nat) {
            Some((es, e2)) => spec_decode(d@, pos as int, fuel as nat) == Some(
                (
                    Value::Dict(es),
                    match t.3 {
                        Some(nx) => nx as int,
                        None => e2,
                    },
                ),
            ),
            None => spec_decode(d@, pos as int, fuel as nat) is None,
        }),
        r matches Err(e) ==> e == LookupError::DataMalformed && !(spec_decode(
            d@,
            pos as int,
            fuel as nat,
        ) matches Some((Value::Dict(es), nx))),
    decreases fuel,
{
    if fuel == 0 {
        return Err(LookupError::DataMalformed);
    }
    if pos >= d.len() {
        return Err(LookupError::DataMalformed);
    }
    if d[pos] / 32 == 1 {
        let (target, next) = read_ptr(d, pos)?;
        let (n, inside, rf, _) = enter_dict(d, target, fuel - 1)?;
        return Ok((n, inside, rf, Some(next)));
    }
    let ctl = read_ctrl(d, pos)?;
    if ctl.kind != 7 {
        return Err(LookupError::DataMalformed);
    }
    Ok((ctl.size, ctl.payload, fuel - 1, None))
}

/// Walks the entries of a `country` map, keeping only `iso_code`; `rm0`
/// is the projection state the walk starts from.
pub(crate) fn walk_country(
    d: &[u8],
    pos: usize,
    n: usize,
    fuel: u32,
    Ghost(rm0): Ghost<RecordM>,
    rm: RecM,
) -> (r: Result<(RecM, usize), LookupError>)
    requires
        rm.m() == rm0,
    ensures
        match spec_entries(d@, pos as int, n as nat, fuel as nat) {
            Some((es, end)) => match proj_country(es, rm0) {
                Some(out) => r matches Ok(t) && t.0.m() == out && t.1 as int == end,
                None => r == Err::<(RecM, usize), LookupError>(LookupError::DataMalformed),
            },
            None => r == Err::<(RecM, usize), LookupError>(LookupError::DataMalformed),
        },
{
    let mut acc = rm;
    let mut cur = pos;
    let mut i: usize = 0;
    while i < n
        invariant
            i <= n,
            match (
                spec_entries(d@, pos as int, n as nat, fuel as nat),
                spec_entries(d@, cur as int, (n - i) as nat, fuel as nat),
            ) {
                (Some(t), Some(t2)) => t.1 == t2.1 && proj_country(t.0, rm0) == proj_country(
                    t2.0,
                    acc.m(),
                ),
                (None, None) => true,
                _ => false,
            },
        decreases n - i,
    {
        let (kb, p1) = match decode_text(d, cur, fuel) {
            Ok(t) => t,
            Err(e) => {
                return Err(e);
            },
        };
        proof {
            lemma_entry_step(d@, cur as int, (n - i) as nat, fuel as nat, kb@, p1 as int);
        }
        if bytes_eq(kb.as_slice(), "iso_code".as_bytes()) {
            let (vb, p2) = match decode_text(d, p1, fuel) {
                Ok(t) => t,
                Err(e) => {
                    return Err(e);
                },
            };
            let ghost vbytes = vb@;
            match utf8_string(vb) {
                Some(s) => {
                    proof {
                        decode_utf8_encode_utf8(vbytes);
                    }
                    acc = RecM { iso: Some(s), ..acc };
                    cur = p2;
                },
                None => {
                    return Err(LookupError::DataMalformed);
                },
            }
        } else {
            cur = match skip_value(d, p1, fuel) {
                Ok(p) => p,
                Err(e) => {
                    return Err(e);
                },
            };
        }
        i = i + 1;
    }
    Ok((acc, cur))
}

/// Walks the entries of a `location` map, keeping latitude, longitude and
/// the accuracy radius; `rm0` is the projection state the walk starts from.
pub(crate) fn walk_location(
    d: &[u8],
    pos: usize,
    n: usize,
    fuel: u32,
    Ghost(rm0): Ghost<RecordM>,
    rm: RecM,
) -> (r: Result<(RecM, usize), LookupError>)
    requires
        rm.m() == rm0,
    ensures
        match spec_entries(d@, pos as int, n as nat, fuel as nat) {
            Some((es, end)) => match proj_location(es, rm0) {
                Some(out) => r matches Ok(t) && t.0.m() == out && t.1 as int == end,
                None => r == Err::<(RecM, usize), LookupError>(LookupError::DataMalformed),
            },
            None => r == Err::<(RecM, usize), LookupError>(LookupError::DataMalformed),
        },
{
    let mut acc = rm;
    let mut cur = pos;
    let mut i: usize = 0;
    while i < n
        invariant
            i <= n,
            match (
                spec_entries(d@, pos as int, n as nat, fuel as nat),
                spec_entries(d@, cur as int, (n - i) as nat, fuel as nat),
            ) {
                (Some(t), Some(t2)) => t.1 == t2.1 && proj_location(t.0, rm0) == proj_location(
                    t2.0,
                    acc.m(),
                ),
                (None, None) => true,
                _ => false,
            },
        decreases n - i,
    {
        let (kb, p1) = match decode_text(d, cur, fuel) {
            Ok(t) => t,
            Err(e) => {
                return Err(e);
            },
        };
        proof {
            lemma_entry_step(d@, cur as int, (n - i) as nat, fuel as nat, kb@, p1 as int);
        }
        if bytes_eq(kb.as_slice(), "latitude".as_bytes()) {
            let (b, p2) = match decode_coord(d, p1, fuel) {
                Ok(t) => t,
                Err(e) => {
                    return Err(e);
                },
            };
            acc = RecM { lat: Some(b), ..acc };
            cur = p2;
        } else if bytes_eq(kb.as_slice(), "longitude".as_bytes()) {
            let (b, p2) = match decode_coord(d, p1, fuel) {
                Ok(t) => t,
                Err(e) => {
                    return Err(e);
                },
            };
            acc = RecM { lon: Some(b), ..acc };
            cur = p2;
        } else if bytes_eq(kb.as_slice(), "accuracy_radius".as_bytes()) {
            let (v, p2) = match decode_unsigned(d, p1, fuel) {
                Ok(t) => t,
                Err(e) => {
                    return Err(e);
                },
            };
            if v >= 0x10000 {
                return Err(LookupError::DataMalformed);
            }
            acc = RecM { radius: Some(v as u16), ..acc };
            cur = p2;
        } else {
            cur = match skip_value(d, p1, fuel) {
                Ok(p) => p,
                Err(e) => {
                    return Err(e);
                },
            };
        }
        i = i + 1;
    }
    Ok((acc, cur))
}

/// Walks the entries of a record's top-level map, descending into
/// `country` and `location` and passing over everything else; `rm0` is the
/// projection state the walk starts from.
pub(crate) fn walk_top(
    d: &[u8],
    pos: usize,
    n: usize,
    fuel: u32,
    Ghost(rm0): Ghost<RecordM>,
    rm: RecM,
) -> (r: Result<(RecM, usize), LookupError>)
    requires
        rm.m() == rm0,
    ensures
        match spec_entries(d@, pos as int, n as nat, fuel as nat) {
            Some((es, end)) => match proj_top(es, rm0) {
                Some(out) => r matches Ok(t) && t.0.m() == out && t.1 as int == end,
                None => r == Err::<(RecM, usize), LookupError>(LookupError::DataMalformed),
            },
            None => r == Err::<(RecM, usize), LookupError>(LookupError::DataMalformed),
        },
{
    let mut acc = rm;
    let mut cur = pos;
    let mut i: usize = 0;
    while i < n
        invariant
            i <= n,
            match (
                spec_entries(d@, pos as int, n as nat, fuel as nat),
                spec_entries(d@, cur as int, (n - i) as nat, fuel as nat),
            ) {
                (Some(t), Some(t2)) => t.1 == t2.1 && proj_top(t.0, rm0) == proj_top(
                    t2.0,
                    acc.m(),
                ),
                (None, None) => true,
                _ => false,
            },
        decreases n - i,
    {
        let (kb, p1) = match decode_text(d, cur, fuel) {
            Ok(t) => t,
            Err(e) => {
                return Err(e);
            },
        };
        proof {
            lemma_entry_step(d@, cur as int, (n - i) as nat, fuel as nat, kb@, p1 as int);
        }
        if bytes_eq(kb.as_slice(), "country".as_bytes()) {
            let (cn, inside, rf, ov) = match enter_dict(d, p1, fuel) {
                Ok(t) => t,
                Err(e) => {
                    return Err(e);
                },
            };
            let (a2, e2) = match walk_country(d, inside, cn, rf, Ghost(acc.m()), acc) {
                Ok(t) => t,
                Err(e) => {
                    return Err(e);
                },
            };
            acc = a2;
            cur = match ov {
                Some(nx) => nx,
                None => e2,
            };
        } else if bytes_eq(kb.as_slice(), "location".as_bytes()) {
            let (cn, inside, rf, ov) = match enter_dict(d, p1, fuel) {
                Ok(t) => t,
                Err(e) => {
                    return Err(e);
                },
            };
            let (a2, e2) = match walk_location(d, inside, cn, rf, Ghost(acc.m()), acc) {
                Ok(t) => t,
                Err(e) => {
                    return Err(e);
                },
            };
            acc = a2;
            cur = match ov {
                Some(nx) => nx,
                None => e2,
            };
        } else {
            cur = match skip_value(d, p1, fuel) {
                Ok(p) => p,
                Err(e) => {
                    return Err(e);
                },
            };
        }
        i = i + 1;
    }
    Ok((acc, cur))
}

/// Selectively decodes the record at `pos`: exactly the projection of the
/// model's full decoding of the same bytes.
pub(crate) fn project_at(d: &[u8], pos: usize, fuel: u32) -> (r: Result<RecM, LookupError>)
    ensures
        match spec_project_at(d@, pos as int, fuel as nat) {
            Some(rm) => r matches Ok(rc) && rc.m() == rm,
            None => r == Err::<RecM, LookupError>(LookupError::DataMalformed),
        },
{
    let (n, inside, rf, _) = match enter_dict(d, pos, fuel) {
        Ok(t) => t,
        Err(_) => {
            return Err(LookupError::DataMalformed);
        },
    };
    let start = RecM { iso: None, lat: None, lon: None, radius: None };
    match walk_top(d, inside, n, rf, Ghost(start.m()), start) {
        Ok((rm, _)) => Ok(rm),
        Err(_) => Err(LookupError::DataMalformed),
    }
}

} // verus!
