//! The database reader: open once, look up concurrently.
//!
//! A [`Reader`] owns the tree bytes, the data-section bytes and the parsed
//! metadata, all immutable after [`Reader::open`], plus the load timestamp
//! and its HTTP-date text, both computed exactly once at open time.

use vstd::prelude::*;
use crate::{FormatError, LookupError};
use crate::decode::project_at;
use crate::ext::{http_date_of, http_date_string, now_epoch};
use crate::ip::Ip;
use crate::meta::{parse_metadata, spec_parse_metadata, Metadata, FUEL};
use crate::model::{spec_decode, spec_project_at, RecordM};
use crate::tree::{find_from, spec_find, spec_node_bytes};

verus! {

/// Information about the country of a looked-up address.
#[derive(Debug, PartialEq)]
pub struct Country {
    /// Two-character ISO 3166-1 code of the country, where the record
    /// carries one.
    pub iso_code: Option<String>,
}

/// Approximate geographic coordinates of a looked-up address.
#[derive(Debug, PartialEq, Eq, Clone, Copy)]
pub struct Location {
    /// Approximate latitude, as the bit pattern of an IEEE-754 double.
    pub latitude: Option<u64>,
    /// Approximate longitude, as the bit pattern of an IEEE-754 double.
    pub longitude: Option<u64>,
    /// Accuracy radius in kilometers around the coordinates.
    pub accuracy_radius: Option<u16>,
}

/// The minimal record a lookup reports: country and location, every field
/// optional because the database may omit any of them.
#[derive(Debug, PartialEq)]
pub struct Record {
    /// Country information of the record.
    pub country: Country,
    /// Coordinate information of the record.
    pub location: Location,
}

impl Record {
    /// The model-level projection this record stands for: the country code
    /// as its UTF-8 bytes, the coordinates as double bit patterns.
    pub open spec fn m(&self) -> RecordM {
        RecordM {
            iso: match self.country.iso_code {
                Some(s) => Some(vstd::utf8::encode_utf8(s@)),
                None => None,
            },
            lat: self.location.latitude,
            lon: self.location.longitude,
            radius: self.location.accuracy_radius,
        }
    }
}

/// The mathematical content of a reader: the two byte regions, the parsed
/// metadata, and the cached load time with its formatted text.
pub struct ReaderView {
    pub tree: Seq<u8>,
    pub data: Seq<u8>,
    pub meta: Metadata,
    pub load_secs: u64,
    pub load_text: Seq<char>,
}

/// The key bits and bit width a lookup walks the tree with: an IPv4
/// address in an IPv6-wide tree walks the 96 leading zero bits first (the
/// zero-extension does exactly that); an IPv6 address cannot be looked up
/// in an IPv4 tree at all.
pub open spec fn spec_key(meta: Metadata, ip: Ip) -> Option<(u128, nat)> {
    match ip {
        Ip::V4(a) => if meta.ip_version == 4 {
            Some((a as u128, 32))
        } else {
            Some((a as u128, 128))
        },
        Ip::V6(x) => if meta.ip_version == 6 {
            Some((x, 128))
        } else {
            None
        },
    }
}

/// What a lookup returns, at the model level: the walk of the search tree
/// followed by the selective projection of the record it points at. The
/// data-section offset counts from the end of the tree; the 16-byte
/// separator precedes the section itself.
pub open spec fn spec_lookup(rv: ReaderView, ip: Ip) -> Result<RecordM, LookupError> {
    match spec_key(rv.meta, ip) {
        None => Err(LookupError::NotFound),
        Some((key, width)) => match spec_find(
            rv.tree,
            rv.meta.node_count,
            rv.meta.record_size,
            key,
            width,
            0,
            0,
        ) {
            Err(e) => Err(e),
            Ok(None) => Err(LookupError::NotFound),
            Ok(Some(off)) => if off < 16 {
                Err(LookupError::DataMalformed)
            } else {
                match spec_project_at(rv.data, off - 16, FUEL as nat) {
                    Some(rm) => Ok(rm),
                    None => Err(LookupError::DataMalformed),
                }
            },
        },
    }
}

/// An open database: immutable bytes and metadata, shared freely across
/// concurrent lookups.
pub struct Reader {
    tree: Vec<u8>,
    data: Vec<u8>,
    meta: Metadata,
    load_secs: u64,
    load_text: String,
}

impl View for Reader {
    type V = ReaderView;

    closed spec fn view(&self) -> ReaderView {
        ReaderView {
            tree: self.tree@,
            data: self.data@,
            meta: self.meta,
            load_secs: self.load_secs,
            load_text: self.load_text@,
        }
    }
}

impl Reader {
    /// Every reader carries validated metadata and a formatted load time.
    #[verifier::type_invariant]
    spec fn wf(self) -> bool {
        &&& (self.meta.record_size == 24 || self.meta.record_size == 28
            || self.meta.record_size == 32)
        &&& (self.meta.ip_version == 4 || self.meta.ip_version == 6)
        &&& self.load_secs < 253402300800
        &&& self.load_text@ == http_date_of(self.load_secs)
    }

    /// Opens a database from its file bytes: parses and validates the
    /// trailing metadata, carves out the tree and data regions, and caches
    /// the load time and its HTTP-date text.
    pub fn open(db: Vec<u8>) -> (r: Result<Reader, FormatError>)
        ensures
            match spec_parse_metadata(db@) {
                Err(e) => r matches Err(e2) && e2 == e,
                Ok((m, marker)) => {
                    let tl = (m.node_count as nat) * spec_node_bytes(m.record_size);
                    if db@.len() < tl + 16 || marker < tl + 16 {
                        r matches Err(e2) && e2 == FormatError::MetadataInvalid
                    } else {
                        r matches Ok(rd) && rd@.meta == m && rd@.tree == db@.subrange(
                            0,
                            tl as int,
                        ) && rd@.data == db@.subrange(tl as int + 16, marker) && rd@.load_text
                            == http_date_of(rd@.load_secs)
                    }
                },
            },
    {
        let (meta, marker) = match parse_metadata(db.as_slice()) {
            Ok(t) => t,
            Err(e) => {
                return Err(e);
            },
        };
        assert((meta.node_count as u64) * ((meta.record_size / 4) as u64) <= 0xFFFFFFFFu64 * 8)
            by (nonlinear_arith)
            requires
                meta.node_count as u64 <= 0xFFFFFFFFu64,
                meta.record_size as u64 <= 32,
        ;
        let tl64: u64 = (meta.node_count as u64) * ((meta.record_size / 4) as u64);
        if (db.len() as u64) < tl64 + 16 || (marker as u64) < tl64 + 16 {
            return Err(FormatError::MetadataInvalid);
        }
        let tl = tl64 as usize;
        let tree = vstd::slice::slice_to_vec(vstd::slice::slice_subrange(db.as_slice(), 0, tl));
        let data = vstd::slice::slice_to_vec(
            vstd::slice::slice_subrange(db.as_slice(), tl + 16, marker),
        );
        let now = now_epoch();
        let load_secs: u64 = if now >= 253402300800 {
            253402300799
        } else {
            now
        };
        let load_text = http_date_string(load_secs);
        Ok(Reader { tree, data, meta, load_secs, load_text })
    }

    /// Looks the address up: walks the search tree by its bits and, where
    /// an entry exists, selectively decodes the record it points at.
    pub fn lookup(&self, ip: Ip) -> (r: Result<Record, LookupError>)
        ensures
            match spec_lookup(self@, ip) {
                Err(e) => r matches Err(e2) && e2 == e,
                Ok(rm) => r matches Ok(rec) && rec.m() == rm,
            },
    {
        proof {
            use_type_invariant(&*self);
        }
        let (key, width): (u128, u32) = match ip {
            Ip::V4(a) => if self.meta.ip_version == 4 {
                (a as u128, 32)
            } else {
                (a as u128, 128)
            },
            Ip::V6(x) => {
                if self.meta.ip_version == 6 {
                    (x, 128)
                } else {
                    return Err(LookupError::NotFound);
                }
            },
        };
        let off = match find_from(
            self.tree.as_slice(),
            self.meta.node_count,
            self.meta.record_size,
            key,
            width,
            0,
            0,
        ) {
            Err(e) => {
                return Err(e);
            },
            Ok(None) => {
                return Err(LookupError::NotFound);
            },
            Ok(Some(off)) => off,
        };
        if off < 16 {
            return Err(LookupError::DataMalformed);
        }
        let dlen = self.data.len();
        if off - 16 >= dlen as u64 {
            proof {
                assert(spec_decode(self@.data, off - 16, FUEL as nat) is None);
            }
            return Err(LookupError::DataMalformed);
        }
        let rel = (off - 16) as usize;
        let rm = match project_at(self.data.as_slice(), rel, FUEL) {
            Ok(rm) => rm,
            Err(e) => {
                return Err(e);
            },
        };
        Ok(
            Record {
                country: Country { iso_code: rm.iso },
                location: Location {
                    latitude: rm.lat,
                    longitude: rm.lon,
                    accuracy_radius: rm.radius,
                },
            },
        )
    }

    /// Node count from the metadata of the open database.
    pub fn node_count(&self) -> (r: u32)
        ensures
            r == self@.meta.node_count,
    {
        self.meta.node_count
    }

    /// When the database was built, in seconds since the Unix epoch, from
    /// its metadata.
    pub fn build_time(&self) -> (r: u64)
        ensures
            r == self@.meta.build_epoch,
    {
        self.meta.build_epoch
    }

    /// When this database was loaded, in seconds since the Unix epoch.
    pub fn load_time(&self) -> (r: u64)
        ensures
            r == self@.load_secs,
    {
        self.load_secs
    }

    /// The load time as its cached HTTP-date text, suitable for a
    /// `Last-Modified` header; formatted once at open time.
    pub fn load_time_str(&self) -> (r: &str)
        ensures
            r@ == self@.load_text,
            r@ == http_date_of(self@.load_secs),
    {
        proof {
            use_type_invariant(&*self);
        }
        self.load_text.as_str()
    }
}

/// An address the search tree has no entry for is reported as `NotFound`:
/// never an error of another kind, and (the functions being verified)
/// never a panic. This holds both when the walk ends at an empty branch
/// and when no key can be formed at all.
pub proof fn lemma_absent_is_not_found(rv: ReaderView, ip: Ip)
    requires
        match spec_key(rv.meta, ip) {
            Some((key, width)) => spec_find(
                rv.tree,
                rv.meta.node_count,
                rv.meta.record_size,
                key,
                width,
                0,
                0,
            ) == Ok::<Option<u64>, LookupError>(None::<u64>),
            None => true,
        },
    ensures
        spec_lookup(rv, ip) == Err::<RecordM, LookupError>(LookupError::NotFound),
{
}

/// Lookups are idempotent: on one reader, the same address always maps to
/// the same result, because the result is a function of the immutable
/// reader view alone.
pub proof fn lemma_lookup_idempotent(
    rv: ReaderView,
    ip: Ip,
    r1: Result<RecordM, LookupError>,
    r2: Result<RecordM, LookupError>,
)
    requires
        r1 == spec_lookup(rv, ip),
        r2 == spec_lookup(rv, ip),
    ensures
        r1 == r2,
{
}

} // verus!
