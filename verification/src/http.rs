//! The stateless lookup request handler: one path in, one response out.
//!
//! The path (with its leading slashes stripped) is parsed as an IP address,
//! looked up, and the record serialized to canonical field-ordered JSON.
//! Every response carries `Content-Type: application/json`; the configured
//! CORS origin is echoed verbatim or omitted entirely; `Last-Modified` is
//! set on success only, to the reader's cached load-time HTTP date.

use vstd::prelude::*;
use vstd::string::StringSliceAdditionalSpecFns;
use crate::db::{spec_lookup, Reader, Record};
use crate::ext::{double_json, double_text};
use crate::ip::{parse_ip_bytes, spec_parse_ip};
use crate::model::RecordM;

verus! {

/// Configuration of the handler: the CORS origin to echo, if any.
pub struct Options {
    /// Value for `Access-Control-Allow-Origin`; `None` omits the header.
    pub cors_header: Option<String>,
}

impl Default for Options {
    /// By default every origin is allowed.
    fn default() -> (r: Options)
        ensures
            r.cors_header matches Some(s) && s@ == "*"@,
    {
        Options { cors_header: Some("*".to_owned()) }
    }
}

/// An HTTP-style request, reduced to what the handler reads: its path.
pub struct Request {
    /// The path of the request URI, leading slash included.
    pub path: String,
}

/// An HTTP-style response: status, the headers this service sets, body.
pub struct Response {
    /// Status code.
    pub status: u16,
    /// `Content-Type` header, where set.
    pub content_type: Option<String>,
    /// `Access-Control-Allow-Origin` header, where set.
    pub cors_header: Option<String>,
    /// `Last-Modified` header, where set.
    pub last_modified: Option<String>,
    /// Response body bytes.
    pub body: Vec<u8>,
}

/// The decimal text of a number.
pub open spec fn dec_bytes(n: nat) -> Seq<u8>
    decreases n,
{
    if n < 10 {
        seq![(48 + n) as u8]
    } else {
        dec_bytes(n / 10) + seq![(48 + n % 10) as u8]
    }
}

/// The lowercase hex digit of a nibble.
pub open spec fn hex_digit(n: u8) -> u8 {
    if n < 10 {
        (48 + n) as u8
    } else {
        (87 + n) as u8
    }
}

/// How one byte of a JSON string is emitted: quote and backslash escaped,
/// control characters by their short escape or as `\u00..`, everything
/// else (UTF-8 continuation bytes included) verbatim.
pub open spec fn esc_byte(b: u8) -> Seq<u8> {
    if b == 34 {
        seq![92u8, 34u8]
    } else if b == 92 {
        seq![92u8, 92u8]
    } else if b == 8 {
        seq![92u8, 98u8]
    } else if b == 12 {
        seq![92u8, 102u8]
    } else if b == 10 {
        seq![92u8, 110u8]
    } else if b == 13 {
        seq![92u8, 114u8]
    } else if b == 9 {
        seq![92u8, 116u8]
    } else if b < 32 {
        seq![92u8, 117u8, 48u8, 48u8, hex_digit(b / 16), hex_digit(b % 16)]
    } else {
        seq![b]
    }
}

/// A byte sequence as the contents of a JSON string literal.
pub open spec fn json_escape(b: Seq<u8>) -> Seq<u8>
    decreases b.len(),
{
    if b.len() == 0 {
        Seq::empty()
    } else {
        json_escape(b.drop_last()) + esc_byte(b.last())
    }
}

/// A JSON string of the country code, or `null` where there is none.
pub open spec fn json_iso(iso: Option<Seq<u8>>) -> Seq<u8> {
    match iso {
        Some(b) => "\"".spec_bytes() + json_escape(b) + "\"".spec_bytes(),
        None => "null".spec_bytes(),
    }
}

/// A JSON number of a coordinate's double bits, or `null`.
pub open spec fn json_coord(x: Option<u64>) -> Seq<u8> {
    match x {
        Some(b) => double_text(b),
        None => "null".spec_bytes(),
    }
}

/// A JSON number of the accuracy radius, or `null`.
pub open spec fn json_radius(x: Option<u16>) -> Seq<u8> {
    match x {
        Some(v) => dec_bytes(v as nat),
        None => "null".spec_bytes(),
    }
}

/// The canonical field-ordered JSON text of a record: `country` before
/// `location`; then `iso_code`; then `latitude`, `longitude`,
/// `accuracy_radius`; absent fields as `null`.
pub open spec fn spec_record_json(rm: RecordM) -> Seq<u8> {
    "{\"country\":{\"iso_code\":".spec_bytes() + json_iso(rm.iso)
        + "},\"location\":{\"latitude\":".spec_bytes() + json_coord(rm.lat)
        + ",\"longitude\":".spec_bytes() + json_coord(rm.lon) + ",\"accuracy_radius\":".spec_bytes()
        + json_radius(rm.radius) + "}}".spec_bytes()
}

/// The path with every leading slash removed.
pub open spec fn strip_slashes(pb: Seq<u8>) -> Seq<u8>
    decreases pb.len(),
{
    if pb.len() > 0 && pb[0] == 47 {
        strip_slashes(pb.drop_first())
    } else {
        pb
    }
}

/// What the handler answers, at the model level: status, body, and whether
/// `Last-Modified` is carried.
pub struct RespM {
    pub status: u16,
    pub body: Seq<u8>,
    pub last_modified: Option<Seq<char>>,
}

/// The handler's decision for a reader, in model terms: empty path and
/// unparsable address are client errors; an address the database does not
/// know (or a corrupt record) is answered 500 with a fixed body; a found
/// record is answered 200 with its JSON and the cached load date.
pub open spec fn spec_handle(rv: crate::db::ReaderView, pb: Seq<u8>) -> RespM {
    let rest = strip_slashes(pb);
    if rest.len() == 0 {
        RespM {
            status: 400,
            body: "{\"error\": \"missing IP query in path, try /192.168.1.1\"}".spec_bytes(),
            last_modified: None,
        }
    } else {
        match spec_parse_ip(rest) {
            None => RespM {
                status: 400,
                body: "{\"error\": \"could not parse invalid IP address\"}".spec_bytes(),
                last_modified: None,
            },
            Some(ip) => match spec_lookup(rv, ip) {
                Err(_) => RespM {
                    status: 500,
                    body: "{\"error\": \"IP not found\"}".spec_bytes(),
                    last_modified: None,
                },
                Ok(rm) => RespM {
                    status: 200,
                    body: spec_record_json(rm),
                    last_modified: Some(rv.load_text),
                },
            },
        }
    }
}

/// The decimal text of a 16-bit number.
fn dec_u16(v: u16) -> (r: Vec<u8>)
    ensures
        r@ == dec_bytes(v as nat),
    decreases v,
{
    if v < 10 {
        let r: Vec<u8> = vec![48 + (v as u8)];
        proof {
            assert(r@ =~= dec_bytes(v as nat));
        }
        r
    } else {
        let mut r = dec_u16(v / 10);
        r.push(48 + ((v % 10) as u8));
        proof {
            assert(r@ =~= dec_bytes((v / 10) as nat) + seq![(48 + (v as nat) % 10) as u8]);
        }
        r
    }
}

/// Appends the JSON-escaped form of `b` to `out`.
fn push_escaped(out: &mut Vec<u8>, b: &[u8])
    ensures
        final(out)@ == old(out)@ + json_escape(b@),
{
    let mut i: usize = 0;
    while i < b.len()
        invariant
            i <= b@.len(),
            out@ == old(out)@ + json_escape(b@.take(i as int)),
        decreases b@.len() - i,
    {
        let c = b[i];
        proof {
            assert(b@.take(i + 1).drop_last() =~= b@.take(i as int));
            assert(b@.take(i + 1).last() == b@[i as int]);
        }
        if c == 34 {
            out.push(92);
            out.push(34);
        } else if c == 92 {
            out.push(92);
            out.push(92);
        } else if c == 8 {
            out.push(92);
            out.push(98);
        } else if c == 12 {
            out.push(92);
            out.push(102);
        } else if c == 10 {
            out.push(92);
            out.push(110);
        } else if c == 13 {
            out.push(92);
            out.push(114);
        } else if c == 9 {
            out.push(92);
            out.push(116);
        } else if c < 32 {
            out.push(92);
            out.push(117);
            out.push(48);
            out.push(48);
            out.push(if c / 16 < 10 {
                48 + c / 16
            } else {
                87 + c / 16
            });
            out.push(if c % 16 < 10 {
                48 + c % 16
            } else {
                87 + c % 16
            });
        } else {
            out.push(c);
        }
        proof {
            assert(out@ =~= old(out)@ + json_escape(b@.take(i + 1)));
        }
        i = i + 1;
    }
    proof {
        assert(b@.take(b@.len() as int) =~= b@);
    }
}

/// Serializes a record to its canonical field-ordered JSON text.
pub fn record_json(rec: &Record) -> (r: Vec<u8>)
    ensures
        r@ == spec_record_json(rec.m()),
{
    let mut out: Vec<u8> = Vec::new();
    out.extend_from_slice("{\"country\":{\"iso_code\":".as_bytes());
    match &rec.country.iso_code {
        Some(s) => {
            out.extend_from_slice("\"".as_bytes());
            push_escaped(&mut out, s.as_str().as_bytes());
            out.extend_from_slice("\"".as_bytes());
        },
        None => {
            out.extend_from_slice("null".as_bytes());
        },
    }
    out.extend_from_slice("},\"location\":{\"latitude\":".as_bytes());
    match rec.location.latitude {
        Some(bits) => {
            let t = double_json(bits);
            out.extend_from_slice(t.as_slice());
        },
        None => {
            out.extend_from_slice("null".as_bytes());
        },
    }
    out.extend_from_slice(",\"longitude\":".as_bytes());
    match rec.location.longitude {
        Some(bits) => {
            let t = double_json(bits);
            out.extend_from_slice(t.as_slice());
        },
        None => {
            out.extend_from_slice("null".as_bytes());
        },
    }
    out.extend_from_slice(",\"accuracy_radius\":".as_bytes());
    match rec.location.accuracy_radius {
        Some(v) => {
            let t = dec_u16(v);
            out.extend_from_slice(t.as_slice());
        },
        None => {
            out.extend_from_slice("null".as_bytes());
        },
    }
    out.extend_from_slice("}}".as_bytes());
    out
}

/// A demonstration handler that greets every request.
pub fn hello(_req: Request) -> (r: Response)
    ensures
        r.status == 200,
        r.body@ == "hello world".spec_bytes(),
        r.content_type is None,
        r.cors_header is None,
        r.last_modified is None,
{
    let mut body: Vec<u8> = Vec::new();
    body.extend_from_slice("hello world".as_bytes());
    Response { status: 200, content_type: None, cors_header: None, last_modified: None, body }
}

/// Answers one lookup request: parses the path as an IP address, queries
/// the reader, and serializes the outcome exactly as [`spec_handle`] says,
/// with `Content-Type` always set and the CORS origin echoed or omitted.
#[verifier::rlimit(50)]
pub fn lookup(req: Request, db: &Reader, opts: &Options) -> (r: Response)
    ensures
        ({
            let m = spec_handle(db@, vstd::utf8::encode_utf8(req.path@));
            &&& r.status == m.status
            &&& r.body@ == m.body
            &&& match (r.last_modified, m.last_modified) {
                (Some(s), Some(t)) => s@ == t,
                (None, None) => true,
                _ => false,
            }
        }),
        r.content_type matches Some(s) && s@ == "application/json"@,
        match (opts.cors_header, r.cors_header) {
            (Some(s), Some(t)) => s@ == t@,
            (None, None) => true,
            _ => false,
        },
{
    let content_type: Option<String> = Some("application/json".to_owned());
    let cors_header: Option<String> = match &opts.cors_header {
        Some(s) => Some(s.clone()),
        None => None,
    };
    let pb = req.path.as_str().as_bytes();
    let pblen = pb.len();
    proof {
        assert(pb@.skip(0) =~= pb@);
    }
    let mut start: usize = 0;
    while start < pblen && pb[start] == 47
        invariant
            pblen == pb@.len(),
            start <= pblen,
            strip_slashes(pb@) == strip_slashes(pb@.skip(start as int)),
        decreases pblen - start,
    {
        proof {
            assert(pb@.skip(start as int).drop_first() =~= pb@.skip(start + 1));
        }
        start = start + 1;
    }
    let rest = vstd::slice::slice_subrange(pb, start, pblen);
    proof {
        assert(rest@ =~= pb@.skip(start as int));
    }
    if rest.len() == 0 {
        let mut body: Vec<u8> = Vec::new();
        body.extend_from_slice(
            "{\"error\": \"missing IP query in path, try /192.168.1.1\"}".as_bytes(),
        );
        return Response { status: 400, content_type, cors_header, last_modified: None, body };
    }
    let ip = match parse_ip_bytes(rest) {
        Some(ip) => ip,
        None => {
            let mut body: Vec<u8> = Vec::new();
            body.extend_from_slice("{\"error\": \"could not parse invalid IP address\"}".as_bytes());
            return Response { status: 400, content_type, cors_header, last_modified: None, body };
        },
    };
    let rec = match db.lookup(ip) {
        Ok(rec) => rec,
        Err(_) => {
            let mut body: Vec<u8> = Vec::new();
            body.extend_from_slice("{\"error\": \"IP not found\"}".as_bytes());
            return Response { status: 500, content_type, cors_header, last_modified: None, body };
        },
    };
    let body = record_json(&rec);
    let last_modified: Option<String> = Some(db.load_time_str().to_owned());
    Response { status: 200, content_type, cors_header, last_modified, body }
}

} // verus!
