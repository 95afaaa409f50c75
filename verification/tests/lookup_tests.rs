//! End-to-end tests against a small database built in memory, carrying the
//! same records as the canonical city-level test dataset for the addresses
//! exercised here.

use nanogeoip::ip::parse_ip;
use nanogeoip::{lookup, Country, Ip, Location, Options, Reader, Record, Request, Response};
use nanogeoip::{FormatError, LookupError};

// ---- encoding helpers for the self-describing data section ----

fn ctrl(kind: u8, size: usize) -> Vec<u8> {
    assert!(size < 285);
    let s5: u8 = if size < 29 { size as u8 } else { 29 };
    let mut v = Vec::new();
    if kind <= 7 {
        v.push((kind << 5) | s5);
    } else {
        v.push(s5);
        v.push(kind - 7);
    }
    if size >= 29 {
        v.push((size - 29) as u8);
    }
    v
}

fn enc_str(s: &str) -> Vec<u8> {
    let mut v = ctrl(2, s.len());
    v.extend_from_slice(s.as_bytes());
    v
}

fn enc_double(x: f64) -> Vec<u8> {
    let mut v = ctrl(3, 8);
    v.extend_from_slice(&x.to_bits().to_be_bytes());
    v
}

fn enc_float(x: f32) -> Vec<u8> {
    let mut v = ctrl(15, 4);
    v.extend_from_slice(&x.to_bits().to_be_bytes());
    v
}

fn enc_uint(kind: u8, val: u64) -> Vec<u8> {
    let mut payload: Vec<u8> = val.to_be_bytes().to_vec();
    while payload.len() > 0 && payload[0] == 0 {
        payload.remove(0);
    }
    let mut v = ctrl(kind, payload.len());
    v.extend_from_slice(&payload);
    v
}

fn enc_map(n: usize) -> Vec<u8> {
    ctrl(7, n)
}

fn enc_array(n: usize) -> Vec<u8> {
    ctrl(11, n)
}

fn enc_pointer(off: usize) -> Vec<u8> {
    assert!(off < 2048);
    vec![(1u8 << 5) | ((off >> 8) as u8 & 0x7), (off & 0xFF) as u8]
}

/// One record: country map with the ISO code, location map with the
/// coordinates. The ISO code may be written as a pointer to an earlier
/// string, and the latitude as a single-precision float.
fn enc_record(
    iso: Option<&str>,
    iso_ptr: Option<usize>,
    lat: f64,
    lat_f32: bool,
    lon: f64,
    radius: u16,
) -> Vec<u8> {
    let mut v = enc_map(2);
    v.extend(enc_str("country"));
    v.extend(enc_map(1));
    v.extend(enc_str("iso_code"));
    match (iso, iso_ptr) {
        (Some(s), None) => v.extend(enc_str(s)),
        (None, Some(p)) => v.extend(enc_pointer(p)),
        _ => panic!("exactly one ISO form"),
    }
    v.extend(enc_str("location"));
    v.extend(enc_map(3));
    v.extend(enc_str("latitude"));
    if lat_f32 {
        v.extend(enc_float(lat as f32));
    } else {
        v.extend(enc_double(lat));
    }
    v.extend(enc_str("longitude"));
    v.extend(enc_double(lon));
    v.extend(enc_str("accuracy_radius"));
    v.extend(enc_uint(5, radius as u64));
    v
}

// ---- search tree builder ----

#[derive(Clone, Copy, PartialEq)]
enum Entry {
    Empty,
    Node(usize),
    Data(usize),
}

struct Trie {
    nodes: Vec<[Entry; 2]>,
}

impl Trie {
    fn new() -> Trie {
        Trie { nodes: vec![[Entry::Empty, Entry::Empty]] }
    }

    /// Inserts a full 128-bit key mapping to a data-section offset.
    fn insert(&mut self, key: u128, data_off: usize) {
        let mut cur = 0usize;
        for i in 0..128 {
            let bit = ((key >> (127 - i)) & 1) as usize;
            if i == 127 {
                self.nodes[cur][bit] = Entry::Data(data_off);
            } else {
                cur = match self.nodes[cur][bit] {
                    Entry::Node(n) => n,
                    Entry::Empty => {
                        self.nodes.push([Entry::Empty, Entry::Empty]);
                        let n = self.nodes.len() - 1;
                        self.nodes[cur][bit] = Entry::Node(n);
                        n
                    }
                    Entry::Data(_) => panic!("key conflict"),
                };
            }
        }
    }

    /// Serializes the trie with 28-bit records (7 bytes per node).
    fn to_bytes(&self) -> Vec<u8> {
        let nc = self.nodes.len() as u32;
        let mut out = Vec::new();
        for node in &self.nodes {
            let val = |e: Entry| -> u32 {
                match e {
                    Entry::Empty => nc,
                    Entry::Node(n) => n as u32,
                    Entry::Data(off) => nc + 16 + off as u32,
                }
            };
            let l = val(node[0]);
            let r = val(node[1]);
            out.push(((l >> 16) & 0xFF) as u8);
            out.push(((l >> 8) & 0xFF) as u8);
            out.push((l & 0xFF) as u8);
            out.push((((l >> 24) << 4) | (r >> 24)) as u8);
            out.push(((r >> 16) & 0xFF) as u8);
            out.push(((r >> 8) & 0xFF) as u8);
            out.push((r & 0xFF) as u8);
        }
        out
    }
}

fn v4_key(a: u8, b: u8, c: u8, d: u8) -> u128 {
    ((a as u128) << 24) | ((b as u128) << 16) | ((c as u128) << 8) | (d as u128)
}

const MARKER: [u8; 14] = [
    0xAB, 0xCD, 0xEF, b'M', b'a', b'x', b'M', b'i', b'n', b'd', b'.', b'c', b'o', b'm',
];

fn metadata_block(node_count: u32, build_epoch: u64) -> Vec<u8> {
    let mut v = enc_map(9);
    v.extend(enc_str("binary_format_major_version"));
    v.extend(enc_uint(5, 2));
    v.extend(enc_str("binary_format_minor_version"));
    v.extend(enc_uint(5, 0));
    v.extend(enc_str("build_epoch"));
    v.extend(ctrl(9, 4));
    v.extend_from_slice(&(build_epoch as u32).to_be_bytes());
    v.extend(enc_str("database_type"));
    v.extend(enc_str("Test-City"));
    v.extend(enc_str("description"));
    v.extend(enc_map(1));
    v.extend(enc_str("en"));
    v.extend(enc_str("A small in-memory city dataset"));
    v.extend(enc_str("ip_version"));
    v.extend(enc_uint(5, 6));
    v.extend(enc_str("languages"));
    v.extend(enc_array(2));
    v.extend(enc_str("en"));
    v.extend(enc_str("ja"));
    v.extend(enc_str("node_count"));
    v.extend(enc_uint(6, node_count as u64));
    v.extend(enc_str("record_size"));
    v.extend(enc_uint(5, 28));
    v
}

const BUILD_EPOCH: u64 = 1549411200;

/// Builds the test database: four records matching the canonical test
/// dataset, one exercising pointer deduplication, one a float latitude,
/// and one with a country code that needs JSON escaping. Also returns the
/// node count written into the metadata.
fn build_test_db_counted() -> (Vec<u8>, u32) {
    let mut data: Vec<u8> = Vec::new();

    // a deduplicated string, pointed at by the KR record's iso_code
    let kr_iso_off = data.len();
    data.extend(enc_str("KR"));

    let se_off = data.len();
    data.extend(enc_record(Some("SE"), None, 58.4167, false, 15.6167, 76));
    let gb_off = data.len();
    data.extend(enc_record(Some("GB"), None, 51.5142, false, -0.0931, 10));
    let jp_off = data.len();
    data.extend(enc_record(Some("JP"), None, 35.68536, false, 139.75309, 100));
    let kr_off = data.len();
    data.extend(enc_record(None, Some(kr_iso_off), 37.0, false, 127.5, 100));
    // a latitude stored as a single-precision float
    let fl_off = data.len();
    data.extend(enc_record(Some("FL"), None, 1.5, true, 2.5, 3));
    // a country code that must be escaped in JSON
    let esc_off = data.len();
    data.extend(enc_record(Some("A\"B\\C"), None, 0.5, false, 0.25, 1));

    let mut trie = Trie::new();
    trie.insert(v4_key(89, 160, 20, 112), se_off);
    trie.insert(v4_key(81, 2, 69, 142), gb_off);
    trie.insert(0x2001_0218_85a3_0000_0000_8a2e_0370_7334, jp_off);
    trie.insert(0x2001_0220_0000_0000_0000_0000_0000_1337, kr_off);
    trie.insert(v4_key(10, 0, 0, 1), fl_off);
    trie.insert(v4_key(10, 0, 0, 2), esc_off);

    let tree = trie.to_bytes();
    let nc = (tree.len() / 7) as u32;

    let mut file = tree;
    file.extend(vec![0u8; 16]);
    file.extend(&data);
    file.extend_from_slice(&MARKER);
    file.extend(metadata_block(nc, BUILD_EPOCH));
    (file, nc)
}

fn build_test_db() -> Vec<u8> {
    build_test_db_counted().0
}

fn init_reader() -> Reader {
    Reader::open(build_test_db()).unwrap()
}

fn ip_of(s: &str) -> Ip {
    parse_ip(s).unwrap()
}

fn expect_record(iso: &str, lat: f64, lon: f64, radius: u16) -> Record {
    Record {
        country: Country { iso_code: Some(iso.to_string()) },
        location: Location {
            latitude: Some(lat.to_bits()),
            longitude: Some(lon.to_bits()),
            accuracy_radius: Some(radius),
        },
    }
}

fn check_lookup(ip_str: &str, expected: (&str, f64, f64, u16)) {
    let reader = init_reader();
    let (iso, lat, lon, radius) = expected;
    let results = reader.lookup(ip_of(ip_str));
    assert_eq!(results, Ok(expect_record(iso, lat, lon, radius)));
}

// ---- database tests ----

#[test]
fn db_ipv4_lookup1() {
    check_lookup("89.160.20.112", ("SE", 58.4167, 15.6167, 76));
}

#[test]
fn db_ipv4_lookup2() {
    check_lookup("81.2.69.142", ("GB", 51.5142, -0.0931, 10));
}

#[test]
fn db_ipv6_lookup1() {
    check_lookup(
        "2001:218:85a3:0000:0000:8a2e:0370:7334",
        ("JP", 35.68536, 139.75309, 100),
    );
}

#[test]
fn db_ipv6_lookup2() {
    check_lookup("2001:220::1337", ("KR", 37.0, 127.5, 100));
}

#[test]
fn db_absent_address_is_not_found() {
    let reader = init_reader();
    assert_eq!(reader.lookup(ip_of("127.0.0.1")), Err(LookupError::NotFound));
    assert_eq!(reader.lookup(ip_of("::1")), Err(LookupError::NotFound));
}

#[test]
fn db_lookup_is_idempotent() {
    let reader = init_reader();
    let first = reader.lookup(ip_of("89.160.20.112"));
    let second = reader.lookup(ip_of("89.160.20.112"));
    assert_eq!(first, second);
}

#[test]
fn db_metadata_accessors() {
    let (bytes, nc) = build_test_db_counted();
    let reader = Reader::open(bytes).unwrap();
    assert_eq!(reader.node_count(), nc);
    assert_eq!(reader.build_time(), BUILD_EPOCH);
}

#[test]
fn db_float_latitude_is_widened() {
    let reader = init_reader();
    let rec = reader.lookup(ip_of("10.0.0.1")).unwrap();
    assert_eq!(rec.country.iso_code, Some("FL".to_string()));
    assert_eq!(f64::from_bits(rec.location.latitude.unwrap()), 1.5);
    assert_eq!(f64::from_bits(rec.location.longitude.unwrap()), 2.5);
    assert_eq!(rec.location.accuracy_radius, Some(3));
}

#[test]
fn db_zero_nodes_is_traversal_error() {
    // a well-formed file whose tree has no nodes at all: the very first
    // node read is structurally invalid
    let mut file = vec![0u8; 16];
    file.extend_from_slice(&MARKER);
    file.extend(metadata_block(0, BUILD_EPOCH));
    let reader = Reader::open(file).unwrap();
    assert_eq!(reader.lookup(ip_of("1.2.3.4")), Err(LookupError::Traversal));
}

#[test]
fn db_unknown_record_keys_are_skipped() {
    // a record with extra keys around the interesting ones, including
    // nested maps, an array and a boolean, all of which must be skipped
    // while keeping the cursor in step
    let mut rec = enc_map(4);
    rec.extend(enc_str("city"));
    rec.extend(enc_map(1));
    rec.extend(enc_str("names"));
    rec.extend(enc_map(1));
    rec.extend(enc_str("en"));
    rec.extend(enc_str("Linkoping"));
    rec.extend(enc_str("country"));
    rec.extend(enc_map(2));
    rec.extend(enc_str("is_in_european_union"));
    rec.extend(vec![1u8, 14 - 7]); // boolean true, extended type, no payload
    rec.extend(enc_str("iso_code"));
    rec.extend(enc_str("SE"));
    rec.extend(enc_str("location"));
    rec.extend(enc_map(5));
    rec.extend(enc_str("time_zone"));
    rec.extend(enc_str("Europe/Stockholm"));
    rec.extend(enc_str("latitude"));
    rec.extend(enc_double(58.4167));
    rec.extend(enc_str("longitude"));
    rec.extend(enc_double(15.6167));
    rec.extend(enc_str("metro_code"));
    rec.extend(vec![4u8, 8 - 7, 0xFF, 0xFF, 0xFF, 0xF6]); // int32 -10, skipped
    rec.extend(enc_str("accuracy_radius"));
    rec.extend(enc_uint(5, 76));
    rec.extend(enc_str("subdivisions"));
    rec.extend(enc_array(2));
    rec.extend(enc_str("E"));
    rec.extend(enc_str("W"));

    let mut trie = Trie::new();
    trie.insert(v4_key(89, 160, 20, 112), 0);
    let tree = trie.to_bytes();
    let nc = (tree.len() / 7) as u32;
    let mut file = tree;
    file.extend(vec![0u8; 16]);
    file.extend(&rec);
    file.extend_from_slice(&MARKER);
    file.extend(metadata_block(nc, BUILD_EPOCH));

    let reader = Reader::open(file).unwrap();
    let results = reader.lookup(ip_of("89.160.20.112"));
    assert_eq!(results, Ok(expect_record("SE", 58.4167, 15.6167, 76)));
}

#[test]
fn db_wrongly_typed_record_is_malformed() {
    // iso_code carrying an integer instead of a string is a type fault
    let mut rec = enc_map(1);
    rec.extend(enc_str("country"));
    rec.extend(enc_map(1));
    rec.extend(enc_str("iso_code"));
    rec.extend(enc_uint(5, 7));

    let mut trie = Trie::new();
    trie.insert(v4_key(9, 9, 9, 9), 0);
    let tree = trie.to_bytes();
    let nc = (tree.len() / 7) as u32;
    let mut file = tree;
    file.extend(vec![0u8; 16]);
    file.extend(&rec);
    file.extend_from_slice(&MARKER);
    file.extend(metadata_block(nc, BUILD_EPOCH));

    let reader = Reader::open(file).unwrap();
    assert_eq!(reader.lookup(ip_of("9.9.9.9")), Err(LookupError::DataMalformed));
}

#[test]
fn db_pointer_keys_are_followed() {
    // map keys may themselves stand behind pointers
    let mut data: Vec<u8> = Vec::new();
    data.extend(enc_str("iso_code")); // shared key text at offset 0
    let rec_off = data.len();
    let mut rec = enc_map(2);
    rec.extend(enc_str("country"));
    rec.extend(enc_map(1));
    rec.extend(enc_pointer(0)); // the key "iso_code", by pointer
    rec.extend(enc_str("NL"));
    rec.extend(enc_str("location"));
    rec.extend(enc_map(1));
    rec.extend(enc_str("accuracy_radius"));
    rec.extend(enc_uint(5, 5));
    data.extend(&rec);

    let mut trie = Trie::new();
    trie.insert(v4_key(1, 1, 1, 1), rec_off);
    let tree = trie.to_bytes();
    let nc = (tree.len() / 7) as u32;
    let mut file = tree;
    file.extend(vec![0u8; 16]);
    file.extend(&data);
    file.extend_from_slice(&MARKER);
    file.extend(metadata_block(nc, BUILD_EPOCH));

    let reader = Reader::open(file).unwrap();
    let rec = reader.lookup(ip_of("1.1.1.1")).unwrap();
    assert_eq!(rec.country.iso_code, Some("NL".to_string()));
    assert_eq!(rec.location.latitude, None);
    assert_eq!(rec.location.longitude, None);
    assert_eq!(rec.location.accuracy_radius, Some(5));
}

#[test]
fn open_rejects_missing_marker() {
    assert_eq!(Reader::open(vec![0u8; 64]).err(), Some(FormatError::MetadataNotFound));
}

#[test]
fn open_rejects_malformed_metadata() {
    let mut bytes = vec![0u8; 64];
    bytes.extend_from_slice(&MARKER);
    bytes.push(0xFF); // unknown control byte where a map should begin
    assert_eq!(Reader::open(bytes).err(), Some(FormatError::MetadataMalformed));
}

#[test]
fn open_rejects_incomplete_metadata() {
    let mut bytes = vec![0u8; 64];
    bytes.extend_from_slice(&MARKER);
    // a well-formed map that misses node_count and record_size
    let mut md = enc_map(1);
    md.extend(enc_str("ip_version"));
    md.extend(enc_uint(5, 6));
    bytes.extend(md);
    assert_eq!(Reader::open(bytes).err(), Some(FormatError::MetadataInvalid));
}

#[test]
fn load_time_text_matches_load_time() {
    let reader = init_reader();
    let parsed = httpdate::parse_http_date(reader.load_time_str()).unwrap();
    let expect = std::time::UNIX_EPOCH + std::time::Duration::from_secs(reader.load_time());
    assert_eq!(parsed, expect);
}

// ---- IP parser tests ----

#[test]
fn parse_ip_accepts_and_rejects() {
    assert_eq!(parse_ip("192.168.1.1"), Some(Ip::V4(0xC0A80101)));
    assert_eq!(parse_ip("0.0.0.0"), Some(Ip::V4(0)));
    assert_eq!(parse_ip("255.255.255.255"), Some(Ip::V4(0xFFFFFFFF)));
    assert_eq!(parse_ip("::"), Some(Ip::V6(0)));
    assert_eq!(parse_ip("::1"), Some(Ip::V6(1)));
    assert_eq!(parse_ip("1::"), Some(Ip::V6(0x0001_0000_0000_0000_0000_0000_0000_0000)));
    assert_eq!(
        parse_ip("2001:db8::ff00:42:8329"),
        Some(Ip::V6(0x2001_0db8_0000_0000_0000_ff00_0042_8329))
    );
    assert_eq!(
        parse_ip("::ffff:192.168.1.1"),
        Some(Ip::V6(0x0000_0000_0000_0000_0000_ffff_c0a8_0101))
    );
    assert_eq!(
        parse_ip("1:2:3:4:5:6:7:8"),
        Some(Ip::V6(0x0001_0002_0003_0004_0005_0006_0007_0008))
    );
    assert_eq!(parse_ip(""), None);
    assert_eq!(parse_ip("192.168.aaa.bbb"), None);
    assert_eq!(parse_ip("256.1.1.1"), None);
    assert_eq!(parse_ip("01.2.3.4"), None);
    assert_eq!(parse_ip("1.2.3"), None);
    assert_eq!(parse_ip("1.2.3.4.5"), None);
    assert_eq!(parse_ip("1:2:3:4:5:6:7"), None);
    assert_eq!(parse_ip("1:2:3:4:5:6:7:8:9"), None);
    assert_eq!(parse_ip("1:2:3:4:5:6:7:8::"), None);
    assert_eq!(parse_ip("12345::"), None);
    assert_eq!(parse_ip(":::"), None);
    assert_eq!(parse_ip("not an ip"), None);
}

// ---- handler tests ----

fn req(path: &str) -> Request {
    Request { path: path.to_string() }
}

fn quickget(path: &str) -> Response {
    lookup(req(path), &init_reader(), &Options::default())
}

fn bodystring(res: Response) -> String {
    String::from_utf8(res.body).unwrap()
}

fn content_type(res: &Response) -> &str {
    res.content_type
        .as_deref()
        .expect("Content-Type header should be present")
}

#[test]
fn no_path() {
    let res = quickget("/");
    assert_eq!(content_type(&res), "application/json");
    assert!(res.last_modified.is_none());
    assert_eq!(res.status, 400);
    assert_eq!(
        bodystring(res),
        r#"{"error": "missing IP query in path, try /192.168.1.1"}"#
    )
}

#[test]
fn malformed_ip() {
    let res = quickget("/192.168.aaa.bbb");
    assert_eq!(content_type(&res), "application/json");
    assert!(res.last_modified.is_none());
    assert_eq!(res.status, 400);
    assert_eq!(
        bodystring(res),
        r#"{"error": "could not parse invalid IP address"}"#
    )
}

#[test]
fn ip_not_found() {
    let res = quickget("/127.0.0.1");
    assert_eq!(content_type(&res), "application/json");
    assert!(res.last_modified.is_none());
    assert_eq!(res.status, 500);
    assert_eq!(bodystring(res), r#"{"error": "IP not found"}"#)
}

#[test]
fn happy_ipv4() {
    let res = quickget("/89.160.20.112");
    assert_eq!(content_type(&res), "application/json");
    assert!(res.last_modified.is_some());
    assert_eq!(res.status, 200);
    assert_eq!(
        bodystring(res),
        r#"{"country":{"iso_code":"SE"},"location":{"latitude":58.4167,"longitude":15.6167,"accuracy_radius":76}}"#
    );
}

#[test]
fn happy_ipv6() {
    let res = quickget("/2001:218:85a3:0000:0000:8a2e:0370:7334");
    assert_eq!(content_type(&res), "application/json");
    assert!(res.last_modified.is_some());
    assert_eq!(res.status, 200);
    assert_eq!(
        bodystring(res),
        r#"{"country":{"iso_code":"JP"},"location":{"latitude":35.68536,"longitude":139.75309,"accuracy_radius":100}}"#
    );
}

#[test]
fn cors_header() {
    let db = init_reader();
    let res = lookup(req("/89.160.20.112"), &db, &Options::default());
    assert_eq!(
        res.cors_header
            .as_deref()
            .expect("Access-Control-Allow-Origin header should be present"),
        "*"
    );

    let res = lookup(req("/89.160.20.112"), &db, &Options { cors_header: None });
    assert_eq!(res.cors_header, None);

    let res = lookup(
        req("/89.160.20.112"),
        &db,
        &Options { cors_header: Some("*".to_string()) },
    );
    assert_eq!(
        res.cors_header
            .as_deref()
            .expect("Access-Control-Allow-Origin header should be present"),
        "*"
    );

    let res = lookup(
        req("/89.160.20.112"),
        &db,
        &Options { cors_header: Some("https://foo.bar".to_string()) },
    );
    assert_eq!(
        res.cors_header
            .as_deref()
            .expect("Access-Control-Allow-Origin header should be present"),
        "https://foo.bar"
    );
}

#[test]
fn handler_escapes_iso_code() {
    let res = quickget("/10.0.0.2");
    assert_eq!(res.status, 200);
    assert_eq!(
        bodystring(res),
        r#"{"country":{"iso_code":"A\"B\\C"},"location":{"latitude":0.5,"longitude":0.25,"accuracy_radius":1}}"#
    );
}

#[test]
fn handler_last_modified_is_load_time() {
    let db = init_reader();
    let res = lookup(req("/89.160.20.112"), &db, &Options::default());
    assert_eq!(res.last_modified.as_deref(), Some(db.load_time_str()));
}

#[test]
fn handler_strips_repeated_slashes() {
    let res = quickget("///81.2.69.142");
    assert_eq!(res.status, 200);
    assert_eq!(
        bodystring(res),
        r#"{"country":{"iso_code":"GB"},"location":{"latitude":51.5142,"longitude":-0.0931,"accuracy_radius":10}}"#
    );
}

#[test]
fn hello_greets() {
    let res = nanogeoip::http::hello(req("/anything"));
    assert_eq!(res.status, 200);
    assert_eq!(bodystring(res), "hello world");
}
