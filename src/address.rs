use vstd::prelude::*;

use vstd::string::StringSliceAdditionalSpecFns;

use crate::error::CioError;

verus! {

// The grammar, over the bytes of an address:
//   tcp://<host>:<port>
//   unix://<path>
//   com://<device>?baud=<int>&data_bit=<int>&stop_bit=<int>&parity=<n|o|e>
// Keywords are spelled below as ASCII codes.

/// `tcp://`
pub open spec fn tcp_scheme() -> Seq<u8> {
    seq![116u8, 99, 112, 58, 47, 47]
}

/// `unix://`
pub open spec fn unix_scheme() -> Seq<u8> {
    seq![117u8, 110, 105, 120, 58, 47, 47]
}

/// `com://`
pub open spec fn com_scheme() -> Seq<u8> {
    seq![99u8, 111, 109, 58, 47, 47]
}

/// `baud=`
pub open spec fn baud_key() -> Seq<u8> {
    seq![98u8, 97, 117, 100, 61]
}

/// `&data_bit=`
pub open spec fn data_bit_key() -> Seq<u8> {
    seq![38u8, 100, 97, 116, 97, 95, 98, 105, 116, 61]
}

/// `&stop_bit=`
pub open spec fn stop_bit_key() -> Seq<u8> {
    seq![38u8, 115, 116, 111, 112, 95, 98, 105, 116, 61]
}

/// `&parity=`
pub open spec fn parity_key() -> Seq<u8> {
    seq![38u8, 112, 97, 114, 105, 116, 121, 61]
}

/// `:`
pub const COLON: u8 = 58;

/// `?`
pub const QUESTION: u8 = 63;

pub const U16_MAX: u64 = 65535;

pub const U8_MAX: u64 = 255;

pub const U32_MAX: u64 = 4294967295;

/// Parity of a serial line.
#[derive(Clone, Copy, Debug, PartialEq, Eq, Structural)]
pub enum Parity {
    /// `n`
    Off,
    /// `o`
    Odd,
    /// `e`
    Even,
}

/// The line parameters of a serial device.
#[derive(Clone, Copy, Debug, PartialEq, Eq, Structural)]
pub struct SerialConfig {
    pub baud: u32,
    pub data_bit: u8,
    pub stop_bit: u8,
    pub parity: Parity,
}

/// Where a transport handle binds or connects.
#[derive(Debug)]
pub enum Endpoint {
    Tcp { host: Vec<u8>, port: u16 },
    Unix { path: Vec<u8> },
    Serial { device: Vec<u8>, config: SerialConfig },
}

/// The kinds of transport handle.
#[derive(Clone, Copy, Debug, PartialEq, Eq, Structural)]
pub enum TransportKind {
    TcpStream,
    UnixStream,
    SerialStream,
    TcpListener,
    UnixListener,
}

/// Whether `lit` stands in `s` from index `at` on.
pub open spec fn starts_at(s: Seq<u8>, at: int, lit: Seq<u8>) -> bool {
    0 <= at && at + lit.len() <= s.len() && s.subrange(at, at + lit.len()) == lit
}

pub open spec fn is_digit(b: u8) -> bool {
    48 <= b <= 57
}

/// The end of the run of digits that starts at `i`.
pub open spec fn digits_end(s: Seq<u8>, i: int) -> int
    decreases s.len() - i,
{
    if i < 0 || i >= s.len() || !is_digit(s[i]) {
        i
    } else {
        digits_end(s, i + 1)
    }
}

/// The value of a run of decimal digits.
pub open spec fn dec(s: Seq<u8>) -> nat
    decreases s.len(),
{
    if s.len() == 0 {
        0
    } else {
        dec(s.drop_last()) * 10 + (s.last() - 48) as nat
    }
}

/// The first index in `[lo, hi)` that holds `b`, or `hi`.
pub open spec fn find(s: Seq<u8>, b: u8, lo: int, hi: int) -> int
    decreases hi - lo,
{
    if lo >= hi {
        hi
    } else if s[lo] == b {
        lo
    } else {
        find(s, b, lo + 1, hi)
    }
}

/// The last index in `[lo, hi)` that holds `b`, or `lo - 1`.
pub open spec fn rfind(s: Seq<u8>, b: u8, lo: int, hi: int) -> int
    decreases hi - lo,
{
    if lo >= hi {
        lo - 1
    } else if s[hi - 1] == b {
        hi - 1
    } else {
        rfind(s, b, lo, hi - 1)
    }
}

/// A decimal number of at most `max` in `s` from `i` up to `j`.
pub open spec fn number_at(s: Seq<u8>, i: int, j: int, max: nat) -> bool {
    i < j && digits_end(s, i) == j && dec(s.subrange(i, j)) <= max
}

/// `key` then a number of at most `max` at `at`: the number and where it ends.
pub open spec fn field_at(s: Seq<u8>, at: int, key: Seq<u8>, max: nat) -> Option<(nat, int)> {
    let i = at + key.len();
    let j = digits_end(s, i);
    if starts_at(s, at, key) && number_at(s, i, j, max) {
        Some((dec(s.subrange(i, j)), j))
    } else {
        None
    }
}

/// The host and port of a TCP address: the port is the digits after the
/// last colon, the host what stands before it, and neither is empty.
pub open spec fn tcp_of(s: Seq<u8>) -> Option<(Seq<u8>, nat)> {
    let lo = tcp_scheme().len() as int;
    let k = rfind(s, COLON, lo, s.len() as int);
    if starts_at(s, 0, tcp_scheme()) && lo < k && number_at(s, k + 1, s.len() as int, U16_MAX as nat) {
        Some((s.subrange(lo, k), dec(s.subrange(k + 1, s.len() as int))))
    } else {
        None
    }
}

/// The path of a Unix-domain address, which is not empty.
pub open spec fn unix_of(s: Seq<u8>) -> Option<Seq<u8>> {
    let lo = unix_scheme().len() as int;
    if starts_at(s, 0, unix_scheme()) && lo < s.len() {
        Some(s.subrange(lo, s.len() as int))
    } else {
        None
    }
}

pub open spec fn parity_of(b: u8) -> Option<Parity> {
    if b == 110 {
        Some(Parity::Off)
    } else if b == 111 {
        Some(Parity::Odd)
    } else if b == 101 {
        Some(Parity::Even)
    } else {
        None
    }
}

/// The device and line parameters of a serial address: the device is what
/// stands before the first `?` and is not empty; the parameters follow in
/// their fixed order and end the address.
pub open spec fn serial_of(s: Seq<u8>) -> Option<(Seq<u8>, SerialConfig)> {
    let lo = com_scheme().len() as int;
    let q = find(s, QUESTION, lo, s.len() as int);
    if !starts_at(s, 0, com_scheme()) || q <= lo || q >= s.len() {
        None
    } else {
        match field_at(s, q + 1, baud_key(), U32_MAX as nat) {
            None => None,
            Some((baud, a)) => match field_at(s, a, data_bit_key(), U8_MAX as nat) {
                None => None,
                Some((data_bit, b)) => match field_at(s, b, stop_bit_key(), U8_MAX as nat) {
                    None => None,
                    Some((stop_bit, c)) => {
                        let p = c + parity_key().len();
                        if starts_at(s, c, parity_key()) && p + 1 == s.len() && parity_of(
                            s[p],
                        ) is Some {
                            Some(
                                (
                                    s.subrange(lo, q),
                                    SerialConfig {
                                        baud: baud as u32,
                                        data_bit: data_bit as u8,
                                        stop_bit: stop_bit as u8,
                                        parity: parity_of(s[p])->0,
                                    },
                                ),
                            )
                        } else {
                            None
                        }
                    },
                },
            },
        }
    }
}

/// Whether `s` is an address of the grammar.
pub open spec fn valid_address(s: Seq<u8>) -> bool {
    tcp_of(s) is Some || unix_of(s) is Some || serial_of(s) is Some
}

/// Whether `e` is what the address `s` names.
pub open spec fn describes(s: Seq<u8>, e: Endpoint) -> bool {
    match e {
        Endpoint::Tcp { host, port } => tcp_of(s) == Some((host@, port as nat)),
        Endpoint::Unix { path } => unix_of(s) == Some(path@),
        Endpoint::Serial { device, config } => serial_of(s) == Some((device@, config)),
    }
}

proof fn lemma_dec_step(s: Seq<u8>, i: int, k: int)
    requires
        0 <= i <= k < s.len(),
    ensures
        dec(s.subrange(i, k + 1)) == dec(s.subrange(i, k)) * 10 + (s[k] - 48) as nat,
{
    assert(s.subrange(i, k + 1).drop_last() =~= s.subrange(i, k));
}

proof fn lemma_dec_mono(s: Seq<u8>, i: int, k: int, j: int)
    requires
        0 <= i <= k <= j <= s.len(),
        forall|x: int| k <= x < j ==> is_digit(#[trigger] s[x]),
    ensures
        dec(s.subrange(i, k)) <= dec(s.subrange(i, j)),
    decreases j - k,
{
    if k < j {
        lemma_dec_mono(s, i, k, j - 1);
        lemma_dec_step(s, i, j - 1);
    }
}

fn scan_digits(s: &[u8], i: usize) -> (j: usize)
    requires
        i <= s@.len(),
    ensures
        j as int == digits_end(s@, i as int),
        i <= j <= s@.len(),
        forall|x: int| i <= x < j ==> is_digit(#[trigger] s@[x]),
{
    let mut k: usize = i;
    while k < s.len() && s[k] >= 48 && s[k] <= 57
        invariant
            i <= k <= s@.len(),
            digits_end(s@, i as int) == digits_end(s@, k as int),
            forall|x: int| i <= x < k ==> is_digit(#[trigger] s@[x]),
        decreases s@.len() - k,
    {
        k = k + 1;
    }
    k
}

/// The value of the digits in `[i, j)`, where it is at most `max`.
fn decimal(s: &[u8], i: usize, j: usize, max: u64) -> (r: Option<u64>)
    requires
        i <= j <= s@.len(),
        forall|x: int| i <= x < j ==> is_digit(#[trigger] s@[x]),
        max >= 9,
    ensures
        r is Some <==> dec(s@.subrange(i as int, j as int)) <= max,
        r matches Some(v) ==> v == dec(s@.subrange(i as int, j as int)),
{
    let mut v: u64 = 0;
    let mut k: usize = i;
    assert(s@.subrange(i as int, i as int).len() == 0);
    while k < j
        invariant
            i <= k <= j <= s@.len(),
            forall|x: int| i <= x < j ==> is_digit(#[trigger] s@[x]),
            max >= 9,
            v == dec(s@.subrange(i as int, k as int)),
            v <= max,
        decreases j - k,
    {
        let d: u64 = (s[k] - 48) as u64;
        assert(is_digit(s@[k as int]));
        proof {
            lemma_dec_step(s@, i as int, k as int);
        }
        if v > (max - d) / 10 {
            assert(v * 10 + d > max) by (nonlinear_arith)
                requires
                    v > (max - d) / 10,
                    d <= 9,
                    max >= 9,
            ;
            proof {
                lemma_dec_mono(s@, i as int, k as int + 1, j as int);
            }
            return None;
        }
        assert(v * 10 + d <= max) by (nonlinear_arith)
            requires
                v <= (max - d) / 10,
                d <= 9,
                max >= 9,
        ;
        v = v * 10 + d;
        k = k + 1;
    }
    Some(v)
}

/// Whether `lit` stands in `s` from `at` on.
fn starts_with_at(s: &[u8], at: usize, lit: &Vec<u8>) -> (r: bool)
    ensures
        r == starts_at(s@, at as int, lit@),
        r ==> at + lit@.len() <= s.len(),
{
    if at > s.len() || lit.len() > s.len() - at {
        return false;
    }
    let mut k: usize = 0;
    while k < lit.len()
        invariant
            at + lit@.len() <= s.len(),
            s.len() == s@.len(),
            k <= lit@.len(),
            forall|x: int| 0 <= x < k ==> s@[at + x] == lit@[x],
        decreases lit@.len() - k,
    {
        if s[at + k] != lit[k] {
            assert(s@.subrange(at as int, at + lit@.len())[k as int] != lit@[k as int]);
            return false;
        }
        k = k + 1;
    }
    assert(s@.subrange(at as int, at + lit@.len()) =~= lit@);
    true
}

/// `key` then a number of at most `max` from `at` on.
fn field(s: &[u8], at: usize, key: &Vec<u8>, max: u64) -> (r: Option<(u64, usize)>)
    requires
        max >= 9,
    ensures
        match field_at(s@, at as int, key@, max as nat) {
            None => r is None,
            Some((v, e)) => r matches Some((rv, re)) && rv == v && re == e,
        },
{
    if !starts_with_at(s, at, key) {
        return None;
    }
    let i = at + key.len();
    let j = scan_digits(s, i);
    if j == i {
        return None;
    }
    match decimal(s, i, j, max) {
        Some(v) => Some((v, j)),
        None => None,
    }
}

fn find_byte(s: &[u8], b: u8, lo: usize) -> (r: usize)
    requires
        lo <= s@.len(),
    ensures
        r as int == find(s@, b, lo as int, s@.len() as int),
        lo <= r <= s@.len(),
{
    let mut k: usize = lo;
    while k < s.len() && s[k] != b
        invariant
            lo <= k <= s@.len(),
            find(s@, b, lo as int, s@.len() as int) == find(s@, b, k as int, s@.len() as int),
        decreases s@.len() - k,
    {
        k = k + 1;
    }
    k
}

/// The last index at or after `lo` that holds `b`, or `lo - 1` when there is
/// none.
fn rfind_byte(s: &[u8], b: u8, lo: usize) -> (r: usize)
    requires
        1 <= lo <= s@.len(),
    ensures
        r as int == rfind(s@, b, lo as int, s@.len() as int),
        r < s@.len(),
{
    let mut k: usize = s.len();
    while k > lo && s[k - 1] != b
        invariant
            lo <= k <= s@.len(),
            rfind(s@, b, lo as int, s@.len() as int) == rfind(s@, b, lo as int, k as int),
        decreases k,
    {
        k = k - 1;
    }
    k - 1
}

fn copy_range(s: &[u8], lo: usize, hi: usize) -> (r: Vec<u8>)
    requires
        lo <= hi <= s@.len(),
    ensures
        r@ == s@.subrange(lo as int, hi as int),
{
    let mut r: Vec<u8> = Vec::new();
    let mut k: usize = lo;
    while k < hi
        invariant
            lo <= k <= hi <= s@.len(),
            r@ == s@.subrange(lo as int, k as int),
        decreases hi - k,
    {
        r.push(s[k]);
        k = k + 1;
        assert(r@ =~= s@.subrange(lo as int, k as int));
    }
    r
}

fn tcp_scheme_bytes() -> (r: Vec<u8>)
    ensures
        r@ == tcp_scheme(),
{
    let r: Vec<u8> = vec![116, 99, 112, 58, 47, 47];
    assert(r@ =~= tcp_scheme());
    r
}

fn unix_scheme_bytes() -> (r: Vec<u8>)
    ensures
        r@ == unix_scheme(),
{
    let r: Vec<u8> = vec![117, 110, 105, 120, 58, 47, 47];
    assert(r@ =~= unix_scheme());
    r
}

fn com_scheme_bytes() -> (r: Vec<u8>)
    ensures
        r@ == com_scheme(),
{
    let r: Vec<u8> = vec![99, 111, 109, 58, 47, 47];
    assert(r@ =~= com_scheme());
    r
}

fn baud_key_bytes() -> (r: Vec<u8>)
    ensures
        r@ == baud_key(),
{
    let r: Vec<u8> = vec![98, 97, 117, 100, 61];
    assert(r@ =~= baud_key());
    r
}

fn data_bit_key_bytes() -> (r: Vec<u8>)
    ensures
        r@ == data_bit_key(),
{
    let r: Vec<u8> = vec![38, 100, 97, 116, 97, 95, 98, 105, 116, 61];
    assert(r@ =~= data_bit_key());
    r
}

fn stop_bit_key_bytes() -> (r: Vec<u8>)
    ensures
        r@ == stop_bit_key(),
{
    let r: Vec<u8> = vec![38, 115, 116, 111, 112, 95, 98, 105, 116, 61];
    assert(r@ =~= stop_bit_key());
    r
}

fn parity_key_bytes() -> (r: Vec<u8>)
    ensures
        r@ == parity_key(),
{
    let r: Vec<u8> = vec![38, 112, 97, 114, 105, 116, 121, 61];
    assert(r@ =~= parity_key());
    r
}

fn parity_from(b: u8) -> (r: Option<Parity>)
    ensures
        r == parity_of(b),
{
    if b == 110 {
        Some(Parity::Off)
    } else if b == 111 {
        Some(Parity::Odd)
    } else if b == 101 {
        Some(Parity::Even)
    } else {
        None
    }
}

/// Parses a TCP address.
fn parse_tcp(s: &[u8]) -> (r: Option<Endpoint>)
    ensures
        tcp_of(s@) is None ==> r is None,
        tcp_of(s@) is Some ==> (r matches Some(e) && describes(s@, e)),
{
    let scheme = tcp_scheme_bytes();
    if !starts_with_at(s, 0, &scheme) {
        return None;
    }
    let lo: usize = 6;
    let k = rfind_byte(s, COLON, lo);
    if k <= lo {
        return None;
    }
    let j = scan_digits(s, k + 1);
    if j != s.len() || j == k + 1 {
        return None;
    }
    match decimal(s, k + 1, j, U16_MAX) {
        Some(port) => {
            let host = copy_range(s, lo, k);
            Some(Endpoint::Tcp { host, port: port as u16 })
        },
        None => None,
    }
}

/// Parses a Unix-domain address.
fn parse_unix(s: &[u8]) -> (r: Option<Endpoint>)
    ensures
        unix_of(s@) is None ==> r is None,
        unix_of(s@) is Some ==> (r matches Some(e) && describes(s@, e)),
{
    let scheme = unix_scheme_bytes();
    if !starts_with_at(s, 0, &scheme) || s.len() <= 7 {
        return None;
    }
    let path = copy_range(s, 7, s.len());
    Some(Endpoint::Unix { path })
}

/// Parses a serial address.
fn parse_serial(s: &[u8]) -> (r: Option<Endpoint>)
    ensures
        serial_of(s@) is None ==> r is None,
        serial_of(s@) is Some ==> (r matches Some(e) && describes(s@, e)),
{
    let scheme = com_scheme_bytes();
    if !starts_with_at(s, 0, &scheme) {
        return None;
    }
    let lo: usize = 6;
    let q = find_byte(s, QUESTION, lo);
    if q <= lo || q >= s.len() {
        return None;
    }
    let (baud, a) = match field(s, q + 1, &baud_key_bytes(), U32_MAX) {
        Some(f) => f,
        None => return None,
    };
    let (data_bit, b) = match field(s, a, &data_bit_key_bytes(), U8_MAX) {
        Some(f) => f,
        None => return None,
    };
    let (stop_bit, c) = match field(s, b, &stop_bit_key_bytes(), U8_MAX) {
        Some(f) => f,
        None => return None,
    };
    if !starts_with_at(s, c, &parity_key_bytes()) {
        return None;
    }
    assert(parity_key().len() == 8);
    let p = c + 8;
    if p >= s.len() || p + 1 != s.len() {
        return None;
    }
    let parity = match parity_from(s[p]) {
        Some(x) => x,
        None => return None,
    };
    let device = copy_range(s, lo, q);
    let config = SerialConfig {
        baud: baud as u32,
        data_bit: data_bit as u8,
        stop_bit: stop_bit as u8,
        parity,
    };
    Some(Endpoint::Serial { device, config })
}

/// The schemes are told apart by their first byte.
proof fn lemma_schemes_exclusive(s: Seq<u8>)
    ensures
        starts_at(s, 0, tcp_scheme()) ==> !starts_at(s, 0, unix_scheme()) && !starts_at(
            s,
            0,
            com_scheme(),
        ),
        starts_at(s, 0, unix_scheme()) ==> !starts_at(s, 0, com_scheme()),
{
    if starts_at(s, 0, tcp_scheme()) {
        assert(s[0] == s.subrange(0, 6)[0]);
        assert(s[0] == 116);
    }
    if starts_at(s, 0, unix_scheme()) {
        assert(s[0] == s.subrange(0, 7)[0]);
        assert(s[0] == 117);
    }
    if starts_at(s, 0, com_scheme()) {
        assert(s[0] == s.subrange(0, 6)[0]);
        assert(s[0] == 99);
    }
}

impl Endpoint {
    /// Parses an address of the grammar: `tcp://<host>:<port>`,
    /// `unix://<path>`, or
    /// `com://<device>?baud=<int>&data_bit=<int>&stop_bit=<int>&parity=<n|o|e>`.
    pub fn parse(addr: &str) -> (r: Result<Endpoint, CioError>)
        ensures
            r is Ok <==> valid_address(addr.spec_bytes()),
            r matches Ok(e) ==> describes(addr.spec_bytes(), e),
            r is Err ==> r matches Err(CioError::Address),
    {
        let s = addr.as_bytes();
        proof {
            lemma_schemes_exclusive(s@);
        }
        let tcp = parse_tcp(s);
        if tcp.is_some() {
            return match tcp {
                Some(e) => Ok(e),
                None => Err(CioError::Address),
            };
        }
        let unix = parse_unix(s);
        if unix.is_some() {
            return match unix {
                Some(e) => Ok(e),
                None => Err(CioError::Address),
            };
        }
        match parse_serial(s) {
            Some(e) => Ok(e),
            None => Err(CioError::Address),
        }
    }

    /// The kind of stream that connecting to this endpoint gives.
    pub fn stream_kind(&self) -> (r: TransportKind)
        ensures
            self is Tcp ==> r == TransportKind::TcpStream,
            self is Unix ==> r == TransportKind::UnixStream,
            self is Serial ==> r == TransportKind::SerialStream,
    {
        match self {
            Endpoint::Tcp { .. } => TransportKind::TcpStream,
            Endpoint::Unix { .. } => TransportKind::UnixStream,
            Endpoint::Serial { .. } => TransportKind::SerialStream,
        }
    }

    /// The kind of listener that binding this endpoint gives; a serial
    /// device has no listener form.
    pub fn listener_kind(&self) -> (r: Option<TransportKind>)
        ensures
            self is Tcp ==> r == Some(TransportKind::TcpListener),
            self is Unix ==> r == Some(TransportKind::UnixListener),
            self is Serial ==> r is None,
    {
        match self {
            Endpoint::Tcp { .. } => Some(TransportKind::TcpListener),
            Endpoint::Unix { .. } => Some(TransportKind::UnixListener),
            Endpoint::Serial { .. } => None,
        }
    }
}

/// The kind of listener that binding `addr` gives: an error where `addr` does
/// not follow the grammar or names a serial device.
pub fn bind_kind(addr: &str) -> (r: Result<TransportKind, CioError>)
    ensures
        tcp_of(addr.spec_bytes()) is Some ==> r == Ok::<TransportKind, CioError>(
            TransportKind::TcpListener,
        ),
        unix_of(addr.spec_bytes()) is Some ==> r == Ok::<TransportKind, CioError>(
            TransportKind::UnixListener,
        ),
        tcp_of(addr.spec_bytes()) is None && unix_of(addr.spec_bytes()) is None ==> r
            == Err::<TransportKind, CioError>(CioError::Address),
{
    proof {
        lemma_schemes_exclusive(addr.spec_bytes());
    }
    match Endpoint::parse(addr) {
        Ok(e) => match e.listener_kind() {
            Some(k) => Ok(k),
            None => Err(CioError::Address),
        },
        Err(err) => Err(err),
    }
}

/// The kind of stream that connecting to `addr` gives: an error where `addr`
/// does not follow the grammar.
pub fn connect_kind(addr: &str) -> (r: Result<TransportKind, CioError>)
    ensures
        tcp_of(addr.spec_bytes()) is Some ==> r == Ok::<TransportKind, CioError>(
            TransportKind::TcpStream,
        ),
        unix_of(addr.spec_bytes()) is Some ==> r == Ok::<TransportKind, CioError>(
            TransportKind::UnixStream,
        ),
        serial_of(addr.spec_bytes()) is Some ==> r == Ok::<TransportKind, CioError>(
            TransportKind::SerialStream,
        ),
        !valid_address(addr.spec_bytes()) ==> r == Err::<TransportKind, CioError>(
            CioError::Address,
        ),
{
    proof {
        lemma_schemes_exclusive(addr.spec_bytes());
    }
    match Endpoint::parse(addr) {
        Ok(e) => Ok(e.stream_kind()),
        Err(err) => Err(err),
    }
}

} // verus!
