//! Wire messages exchanged with clients, and their binary encoding: each
//! field as a key byte followed by a base-128 integer, or by a length and
//! that many UTF-8 bytes; fields holding their default value are left out.
use vstd::prelude::*;
use vstd::utf8::{decode_utf8, encode_utf8, valid_utf8};

verus! {

/// A request as it arrives on the wire.
pub struct JsRequest {
    pub action: i32,
    pub script: String,
    pub args: Vec<String>,
    pub timeout: i32,
}

/// A response as it leaves on the wire: status 0 is success, 1 is an error.
pub struct JsResponse {
    pub status: i32,
    pub result: String,
}

/// A request with its strings read as their characters.
pub struct RequestModel {
    pub action: i32,
    pub script: Seq<char>,
    pub args: Seq<Seq<char>>,
    pub timeout: i32,
}

impl View for JsRequest {
    type V = RequestModel;

    open spec fn view(&self) -> RequestModel {
        RequestModel {
            action: self.action,
            script: self.script@,
            args: self.args@.map_values(|a: String| a@),
            timeout: self.timeout,
        }
    }
}

/// A response with its text read as characters.
pub struct ResponseModel {
    pub status: i32,
    pub result: Seq<char>,
}

impl View for JsResponse {
    type V = ResponseModel;

    open spec fn view(&self) -> ResponseModel {
        ResponseModel { status: self.status, result: self.result@ }
    }
}

/// Key of the request's action: field 1, an integer.
pub const ACTION_KEY: u8 = 8;

/// Key of the request's script: field 2, a string.
pub const SCRIPT_KEY: u8 = 18;

/// Key of each of the request's arguments: field 3, a string.
pub const ARG_KEY: u8 = 26;

/// Key of the request's timeout: field 4, an integer.
pub const TIMEOUT_KEY: u8 = 32;

/// Key of the response's status: field 1, an integer.
pub const STATUS_KEY: u8 = 8;

/// Key of the response's result: field 2, a string.
pub const RESULT_KEY: u8 = 18;

/// The largest value a varint may carry, plus one.
pub open spec fn varint_limit() -> nat {
    0x1_0000_0000_0000_0000
}

/// The most bytes a varint may take.
pub const MAX_VARINT_BYTES: usize = 10;

/// `128` raised to `k`.
pub open spec fn pow128(k: nat) -> nat
    decreases k,
{
    if k == 0 {
        1
    } else {
        128 * pow128((k - 1) as nat)
    }
}

/// The base-128 digits of `v`, least significant first, the high bit set on
/// every byte but the last.
pub open spec fn varint(v: nat) -> Seq<u8>
    decreases v,
{
    if v < 128 {
        seq![v as u8]
    } else {
        seq![(v % 128 + 128) as u8] + varint(v / 128)
    }
}

/// Reads a varint at the front of `b`, taking at most `budget` bytes: its
/// value and how many bytes it took, or `None` where the bytes end first,
/// the budget runs out first, or the value reaches `varint_limit()`.
pub open spec fn varint_at(b: Seq<u8>, budget: nat) -> Option<(nat, nat)>
    decreases budget,
{
    if budget == 0 || b.len() == 0 {
        None
    } else if b[0] < 128 {
        Some((b[0] as nat, 1))
    } else {
        match varint_at(b.drop_first(), (budget - 1) as nat) {
            Some((v, n)) => {
                let w = (b[0] - 128) + 128 * v;
                if w < varint_limit() {
                    Some((w as nat, n + 1))
                } else {
                    None
                }
            },
            None => None,
        }
    }
}

/// The varint value that carries `a`: a negative number is carried as its
/// 64-bit two's complement.
pub open spec fn wide(a: i32) -> nat {
    if a >= 0 {
        a as nat
    } else {
        (a + varint_limit()) as nat
    }
}

/// The 32-bit number that a varint value `v` carries: its low 32 bits, read
/// as two's complement.
pub open spec fn narrow(v: nat) -> i32 {
    let lo = v % 0x1_0000_0000;
    if lo >= 0x8000_0000 {
        (lo - 0x1_0000_0000) as i32
    } else {
        lo as i32
    }
}

/// An integer field: left out where the value is zero.
pub open spec fn int_field(key: u8, a: i32) -> Seq<u8> {
    if a == 0 {
        seq![]
    } else {
        seq![key] + varint(wide(a))
    }
}

/// A string field: its key, the length of its UTF-8 bytes, and the bytes.
pub open spec fn text_field(key: u8, s: Seq<char>) -> Seq<u8> {
    seq![key] + varint(encode_utf8(s).len()) + encode_utf8(s)
}

/// A string field that is left out where the string is empty.
pub open spec fn opt_text_field(key: u8, s: Seq<char>) -> Seq<u8> {
    if s.len() == 0 {
        seq![]
    } else {
        text_field(key, s)
    }
}

/// One string field for each string, in order.
pub open spec fn text_fields(key: u8, ss: Seq<Seq<char>>) -> Seq<u8>
    decreases ss.len(),
{
    if ss.len() == 0 {
        seq![]
    } else {
        text_field(key, ss[0]) + text_fields(key, ss.drop_first())
    }
}

/// The bytes of a request: action, script, arguments, timeout.
pub open spec fn request_bytes(m: RequestModel) -> Seq<u8> {
    int_field(ACTION_KEY, m.action) + opt_text_field(SCRIPT_KEY, m.script) + text_fields(
        ARG_KEY,
        m.args,
    ) + int_field(TIMEOUT_KEY, m.timeout)
}

/// The bytes of a response: status, result.
pub open spec fn response_bytes(m: ResponseModel) -> Seq<u8> {
    int_field(STATUS_KEY, m.status) + opt_text_field(RESULT_KEY, m.result)
}

/// Relies on prost::encoding::encode_varint: it appends the base-128 digits
/// of `v`, least significant first, with the high bit set on all but the
/// last byte.
#[verifier::external_body]
fn put_varint(v: u64, out: &mut Vec<u8>)
    ensures
        final(out)@ == old(out)@ + varint(v as nat),
{
    prost::encoding::encode_varint(v, out)
}

/// The varint value that carries `a`.
fn widen(a: i32) -> (r: u64)
    ensures
        r as nat == wide(a),
{
    if a >= 0 {
        a as u64
    } else {
        let m = (-(a as i64) - 1) as u64;
        0xffff_ffff_ffff_ffff - m
    }
}

/// The 32-bit number that the varint value `v` carries.
fn narrowed(v: u64) -> (r: i32)
    ensures
        r == narrow(v as nat),
{
    let lo = v % 0x1_0000_0000;
    if lo >= 0x8000_0000 {
        (lo as i64 - 0x1_0000_0000) as i32
    } else {
        lo as i32
    }
}

/// Appends an integer field.
fn put_int_field(out: &mut Vec<u8>, key: u8, a: i32)
    ensures
        final(out)@ == old(out)@ + int_field(key, a),
{
    if a != 0 {
        out.push(key);
        put_varint(widen(a), out);
        assert(final(out)@ =~= old(out)@ + int_field(key, a));
    } else {
        assert(final(out)@ =~= old(out)@ + int_field(key, a));
    }
}

/// Appends the bytes of `b`.
fn put_bytes(out: &mut Vec<u8>, b: &[u8])
    ensures
        final(out)@ == old(out)@ + b@,
{
    let ghost start = out@;
    let mut i: usize = 0;
    while i < b.len()
        invariant
            i <= b.len(),
            out@ == start + b@.subrange(0, i as int),
        decreases b.len() - i,
    {
        out.push(b[i]);
        i = i + 1;
        assert(out@ =~= start + b@.subrange(0, i as int));
    }
    assert(b@.subrange(0, i as int) =~= b@);
}

/// Appends a string field.
fn put_text_field(out: &mut Vec<u8>, key: u8, s: &String)
    ensures
        final(out)@ == old(out)@ + text_field(key, s@),
{
    let bytes = s.as_str().as_bytes();
    out.push(key);
    put_varint(bytes.len() as u64, out);
    put_bytes(out, bytes);
    assert(final(out)@ =~= old(out)@ + text_field(key, s@));
}

/// Appends a string field, unless the string is empty.
fn put_opt_text_field(out: &mut Vec<u8>, key: u8, s: &String)
    ensures
        final(out)@ == old(out)@ + opt_text_field(key, s@),
{
    if s.as_str().is_empty() {
        assert(final(out)@ =~= old(out)@ + opt_text_field(key, s@));
    } else {
        put_text_field(out, key, s);
    }
}

impl JsRequest {
    /// The bytes that carry this request.
    pub fn encode(&self) -> (r: Vec<u8>)
        ensures
            r@ == request_bytes(self@),
    {
        let mut out: Vec<u8> = Vec::new();
        put_int_field(&mut out, ACTION_KEY, self.action);
        put_opt_text_field(&mut out, SCRIPT_KEY, &self.script);
        let ghost head = out@;
        let ghost args = self@.args;
        let mut i: usize = 0;
        assert(args.subrange(0, args.len() as int) =~= args);
        while i < self.args.len()
            invariant
                i <= self.args.len(),
                args == self@.args,
                args.len() == self.args.len(),
                out@ + text_fields(ARG_KEY, args.subrange(i as int, args.len() as int)) == head
                    + text_fields(ARG_KEY, args),
            decreases self.args.len() - i,
        {
            let ghost before = out@;
            let ghost tail = args.subrange(i as int, args.len() as int);
            assert(tail.drop_first() =~= args.subrange(i + 1, args.len() as int));
            assert(tail[0] == self.args[i as int]@);
            put_text_field(&mut out, ARG_KEY, &self.args[i]);
            assert(before + text_fields(ARG_KEY, tail) =~= out@ + text_fields(
                ARG_KEY,
                tail.drop_first(),
            ));
            i = i + 1;
        }
        assert(text_fields(ARG_KEY, args.subrange(i as int, args.len() as int)) =~= seq![]);
        assert(out@ =~= head + text_fields(ARG_KEY, args));
        put_int_field(&mut out, TIMEOUT_KEY, self.timeout);
        out
    }
}

impl JsResponse {
    /// The bytes that carry this response.
    pub fn encode(&self) -> (r: Vec<u8>)
        ensures
            r@ == response_bytes(self@),
    {
        let mut out: Vec<u8> = Vec::new();
        put_int_field(&mut out, STATUS_KEY, self.status);
        put_opt_text_field(&mut out, RESULT_KEY, &self.result);
        assert(out@ =~= response_bytes(self@));
        out
    }
}

/// Reads the varint that starts at `pos`, taking at most `budget` bytes.
fn read_varint(b: &[u8], pos: usize, budget: usize) -> (r: Option<(u64, usize)>)
    requires
        pos <= b.len(),
    ensures
        r matches Some((v, n)) ==> varint_at(b@.subrange(pos as int, b.len() as int), budget as nat)
            == Some((v as nat, n as nat)),
        r is None ==> varint_at(b@.subrange(pos as int, b.len() as int), budget as nat) is None,
        r matches Some((v, n)) ==> 1 <= n <= budget && pos + n <= b.len(),
    decreases budget,
{
    let ghost s = b@.subrange(pos as int, b.len() as int);
    if budget == 0 || pos == b.len() {
        return None;
    }
    let x = b[pos];
    if x < 128 {
        return Some((x as u64, 1));
    }
    assert(s.drop_first() =~= b@.subrange(pos + 1, b.len() as int));
    match read_varint(b, pos + 1, budget - 1) {
        None => None,
        Some((v, n)) => {
            let low = (x - 128) as u64;
            if v >= 0x200_0000_0000_0000 {
                assert(low + 128 * v >= varint_limit()) by (nonlinear_arith)
                    requires v >= 0x200_0000_0000_0000;
                None
            } else {
                assert(low + 128 * v < varint_limit()) by (nonlinear_arith)
                    requires v < 0x200_0000_0000_0000, low < 128;
                Some((low + 128 * v, n + 1))
            }
        },
    }
}

/// A varint takes at least one byte, and no more than are there.
pub proof fn lemma_varint_at_bounds(b: Seq<u8>, budget: nat)
    ensures
        varint_at(b, budget) matches Some((v, n)) ==> 1 <= n <= b.len() && n <= budget,
    decreases budget,
{
    if budget > 0 && b.len() > 0 && b[0] >= 128 {
        lemma_varint_at_bounds(b.drop_first(), (budget - 1) as nat);
    }
}

/// One field as it stands in the bytes.
pub enum WireField {
    /// An integer field: its key and value.
    Int(nat, nat),
    /// A length-delimited field: its key and bytes.
    Text(nat, Seq<u8>),
}

/// Reads the field at the front of `b`: the field and how many bytes it
/// took. A key whose low three bits are 0 is followed by a varint value, one
/// whose low bits are 2 by a varint length and that many bytes; other keys,
/// and bytes that end early, give `None`.
pub open spec fn field_at(b: Seq<u8>) -> Option<(WireField, nat)> {
    match varint_at(b, MAX_VARINT_BYTES as nat) {
        None => None,
        Some((key, n)) => {
            let rest = b.subrange(n as int, b.len() as int);
            match varint_at(rest, MAX_VARINT_BYTES as nat) {
                None => None,
                Some((v, m)) => if key % 8 == 0 {
                    Some((WireField::Int(key, v), n + m))
                } else if key % 8 == 2 && m + v <= rest.len() {
                    Some((WireField::Text(key, rest.subrange(m as int, (m + v) as int)), n + m + v))
                } else {
                    None
                },
            }
        },
    }
}

/// A field takes at least one byte, and no more than are there.
pub proof fn lemma_field_at_bounds(b: Seq<u8>)
    ensures
        field_at(b) matches Some((f, n)) ==> 1 <= n <= b.len(),
{
    lemma_varint_at_bounds(b, MAX_VARINT_BYTES as nat);
    if let Some((key, n)) = varint_at(b, MAX_VARINT_BYTES as nat) {
        lemma_varint_at_bounds(b.subrange(n as int, b.len() as int), MAX_VARINT_BYTES as nat);
    }
}

/// The request before any field is read: every field at its default.
pub open spec fn empty_request() -> RequestModel {
    RequestModel { action: 0, script: seq![], args: seq![], timeout: 0 }
}

/// `acc` with the field `f` read into it; `None` for a field that a request
/// does not have, or a string that is not UTF-8. A later action, script or
/// timeout replaces an earlier one; each argument is appended.
pub open spec fn apply_request_field(acc: RequestModel, f: WireField) -> Option<RequestModel> {
    match f {
        WireField::Int(key, v) => if key == ACTION_KEY {
            Some(RequestModel { action: narrow(v), ..acc })
        } else if key == TIMEOUT_KEY {
            Some(RequestModel { timeout: narrow(v), ..acc })
        } else {
            None
        },
        WireField::Text(key, body) => if !valid_utf8(body) {
            None
        } else if key == SCRIPT_KEY {
            Some(RequestModel { script: decode_utf8(body), ..acc })
        } else if key == ARG_KEY {
            Some(RequestModel { args: acc.args.push(decode_utf8(body)), ..acc })
        } else {
            None
        },
    }
}

/// Reads the fields of `b` into `acc`, front to back.
pub open spec fn parse_request_from(b: Seq<u8>, acc: RequestModel) -> Option<RequestModel>
    decreases b.len(),
    via parse_request_from_decreases
{
    if b.len() == 0 {
        Some(acc)
    } else {
        match field_at(b) {
            None => None,
            Some((f, n)) => match apply_request_field(acc, f) {
                None => None,
                Some(next) => parse_request_from(b.subrange(n as int, b.len() as int), next),
            },
        }
    }
}

#[via_fn]
proof fn parse_request_from_decreases(b: Seq<u8>, acc: RequestModel) {
    lemma_field_at_bounds(b);
}

/// The request that `b` carries, if it carries one.
pub open spec fn parse_request(b: Seq<u8>) -> Option<RequestModel> {
    parse_request_from(b, empty_request())
}

/// Relies on String::from_utf8: it succeeds exactly on valid UTF-8, and the
/// string then holds those bytes.
#[verifier::external_body]
fn string_from_utf8(b: Vec<u8>) -> (r: Option<String>)
    ensures
        r is Some <==> valid_utf8(b@),
        r matches Some(s) ==> encode_utf8(s@) == b@,
{
    String::from_utf8(b).ok()
}

/// The string held by the bytes of `b` from `from` to `to`, if they are UTF-8.
fn text_at(b: &[u8], from: usize, to: usize) -> (r: Option<String>)
    requires
        from <= to <= b.len(),
    ensures
        r is Some <==> valid_utf8(b@.subrange(from as int, to as int)),
        r matches Some(s) ==> s@ == decode_utf8(b@.subrange(from as int, to as int)),
{
    let mut v: Vec<u8> = Vec::new();
    let mut i: usize = from;
    while i < to
        invariant
            from <= i <= to <= b.len(),
            v@ == b@.subrange(from as int, i as int),
        decreases to - i,
    {
        v.push(b[i]);
        i = i + 1;
        assert(v@ =~= b@.subrange(from as int, i as int));
    }
    let r = string_from_utf8(v);
    proof {
        if r is Some {
            vstd::utf8::encode_utf8_decode_utf8(r->0@);
        }
    }
    r
}

/// Reads the field that starts at `pos`: its key, its value (for a string
/// field, the length of its bytes, which end the field), and how many bytes
/// it took.
fn read_field(b: &[u8], pos: usize) -> (r: Option<(u64, u64, usize)>)
    requires
        pos <= b.len(),
    ensures
        r is None <==> field_at(b@.subrange(pos as int, b.len() as int)) is None,
        r matches Some((k, v, n)) ==> pos + n <= b.len() && match field_at(
            b@.subrange(pos as int, b.len() as int),
        ) {
            Some((WireField::Int(k2, v2), n2)) => k % 8 == 0 && k == k2 && v == v2 && n == n2,
            Some((WireField::Text(k2, body), n2)) => k % 8 == 2 && k == k2 && n == n2 && v <= n
                && body == b@.subrange(pos + n - v, pos + n),
            None => false,
        },
{
    let ghost s = b@.subrange(pos as int, b.len() as int);
    let (key, n) = match read_varint(b, pos, MAX_VARINT_BYTES) {
        None => return None,
        Some(x) => x,
    };
    let ghost rest = s.subrange(n as int, s.len() as int);
    assert(rest =~= b@.subrange(pos + n, b.len() as int));
    let (v, m) = match read_varint(b, pos + n, MAX_VARINT_BYTES) {
        None => return None,
        Some(x) => x,
    };
    if key % 8 == 0 {
        Some((key, v, n + m))
    } else if key % 8 == 2 && v <= (b.len() - pos - n - m) as u64 {
        let end = pos + n + m + v as usize;
        assert(rest.subrange(m as int, m + v) =~= b@.subrange(end - v, end as int));
        Some((key, v, n + m + v as usize))
    } else {
        None
    }
}

/// Why bytes do not carry a message.
#[derive(Debug, PartialEq, Eq, Structural)]
pub enum DecodeError {
    /// The bytes are not a sequence of fields of the message.
    Malformed,
}

impl JsRequest {
    /// The request that `b` carries, or an error where it carries none.
    pub fn decode(b: &[u8]) -> (r: Result<JsRequest, DecodeError>)
        ensures
            match parse_request(b@) {
                Some(m) => r matches Ok(q) && q@ == m,
                None => r is Err,
            },
    {
        let mut action: i32 = 0;
        let mut script = String::new();
        let mut args: Vec<String> = Vec::new();
        let mut timeout: i32 = 0;
        let mut pos: usize = 0;
        assert(b@.subrange(0, b.len() as int) =~= b@);
        assert(args@.map_values(|a: String| a@) =~= seq![]);
        while pos < b.len()
            invariant
                pos <= b.len(),
                parse_request_from(
                    b@.subrange(pos as int, b.len() as int),
                    RequestModel {
                        action,
                        script: script@,
                        args: args@.map_values(|a: String| a@),
                        timeout,
                    },
                ) == parse_request(b@),
            decreases b.len() - pos,
        {
            let ghost s = b@.subrange(pos as int, b.len() as int);
            let ghost acc = RequestModel {
                action,
                script: script@,
                args: args@.map_values(|a: String| a@),
                timeout,
            };
            let (key, v, n) = match read_field(b, pos) {
                None => return Err(DecodeError::Malformed),
                Some(x) => x,
            };
            if key % 8 == 0 {
                if key == ACTION_KEY as u64 {
                    action = narrowed(v);
                } else if key == TIMEOUT_KEY as u64 {
                    timeout = narrowed(v);
                } else {
                    return Err(DecodeError::Malformed);
                }
            } else {
                let t = match text_at(b, pos + n - v as usize, pos + n) {
                    None => return Err(DecodeError::Malformed),
                    Some(t) => t,
                };
                if key == SCRIPT_KEY as u64 {
                    script = t;
                } else if key == ARG_KEY as u64 {
                    let ghost old_args = args@;
                    args.push(t);
                    assert(args@.map_values(|a: String| a@) =~= old_args.map_values(
                        |a: String| a@,
                    ).push(t@));
                } else {
                    return Err(DecodeError::Malformed);
                }
            }
            assert(s.subrange(n as int, s.len() as int) =~= b@.subrange(
                pos + n,
                b.len() as int,
            ));
            pos = pos + n;
        }
        proof {
            assert(b@.subrange(pos as int, b.len() as int) =~= seq![]);
        }
        let r = JsRequest { action, script, args, timeout };
        Ok(r)
    }
}

/// A varint read back from its own encoding gives the value and the length
/// of that encoding, whatever follows it.
pub proof fn lemma_varint_at_varint(v: nat, rest: Seq<u8>, budget: nat)
    requires
        v < varint_limit(),
        v < pow128(budget),
        budget > 0,
    ensures
        varint_at(varint(v) + rest, budget) == Some((v, varint(v).len())),
    decreases v,
{
    let b = varint(v) + rest;
    if v < 128 {
        assert(b[0] == v as u8);
    } else {
        assert(budget - 1 > 0) by {
            if budget == 1 {
                assert(pow128(0) == 1);
            }
        }
        assert(b[0] == (v % 128 + 128) as u8);
        assert(v == v % 128 + 128 * (v / 128)) by (nonlinear_arith);
        assert(b.drop_first() =~= varint(v / 128) + rest);
        assert(v / 128 < pow128((budget - 1) as nat)) by (nonlinear_arith)
            requires
                v < 128 * pow128((budget - 1) as nat),
        ;
        lemma_varint_at_varint(v / 128, rest, (budget - 1) as nat);
        assert(varint_at(b.drop_first(), (budget - 1) as nat) == Some((v / 128, varint(v / 128).len())));
    }
}

/// Ten bytes hold every varint value.
pub proof fn lemma_ten_bytes_suffice()
    ensures
        varint_limit() <= pow128(MAX_VARINT_BYTES as nat),
        MAX_VARINT_BYTES > 0,
{
    reveal_with_fuel(pow128, 11);
}

/// The 32-bit number that a varint carries is the one it was made from.
pub proof fn lemma_narrow_wide(a: i32)
    ensures
        narrow(wide(a)) == a,
{
    if a < 0 {
        let w = a + varint_limit();
        assert(w % 0x1_0000_0000 == a + 0x1_0000_0000) by (nonlinear_arith)
            requires
                w == a + 0x1_0000_0000_0000_0000,
                -0x8000_0000 <= a < 0,
        ;
    }
}

/// Whether every string of `m` has fewer UTF-8 bytes than a varint can count.
pub open spec fn request_fits(m: RequestModel) -> bool {
    &&& encode_utf8(m.script).len() < varint_limit()
    &&& forall|i: int| 0 <= i < m.args.len() ==> encode_utf8(#[trigger] m.args[i]).len() < varint_limit()
}

/// Reading one field of `f + rest` that takes all of `f` is applying it and
/// reading on from `rest`.
proof fn lemma_parse_step(f: Seq<u8>, rest: Seq<u8>, acc: RequestModel, field: WireField)
    requires
        f.len() > 0,
        field_at(f + rest) == Some((field, f.len())),
    ensures
        parse_request_from(f + rest, acc) == match apply_request_field(acc, field) {
            None => None,
            Some(next) => parse_request_from(rest, next),
        },
{
    let b = f + rest;
    assert(b.subrange(f.len() as int, b.len() as int) =~= rest);
}

/// The field read from an integer field of `a` is `a`'s varint value.
proof fn lemma_int_field_at(key: u8, a: i32, rest: Seq<u8>)
    requires
        key < 128,
        key % 8 == 0,
        a != 0,
    ensures
        field_at(int_field(key, a) + rest) == Some(
            (WireField::Int(key as nat, wide(a)), int_field(key, a).len()),
        ),
{
    let b = int_field(key, a) + rest;
    let w = wide(a);
    lemma_ten_bytes_suffice();
    assert(varint(key as nat) =~= seq![key]);
    assert(b =~= varint(key as nat) + (varint(w) + rest));
    lemma_varint_at_varint(key as nat, varint(w) + rest, MAX_VARINT_BYTES as nat);
    assert(b.subrange(1, b.len() as int) =~= varint(w) + rest);
    lemma_varint_at_varint(w, rest, MAX_VARINT_BYTES as nat);
}

/// The field read from a string field of `s` holds the UTF-8 bytes of `s`.
proof fn lemma_text_field_at(key: u8, s: Seq<char>, rest: Seq<u8>)
    requires
        key < 128,
        key % 8 == 2,
        encode_utf8(s).len() < varint_limit(),
    ensures
        field_at(text_field(key, s) + rest) == Some(
            (WireField::Text(key as nat, encode_utf8(s)), text_field(key, s).len()),
        ),
{
    let e = encode_utf8(s);
    let len = e.len();
    let b = text_field(key, s) + rest;
    lemma_ten_bytes_suffice();
    assert(varint(key as nat) =~= seq![key]);
    assert(b =~= varint(key as nat) + (varint(len) + (e + rest)));
    lemma_varint_at_varint(key as nat, varint(len) + (e + rest), MAX_VARINT_BYTES as nat);
    let r1 = b.subrange(1, b.len() as int);
    assert(r1 =~= varint(len) + (e + rest));
    lemma_varint_at_varint(len, e + rest, MAX_VARINT_BYTES as nat);
    let m = varint(len).len();
    assert(r1.subrange(m as int, (m + len) as int) =~= e);
}

/// Reading a request's action field from the empty request sets the action.
proof fn lemma_parse_action(a: i32, rest: Seq<u8>)
    ensures
        parse_request_from(int_field(ACTION_KEY, a) + rest, empty_request())
            == parse_request_from(rest, RequestModel { action: a, ..empty_request() }),
{
    if a == 0 {
        assert(int_field(ACTION_KEY, a) + rest =~= rest);
        assert(RequestModel { action: a, ..empty_request() } == empty_request());
    } else {
        lemma_int_field_at(ACTION_KEY, a, rest);
        lemma_narrow_wide(a);
        lemma_parse_step(int_field(ACTION_KEY, a), rest, empty_request(), WireField::Int(ACTION_KEY as nat, wide(a)));
    }
}

/// Reading a script field into a request without a script sets the script.
proof fn lemma_parse_script(acc: RequestModel, s: Seq<char>, rest: Seq<u8>)
    requires
        acc.script.len() == 0,
        encode_utf8(s).len() < varint_limit(),
    ensures
        parse_request_from(opt_text_field(SCRIPT_KEY, s) + rest, acc)
            == parse_request_from(rest, RequestModel { script: s, ..acc }),
{
    if s.len() == 0 {
        assert(opt_text_field(SCRIPT_KEY, s) + rest =~= rest);
        assert(acc.script =~= s);
        assert(RequestModel { script: s, ..acc } == acc);
    } else {
        lemma_text_field_at(SCRIPT_KEY, s, rest);
        vstd::utf8::encode_utf8_valid_utf8(s);
        vstd::utf8::encode_utf8_decode_utf8(s);
        lemma_parse_step(text_field(SCRIPT_KEY, s), rest, acc, WireField::Text(SCRIPT_KEY as nat, encode_utf8(s)));
    }
}

/// Reading argument fields appends their strings, in order.
proof fn lemma_parse_args(acc: RequestModel, ss: Seq<Seq<char>>, rest: Seq<u8>)
    requires
        forall|i: int| 0 <= i < ss.len() ==> encode_utf8(#[trigger] ss[i]).len() < varint_limit(),
    ensures
        parse_request_from(text_fields(ARG_KEY, ss) + rest, acc)
            == parse_request_from(rest, RequestModel { args: acc.args + ss, ..acc }),
    decreases ss.len(),
{
    if ss.len() == 0 {
        assert(text_fields(ARG_KEY, ss) + rest =~= rest);
        assert(acc.args + ss =~= acc.args);
        assert(RequestModel { args: acc.args + ss, ..acc } == acc);
    } else {
        let s = ss[0];
        let tail = ss.drop_first();
        let after = text_fields(ARG_KEY, tail) + rest;
        assert(text_fields(ARG_KEY, ss) + rest =~= text_field(ARG_KEY, s) + after);
        lemma_text_field_at(ARG_KEY, s, after);
        vstd::utf8::encode_utf8_valid_utf8(s);
        vstd::utf8::encode_utf8_decode_utf8(s);
        lemma_parse_step(text_field(ARG_KEY, s), after, acc, WireField::Text(ARG_KEY as nat, encode_utf8(s)));
        let next = RequestModel { args: acc.args.push(s), ..acc };
        assert forall|i: int| 0 <= i < tail.len() implies encode_utf8(#[trigger] tail[i]).len() < varint_limit() by {
            assert(tail[i] == ss[i + 1]);
        }
        lemma_parse_args(next, tail, rest);
        assert(next.args + tail =~= acc.args + ss);
    }
}

/// Reading a request's timeout field sets the timeout.
proof fn lemma_parse_timeout(acc: RequestModel, t: i32)
    requires
        acc.timeout == 0,
    ensures
        parse_request_from(int_field(TIMEOUT_KEY, t), acc) == Some(RequestModel { timeout: t, ..acc }),
{
    let rest: Seq<u8> = seq![];
    assert(int_field(TIMEOUT_KEY, t) + rest =~= int_field(TIMEOUT_KEY, t));
    if t == 0 {
        assert(RequestModel { timeout: t, ..acc } == acc);
    } else {
        lemma_int_field_at(TIMEOUT_KEY, t, rest);
        lemma_narrow_wide(t);
        lemma_parse_step(int_field(TIMEOUT_KEY, t), rest, acc, WireField::Int(TIMEOUT_KEY as nat, wide(t)));
    }
}

/// Decoding the bytes of a request gives the request back; so encoding,
/// decoding and encoding again gives the same bytes as encoding once.
pub proof fn lemma_request_round_trip(m: RequestModel)
    requires
        request_fits(m),
    ensures
        parse_request(request_bytes(m)) == Some(m),
        request_bytes(parse_request(request_bytes(m))->0) == request_bytes(m),
{
    let p1 = opt_text_field(SCRIPT_KEY, m.script);
    let p2 = text_fields(ARG_KEY, m.args);
    let p3 = int_field(TIMEOUT_KEY, m.timeout);
    let a0 = RequestModel { action: m.action, ..empty_request() };
    let a1 = RequestModel { script: m.script, ..a0 };
    let a2 = RequestModel { args: a1.args + m.args, ..a1 };
    assert(request_bytes(m) =~= int_field(ACTION_KEY, m.action) + (p1 + (p2 + p3)));
    lemma_parse_action(m.action, p1 + (p2 + p3));
    lemma_parse_script(a0, m.script, p2 + p3);
    lemma_parse_args(a1, m.args, p3);
    lemma_parse_timeout(a2, m.timeout);
    assert(a2.args =~= m.args);
    assert(RequestModel { timeout: m.timeout, ..a2 } == m);
}

} // verus!
