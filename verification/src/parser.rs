//! The record assembler: sub-parsers for endpoints and payloads, and the
//! state-machine driver that sequences timestamp, bracketed address pair and
//! payload over a forward-only cursor.
//!
//! Every function is specified against a total, specification-level parse of
//! the input's view, so the executable result — success, every field, and on
//! failure the error kind and offset — is pinned down exactly.

use vstd::prelude::*;

use crate::errors::{ErrorModel, ParseError, ParseErrorKind};
use crate::record::{
    AddressEndpoint, EndpointModel, ParsedRecord, ProtocolTag, RecordKind, RecordModel,
    infer_protocol, spec_infer_protocol,
};
use crate::scan::{
    digit_run_end, host_token_end, is_digit, lemma_digit_run_end, line_end, scan_digits,
    scan_host, scan_line, scan_spaces, space_run_end,
};
use crate::timestamp::{parse_timestamp, spec_parse_timestamp};
use vstd::string::StrSliceExecFns;

verus! {

/// The numeric value of a digit character.
pub open spec fn digit_val(c: char) -> int {
    c as int - '0' as int
}

/// The decimal value of a digit run.
pub open spec fn digits_value(s: Seq<char>) -> int
    decreases s.len(),
{
    if s.len() == 0 {
        0
    } else {
        digits_value(s.drop_last()) * 10 + digit_val(s.last())
    }
}

pub proof fn lemma_digits_value_nonneg(s: Seq<char>)
    requires
        forall|k: int| 0 <= k < s.len() ==> is_digit(#[trigger] s[k]),
    ensures
        digits_value(s) >= 0,
    decreases s.len(),
{
    if s.len() > 0 {
        lemma_digits_value_nonneg(s.drop_last());
    }
}

/// A digit run is worth at least as much as any of its prefixes.
pub proof fn lemma_digits_value_prefix(s: Seq<char>, m: int)
    requires
        0 <= m <= s.len(),
        forall|k: int| 0 <= k < s.len() ==> is_digit(#[trigger] s[k]),
    ensures
        digits_value(s) >= digits_value(s.take(m)),
    decreases s.len(),
{
    if m < s.len() {
        assert(s.drop_last().take(m) =~= s.take(m));
        lemma_digits_value_prefix(s.drop_last(), m);
        lemma_digits_value_nonneg(s.drop_last());
    } else {
        assert(s.take(m) =~= s);
    }
}

/// Reads the decimal value of the digit run `s[from..to]` as a `u32`;
/// `None` where the value overflows.
fn parse_port_digits(s: &str, n: usize, from: usize, to: usize) -> (r: Option<u32>)
    requires
        n == s@.len(),
        from <= to <= n,
        forall|k: int| from <= k < to ==> is_digit(#[trigger] s@[k]),
    ensures
        (match r {
            Some(v) => v as int == digits_value(s@.subrange(from as int, to as int)),
            None => digits_value(s@.subrange(from as int, to as int)) > u32::MAX,
        }),
{
    let ghost whole = s@.subrange(from as int, to as int);
    let mut acc: u64 = 0;
    let mut j = from;
    while j < to
        invariant
            n == s@.len(),
            from <= j <= to,
            to <= n,
            forall|k: int| from <= k < to ==> is_digit(#[trigger] s@[k]),
            whole == s@.subrange(from as int, to as int),
            acc as int == digits_value(s@.subrange(from as int, j as int)),
            acc <= u32::MAX as u64,
        decreases to - j,
    {
        let c = s.get_char(j);
        proof {
            assert(is_digit(s@[j as int]));
        }
        let d: u32 = (c as u32) - 48;
        let next: u64 = acc * 10 + d as u64;
        proof {
            assert(s@.subrange(from as int, j as int + 1).drop_last() =~= s@.subrange(
                from as int,
                j as int,
            ));
            assert(s@.subrange(from as int, j as int + 1).last() == s@[j as int]);
        }
        if next > u32::MAX as u64 {
            proof {
                lemma_digits_value_prefix(whole, j + 1 - from);
                assert(whole.take(j + 1 - from) =~= s@.subrange(from as int, j as int + 1));
            }
            return None;
        }
        acc = next;
        j = j + 1;
    }
    proof {
        assert(s@.subrange(from as int, j as int) =~= whole);
    }
    Some(acc as u32)
}

/// The endpoint token beginning at `i`: a non-empty host token up to (but not
/// through) the first `:`, then a non-empty digit run read as a `u32` port.
/// The host scan fails where the end of the input or one of the higher-level
/// delimiters `#` or `]` comes first; the port fails on an empty digit run
/// or on overflow.
pub open spec fn spec_parse_endpoint(s: Seq<char>, i: int) -> Result<
    (int, EndpointModel),
    ErrorModel,
> {
    let n = s.len() as int;
    let h_end = host_token_end(s, i);
    if h_end == n || s[h_end] != ':' {
        Err(ErrorModel { kind: ParseErrorKind::MissingDelimiter, offset: h_end })
    } else if h_end == i {
        Err(ErrorModel { kind: ParseErrorKind::MissingDelimiter, offset: i })
    } else {
        let p_start = h_end + 1;
        let p_end = digit_run_end(s, p_start);
        if p_end == p_start {
            if p_start == n {
                Err(ErrorModel { kind: ParseErrorKind::UnexpectedEndOfInput, offset: n })
            } else {
                Err(ErrorModel { kind: ParseErrorKind::InvalidNumber, offset: p_start })
            }
        } else if digits_value(s.subrange(p_start, p_end)) > u32::MAX {
            Err(ErrorModel { kind: ParseErrorKind::InvalidNumber, offset: p_start })
        } else {
            Ok(
                (
                    p_end,
                    EndpointModel {
                        host: s.subrange(i, h_end),
                        port: digits_value(s.subrange(p_start, p_end)) as u32,
                    },
                ),
            )
        }
    }
}

/// Parses one `host:port` endpoint beginning at `from` and yields the next
/// cursor position together with the endpoint.
pub fn parse_endpoint(s: &str, from: usize) -> (r: Result<(usize, AddressEndpoint), ParseError>)
    requires
        from as int <= s@.len(),
    ensures
        (match r {
            Ok((p, ep)) => spec_parse_endpoint(s@, from as int) == Ok::<
                (int, EndpointModel),
                ErrorModel,
            >((p as int, ep@)) && from <= p && p as int <= s@.len(),
            Err(e) => spec_parse_endpoint(s@, from as int) == Err::<
                (int, EndpointModel),
                ErrorModel,
            >(e@),
        }),
{
    let n = s.unicode_len();
    let h_end = scan_host(s, n, from);
    if h_end == n || s.get_char(h_end) != ':' {
        return Err(ParseError { kind: ParseErrorKind::MissingDelimiter, offset: h_end });
    }
    if h_end == from {
        return Err(ParseError { kind: ParseErrorKind::MissingDelimiter, offset: from });
    }
    let p_start = h_end + 1;
    let p_end = scan_digits(s, n, p_start);
    if p_end == p_start {
        if p_start == n {
            return Err(ParseError { kind: ParseErrorKind::UnexpectedEndOfInput, offset: n });
        }
        return Err(ParseError { kind: ParseErrorKind::InvalidNumber, offset: p_start });
    }
    proof {
        lemma_digit_run_end(s@, p_start as int);
    }
    let port = match parse_port_digits(s, n, p_start, p_end) {
        Some(v) => v,
        None => {
            return Err(ParseError { kind: ParseErrorKind::InvalidNumber, offset: p_start });
        },
    };
    let host = s.substring_char(from, h_end).to_owned();
    Ok((p_end, AddressEndpoint { host, port }))
}

/// The payload beginning at `i`: a two-character record-kind prefix (`D:` for
/// data, `R:` for a response), then everything up to — excluding — the first
/// line break, taken verbatim and with no further validation.
pub open spec fn spec_parse_payload(s: Seq<char>, i: int) -> Result<
    (int, RecordKind, Seq<char>),
    ErrorModel,
> {
    let n = s.len() as int;
    if i + 2 > n {
        Err(ErrorModel { kind: ParseErrorKind::UnexpectedEndOfInput, offset: n })
    } else if s[i] == 'D' && s[i + 1] == ':' {
        Ok((line_end(s, i + 2), RecordKind::Data, s.subrange(i + 2, line_end(s, i + 2))))
    } else if s[i] == 'R' && s[i + 1] == ':' {
        Ok((line_end(s, i + 2), RecordKind::Response, s.subrange(i + 2, line_end(s, i + 2))))
    } else {
        Err(ErrorModel { kind: ParseErrorKind::UnknownPayloadTag, offset: i })
    }
}

/// Parses the record-kind discriminator and payload body beginning at `from`
/// and yields the next cursor position, the kind, and the payload text.
pub fn parse_payload(s: &str, from: usize) -> (r: Result<(usize, RecordKind, String), ParseError>)
    requires
        from as int <= s@.len(),
    ensures
        (match r {
            Ok((p, kind, payload)) => spec_parse_payload(s@, from as int) == Ok::<
                (int, RecordKind, Seq<char>),
                ErrorModel,
            >((p as int, kind, payload@)) && from <= p && p as int <= s@.len(),
            Err(e) => spec_parse_payload(s@, from as int) == Err::<
                (int, RecordKind, Seq<char>),
                ErrorModel,
            >(e@),
        }),
{
    let n = s.unicode_len();
    if n - from < 2 {
        return Err(ParseError { kind: ParseErrorKind::UnexpectedEndOfInput, offset: n });
    }
    let tag = s.get_char(from);
    let colon = s.get_char(from + 1);
    let kind = if tag == 'D' && colon == ':' {
        RecordKind::Data
    } else if tag == 'R' && colon == ':' {
        RecordKind::Response
    } else {
        return Err(ParseError { kind: ParseErrorKind::UnknownPayloadTag, offset: from });
    };
    let body_end = scan_line(s, n, from + 2);
    let payload = s.substring_char(from + 2, body_end).to_owned();
    Ok((body_end, kind, payload))
}

/// Reads a byte slice as a little-endian unsigned 8-bit integer: the single
/// byte itself where the slice is exactly one byte long, nothing otherwise.
pub fn bytes_to_uint8(array: &[u8]) -> (r: Option<u8>)
    ensures
        r == (if array@.len() == 1 {
            Some(array@[0])
        } else {
            None::<u8>
        }),
{
    if array.len() == 1 {
        Some(array[0])
    } else {
        None
    }
}

/// The whole-record grammar over the input's view: timestamp, a space/tab
/// run, `[`, client endpoint, `#`, server endpoint, `]`, a space/tab run,
/// and the payload, in that fixed order. The protocol tag is inferred from
/// the client port. A record is produced only in its fully populated form;
/// whatever follows the payload's line is ignored, so trailing line
/// terminators never fail a parse.
pub open spec fn spec_parse(s: Seq<char>) -> Result<RecordModel, ErrorModel> {
    let n = s.len() as int;
    match spec_parse_timestamp(s, 0) {
        Err(e) => Err(e),
        Ok((p1, ts)) => {
            let w = space_run_end(s, p1);
            if w == p1 {
                Err(ErrorModel { kind: ParseErrorKind::MissingDelimiter, offset: p1 })
            } else if w == n || s[w] != '[' {
                Err(ErrorModel { kind: ParseErrorKind::MissingDelimiter, offset: w })
            } else {
                match spec_parse_endpoint(s, w + 1) {
                    Err(e) => Err(e),
                    Ok((p2, client)) => {
                        if p2 == n || s[p2] != '#' {
                            Err(ErrorModel { kind: ParseErrorKind::MissingDelimiter, offset: p2 })
                        } else {
                            match spec_parse_endpoint(s, p2 + 1) {
                                Err(e) => Err(e),
                                Ok((p3, server)) => {
                                    if p3 == n || s[p3] != ']' {
                                        Err(
                                            ErrorModel {
                                                kind: ParseErrorKind::MissingDelimiter,
                                                offset: p3,
                                            },
                                        )
                                    } else {
                                        let w2 = space_run_end(s, p3 + 1);
                                        if w2 == p3 + 1 {
                                            Err(
                                                ErrorModel {
                                                    kind: ParseErrorKind::MissingDelimiter,
                                                    offset: p3 + 1,
                                                },
                                            )
                                        } else {
                                            match spec_parse_payload(s, w2) {
                                                Err(e) => Err(e),
                                                Ok((p4, kind, payload)) => Ok(
                                                    RecordModel {
                                                        timestamp_ms: ts,
                                                        client_address: client,
                                                        server_address: server,
                                                        protocol: spec_infer_protocol(client.port),
                                                        record_kind: kind,
                                                        payload: payload,
                                                    },
                                                ),
                                            }
                                        }
                                    }
                                }
                            }
                        }
                    },
                }
            }
        },
    }
}

/// Parses one full log record from the front of `input`. The record is
/// returned only fully populated; any failure drops the whole line and
/// reports the kind of failure with the position at which the parser
/// stopped. Text after the payload's line terminator is ignored.
pub fn parse_record(input: &str) -> (r: Result<ParsedRecord, ParseError>)
    ensures
        (match r {
            Ok(rec) => spec_parse(input@) == Ok::<RecordModel, ErrorModel>(rec@),
            Err(e) => spec_parse(input@) == Err::<RecordModel, ErrorModel>(e@),
        }),
{
    let n = input.unicode_len();
    let (p1, ts) = match parse_timestamp(input, 0) {
        Ok(v) => v,
        Err(e) => {
            return Err(e);
        },
    };
    let w = scan_spaces(input, n, p1);
    if w == p1 {
        return Err(ParseError { kind: ParseErrorKind::MissingDelimiter, offset: p1 });
    }
    if w == n || input.get_char(w) != '[' {
        return Err(ParseError { kind: ParseErrorKind::MissingDelimiter, offset: w });
    }
    let (p2, client) = match parse_endpoint(input, w + 1) {
        Ok(v) => v,
        Err(e) => {
            return Err(e);
        },
    };
    if p2 == n || input.get_char(p2) != '#' {
        return Err(ParseError { kind: ParseErrorKind::MissingDelimiter, offset: p2 });
    }
    let (p3, server) = match parse_endpoint(input, p2 + 1) {
        Ok(v) => v,
        Err(e) => {
            return Err(e);
        },
    };
    if p3 == n || input.get_char(p3) != ']' {
        return Err(ParseError { kind: ParseErrorKind::MissingDelimiter, offset: p3 });
    }
    let w2 = scan_spaces(input, n, p3 + 1);
    if w2 == p3 + 1 {
        return Err(ParseError { kind: ParseErrorKind::MissingDelimiter, offset: p3 + 1 });
    }
    let (p4, kind, payload) = match parse_payload(input, w2) {
        Ok(v) => v,
        Err(e) => {
            return Err(e);
        },
    };
    let protocol = infer_protocol(client.port);
    Ok(
        ParsedRecord {
            timestamp_ms: ts,
            client_address: client,
            server_address: server,
            protocol,
            record_kind: kind,
            payload,
        },
    )
}

/// Parsing is idempotent: the outcome is a function of the input text alone —
/// no hidden state influences it — so two parses of equal inputs yield equal
/// results. [`parse_record`] equates its result with `spec_parse`, so this
/// carries over to any two of its calls.
pub proof fn lemma_parse_deterministic(
    s1: Seq<char>,
    s2: Seq<char>,
    r1: Result<RecordModel, ErrorModel>,
    r2: Result<RecordModel, ErrorModel>,
)
    requires
        s1 == s2,
        r1 == spec_parse(s1),
        r2 == spec_parse(s2),
    ensures
        r1 == r2,
{
}

/// A client port of 0 always classifies a record as MQTT and any positive
/// client port as IEC104, regardless of the server port: the protocol tag of
/// every successfully parsed record is determined by its client port alone,
/// and `Unknown` is never produced.
pub proof fn lemma_protocol_from_client_port(s: Seq<char>)
    ensures
        (match spec_parse(s) {
            Ok(rec) => rec.protocol == spec_infer_protocol(rec.client_address.port)
                && (rec.client_address.port == 0 <==> rec.protocol == ProtocolTag::MQTT)
                && (rec.client_address.port != 0 <==> rec.protocol == ProtocolTag::IEC104)
                && rec.protocol != ProtocolTag::Unknown,
            Err(_) => true,
        }),
{
}

/// An input whose bracketed address section is not closed by `]` fails with
/// `MissingDelimiter`, at the position where `]` should stand: none of the
/// payload section is consumed and no record is produced.
pub proof fn lemma_missing_close_bracket(
    s: Seq<char>,
    p1: int,
    ts: int,
    w: int,
    p2: int,
    client: EndpointModel,
    p3: int,
    server: EndpointModel,
)
    requires
        spec_parse_timestamp(s, 0) == Ok::<(int, int), ErrorModel>((p1, ts)),
        w == space_run_end(s, p1),
        w != p1,
        w < s.len(),
        s[w] == '[',
        spec_parse_endpoint(s, w + 1) == Ok::<(int, EndpointModel), ErrorModel>((p2, client)),
        p2 < s.len(),
        s[p2] == '#',
        spec_parse_endpoint(s, p2 + 1) == Ok::<(int, EndpointModel), ErrorModel>((p3, server)),
        p3 == s.len() || s[p3] != ']',
    ensures
        spec_parse(s) == Err::<RecordModel, ErrorModel>(
            ErrorModel { kind: ParseErrorKind::MissingDelimiter, offset: p3 },
        ),
{
}

/// A payload prefix other than `D:` or `R:` fails the parse with
/// `UnknownPayloadTag`, at the position of the prefix.
pub proof fn lemma_unknown_payload_tag(
    s: Seq<char>,
    p1: int,
    ts: int,
    w: int,
    p2: int,
    client: EndpointModel,
    p3: int,
    server: EndpointModel,
    w2: int,
)
    requires
        spec_parse_timestamp(s, 0) == Ok::<(int, int), ErrorModel>((p1, ts)),
        w == space_run_end(s, p1),
        w != p1,
        w < s.len(),
        s[w] == '[',
        spec_parse_endpoint(s, w + 1) == Ok::<(int, EndpointModel), ErrorModel>((p2, client)),
        p2 < s.len(),
        s[p2] == '#',
        spec_parse_endpoint(s, p2 + 1) == Ok::<(int, EndpointModel), ErrorModel>((p3, server)),
        p3 < s.len(),
        s[p3] == ']',
        w2 == space_run_end(s, p3 + 1),
        w2 != p3 + 1,
        w2 + 2 <= s.len(),
        !(s[w2] == 'D' && s[w2 + 1] == ':'),
        !(s[w2] == 'R' && s[w2 + 1] == ':'),
    ensures
        spec_parse(s) == Err::<RecordModel, ErrorModel>(
            ErrorModel { kind: ParseErrorKind::UnknownPayloadTag, offset: w2 },
        ),
{
}

/// Success is owed: an input on which every field of the grammar matches in
/// order — timestamp, whitespace, `[`, client endpoint, `#`, server endpoint,
/// `]`, whitespace, payload — parses into exactly these fields, with the
/// protocol inferred from the client port.
pub proof fn lemma_well_formed_input_parses(
    s: Seq<char>,
    p1: int,
    ts: int,
    w: int,
    p2: int,
    client: EndpointModel,
    p3: int,
    server: EndpointModel,
    w2: int,
    p4: int,
    kind: RecordKind,
    payload: Seq<char>,
)
    requires
        spec_parse_timestamp(s, 0) == Ok::<(int, int), ErrorModel>((p1, ts)),
        w == space_run_end(s, p1),
        w != p1,
        w < s.len(),
        s[w] == '[',
        spec_parse_endpoint(s, w + 1) == Ok::<(int, EndpointModel), ErrorModel>((p2, client)),
        p2 < s.len(),
        s[p2] == '#',
        spec_parse_endpoint(s, p2 + 1) == Ok::<(int, EndpointModel), ErrorModel>((p3, server)),
        p3 < s.len(),
        s[p3] == ']',
        w2 == space_run_end(s, p3 + 1),
        w2 != p3 + 1,
        spec_parse_payload(s, w2) == Ok::<(int, RecordKind, Seq<char>), ErrorModel>(
            (p4, kind, payload),
        ),
    ensures
        spec_parse(s) == Ok::<RecordModel, ErrorModel>(
            RecordModel {
                timestamp_ms: ts,
                client_address: client,
                server_address: server,
                protocol: spec_infer_protocol(client.port),
                record_kind: kind,
                payload: payload,
            },
        ),
{
}

} // verus!
