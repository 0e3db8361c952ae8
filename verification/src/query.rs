//! The query string of the ping route: url-encoded pairs, decoded and
//! collected into a request. Unknown parameters are ignored; a malformed
//! one is rejected with its reason.

use vstd::prelude::*;
use crate::ip::{IpAddr, is_hex_digit, hex_digit_val};
use crate::settings::{find_from, lemma_find_from_spec, lemma_find_from_exact, lemma_find_from_none};
use crate::text::{spec_parse_u64, parse_u64, str_eq};
use crate::utils::{Protocol, NameOrIpAddr, spec_parse_protocol, spec_parse_target};

verus! {

/// What percent-decoding yields: `%XY` escapes stand for the byte they
/// spell, `+` for a space. Only seven-bit values are accepted, escaped or
/// not; anything else is malformed.
pub open spec fn spec_pdecode(s: Seq<char>) -> Option<Seq<char>>
    decreases s.len(),
{
    if s.len() == 0 {
        Some(Seq::<char>::empty())
    } else if s[0] == '%' {
        if s.len() >= 3 && is_hex_digit(s[1]) && is_hex_digit(s[2]) && hex_digit_val(s[1]) * 16
            + hex_digit_val(s[2]) < 128 {
            match spec_pdecode(s.subrange(3, s.len() as int)) {
                Some(rest) => Some(
                    seq![(((hex_digit_val(s[1]) * 16 + hex_digit_val(s[2])) as u8) as char)]
                        + rest,
                ),
                None => None,
            }
        } else {
            None
        }
    } else if s[0] as u32 >= 128 {
        None
    } else {
        let c = if s[0] == '+' {
            ' '
        } else {
            s[0]
        };
        match spec_pdecode(s.subrange(1, s.len() as int)) {
            Some(rest) => Some(seq![c] + rest),
            None => None,
        }
    }
}

/// A byte in front of a decoded tail.
fn prepend_byte(b: u8, rest: Vec<u8>) -> (r: Vec<u8>)
    ensures
        r@ == seq![b] + rest@,
{
    let mut v: Vec<u8> = Vec::new();
    v.push(b);
    let mut k: usize = 0;
    while k < rest.len()
        invariant
            k <= rest@.len(),
            v@ =~= seq![b] + rest@.subrange(0, k as int),
        decreases rest@.len() - k,
    {
        v.push(rest[k]);
        k = k + 1;
    }
    proof {
        assert(rest@.subrange(0, rest@.len() as int) =~= rest@);
        assert(v@ =~= seq![b] + rest@);
    }
    v
}

/// The characters a run of bytes stands for.
pub open spec fn chars_of(bytes: Seq<u8>) -> Seq<char> {
    bytes.map_values(|b: u8| b as char)
}

/// Decode the percent-encoded range `[i, end)` into its bytes.
fn pdecode(s: &str, i: usize, end: usize) -> (r: Option<Vec<u8>>)
    requires
        i <= end <= s@.len(),
    ensures
        match r {
            Some(v) => spec_pdecode(s@.subrange(i as int, end as int)) == Some(chars_of(v@))
                && forall|k: int| 0 <= k < v@.len() ==> v@[k] < 128,
            None => spec_pdecode(s@.subrange(i as int, end as int)) is None,
        },
    decreases end - i,
{
    let ghost seg = s@.subrange(i as int, end as int);
    if i == end {
        let v: Vec<u8> = Vec::new();
        proof {
            assert(seg =~= Seq::<char>::empty());
            assert(chars_of(v@) =~= Seq::<char>::empty());
        }
        return Some(v);
    }
    let c = s.get_char(i);
    if c == '%' {
        if end - i > 2 {
            let h1 = s.get_char(i + 1);
            let h2 = s.get_char(i + 2);
            let v1 = hex_val_exec(h1);
            let v2 = hex_val_exec(h2);
            match (v1, v2) {
                (Some(a), Some(b)) => {
                    let byte: u32 = (a as u32) * 16 + (b as u32);
                    if byte < 128 {
                        match pdecode(s, i + 3, end) {
                            Some(rest) => {
                                proof {
                                    assert(seg.subrange(3, seg.len() as int) =~= s@.subrange(
                                        i as int + 3,
                                        end as int,
                                    ));
                                }
                                let out = prepend_byte(byte as u8, rest);
                                proof {
                                    assert(chars_of(out@) =~= seq![(byte as u8) as char]
                                        + chars_of(rest@));
                                }
                                Some(out)
                            },
                            None => {
                                proof {
                                    assert(seg.subrange(3, seg.len() as int) =~= s@.subrange(
                                        i as int + 3,
                                        end as int,
                                    ));
                                }
                                None
                            },
                        }
                    } else {
                        None
                    }
                },
                _ => None,
            }
        } else {
            None
        }
    } else if c as u32 >= 128 {
        None
    } else {
        let byte: u8 = if c == '+' {
            32
        } else {
            c as u8
        };
        match pdecode(s, i + 1, end) {
            Some(rest) => {
                proof {
                    assert(seg.subrange(1, seg.len() as int) =~= s@.subrange(
                        i as int + 1,
                        end as int,
                    ));
                }
                let out = prepend_byte(byte, rest);
                proof {
                    assert(chars_of(out@) =~= seq![byte as char] + chars_of(rest@));
                    assert(byte as char == if s@[i as int] == '+' {
                        ' '
                    } else {
                        s@[i as int]
                    });
                }
                Some(out)
            },
            None => {
                proof {
                    assert(seg.subrange(1, seg.len() as int) =~= s@.subrange(
                        i as int + 1,
                        end as int,
                    ));
                }
                None
            },
        }
    }
}

/// The value of one hexadecimal digit character.
fn hex_val_exec(c: char) -> (r: Option<u8>)
    ensures
        is_hex_digit(c) ==> r == Some((hex_digit_val(c)) as u8),
        !is_hex_digit(c) ==> r is None,
{
    let cv = c as u32;
    if 48 <= cv && cv <= 57 {
        Some((cv - 48) as u8)
    } else if 97 <= cv && cv <= 102 {
        Some((cv - 87) as u8)
    } else if 65 <= cv && cv <= 70 {
        Some((cv - 55) as u8)
    } else {
        None
    }
}

/// Relies on std's `String::from_utf8`: seven-bit bytes are valid UTF-8
/// and decode to their own characters.
#[verifier::external_body]
fn ascii_string(bytes: Vec<u8>) -> (r: String)
    requires
        forall|k: int| 0 <= k < bytes@.len() ==> bytes@[k] < 128,
    ensures
        r@ == chars_of(bytes@),
{
    match String::from_utf8(bytes) {
        Ok(s) => s,
        Err(_) => String::new(),
    }
}

/// The request parameters gathered so far.
pub ghost struct QueryAcc {
    pub target: Option<(Option<IpAddr>, Seq<char>)>,
    pub protocol: Option<Protocol>,
    pub count: Option<u64>,
    pub ping_timeout: Option<u64>,
    pub resolve_timeout: Option<u64>,
}

/// Nothing gathered yet.
pub open spec fn empty_acc() -> QueryAcc {
    QueryAcc { target: None, protocol: None, count: None, ping_timeout: None, resolve_timeout: None }
}

/// What one `key=value` segment does to the gathered parameters: an
/// unknown key is ignored, a repeated or malformed one is the first
/// error.
pub open spec fn spec_step(acc: QueryAcc, seg: Seq<char>) -> Result<QueryAcc, Seq<char>> {
    let key_raw = match find_from(seg, 0, '=') {
        Some(j) => seg.subrange(0, j),
        None => seg,
    };
    let val_raw = match find_from(seg, 0, '=') {
        Some(j) => seg.subrange(j + 1, seg.len() as int),
        None => Seq::<char>::empty(),
    };
    match (spec_pdecode(key_raw), spec_pdecode(val_raw)) {
        (Some(k), Some(v)) => {
            if k == "target"@ {
                if acc.target is Some {
                    Err("duplicate parameter"@)
                } else {
                    match spec_parse_target(v) {
                        Some(t) => Ok(QueryAcc { target: Some(t), ..acc }),
                        None => Err("Invalid hostname or IP addr"@),
                    }
                }
            } else if k == "protocol"@ {
                if acc.protocol is Some {
                    Err("duplicate parameter"@)
                } else {
                    match spec_parse_protocol(v) {
                        Some(p) => Ok(QueryAcc { protocol: Some(p), ..acc }),
                        None => Err("'"@ + v + "' is not valid protocol, use v4 or v6"@),
                    }
                }
            } else if k == "count"@ {
                if acc.count is Some {
                    Err("duplicate parameter"@)
                } else {
                    match spec_parse_u64(v) {
                        Some(n) => Ok(QueryAcc { count: Some(n), ..acc }),
                        None => Err("invalid number"@),
                    }
                }
            } else if k == "ping_timeout"@ {
                if acc.ping_timeout is Some {
                    Err("duplicate parameter"@)
                } else {
                    match spec_parse_u64(v) {
                        Some(n) => Ok(QueryAcc { ping_timeout: Some(n), ..acc }),
                        None => Err("invalid number"@),
                    }
                }
            } else if k == "resolve_timeout"@ {
                if acc.resolve_timeout is Some {
                    Err("duplicate parameter"@)
                } else {
                    match spec_parse_u64(v) {
                        Some(n) => Ok(QueryAcc { resolve_timeout: Some(n), ..acc }),
                        None => Err("invalid number"@),
                    }
                }
            } else {
                Ok(acc)
            }
        },
        _ => Err("invalid percent-encoding"@),
    }
}

/// What the query string from `i` on yields: its segments, split on
/// ampersands, folded over the gathered parameters.
pub open spec fn spec_parse_from(q: Seq<char>, i: int, acc: QueryAcc) -> Result<
    QueryAcc,
    Seq<char>,
>
    decreases q.len() - i,
    when 0 <= i <= q.len()
    via spec_parse_from_decreases
{
    let j = match find_from(q, i, '&') {
        Some(j) => j,
        None => q.len() as int,
    };
    match spec_step(acc, q.subrange(i, j)) {
        Err(e) => Err(e),
        Ok(acc2) => if j == q.len() {
            Ok(acc2)
        } else {
            spec_parse_from(q, j + 1, acc2)
        },
    }
}

#[via_fn]
proof fn spec_parse_from_decreases(q: Seq<char>, i: int, acc: QueryAcc) {
    lemma_find_from_spec(q, i, '&');
}


/// Find the first `'='` in `[i, j)`.
fn find_eq(s: &str, i: usize, j: usize) -> (r: Option<usize>)
    requires
        i <= j <= s@.len(),
    ensures
        match r {
            Some(m) => i <= m < j && s@[m as int] == '=' && (forall|k: int|
                i <= k < m ==> s@[k] != '='),
            None => forall|k: int| i <= k < j ==> s@[k] != '=',
        },
{
    let mut m: usize = i;
    while m < j
        invariant
            i <= m <= j <= s@.len(),
            forall|k: int| i <= k < m ==> s@[k] != '=',
        decreases j - m,
    {
        if s.get_char(m) == '=' {
            return Some(m);
        }
        m = m + 1;
    }
    None
}

/// The request parameters gathered so far, as values.
struct QueryPartial {
    target: Option<NameOrIpAddr>,
    protocol: Option<Protocol>,
    count: Option<u64>,
    ping_timeout: Option<u64>,
    resolve_timeout: Option<u64>,
}

impl View for QueryPartial {
    type V = QueryAcc;

    closed spec fn view(&self) -> QueryAcc {
        QueryAcc {
            target: match self.target {
                Some(t) => Some(t@),
                None => None,
            },
            protocol: self.protocol,
            count: self.count,
            ping_timeout: self.ping_timeout,
            resolve_timeout: self.resolve_timeout,
        }
    }
}

/// Apply the segment `[i, j)` to the gathered parameters.
fn step_exec(s: &str, i: usize, j: usize, acc: QueryPartial) -> (r: Result<QueryPartial, String>)
    requires
        i <= j <= s@.len(),
    ensures
        ({
            let seg = s@.subrange(i as int, j as int);
            match r {
                Ok(p2) => spec_step(acc@, seg) == Ok::<QueryAcc, Seq<char>>(p2@),
                Err(e) => spec_step(acc@, seg) matches Err(m) && e@ == m,
            }
        }),
{
    let ghost seg = s@.subrange(i as int, j as int);
    let found = find_eq(s, i, j);
    let kend: usize = match found {
        Some(m) => m,
        None => j,
    };
    let vstart: usize = match found {
        Some(m) => m + 1,
        None => j,
    };
    proof {
        match found {
            Some(m) => {
                assert(seg[m - i] == '=');
                assert forall|k: int| 0 <= k < m - i implies seg[k] != '=' by {
                    assert(seg[k] == s@[i + k]);
                }
                lemma_find_from_exact(seg, 0, m - i, '=');
                assert(seg.subrange(0, m - i) =~= s@.subrange(i as int, m as int));
                assert(seg.subrange(m - i + 1, seg.len() as int) =~= s@.subrange(
                    m as int + 1,
                    j as int,
                ));
            },
            None => {
                assert forall|k: int| 0 <= k < seg.len() implies seg[k] != '=' by {
                    assert(seg[k] == s@[i + k]);
                }
                lemma_find_from_none(seg, 0, '=');
                assert(seg.subrange(0, seg.len() as int) =~= seg);
                assert(s@.subrange(j as int, j as int) =~= Seq::<char>::empty());
            },
        }
    }
    let kd = match pdecode(s, i, kend) {
        Some(v) => v,
        None => {
            return Err(String::from_str("invalid percent-encoding"));
        },
    };
    let vd = match pdecode(s, vstart, j) {
        Some(v) => v,
        None => {
            return Err(String::from_str("invalid percent-encoding"));
        },
    };
    let ks = ascii_string(kd);
    let vs = ascii_string(vd);
    if str_eq(ks.as_str(), "target") {
        if acc.target.is_some() {
            return Err(String::from_str("duplicate parameter"));
        }
        match NameOrIpAddr::from_str(vs.as_str()) {
            Some(t) => Ok(
                QueryPartial {
                    target: Some(t),
                    protocol: acc.protocol,
                    count: acc.count,
                    ping_timeout: acc.ping_timeout,
                    resolve_timeout: acc.resolve_timeout,
                },
            ),
            None => Err(String::from_str("Invalid hostname or IP addr")),
        }
    } else if str_eq(ks.as_str(), "protocol") {
        if acc.protocol.is_some() {
            return Err(String::from_str("duplicate parameter"));
        }
        match Protocol::from_str(vs.as_str()) {
            Ok(p) => Ok(
                QueryPartial {
                    target: acc.target,
                    protocol: Some(p),
                    count: acc.count,
                    ping_timeout: acc.ping_timeout,
                    resolve_timeout: acc.resolve_timeout,
                },
            ),
            Err(m) => Err(m),
        }
    } else if str_eq(ks.as_str(), "count") {
        if acc.count.is_some() {
            return Err(String::from_str("duplicate parameter"));
        }
        match parse_u64(vs.as_str()) {
            Some(n) => Ok(
                QueryPartial {
                    target: acc.target,
                    protocol: acc.protocol,
                    count: Some(n),
                    ping_timeout: acc.ping_timeout,
                    resolve_timeout: acc.resolve_timeout,
                },
            ),
            None => Err(String::from_str("invalid number")),
        }
    } else if str_eq(ks.as_str(), "ping_timeout") {
        if acc.ping_timeout.is_some() {
            return Err(String::from_str("duplicate parameter"));
        }
        match parse_u64(vs.as_str()) {
            Some(n) => Ok(
                QueryPartial {
                    target: acc.target,
                    protocol: acc.protocol,
                    count: acc.count,
                    ping_timeout: Some(n),
                    resolve_timeout: acc.resolve_timeout,
                },
            ),
            None => Err(String::from_str("invalid number")),
        }
    } else if str_eq(ks.as_str(), "resolve_timeout") {
        if acc.resolve_timeout.is_some() {
            return Err(String::from_str("duplicate parameter"));
        }
        match parse_u64(vs.as_str()) {
            Some(n) => Ok(
                QueryPartial {
                    target: acc.target,
                    protocol: acc.protocol,
                    count: acc.count,
                    ping_timeout: acc.ping_timeout,
                    resolve_timeout: Some(n),
                },
            ),
            None => Err(String::from_str("invalid number")),
        }
    } else {
        Ok(acc)
    }
}

/// Fold the segments of `q` from `i` on over the gathered parameters.
fn parse_from_exec(s: &str, i: usize, acc: QueryPartial) -> (r: Result<QueryPartial, String>)
    requires
        i <= s@.len(),
    ensures
        match r {
            Ok(p) => spec_parse_from(s@, i as int, acc@) == Ok::<QueryAcc, Seq<char>>(p@),
            Err(e) => spec_parse_from(s@, i as int, acc@) matches Err(m) && e@ == m,
        },
    decreases s@.len() - i,
{
    let n = s.unicode_len();
    let j: usize = match crate::settings::find_from_exec(s, i, '&') {
        Some(j) => j,
        None => n,
    };
    match step_exec(s, i, j, acc) {
        Err(e) => Err(e),
        Ok(acc2) => {
            if j == n {
                Ok(acc2)
            } else {
                parse_from_exec(s, j + 1, acc2)
            }
        },
    }
}

/// A ping request as it arrives: the target, and each knob only where the
/// query named it.
#[derive(Debug)]
pub struct PingRequest {
    pub target: NameOrIpAddr,
    pub protocol: Option<Protocol>,
    pub count: Option<u64>,
    pub ping_timeout: Option<u64>,
    pub resolve_timeout: Option<u64>,
}

impl View for PingRequest {
    type V = ((Option<IpAddr>, Seq<char>), Option<Protocol>, Option<u64>, Option<u64>, Option<
        u64,
    >);

    open spec fn view(&self) -> Self::V {
        (self.target@, self.protocol, self.count, self.ping_timeout, self.resolve_timeout)
    }
}

/// What parsing the whole query string yields: the folded parameters,
/// with the target required.
pub open spec fn spec_parse_ping_query(q: Seq<char>) -> Result<
    ((Option<IpAddr>, Seq<char>), Option<Protocol>, Option<u64>, Option<u64>, Option<u64>),
    Seq<char>,
> {
    match spec_parse_from(q, 0, empty_acc()) {
        Err(e) => Err(e),
        Ok(acc) => match acc.target {
            Some(t) => Ok((t, acc.protocol, acc.count, acc.ping_timeout, acc.resolve_timeout)),
            None => Err("missing field `target`"@),
        },
    }
}

/// Parse the query string of a ping request.
pub fn parse_ping_query(q: &str) -> (r: Result<PingRequest, String>)
    ensures
        match r {
            Ok(req) => spec_parse_ping_query(q@) == Ok::<<PingRequest as View>::V, Seq<char>>(req@),
            Err(e) => spec_parse_ping_query(q@) matches Err(m) && e@ == m,
        },
{
    let acc = QueryPartial {
        target: None,
        protocol: None,
        count: None,
        ping_timeout: None,
        resolve_timeout: None,
    };
    proof {
        assert(acc@ == empty_acc());
    }
    match parse_from_exec(q, 0, acc) {
        Err(e) => Err(e),
        Ok(p) => match p.target {
            Some(t) => Ok(
                PingRequest {
                    target: t,
                    protocol: p.protocol,
                    count: p.count,
                    ping_timeout: p.ping_timeout,
                    resolve_timeout: p.resolve_timeout,
                },
            ),
            None => Err(String::from_str("missing field `target`")),
        },
    }
}

} // verus!
