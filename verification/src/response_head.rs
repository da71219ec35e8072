//! From the parsed CGI header block to the head of the HTTP response.
//!
//! The special field `Status` carries the status line: the first three
//! bytes of its value are the decimal status code. It is taken out of band
//! and never forwarded as a literal header. Without a `Status` field the
//! response defaults to status 200. Every other field becomes a response
//! header verbatim.

use vstd::prelude::*;

use crate::byteops::bytes_eq;
use crate::header_parse::{fields_model, HeaderField};
use crate::CgiFailure;

verus! {

/// The bytes of the field name `Status`.
pub open spec fn status_key() -> Seq<u8> {
    seq![83u8, 116u8, 97u8, 116u8, 117u8, 115u8]
}

pub open spec fn is_ascii_digit(b: u8) -> bool {
    48 <= b && b <= 57
}

/// The status code named by the value of a `Status` field: its first three
/// bytes read as a decimal number. `None` when they do not form a valid
/// HTTP status code (three digits, 100 to 999).
pub open spec fn parsed_status(v: Seq<u8>) -> Option<u16> {
    if v.len() >= 3 && is_ascii_digit(v[0]) && is_ascii_digit(v[1]) && is_ascii_digit(v[2]) && v[0]
        != 48u8 {
        Some((((v[0] - 48) * 100 + (v[1] - 48) * 10 + (v[2] - 48)) as u16))
    } else {
        None
    }
}

/// The value the field list gives to name `k`, later entries winning.
pub open spec fn lookup(hs: Seq<(Seq<u8>, Seq<u8>)>, k: Seq<u8>) -> Option<Seq<u8>>
    decreases hs.len(),
{
    if hs.len() == 0 {
        None
    } else if hs.last().0 == k {
        Some(hs.last().1)
    } else {
        lookup(hs.drop_last(), k)
    }
}

/// The field list with every `Status` field removed, order kept.
pub open spec fn without_status(hs: Seq<(Seq<u8>, Seq<u8>)>) -> Seq<(Seq<u8>, Seq<u8>)>
    decreases hs.len(),
{
    if hs.len() == 0 {
        Seq::empty()
    } else {
        let rest = without_status(hs.drop_last());
        if hs.last().0 == status_key() {
            rest
        } else {
            rest.push(hs.last())
        }
    }
}

/// The status code a header block calls for: 200 when it has no `Status`
/// field, the named code when it has a well-formed one, and `None` — no
/// usable head at all — when its `Status` value is malformed.
pub open spec fn spec_status(hs: Seq<(Seq<u8>, Seq<u8>)>) -> Option<u16> {
    match lookup(hs, status_key()) {
        None => Some(200u16),
        Some(v) => parsed_status(v),
    }
}

/// The head of the outbound HTTP response: the status code and the headers
/// to forward, `Status` already taken out.
#[derive(Debug, Clone, PartialEq, Eq)]
pub struct ResponseHead {
    pub status: u16,
    pub fields: Vec<HeaderField>,
}

/// Whether `name` is the byte string `Status`.
fn is_status_name(name: &[u8]) -> (r: bool)
    ensures
        r <==> name@ == status_key(),
{
    let pat: [u8; 6] = [83u8, 116u8, 97u8, 116u8, 117u8, 115u8];
    proof {
        assert(pat@ =~= status_key());
    }
    bytes_eq(name, pat.as_slice())
}

/// Looks the `Status` field up, later fields winning.
fn find_status(fields: &Vec<HeaderField>) -> (r: Option<&Vec<u8>>)
    ensures
        match r {
            Some(v) => lookup(fields_model(fields@), status_key()) == Some(v@),
            None => lookup(fields_model(fields@), status_key()) is None,
        },
{
    let ghost m = fields_model(fields@);
    let mut i: usize = fields.len();
    proof {
        assert(m.take(fields@.len() as int) =~= m);
    }
    while i > 0
        invariant
            i <= fields@.len(),
            m == fields_model(fields@),
            lookup(m, status_key()) == lookup(m.take(i as int), status_key()),
        decreases i,
    {
        i = i - 1;
        proof {
            assert(m[i as int] == fields@[i as int]@);
            assert(m.take(i + 1 as int).last() == m[i as int]);
            assert(m.take(i + 1 as int).drop_last() =~= m.take(i as int));
        }
        if is_status_name(fields[i].name.as_slice()) {
            return Some(&fields[i].value);
        }
    }
    proof {
        assert(m.take(0) =~= Seq::<(Seq<u8>, Seq<u8>)>::empty());
    }
    None
}

/// Reads the status code out of a `Status` value: its first three bytes as
/// a decimal number, `None` when they are not a valid code.
fn status_code_of(v: &Vec<u8>) -> (r: Option<u16>)
    ensures
        r == parsed_status(v@),
{
    if v.len() < 3 {
        return None;
    }
    let b0 = v[0];
    let b1 = v[1];
    let b2 = v[2];
    if 49 <= b0 && b0 <= 57 && 48 <= b1 && b1 <= 57 && 48 <= b2 && b2 <= 57 {
        let code: u16 = (b0 - 48) as u16 * 100 + (b1 - 48) as u16 * 10 + (b2 - 48) as u16;
        Some(code)
    } else {
        None
    }
}

/// The headers to forward: every field but `Status`, order kept.
fn forwarded_fields(fields: &Vec<HeaderField>) -> (r: Vec<HeaderField>)
    ensures
        fields_model(r@) == without_status(fields_model(fields@)),
{
    let ghost m = fields_model(fields@);
    let mut out: Vec<HeaderField> = Vec::new();
    let mut i: usize = 0;
    proof {
        assert(m.take(0) =~= Seq::<(Seq<u8>, Seq<u8>)>::empty());
        assert(fields_model(out@) =~= without_status(m.take(0)));
    }
    while i < fields.len()
        invariant
            i <= fields@.len(),
            m == fields_model(fields@),
            fields_model(out@) == without_status(m.take(i as int)),
        decreases fields@.len() - i,
    {
        proof {
            assert(m[i as int] == fields@[i as int]@);
            assert(m.take(i + 1 as int).last() == m[i as int]);
            assert(m.take(i + 1 as int).drop_last() =~= m.take(i as int));
        }
        let f = &fields[i];
        if !is_status_name(f.name.as_slice()) {
            let copied = HeaderField {
                name: crate::byteops::bytes_range(&f.name, 0, f.name.len()),
                value: crate::byteops::bytes_range(&f.value, 0, f.value.len()),
            };
            proof {
                assert(copied@ == m[i as int]);
            }
            out.push(copied);
            proof {
                assert(fields_model(out@) =~= without_status(m.take(i as int)).push(m[i as int]));
            }
        }
        i = i + 1;
    }
    proof {
        assert(m.take(fields@.len() as int) =~= m);
    }
    out
}

/// Builds the response head a parsed header block calls for: the status
/// the block names (200 when it names none) and all fields but `Status`,
/// verbatim and in order. `None` when the block's `Status` value is not a
/// valid status code.
pub fn build_response_head(fields: &Vec<HeaderField>) -> (r: Option<ResponseHead>)
    ensures
        match r {
            Some(h) => {
                &&& spec_status(fields_model(fields@)) == Some(h.status)
                &&& fields_model(h.fields@) == without_status(fields_model(fields@))
            },
            None => spec_status(fields_model(fields@)) is None,
        },
{
    let status: u16 = match find_status(fields) {
        None => 200,
        Some(v) => {
            match status_code_of(v) {
                Some(c) => c,
                None => {
                    return None;
                },
            }
        },
    };
    Some(ResponseHead { status, fields: forwarded_fields(fields) })
}

/// The best-effort head for a request whose subprocess produced no usable
/// header block: status 502, no headers.
pub fn bad_gateway_head() -> (r: ResponseHead)
    ensures
        r.status == 502,
        fields_model(r.fields@) == Seq::<(Seq<u8>, Seq<u8>)>::empty(),
{
    let r = ResponseHead { status: 502, fields: Vec::new() };
    proof {
        assert(fields_model(r.fields@) =~= Seq::<(Seq<u8>, Seq<u8>)>::empty());
    }
    r
}

/// What the head answered for a block must be: the block's own status and
/// forwarded fields when it is usable, the bare 502 when its `Status` value
/// is malformed.
pub open spec fn head_matches_block(hs: Seq<(Seq<u8>, Seq<u8>)>, r: ResponseHead) -> bool {
    match spec_status(hs) {
        Some(c) => r.status == c && fields_model(r.fields@) == without_status(hs),
        None => r.status == 502 && fields_model(r.fields@) == Seq::<(Seq<u8>, Seq<u8>)>::empty(),
    }
}

/// The head the bridge answers with, given the parsed header block: the
/// block's own head when it is usable, a bare 502 when its `Status` value
/// is malformed.
pub fn head_for_block(fields: &Vec<HeaderField>) -> (r: ResponseHead)
    ensures
        head_matches_block(fields_model(fields@), r),
{
    match build_response_head(fields) {
        Some(h) => h,
        None => bad_gateway_head(),
    }
}

/// The head the bridge answers the whole header phase with. Every outcome
/// yields a response: a parsed block its own head, and any fatal failure —
/// spawn, truncated header block, unreadable output — the best-effort 502,
/// so the client is never left without an answer.
pub fn head_for_outcome(outcome: Result<&Vec<HeaderField>, CgiFailure>) -> (r: ResponseHead)
    ensures
        match outcome {
            Ok(fields) => head_matches_block(fields_model(fields@), r),
            Err(_) => r.status == 502 && fields_model(r.fields@) == Seq::<(
                Seq<u8>,
                Seq<u8>,
            )>::empty(),
        },
{
    match outcome {
        Ok(fields) => head_for_block(fields),
        Err(_) => bad_gateway_head(),
    }
}

/// The `Status` field is consumed, never forwarded: looking `Status` up
/// among the forwarded headers of any block finds nothing.
pub proof fn lemma_status_never_forwarded(hs: Seq<(Seq<u8>, Seq<u8>)>)
    ensures
        lookup(without_status(hs), status_key()) is None,
    decreases hs.len(),
{
    if hs.len() == 0 {
    } else {
        lemma_status_never_forwarded(hs.drop_last());
        let rest = without_status(hs.drop_last());
        if hs.last().0 == status_key() {
        } else {
            assert(rest.push(hs.last()).drop_last() =~= rest);
        }
    }
}

/// Whatever head the bridge answers a block with — the block's own head or
/// the bare 502 — it holds no header literally named `Status`.
pub proof fn lemma_answered_head_has_no_status_header(
    hs: Seq<(Seq<u8>, Seq<u8>)>,
    r: ResponseHead,
)
    requires
        head_matches_block(hs, r),
    ensures
        lookup(fields_model(r.fields@), status_key()) is None,
{
    match spec_status(hs) {
        Some(_) => {
            lemma_status_never_forwarded(hs);
        },
        None => {
        },
    }
}

} // verus!

