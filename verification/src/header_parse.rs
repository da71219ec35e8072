//! Parser for the CGI header block.
//!
//! The CGI subprocess writes, before its body, a block of `Name: value`
//! lines terminated by an empty line. Lines end in a newline; a trailing
//! carriage return before the newline is stripped. A line is split at the
//! first occurrence of the two-byte separator `": "`; a line without the
//! separator is skipped. Repeated names keep the last value ("last wins").
//!
//! The parser is a small state machine fed one byte at a time, so the
//! surrounding server can hand it whatever chunks the pipe yields and learn
//! where the header block ends and the body begins.

use vstd::prelude::*;

use crate::byteops::{bytes_eq, bytes_range};
use crate::CgiFailure;

verus! {

/// Mathematical state of the header-block parser: whether the block has
/// ended, the bytes of the line being accumulated, and the fields parsed so
/// far, in order, with unique names.
pub ghost struct ParseState {
    pub in_body: bool,
    pub line: Seq<u8>,
    pub fields: Seq<(Seq<u8>, Seq<u8>)>,
}

pub open spec fn init_state() -> ParseState {
    ParseState { in_body: false, line: Seq::empty(), fields: Seq::empty() }
}

/// A trailing carriage return is stripped from a completed line.
pub open spec fn strip_cr(l: Seq<u8>) -> Seq<u8> {
    if l.len() > 0 && l.last() == 13u8 {
        l.drop_last()
    } else {
        l
    }
}

/// The two-byte separator `": "` stands at position `i` of `l`.
pub open spec fn sep_at(l: Seq<u8>, i: int) -> bool {
    0 <= i && i + 2 <= l.len() && l[i] == 58u8 && l[i + 1] == 32u8
}

pub open spec fn has_sep(l: Seq<u8>) -> bool {
    exists|i: int| sep_at(l, i)
}

/// The position of the first `": "` in `l` (meaningful only when
/// `has_sep(l)`).
pub open spec fn first_sep(l: Seq<u8>) -> int {
    choose|i: int| sep_at(l, i) && (forall|j: int| 0 <= j < i ==> !sep_at(l, j))
}

/// Wherever some separator stands, a first one does.
pub proof fn lemma_min_sep_exists(l: Seq<u8>, i: int)
    requires
        sep_at(l, i),
    ensures
        sep_at(l, first_sep(l)),
        forall|j: int| 0 <= j < first_sep(l) ==> !sep_at(l, j),
    decreases i,
{
    if forall|j: int| 0 <= j < i ==> !sep_at(l, j) {
        assert(sep_at(l, i) && (forall|j: int| 0 <= j < i ==> !sep_at(l, j)));
    } else {
        let j = choose|j: int| 0 <= j < i && sep_at(l, j);
        lemma_min_sep_exists(l, j);
    }
}

/// The first separator position is the unique minimal one.
pub proof fn lemma_first_sep_is(l: Seq<u8>, i: int)
    requires
        sep_at(l, i),
        forall|j: int| 0 <= j < i ==> !sep_at(l, j),
    ensures
        first_sep(l) == i,
{
    lemma_min_sep_exists(l, i);
    let m = first_sep(l);
    if m < i {
        assert(!sep_at(l, m));
    }
    if i < m {
        assert(!sep_at(l, i));
    }
}

/// The name and value of a header line: the bytes before the first `": "`
/// and the bytes after it. `None` for a line without the separator.
pub open spec fn line_kv(l: Seq<u8>) -> Option<(Seq<u8>, Seq<u8>)> {
    if has_sep(l) {
        let i = first_sep(l);
        Some((l.subrange(0, i), l.subrange(i + 2, l.len() as int)))
    } else {
        None
    }
}

/// Inserts `(k, v)` into the field list, replacing the value in place if
/// the name is already present (scanning from position `i` on), appending
/// otherwise.
pub open spec fn upsert_from(
    hs: Seq<(Seq<u8>, Seq<u8>)>,
    k: Seq<u8>,
    v: Seq<u8>,
    i: int,
) -> Seq<(Seq<u8>, Seq<u8>)>
    decreases hs.len() - i,
{
    if i < 0 || i >= hs.len() {
        hs.push((k, v))
    } else if hs[i].0 == k {
        hs.update(i, (k, v))
    } else {
        upsert_from(hs, k, v, i + 1)
    }
}

/// "Last wins": a repeated name keeps its place and takes the new value.
pub open spec fn upsert(hs: Seq<(Seq<u8>, Seq<u8>)>, k: Seq<u8>, v: Seq<u8>) -> Seq<(
    Seq<u8>,
    Seq<u8>,
)> {
    upsert_from(hs, k, v, 0)
}

/// Effect of one completed, stripped, non-empty line on the field list:
/// a well-formed line is inserted last-wins, a malformed one is skipped.
pub open spec fn apply_line(hs: Seq<(Seq<u8>, Seq<u8>)>, l: Seq<u8>) -> Seq<(Seq<u8>, Seq<u8>)> {
    match line_kv(l) {
        Some(kv) => upsert(hs, kv.0, kv.1),
        None => hs,
    }
}

/// One byte of subprocess output drives the state machine one step. After
/// the empty line has been seen the state no longer changes: the remaining
/// bytes are body, not headers.
pub open spec fn step(st: ParseState, b: u8) -> ParseState {
    if st.in_body {
        st
    } else if b == 10u8 {
        let l = strip_cr(st.line);
        if l.len() == 0 {
            ParseState { in_body: true, line: Seq::empty(), fields: st.fields }
        } else {
            ParseState { in_body: false, line: Seq::empty(), fields: apply_line(st.fields, l) }
        }
    } else {
        ParseState { in_body: false, line: st.line.push(b), fields: st.fields }
    }
}

/// The state after feeding `bytes`, starting from `st`.
pub open spec fn run_from(st: ParseState, bytes: Seq<u8>) -> ParseState
    decreases bytes.len(),
{
    if bytes.len() == 0 {
        st
    } else {
        step(run_from(st, bytes.drop_last()), bytes.last())
    }
}

/// The state after feeding `bytes` to a fresh parser.
pub open spec fn run(bytes: Seq<u8>) -> ParseState {
    run_from(init_state(), bytes)
}

pub proof fn lemma_run_snoc(st: ParseState, bytes: Seq<u8>, b: u8)
    ensures
        run_from(st, bytes.push(b)) == step(run_from(st, bytes), b),
{
    assert(bytes.push(b).drop_last() =~= bytes);
    assert(bytes.push(b).last() == b);
}

/// One parsed header field: name and value bytes.
#[derive(Debug, Clone, PartialEq, Eq)]
pub struct HeaderField {
    pub name: Vec<u8>,
    pub value: Vec<u8>,
}

impl View for HeaderField {
    type V = (Seq<u8>, Seq<u8>);

    open spec fn view(&self) -> (Seq<u8>, Seq<u8>) {
        (self.name@, self.value@)
    }
}

/// The field list a vector of fields stands for.
pub open spec fn fields_model(fs: Seq<HeaderField>) -> Seq<(Seq<u8>, Seq<u8>)> {
    fs.map_values(|f: HeaderField| f@)
}

/// Inserts a field last-wins: if the name is present its value is replaced
/// in place, otherwise the field is appended.
fn upsert_field(fields: &mut Vec<HeaderField>, name: Vec<u8>, value: Vec<u8>)
    ensures
        fields_model(final(fields)@) == upsert(fields_model(old(fields)@), name@, value@),
{
    let ghost m = fields_model(fields@);
    let mut i: usize = 0;
    while i < fields.len()
        invariant
            i <= fields.len(),
            fields@ == old(fields)@,
            m == fields_model(fields@),
            upsert(m, name@, value@) == upsert_from(m, name@, value@, i as int),
            forall|j: int| 0 <= j < i ==> m[j].0 != name@,
        decreases fields.len() - i,
    {
        proof {
            assert(m[i as int] == fields@[i as int]@);
        }
        if bytes_eq(fields[i].name.as_slice(), name.as_slice()) {
            fields[i] = HeaderField { name, value };
            proof {
                assert(fields_model(fields@) =~= m.update(i as int, (name@, value@)));
            }
            return ;
        }
        i = i + 1;
    }
    fields.push(HeaderField { name, value });
    proof {
        assert(fields_model(fields@) =~= m.push((name@, value@)));
    }
}

/// State machine that extracts the CGI header block out of the subprocess's
/// output byte stream.
pub struct CgiHeaderParser {
    in_body: bool,
    line: Vec<u8>,
    fields: Vec<HeaderField>,
}

impl View for CgiHeaderParser {
    type V = ParseState;

    closed spec fn view(&self) -> ParseState {
        ParseState { in_body: self.in_body, line: self.line@, fields: fields_model(self.fields@) }
    }
}

impl CgiHeaderParser {
    pub fn new() -> (r: Self)
        ensures
            r@ == init_state(),
    {
        let r = CgiHeaderParser { in_body: false, line: Vec::new(), fields: Vec::new() };
        proof {
            assert(r@.line =~= init_state().line);
            assert(r@.fields =~= init_state().fields);
        }
        r
    }

    /// Whether the terminating empty line has been seen: every byte fed
    /// from here on is response body.
    pub fn header_block_done(&self) -> (r: bool)
        ensures
            r == self@.in_body,
    {
        self.in_body
    }

    /// The parsed fields, in order, names unique, last value winning.
    pub fn fields(&self) -> (r: &Vec<HeaderField>)
        ensures
            fields_model(r@) == self@.fields,
    {
        &self.fields
    }

    /// Consumes the parser, handing the parsed fields out.
    pub fn into_fields(self) -> (r: Vec<HeaderField>)
        ensures
            fields_model(r@) == self@.fields,
    {
        self.fields
    }

    /// Feeds one byte of subprocess output to the state machine.
    pub fn push_byte(&mut self, b: u8)
        ensures
            final(self)@ == step(old(self)@, b),
    {
        if self.in_body {
            return ;
        }
        if b == 10u8 {
            let ghost l0 = self.line@;
            if self.line.len() > 0 && self.line[self.line.len() - 1] == 13u8 {
                self.line.pop();
                proof {
                    assert(self.line@ =~= strip_cr(l0));
                }
            }
            proof {
                assert(self.line@ == strip_cr(l0));
            }
            if self.line.len() == 0 {
                self.in_body = true;
                proof {
                    assert(self.line@ =~= Seq::<u8>::empty());
                }
                return ;
            }
            let ghost l = self.line@;
            let sep = self.find_sep();
            match sep {
                Some(i) => {
                    let name = bytes_range(&self.line, 0, i);
                    let value = bytes_range(&self.line, i + 2, self.line.len());
                    proof {
                        assert(line_kv(l) == Some((name@, value@)));
                    }
                    upsert_field(&mut self.fields, name, value);
                },
                None => {
                },
            }
            self.line.clear();
            proof {
                assert(self@.line =~= step(old(self)@, b).line);
            }
        } else {
            self.line.push(b);
        }
    }

    /// Finds the first `": "` in the accumulated line.
    #[verifier::rlimit(30)]
    fn find_sep(&self) -> (r: Option<usize>)
        ensures
            match r {
                Some(i) => i + 2 <= self.line@.len() && sep_at(self.line@, i as int) && first_sep(
                    self.line@,
                ) == i as int && has_sep(self.line@),
                None => !has_sep(self.line@),
            },
    {
        let l = &self.line;
        if l.len() < 2 {
            proof {
                assert(forall|i: int| !sep_at(l@, i));
            }
            return None;
        }
        let end = l.len() - 1;
        let mut i: usize = 0;
        while i < end
            invariant
                l@ == self.line@,
                l@.len() >= 2,
                end == l@.len() - 1,
                i <= end,
                forall|j: int| 0 <= j < i ==> !sep_at(l@, j),
            decreases end - i,
        {
            if l[i] == 58u8 && l[i + 1] == 32u8 {
                proof {
                    assert(sep_at(l@, i as int));
                    lemma_first_sep_is(l@, i as int);
                }
                return Some(i);
            }
            proof {
                assert(!sep_at(l@, i as int));
            }
            i = i + 1;
        }
        proof {
            assert(forall|j: int| sep_at(l@, j) ==> 0 <= j < i);
            assert(!has_sep(l@));
        }
        None
    }

    /// Feeds a chunk of subprocess output, stopping right after the byte
    /// that ends the header block. Returns how many bytes were consumed;
    /// the rest of the chunk is response body.
    pub fn feed(&mut self, chunk: &[u8]) -> (n: usize)
        ensures
            n <= chunk@.len(),
            final(self)@ == run_from(old(self)@, chunk@.take(n as int)),
            forall|i: int| 0 <= i < n ==> !run_from(old(self)@, chunk@.take(i)).in_body,
            n < chunk@.len() ==> final(self)@.in_body,
    {
        let mut j: usize = 0;
        proof {
            assert(chunk@.take(0) =~= Seq::<u8>::empty());
        }
        while j < chunk.len() && !self.in_body
            invariant
                j <= chunk@.len(),
                self@ == run_from(old(self)@, chunk@.take(j as int)),
                forall|i: int| 0 <= i < j ==> !run_from(old(self)@, chunk@.take(i)).in_body,
            decreases chunk@.len() - j,
        {
            let ghost pre = chunk@.take(j as int);
            self.push_byte(chunk[j]);
            proof {
                assert(chunk@.take(j + 1 as int) =~= pre.push(chunk@[j as int]));
                lemma_run_snoc(old(self)@, pre, chunk@[j as int]);
            }
            j = j + 1;
        }
        j
    }
}

/// Parses a complete captured output: on success, the field list and the
/// number of bytes the header block took up; the rest of `input` is the
/// body. Fails when the output ends before the empty line that closes the
/// block.
pub fn parse_header_block(input: &[u8]) -> (r: Result<(Vec<HeaderField>, usize), CgiFailure>)
    ensures
        match r {
            Ok((fs, n)) => {
                &&& n <= input@.len()
                &&& run(input@).in_body
                &&& run(input@.take(n as int)).in_body
                &&& fields_model(fs@) == run(input@.take(n as int)).fields
                &&& forall|i: int| 0 <= i < n ==> !run(input@.take(i)).in_body
            },
            Err(e) => e == CgiFailure::TruncatedHeader && !run(input@).in_body,
        },
{
    let mut p = CgiHeaderParser::new();
    let n = p.feed(input);
    if p.header_block_done() {
        proof {
            assert(input@.take(n as int) + input@.skip(n as int) =~= input@);
            lemma_run_from_concat(init_state(), input@.take(n as int), input@.skip(n as int));
            lemma_body_is_absorbing(run(input@.take(n as int)), input@.skip(n as int));
        }
        Ok((p.into_fields(), n))
    } else {
        proof {
            assert(input@.take(input@.len() as int) =~= input@);
        }
        Err(CgiFailure::TruncatedHeader)
    }
}

/// Feeding splits: the state after `a + b` is the state after `a`, fed `b`.
pub proof fn lemma_run_from_concat(st: ParseState, a: Seq<u8>, b: Seq<u8>)
    ensures
        run_from(st, a + b) == run_from(run_from(st, a), b),
    decreases b.len(),
{
    if b.len() == 0 {
        assert(a + b =~= a);
    } else {
        lemma_run_from_concat(st, a, b.drop_last());
        assert((a + b).drop_last() =~= a + b.drop_last());
        assert((a + b).len() > 0 && (a + b).last() == b.last());
    }
}

/// The body phase is absorbing: once the header block has ended, no byte
/// changes the parse again.
pub proof fn lemma_body_is_absorbing(st: ParseState, bytes: Seq<u8>)
    requires
        st.in_body,
    ensures
        run_from(st, bytes) == st,
    decreases bytes.len(),
{
    if bytes.len() > 0 {
        lemma_body_is_absorbing(st, bytes.drop_last());
    }
}

/// A line without the `": "` separator is skipped: it leaves the parsed
/// fields exactly as they were.
pub proof fn lemma_malformed_line_skipped(hs: Seq<(Seq<u8>, Seq<u8>)>, l: Seq<u8>)
    requires
        !has_sep(l),
    ensures
        apply_line(hs, l) == hs,
{
}

/// Feeding bytes that contain no newline only accumulates them onto the
/// current line: the parser stays in the header phase and no field changes.
pub proof fn lemma_accumulates_without_newline(st: ParseState, bytes: Seq<u8>)
    requires
        !st.in_body,
        forall|i: int| 0 <= i < bytes.len() ==> bytes[i] != 10u8,
    ensures
        run_from(st, bytes) == (ParseState {
            in_body: false,
            line: st.line + bytes,
            fields: st.fields,
        }),
    decreases bytes.len(),
{
    if bytes.len() == 0 {
        assert(st.line + bytes =~= st.line);
    } else {
        lemma_accumulates_without_newline(st, bytes.drop_last());
        assert(st.line + bytes.drop_last() =~= (st.line + bytes).drop_last());
        assert((st.line + bytes.drop_last()).push(bytes.last()) =~= st.line + bytes);
    }
}

/// Tolerant parsing, stated of whole lines: feeding one complete line that
/// is malformed (no `": "` separator, not the empty terminator) and its
/// newline leaves the parser still reading headers, with the field list
/// unchanged — a malformed line never aborts the block.
pub proof fn lemma_malformed_line_is_recovered(st: ParseState, l: Seq<u8>)
    requires
        !st.in_body,
        st.line.len() == 0,
        forall|i: int| 0 <= i < l.len() ==> l[i] != 10u8,
        strip_cr(l).len() > 0,
        !has_sep(strip_cr(l)),
    ensures
        run_from(st, l.push(10u8)) == (ParseState {
            in_body: false,
            line: Seq::empty(),
            fields: st.fields,
        }),
{
    lemma_accumulates_without_newline(st, l);
    lemma_run_snoc(st, l, 10u8);
    assert(st.line + l =~= l);
    lemma_malformed_line_skipped(st.fields, strip_cr(l));
    assert(run_from(st, l.push(10u8)).line =~= Seq::<u8>::empty());
}


/// Feeding one complete well-formed line (it has the `": "` separator once
/// a trailing carriage return is stripped) and its newline inserts the
/// line's name and value last-wins and leaves the parser reading headers.
pub proof fn lemma_wellformed_line_is_inserted(st: ParseState, l: Seq<u8>)
    requires
        !st.in_body,
        st.line.len() == 0,
        forall|i: int| 0 <= i < l.len() ==> l[i] != 10u8,
        has_sep(strip_cr(l)),
    ensures
        strip_cr(l).len() > 0,
        line_kv(strip_cr(l)) is Some,
        run_from(st, l.push(10u8)) == (ParseState {
            in_body: false,
            line: Seq::empty(),
            fields: upsert(
                st.fields,
                line_kv(strip_cr(l)).unwrap().0,
                line_kv(strip_cr(l)).unwrap().1,
            ),
        }),
{
    let s = strip_cr(l);
    let w = choose|i: int| sep_at(s, i);
    assert(s.len() >= 2);
    lemma_accumulates_without_newline(st, l);
    lemma_run_snoc(st, l, 10u8);
    assert(st.line + l =~= l);
    assert(run_from(st, l.push(10u8)).line =~= Seq::<u8>::empty());
}

/// An empty line — bare or with a carriage return — ends the header block:
/// the parser moves to the body phase with its fields as they were.
pub proof fn lemma_blank_line_ends_block(st: ParseState, l: Seq<u8>)
    requires
        !st.in_body,
        st.line.len() == 0,
        strip_cr(l).len() == 0,
        forall|i: int| 0 <= i < l.len() ==> l[i] != 10u8,
    ensures
        run_from(st, l.push(10u8)) == (ParseState {
            in_body: true,
            line: Seq::empty(),
            fields: st.fields,
        }),
{
    lemma_accumulates_without_newline(st, l);
    lemma_run_snoc(st, l, 10u8);
    assert(st.line + l =~= l);
    assert(run_from(st, l.push(10u8)).line =~= Seq::<u8>::empty());
}

/// No two fields of `hs` share a name.
pub open spec fn names_unique(hs: Seq<(Seq<u8>, Seq<u8>)>) -> bool {
    forall|i: int, j: int| 0 <= i < j < hs.len() ==> hs[i].0 != hs[j].0
}

/// Last-wins insertion keeps names unique, provided the name is absent
/// before the scan position.
proof fn lemma_upsert_from_names_unique(
    hs: Seq<(Seq<u8>, Seq<u8>)>,
    k: Seq<u8>,
    v: Seq<u8>,
    i: int,
)
    requires
        0 <= i,
        names_unique(hs),
        forall|j: int| 0 <= j < i && j < hs.len() ==> hs[j].0 != k,
    ensures
        names_unique(upsert_from(hs, k, v, i)),
    decreases hs.len() - i,
{
    if i < 0 || i >= hs.len() {
        let r = hs.push((k, v));
        assert forall|a: int, b: int| 0 <= a < b < r.len() implies r[a].0 != r[b].0 by {
            if b < hs.len() {
            } else {
                assert(r[b] == (k, v));
                assert(hs[a].0 != k);
            }
        }
    } else if hs[i].0 == k {
        let r = hs.update(i, (k, v));
        assert forall|a: int, b: int| 0 <= a < b < r.len() implies r[a].0 != r[b].0 by {
            assert(hs[a].0 == r[a].0 && hs[b].0 == r[b].0);
        }
    } else {
        lemma_upsert_from_names_unique(hs, k, v, i + 1);
    }
}

/// One step of the state machine keeps names unique.
proof fn lemma_step_names_unique(st: ParseState, b: u8)
    requires
        names_unique(st.fields),
    ensures
        names_unique(step(st, b).fields),
{
    if !st.in_body && b == 10u8 {
        let l = strip_cr(st.line);
        if l.len() > 0 {
            match line_kv(l) {
                Some(kv) => {
                    lemma_upsert_from_names_unique(st.fields, kv.0, kv.1, 0);
                },
                None => {},
            }
        }
    }
}

/// The header block is a mapping, not a multimap: whatever bytes the
/// subprocess writes, the parsed field list never holds two fields of the
/// same name — a repeated name has replaced the earlier value instead.
pub proof fn lemma_parsed_names_unique(bytes: Seq<u8>)
    ensures
        names_unique(run(bytes).fields),
    decreases bytes.len(),
{
    if bytes.len() == 0 {
    } else {
        lemma_parsed_names_unique(bytes.drop_last());
        lemma_step_names_unique(run(bytes.drop_last()), bytes.last());
    }
}

} // verus!
