//! A structured document as plain values, read from TOML text.

use vstd::prelude::*;
use vstd::string::StringSliceAdditionalSpecFns;

verus! {

/// A value of a structured document. Values that the manifest schema never
/// reads (floats, dates) are `Other`.
#[derive(Debug)]
pub enum Doc {
    Str(String),
    Int(i64),
    Bool(bool),
    Array(Vec<Doc>),
    Table(Vec<(String, Doc)>),
    Other,
}

/// The value of the first entry of `es` under `key`.
pub open spec fn lookup(es: Seq<(String, Doc)>, key: Seq<char>) -> Option<Doc>
    decreases es.len(),
{
    if es.len() == 0 {
        None
    } else {
        match lookup(es.drop_last(), key) {
            Some(d) => Some(d),
            None => if es.last().0@ == key {
                Some(es.last().1)
            } else {
                None
            },
        }
    }
}

/// The field `key` of a table; nothing for any other value.
pub open spec fn field(d: Doc, key: Seq<char>) -> Option<Doc> {
    match d {
        Doc::Table(es) => lookup(es@, key),
        _ => None,
    }
}

/// The text of a string value.
pub open spec fn as_text(d: Option<Doc>) -> Option<Seq<char>> {
    match d {
        Some(Doc::Str(s)) => Some(s@),
        _ => None,
    }
}

/// Whether two strings hold the same characters.
pub fn str_eq(a: &str, b: &str) -> (r: bool)
    ensures
        r == (a@ == b@),
{
    let n = a.unicode_len();
    if n != b.unicode_len() {
        return false;
    }
    let mut i: usize = 0;
    while i < n
        invariant
            n == a@.len(),
            n == b@.len(),
            i <= n,
            a@.subrange(0, i as int) == b@.subrange(0, i as int),
        decreases n - i,
    {
        if a.get_char(i) != b.get_char(i) {
            return false;
        }
        assert(a@.subrange(0, i + 1) =~= a@.subrange(0, i as int).push(a@[i as int]));
        assert(b@.subrange(0, i + 1) =~= b@.subrange(0, i as int).push(b@[i as int]));
        i = i + 1;
    }
    assert(a@ =~= a@.subrange(0, n as int));
    assert(b@ =~= b@.subrange(0, n as int));
    true
}

/// The field `key` of `d`, if `d` is a table that has it.
pub fn get_field<'a>(d: &'a Doc, key: &str) -> (r: Option<&'a Doc>)
    ensures
        match r {
            Some(x) => field(*d, key@) == Some(*x),
            None => field(*d, key@) is None,
        },
{
    match d {
        Doc::Table(es) => {
            let mut i: usize = 0;
            while i < es.len()
                invariant
                    i <= es@.len(),
                    *d == Doc::Table(*es),
                    lookup(es@.subrange(0, i as int), key@) is None,
                decreases es.len() - i,
            {
                assert(es@.subrange(0, i + 1).drop_last() =~= es@.subrange(0, i as int));
                if str_eq(es[i].0.as_str(), key) {
                    assert(es@.subrange(0, i + 1).last() == es@[i as int]);
                    assert(lookup(es@.subrange(0, i + 1), key@) == Some(es@[i as int].1));
                    proof {
                        lemma_lookup_prefix(es@, (i + 1) as int, key@);
                    }
                    return Some(&es[i].1);
                }
                i = i + 1;
            }
            assert(es@.subrange(0, es@.len() as int) =~= es@);
            None
        },
        _ => None,
    }
}

/// A match in a prefix is the match of the whole sequence.
proof fn lemma_lookup_prefix(es: Seq<(String, Doc)>, n: int, key: Seq<char>)
    requires
        0 <= n <= es.len(),
        lookup(es.subrange(0, n), key) is Some,
    ensures
        lookup(es, key) == lookup(es.subrange(0, n), key),
    decreases es.len() - n,
{
    if n < es.len() {
        assert(es.subrange(0, n + 1).drop_last() =~= es.subrange(0, n));
        lemma_lookup_prefix(es, n + 1, key);
    } else {
        assert(es.subrange(0, n) =~= es);
    }
}

/// The text of the string field `key` of `d`.
pub fn get_text(d: &Doc, key: &str) -> (r: Option<String>)
    ensures
        match r {
            Some(s) => as_text(field(*d, key@)) == Some(s@),
            None => as_text(field(*d, key@)) is None,
        },
{
    match get_field(d, key) {
        Some(Doc::Str(s)) => Some(s.clone()),
        _ => None,
    }
}

/// Whether the TOML parser of the `toml` crate accepts the text.
pub uninterp spec fn toml_accepts(text: Seq<char>) -> bool;

/// The document that the TOML parser of the `toml` crate reads from the text.
pub uninterp spec fn toml_doc(text: Seq<char>) -> Doc;

/// The deepest nesting that a text may have to be parsed. The parser, and
/// what reads its result, recurse once per level.
pub const MAX_NESTING_DEPTH: usize = 256;

/// The state of a scan over TOML text: the lexical mode (0 structure,
/// 1 comment, 2 basic string, 3 literal string, 4 multi-line basic string,
/// 5 multi-line literal string), the open brackets and braces, the dots of
/// the current line, the most dots of an earlier line (a table header's
/// segments stand there), and the deepest nesting seen.
pub struct Scan {
    pub mode: nat,
    pub depth: nat,
    pub line: nat,
    pub prev: nat,
    pub max: nat,
}

/// The byte at `i`, or 0 past either end.
pub open spec fn byte_at(s: Seq<u8>, i: int) -> u8 {
    if 0 <= i < s.len() {
        s[i]
    } else {
        0
    }
}

/// The position `j`, or the end of `s` when `j` is past it.
pub open spec fn capped(s: Seq<u8>, j: int) -> int {
    if j > s.len() {
        s.len() as int
    } else {
        j
    }
}

/// The nesting at the current position: open brackets and braces, plus the
/// segments of the current dotted key and of the last table header.
pub open spec fn measure(st: Scan) -> nat {
    st.depth + st.line + st.prev
}

/// `st`, having seen its current nesting.
pub open spec fn seen(st: Scan) -> Scan {
    Scan {
        max: if measure(st) > st.max {
            measure(st)
        } else {
            st.max
        },
        ..st
    }
}

/// `st` in structure mode at the end of a line: a line outside any bracket
/// ends its dotted key.
pub open spec fn line_end(st: Scan) -> Scan {
    if st.depth == 0 {
        Scan {
            mode: 0,
            prev: if st.line > st.prev {
                st.line
            } else {
                st.prev
            },
            line: 0,
            ..st
        }
    } else {
        Scan { mode: 0, ..st }
    }
}

/// Where a multi-line string closed by the delimiter `d` at `i` ends: the
/// three delimiters and up to two more, which belong to the string.
pub open spec fn close_end(s: Seq<u8>, i: int, d: u8) -> int {
    capped(
        s,
        if byte_at(s, i + 3) == d {
            if byte_at(s, i + 4) == d {
                i + 5
            } else {
                i + 4
            }
        } else {
            i + 3
        },
    )
}

/// Three delimiters `d` start at `i`.
pub open spec fn triple(s: Seq<u8>, i: int, d: u8) -> bool {
    byte_at(s, i) == d && byte_at(s, i + 1) == d && byte_at(s, i + 2) == d
}

/// One step of the scan at `i`: the next state and position.
pub open spec fn scan_step(s: Seq<u8>, i: int, st: Scan) -> (Scan, int) {
    let b = byte_at(s, i);
    if st.mode == 0 {
        if b == 35u8 {
            (Scan { mode: 1, ..st }, i + 1)
        } else if b == 34u8 || b == 39u8 {
            if triple(s, i, b) {
                (Scan { mode: if b == 34u8 { 4 } else { 5 }, ..st }, capped(s, i + 3))
            } else {
                (Scan { mode: if b == 34u8 { 2 } else { 3 }, ..st }, i + 1)
            }
        } else if b == 91u8 || b == 123u8 {
            (seen(Scan { depth: st.depth + 1, ..st }), i + 1)
        } else if b == 93u8 || b == 125u8 {
            (Scan { depth: if st.depth > 0 { (st.depth - 1) as nat } else { 0 }, ..st }, i + 1)
        } else if b == 46u8 {
            (seen(Scan { line: st.line + 1, ..st }), i + 1)
        } else if b == 10u8 {
            (line_end(st), i + 1)
        } else {
            (st, i + 1)
        }
    } else if st.mode == 1 {
        if b == 10u8 {
            (line_end(st), i + 1)
        } else if b < 32u8 && b != 9u8 {
            (Scan { mode: 0, ..st }, i + 1)
        } else {
            (st, i + 1)
        }
    } else if st.mode == 2 || st.mode == 3 {
        let d: u8 = if st.mode == 2 { 34u8 } else { 39u8 };
        if st.mode == 2 && b == 92u8 {
            (st, capped(s, i + 2))
        } else if b == d {
            (Scan { mode: 0, ..st }, i + 1)
        } else if b == 10u8 {
            (line_end(st), i + 1)
        } else {
            (st, i + 1)
        }
    } else {
        let d: u8 = if st.mode == 4 { 34u8 } else { 39u8 };
        if st.mode == 4 && b == 92u8 {
            (st, capped(s, i + 2))
        } else if triple(s, i, d) {
            (Scan { mode: 0, ..st }, close_end(s, i, d))
        } else {
            (st, i + 1)
        }
    }
}

/// The deepest nesting of `s` from `i` on, the scan being in state `st`.
pub open spec fn scan_max(s: Seq<u8>, i: int, st: Scan) -> nat
    decreases s.len() - i,
{
    if i < 0 || i >= s.len() {
        st.max
    } else {
        let (next, j) = scan_step(s, i, st);
        if j <= i {
            next.max
        } else {
            scan_max(s, j, next)
        }
    }
}

/// The deepest nesting of a TOML text: brackets and braces open at a
/// position plus the segments of the dotted key and table header in force
/// there, counting no byte of a string or a comment.
pub open spec fn nesting_depth(s: Seq<u8>) -> nat {
    scan_max(s, 0, Scan { mode: 0, depth: 0, line: 0, prev: 0, max: 0 })
}

/// The text nests within the bound that the parser is given.
pub open spec fn nesting_ok(bs: Seq<u8>) -> bool {
    nesting_depth(bs) <= MAX_NESTING_DEPTH
}

/// The scan state as machine integers.
pub struct ScanState {
    pub mode: u8,
    pub depth: usize,
    pub line: usize,
    pub prev: usize,
    pub max: usize,
}

impl View for ScanState {
    type V = Scan;

    open spec fn view(&self) -> Scan {
        Scan {
            mode: self.mode as nat,
            depth: self.depth as nat,
            line: self.line as nat,
            prev: self.prev as nat,
            max: self.max as nat,
        }
    }
}

fn byte(s: &[u8], i: usize) -> (r: u8)
    ensures
        r == byte_at(s@, i as int),
{
    if i < s.len() {
        s[i]
    } else {
        0
    }
}

fn cap(s: &[u8], i: usize, k: usize) -> (r: usize)
    requires
        i <= s@.len(),
        k <= 5,
    ensures
        r == capped(s@, i + k),
{
    if s.len() - i >= k {
        i + k
    } else {
        s.len()
    }
}

fn scan_step_exec(s: &[u8], i: usize, st: ScanState) -> (r: (ScanState, usize))
    requires
        i < s@.len(),
        st.mode <= 5,
        measure(st@) <= st.max,
        st.max <= MAX_NESTING_DEPTH,
    ensures
        r.0@ == scan_step(s@, i as int, st@).0,
        r.1 == scan_step(s@, i as int, st@).1,
        r.0.mode <= 5,
        measure(r.0@) <= r.0.max,
        r.0.max >= st.max,
        r.0.max <= MAX_NESTING_DEPTH + 1,
{
    let b = s[i];
    let ScanState { mode, depth, line, prev, max } = st;
    if mode == 0 {
        if b == 35u8 {
            (ScanState { mode: 1, depth, line, prev, max }, i + 1)
        } else if b == 34u8 || b == 39u8 {
            if byte(s, i + 1) == b && byte(s, i + 2) == b {
                (ScanState { mode: if b == 34u8 { 4 } else { 5 }, depth, line, prev, max }, cap(s, i, 3))
            } else {
                (ScanState { mode: if b == 34u8 { 2 } else { 3 }, depth, line, prev, max }, i + 1)
            }
        } else if b == 91u8 || b == 123u8 {
            let m = depth + 1 + line + prev;
            (ScanState { mode, depth: depth + 1, line, prev, max: if m > max { m } else { max } }, i + 1)
        } else if b == 93u8 || b == 125u8 {
            (ScanState { mode, depth: if depth > 0 { depth - 1 } else { 0 }, line, prev, max }, i + 1)
        } else if b == 46u8 {
            let m = depth + line + 1 + prev;
            (ScanState { mode, depth, line: line + 1, prev, max: if m > max { m } else { max } }, i + 1)
        } else if b == 10u8 {
            (end_line(ScanState { mode, depth, line, prev, max }), i + 1)
        } else {
            (ScanState { mode, depth, line, prev, max }, i + 1)
        }
    } else if mode == 1 {
        if b == 10u8 {
            (end_line(ScanState { mode, depth, line, prev, max }), i + 1)
        } else if b < 32u8 && b != 9u8 {
            (ScanState { mode: 0, depth, line, prev, max }, i + 1)
        } else {
            (ScanState { mode, depth, line, prev, max }, i + 1)
        }
    } else if mode == 2 || mode == 3 {
        let d: u8 = if mode == 2 { 34u8 } else { 39u8 };
        if mode == 2 && b == 92u8 {
            (ScanState { mode, depth, line, prev, max }, cap(s, i, 2))
        } else if b == d {
            (ScanState { mode: 0, depth, line, prev, max }, i + 1)
        } else if b == 10u8 {
            (end_line(ScanState { mode, depth, line, prev, max }), i + 1)
        } else {
            (ScanState { mode, depth, line, prev, max }, i + 1)
        }
    } else {
        let d: u8 = if mode == 4 { 34u8 } else { 39u8 };
        if mode == 4 && b == 92u8 {
            (ScanState { mode, depth, line, prev, max }, cap(s, i, 2))
        } else if b == d && byte(s, i + 1) == d && byte(s, i + 2) == d {
            let j = if byte(s, i + 3) == d {
                if byte(s, i + 4) == d {
                    cap(s, i, 5)
                } else {
                    cap(s, i, 4)
                }
            } else {
                cap(s, i, 3)
            };
            (ScanState { mode: 0, depth, line, prev, max }, j)
        } else {
            (ScanState { mode, depth, line, prev, max }, i + 1)
        }
    }
}

fn end_line(st: ScanState) -> (r: ScanState)
    ensures
        r@ == line_end(st@),
        r.max == st.max,
{
    if st.depth == 0 {
        ScanState {
            mode: 0,
            depth: st.depth,
            line: 0,
            prev: if st.line > st.prev { st.line } else { st.prev },
            max: st.max,
        }
    } else {
        ScanState { mode: 0, ..st }
    }
}

proof fn lemma_scan_max_grows(s: Seq<u8>, i: int, st: Scan)
    ensures
        scan_max(s, i, st) >= st.max,
    decreases s.len() - i,
{
    if 0 <= i < s.len() {
        let (next, j) = scan_step(s, i, st);
        if j > i {
            lemma_scan_max_grows(s, j, next);
        }
    }
}

/// Whether the text nests within the bound that the parser is given.
pub fn nesting_within_bound(text: &str) -> (r: bool)
    ensures
        r == nesting_ok(text.spec_bytes()),
{
    let bs = text.as_bytes();
    let mut i: usize = 0;
    let mut st = ScanState { mode: 0, depth: 0, line: 0, prev: 0, max: 0 };
    while i < bs.len()
        invariant
            i <= bs@.len(),
            bs@ == text.spec_bytes(),
            st.mode <= 5,
            measure(st@) <= st.max,
            st.max <= MAX_NESTING_DEPTH,
            scan_max(bs@, i as int, st@) == nesting_depth(bs@),
        decreases bs.len() - i,
    {
        let ghost before = st@;
        let (next, j) = scan_step_exec(bs, i, st);
        assert(j > i);
        if next.max > MAX_NESTING_DEPTH {
            proof {
                lemma_scan_max_grows(bs@, j as int, next@);
            }
            return false;
        }
        st = next;
        i = j;
    }
    true
}

#[verifier::external_type_specification]
#[verifier::external_body]
pub struct ExTomlValue(toml::Value);

/// Relies on `toml::from_str` into a `toml::Value`: it succeeds exactly on the
/// texts that the parser accepts, and the value depends on the text alone; its
/// error comes back as its message. The parser recurses once per nesting
/// level, so the text's nesting is bounded.
#[verifier::external_body]
fn parse_toml(text: &str) -> (r: Result<Doc, String>)
    requires
        nesting_ok(text.spec_bytes()),
    ensures
        r is Ok == toml_accepts(text@),
        r matches Ok(d) ==> d == toml_doc(text@),
{
    toml::from_str::<toml::Value>(text).map(doc_of_toml).map_err(|e| e.to_string())
}

/// Relies on the variants of `toml::Value`: each becomes the document value
/// of the same kind; floats and dates become `Other`.
#[verifier::external_body]
fn doc_of_toml(v: toml::Value) -> Doc {
    match v {
        toml::Value::String(s) => Doc::Str(s),
        toml::Value::Integer(n) => Doc::Int(n),
        toml::Value::Boolean(b) => Doc::Bool(b),
        toml::Value::Array(a) => Doc::Array(a.into_iter().map(doc_of_toml).collect()),
        toml::Value::Table(t) => Doc::Table(t.into_iter().map(|(k, x)| (k, doc_of_toml(x))).collect()),
        _ => Doc::Other,
    }
}

/// The text is within the nesting bound and is TOML.
pub open spec fn doc_parses(text: &str) -> bool {
    nesting_ok(text.spec_bytes()) && toml_accepts(text@)
}

/// The message for text that nests too deeply.
pub fn nesting_message() -> (r: String) {
    String::from_str("the document nests too deeply")
}

/// Parses TOML text into a document. Text that nests deeper than the bound
/// fails with `None`; otherwise the parse fails exactly when the text is not
/// TOML, with the parser's message, and gives the text's document.
pub fn parse_document(text: &str) -> (r: Result<Doc, Option<String>>)
    ensures
        !nesting_ok(text.spec_bytes()) ==> r == Err::<Doc, Option<String>>(None),
        nesting_ok(text.spec_bytes()) ==> (r is Ok == toml_accepts(text@)),
        nesting_ok(text.spec_bytes()) ==> (r matches Err(e) ==> e is Some),
        r matches Ok(d) ==> d == toml_doc(text@),
{
    if !nesting_within_bound(text) {
        return Err(None);
    }
    match parse_toml(text) {
        Ok(d) => Ok(d),
        Err(m) => Err(Some(m)),
    }
}

} // verus!
