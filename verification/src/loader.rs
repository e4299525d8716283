//! Loading tile definitions from their text asset format.
//!
//! The format is a list of records in parenthesized field syntax:
//!
//! ```text
//! [
//!     (id: 1, perimeter: [4, 5, 6, 7], name: "floor"),
//!     (id: 2, perimeter: [], name: "empty"),
//! ]
//! ```
//!
//! Whitespace is free between tokens; a trailing comma is allowed after the
//! last list item and after the last field; ids and perimeter entries are
//! decimal numbers up to 255; a name is any run of bytes other than a
//! double quote. The parser is total: it either returns the definitions or
//! a [`ParseError`], exactly as the grammar decides.

use vstd::prelude::*;
use crate::tile_definitions::{TileDefinition, TileDefinitions};

verus! {

/// A parse failure: the bytes do not match the definitions format.
#[derive(Clone, Copy, Debug, PartialEq, Eq, Structural)]
pub struct ParseError;

/// The byte values the grammar is written over.
pub const B_SPACE: u8 = 32;

pub const B_TAB: u8 = 9;

pub const B_CR: u8 = 13;

pub const B_LF: u8 = 10;

pub const B_QUOTE: u8 = 34;

pub const B_LPAREN: u8 = 40;

pub const B_RPAREN: u8 = 41;

pub const B_COMMA: u8 = 44;

pub const B_COLON: u8 = 58;

pub const B_LBRACKET: u8 = 91;

pub const B_RBRACKET: u8 = 93;

pub const B_ZERO: u8 = 48;

pub const B_NINE: u8 = 57;

/// A parsed definition record, at the specification level.
pub ghost struct DefRecord {
    pub id: u8,
    pub perimeter: Seq<u8>,
    pub name: Seq<u8>,
}

/// A definition value agrees with a parsed record.
pub open spec fn spec_def_matches(d: TileDefinition, r: DefRecord) -> bool {
    &&& d.id == r.id
    &&& d.perimeter@ == r.perimeter
    &&& d.name@ == r.name
}

pub open spec fn spec_is_ws(c: u8) -> bool {
    c == B_SPACE || c == B_TAB || c == B_CR || c == B_LF
}

pub open spec fn spec_is_digit(c: u8) -> bool {
    B_ZERO <= c <= B_NINE
}

/// The first position at or after `i` holding a non-whitespace byte, or the
/// end of input.
pub open spec fn spec_skip_ws(s: Seq<u8>, i: int) -> int
    decreases s.len() - i,
{
    if i < 0 || i >= s.len() {
        i
    } else if spec_is_ws(s[i]) {
        spec_skip_ws(s, i + 1)
    } else {
        i
    }
}

/// The first position at or after `i` holding a non-digit byte, or the end
/// of input.
pub open spec fn spec_scan_digits(s: Seq<u8>, i: int) -> int
    decreases s.len() - i,
{
    if i < 0 || i >= s.len() {
        i
    } else if spec_is_digit(s[i]) {
        spec_scan_digits(s, i + 1)
    } else {
        i
    }
}

/// The first position at or after `i` holding a double quote, or the end of
/// input.
pub open spec fn spec_scan_name(s: Seq<u8>, i: int) -> int
    decreases s.len() - i,
{
    if i < 0 || i >= s.len() {
        i
    } else if s[i] != B_QUOTE {
        spec_scan_name(s, i + 1)
    } else {
        i
    }
}

/// The decimal value of the digits `s[i..j)`.
pub open spec fn spec_digits_val(s: Seq<u8>, i: int, j: int) -> int
    decreases j - i,
{
    if j <= i {
        0
    } else {
        spec_digits_val(s, i, j - 1) * 10 + (s[j - 1] - B_ZERO)
    }
}

/// A decimal number at `i` (no leading whitespace): its `u8` value and the
/// position after its digits. `None` without a digit at `i` or when the
/// value exceeds 255.
pub open spec fn spec_parse_num(s: Seq<u8>, i: int) -> Option<(u8, int)> {
    let j = spec_scan_digits(s, i);
    if j == i {
        None
    } else if spec_digits_val(s, i, j) > 255 {
        None
    } else {
        Some((spec_digits_val(s, i, j) as u8, j))
    }
}

/// A quoted name at `i` (no leading whitespace): its bytes and the position
/// after the closing quote.
pub open spec fn spec_parse_name(s: Seq<u8>, i: int) -> Option<(Seq<u8>, int)> {
    if 0 <= i < s.len() && s[i] == B_QUOTE {
        let j = spec_scan_name(s, i + 1);
        if j < s.len() {
            Some((s.subrange(i + 1, j), j + 1))
        } else {
            None
        }
    } else {
        None
    }
}

/// Skips whitespace and demands the single byte `c`; the position after it.
pub open spec fn spec_expect(s: Seq<u8>, i: int, c: u8) -> Option<int> {
    let k = spec_skip_ws(s, i);
    if k < s.len() && s[k] == c {
        Some(k + 1)
    } else {
        None
    }
}

/// Skips whitespace and demands the exact keyword `kw`; the position after
/// it.
pub open spec fn spec_expect_kw(s: Seq<u8>, i: int, kw: Seq<u8>) -> Option<int> {
    let k = spec_skip_ws(s, i);
    if k >= 0 && k + kw.len() <= s.len() && s.subrange(k, k + kw.len() as int) == kw {
        Some(k + kw.len() as int)
    } else {
        None
    }
}

pub open spec fn spec_kw_id() -> Seq<u8> {
    seq![105u8, 100u8]
}

pub open spec fn spec_kw_perimeter() -> Seq<u8> {
    seq![112u8, 101u8, 114u8, 105u8, 109u8, 101u8, 116u8, 101u8, 114u8]
}

pub open spec fn spec_kw_name() -> Seq<u8> {
    seq![110u8, 97u8, 109u8, 101u8]
}

/// Scanning cannot move backwards nor beyond the end of the input.
pub proof fn lemma_skip_ws_bounds(s: Seq<u8>, i: int)
    requires
        0 <= i <= s.len(),
    ensures
        i <= spec_skip_ws(s, i) <= s.len(),
    decreases s.len() - i,
{
    if i < s.len() && spec_is_ws(s[i]) {
        lemma_skip_ws_bounds(s, i + 1);
    }
}

pub proof fn lemma_scan_digits_bounds(s: Seq<u8>, i: int)
    requires
        0 <= i <= s.len(),
    ensures
        i <= spec_scan_digits(s, i) <= s.len(),
    decreases s.len() - i,
{
    if i < s.len() && spec_is_digit(s[i]) {
        lemma_scan_digits_bounds(s, i + 1);
    }
}

pub proof fn lemma_scan_name_bounds(s: Seq<u8>, i: int)
    requires
        0 <= i <= s.len(),
    ensures
        i <= spec_scan_name(s, i) <= s.len(),
    decreases s.len() - i,
{
    if i < s.len() && s[i] != B_QUOTE {
        lemma_scan_name_bounds(s, i + 1);
    }
}

/// A successful number parse moves the position strictly forward.
pub proof fn lemma_parse_num_advance(s: Seq<u8>, i: int)
    requires
        0 <= i <= s.len(),
    ensures
        spec_parse_num(s, i) matches Some(vj) ==> i < vj.1 <= s.len(),
{
    lemma_scan_digits_bounds(s, i);
}

/// A successful name parse moves the position strictly forward.
pub proof fn lemma_parse_name_advance(s: Seq<u8>, i: int)
    requires
        0 <= i <= s.len(),
    ensures
        spec_parse_name(s, i) matches Some(vj) ==> i < vj.1 <= s.len(),
{
    if 0 <= i < s.len() && s[i] == B_QUOTE {
        lemma_scan_name_bounds(s, i + 1);
    }
}

/// A successful expect moves the position strictly forward.
pub proof fn lemma_expect_advance(s: Seq<u8>, i: int, c: u8)
    requires
        0 <= i <= s.len(),
    ensures
        spec_expect(s, i, c) matches Some(j) ==> i < j <= s.len(),
{
    lemma_skip_ws_bounds(s, i);
}

/// A successful keyword match moves the position forward by at least the
/// keyword length.
pub proof fn lemma_expect_kw_advance(s: Seq<u8>, i: int, kw: Seq<u8>)
    requires
        0 <= i <= s.len(),
        kw.len() >= 1,
    ensures
        spec_expect_kw(s, i, kw) matches Some(j) ==> i < j <= s.len(),
{
    lemma_skip_ws_bounds(s, i);
}

/// The perimeter list after its opening bracket: parses numbers separated
/// by commas (a trailing comma is allowed) up to the closing bracket.
/// `acc` holds the values already read; the result appends to it and gives
/// the position after the closing bracket.
pub open spec fn spec_parse_numlist_items(s: Seq<u8>, i: int, acc: Seq<u8>) -> Option<
    (Seq<u8>, int),
>
    decreases s.len() - i,
    when 0 <= i <= s.len()
    via numlist_items_decreases
{
    let k = spec_skip_ws(s, i);
    if k >= s.len() {
        None
    } else if s[k] == B_RBRACKET {
        Some((acc, k + 1))
    } else {
        match spec_parse_num(s, k) {
            Option::None => None,
            Option::Some((v, j)) => {
                let l = spec_skip_ws(s, j);
                if l >= s.len() {
                    None
                } else if s[l] == B_COMMA {
                    spec_parse_numlist_items(s, l + 1, acc.push(v))
                } else if s[l] == B_RBRACKET {
                    Some((acc.push(v), l + 1))
                } else {
                    None
                }
            },
        }
    }
}

#[via_fn]
proof fn numlist_items_decreases(s: Seq<u8>, i: int, acc: Seq<u8>) {
    lemma_skip_ws_bounds(s, i);
    let k = spec_skip_ws(s, i);
    if k < s.len() && s[k] != B_RBRACKET {
        lemma_parse_num_advance(s, k);
        match spec_parse_num(s, k) {
            Option::None => {},
            Option::Some((v, j)) => {
                lemma_skip_ws_bounds(s, j);
            },
        }
    }
}

/// A perimeter list at `i`: skips whitespace, demands `[`, then the items.
pub open spec fn spec_parse_numlist(s: Seq<u8>, i: int) -> Option<(Seq<u8>, int)> {
    match spec_expect(s, i, B_LBRACKET) {
        Option::None => None,
        Option::Some(j) => spec_parse_numlist_items(s, j, Seq::<u8>::empty()),
    }
}

/// One record at `i` (no leading whitespace): `(` then the three fields in
/// order — `id`, `perimeter`, `name` — with an optional trailing comma,
/// then `)`.
pub open spec fn spec_parse_record(s: Seq<u8>, i: int) -> Option<(DefRecord, int)> {
    if !(0 <= i < s.len() && s[i] == B_LPAREN) {
        None
    } else {
        match spec_expect_kw(s, i + 1, spec_kw_id()) {
            Option::None => None,
            Option::Some(p1) => match spec_expect(s, p1, B_COLON) {
                Option::None => None,
                Option::Some(p2) => {
                    let p3 = spec_skip_ws(s, p2);
                    match spec_parse_num(s, p3) {
                        Option::None => None,
                        Option::Some((id, p4)) => match spec_expect(s, p4, B_COMMA) {
                            Option::None => None,
                            Option::Some(p5) => match spec_expect_kw(
                                s,
                                p5,
                                spec_kw_perimeter(),
                            ) {
                                Option::None => None,
                                Option::Some(p6) => match spec_expect(s, p6, B_COLON) {
                                    Option::None => None,
                                    Option::Some(p7) => match spec_parse_numlist(s, p7) {
                                        Option::None => None,
                                        Option::Some((per, p8)) => match spec_expect(s, p8, B_COMMA) {
                                            Option::None => None,
                                            Option::Some(p9) => match spec_expect_kw(
                                                s,
                                                p9,
                                                spec_kw_name(),
                                            ) {
                                                Option::None => None,
                                                Option::Some(p10) => match spec_expect(
                                                    s,
                                                    p10,
                                                    B_COLON,
                                                ) {
                                                    Option::None => None,
                                                    Option::Some(p11) => {
                                                        let p12 = spec_skip_ws(s, p11);
                                                        match spec_parse_name(s, p12) {
                                                            Option::None => None,
                                                            Option::Some((name, p13)) => {
                                                                let rec = DefRecord {
                                                                    id,
                                                                    perimeter: per,
                                                                    name,
                                                                };
                                                                match spec_expect(s, p13, B_COMMA) {
                                                                    Option::Some(p14) => match
                                                                    spec_expect(s, p14, B_RPAREN) {
                                                                        Option::None => None,
                                                                        Option::Some(p15) => Some(
                                                                            (rec, p15),
                                                                        ),
                                                                    },
                                                                    Option::None => match
                                                                    spec_expect(s, p13, B_RPAREN) {
                                                                        Option::None => None,
                                                                        Option::Some(p15) => Some(
                                                                            (rec, p15),
                                                                        ),
                                                                    },
                                                                }
                                                            },
                                                        }
                                                    },
                                                },
                                            },
                                        },
                                    },
                                },
                            },
                        },
                    }
                },
            },
        }
    }
}

/// A successful items parse moves the position strictly forward.
pub proof fn lemma_numlist_items_advance(s: Seq<u8>, i: int, acc: Seq<u8>)
    requires
        0 <= i <= s.len(),
    ensures
        spec_parse_numlist_items(s, i, acc) matches Some(pj) ==> i < pj.1 <= s.len(),
    decreases s.len() - i,
{
    lemma_skip_ws_bounds(s, i);
    let k = spec_skip_ws(s, i);
    if k < s.len() && s[k] != B_RBRACKET {
        lemma_parse_num_advance(s, k);
        match spec_parse_num(s, k) {
            Option::None => {},
            Option::Some((v, j)) => {
                lemma_skip_ws_bounds(s, j);
                let l = spec_skip_ws(s, j);
                if l < s.len() && s[l] == B_COMMA {
                    lemma_numlist_items_advance(s, l + 1, acc.push(v));
                }
            },
        }
    }
}

/// A successful perimeter-list parse moves the position strictly forward.
pub proof fn lemma_parse_numlist_advance(s: Seq<u8>, i: int)
    requires
        0 <= i <= s.len(),
    ensures
        spec_parse_numlist(s, i) matches Some(pj) ==> i < pj.1 <= s.len(),
{
    lemma_expect_advance(s, i, B_LBRACKET);
    match spec_expect(s, i, B_LBRACKET) {
        Option::None => {},
        Option::Some(j) => {
            lemma_numlist_items_advance(s, j, Seq::<u8>::empty());
        },
    }
}

/// A successful record parse moves the position strictly forward.
pub proof fn lemma_parse_record_advance(s: Seq<u8>, i: int)
    requires
        0 <= i <= s.len(),
    ensures
        spec_parse_record(s, i) matches Some(rj) ==> i < rj.1 <= s.len(),
{
    if 0 <= i < s.len() && s[i] == B_LPAREN {
        lemma_expect_kw_advance(s, i + 1, spec_kw_id());
        match spec_expect_kw(s, i + 1, spec_kw_id()) {
            Option::None => {},
            Option::Some(p1) => {
                lemma_expect_advance(s, p1, B_COLON);
                match spec_expect(s, p1, B_COLON) {
                    Option::None => {},
                    Option::Some(p2) => {
                        lemma_skip_ws_bounds(s, p2);
                        let p3 = spec_skip_ws(s, p2);
                        lemma_parse_num_advance(s, p3);
                        match spec_parse_num(s, p3) {
                            Option::None => {},
                            Option::Some((id, p4)) => {
                                lemma_expect_advance(s, p4, B_COMMA);
                                match spec_expect(s, p4, B_COMMA) {
                                    Option::None => {},
                                    Option::Some(p5) => {
                                        lemma_expect_kw_advance(s, p5, spec_kw_perimeter());
                                        match spec_expect_kw(s, p5, spec_kw_perimeter()) {
                                            Option::None => {},
                                            Option::Some(p6) => {
                                                lemma_expect_advance(s, p6, B_COLON);
                                                match spec_expect(s, p6, B_COLON) {
                                                    Option::None => {},
                                                    Option::Some(p7) => {
                                                        lemma_parse_record_advance_tail(s, i, p7);
                                                    },
                                                }
                                            },
                                        }
                                    },
                                }
                            },
                        }
                    },
                }
            },
        }
    }
}

/// Second half of the record-advance chain, from the perimeter list on.
proof fn lemma_parse_record_advance_tail(s: Seq<u8>, i: int, p7: int)
    requires
        0 <= i < p7 <= s.len(),
    ensures
        spec_parse_numlist(s, p7) matches Some(pp8) ==> {
            let p8 = pp8.1;
            &&& i < p8 <= s.len()
            &&& (spec_expect(s, p8, B_COMMA) matches Some(p9) ==> spec_expect_kw(
                s,
                p9,
                spec_kw_name(),
            ) matches Some(p10) ==> spec_expect(s, p10, B_COLON) matches Some(p11) ==> {
                let p12 = spec_skip_ws(s, p11);
                &&& 0 <= p12 <= s.len()
                &&& (spec_parse_name(s, p12) matches Some(np13) ==> {
                    let p13 = np13.1;
                    &&& i < p13 <= s.len()
                    &&& (spec_expect(s, p13, B_COMMA) matches Some(p14) ==> (spec_expect(s, p14, B_RPAREN) matches Some(p15) ==> i < p15 <= s.len()))
                    &&& (spec_expect(s, p13, B_RPAREN) matches Some(p15) ==> i < p15 <= s.len())
                })
            })
        },
{
    lemma_parse_numlist_advance(s, p7);
    match spec_parse_numlist(s, p7) {
        Option::None => {},
        Option::Some((per, p8)) => {
            lemma_expect_advance(s, p8, B_COMMA);
            match spec_expect(s, p8, B_COMMA) {
                Option::None => {},
                Option::Some(p9) => {
                    lemma_expect_kw_advance(s, p9, spec_kw_name());
                    match spec_expect_kw(s, p9, spec_kw_name()) {
                        Option::None => {},
                        Option::Some(p10) => {
                            lemma_expect_advance(s, p10, B_COLON);
                            match spec_expect(s, p10, B_COLON) {
                                Option::None => {},
                                Option::Some(p11) => {
                                    lemma_skip_ws_bounds(s, p11);
                                    let p12 = spec_skip_ws(s, p11);
                                    lemma_parse_name_advance(s, p12);
                                    match spec_parse_name(s, p12) {
                                        Option::None => {},
                                        Option::Some((name, p13)) => {
                                            lemma_expect_advance(s, p13, B_COMMA);
                                            match spec_expect(s, p13, B_COMMA) {
                                                Option::Some(p14) => {
                                                    lemma_expect_advance(s, p14, B_RPAREN);
                                                },
                                                Option::None => {},
                                            }
                                            lemma_expect_advance(s, p13, B_RPAREN);
                                        },
                                    }
                                },
                            }
                        },
                    }
                },
            }
        },
    }
}

/// The record list after the opening bracket of the file: records separated
/// by commas (a trailing comma is allowed) up to the closing bracket.
pub open spec fn spec_parse_records(s: Seq<u8>, i: int, acc: Seq<DefRecord>) -> Option<
    (Seq<DefRecord>, int),
>
    decreases s.len() - i,
    when 0 <= i <= s.len()
    via records_decreases
{
    let k = spec_skip_ws(s, i);
    if k >= s.len() {
        None
    } else if s[k] == B_RBRACKET {
        Some((acc, k + 1))
    } else {
        match spec_parse_record(s, k) {
            Option::None => None,
            Option::Some((rec, j)) => {
                let l = spec_skip_ws(s, j);
                if l >= s.len() {
                    None
                } else if s[l] == B_COMMA {
                    spec_parse_records(s, l + 1, acc.push(rec))
                } else if s[l] == B_RBRACKET {
                    Some((acc.push(rec), l + 1))
                } else {
                    None
                }
            },
        }
    }
}

#[via_fn]
proof fn records_decreases(s: Seq<u8>, i: int, acc: Seq<DefRecord>) {
    lemma_skip_ws_bounds(s, i);
    let k = spec_skip_ws(s, i);
    if k < s.len() && s[k] != B_RBRACKET {
        lemma_parse_record_advance(s, k);
        match spec_parse_record(s, k) {
            Option::None => {},
            Option::Some((rec, j)) => {
                lemma_skip_ws_bounds(s, j);
            },
        }
    }
}

/// A whole definitions file: optional whitespace, a bracketed record list,
/// optional whitespace, end of input.
pub open spec fn spec_parse_defs(s: Seq<u8>) -> Option<Seq<DefRecord>> {
    match spec_expect(s, 0, B_LBRACKET) {
        Option::None => None,
        Option::Some(j) => match spec_parse_records(s, j, Seq::<DefRecord>::empty()) {
            Option::None => None,
            Option::Some((recs, p)) => {
                if spec_skip_ws(s, p) == s.len() {
                    Some(recs)
                } else {
                    None
                }
            },
        },
    }
}

/// Every byte the digit scan passed over is a digit.
proof fn lemma_scan_digits_range(s: Seq<u8>, i: int)
    requires
        0 <= i <= s.len(),
    ensures
        forall|m: int| i <= m < spec_scan_digits(s, i) ==> spec_is_digit(#[trigger] s[m]),
    decreases s.len() - i,
{
    if i < s.len() && spec_is_digit(s[i]) {
        lemma_scan_digits_range(s, i + 1);
    }
}

/// Skips whitespace from `i`.
fn skip_ws(s: &[u8], i: usize) -> (r: usize)
    requires
        i <= s@.len(),
    ensures
        r as int == spec_skip_ws(s@, i as int),
        i <= r <= s@.len(),
{
    let n = s.len();
    let mut r = i;
    while r < n
        invariant
            i <= r <= n,
            n == s@.len(),
            spec_skip_ws(s@, i as int) == spec_skip_ws(s@, r as int),
        decreases n - r,
    {
        let c = s[r];
        if c == B_SPACE || c == B_TAB || c == B_CR || c == B_LF {
            r += 1;
        } else {
            return r;
        }
    }
    r
}

/// Scans past the digits from `i`.
fn scan_digits(s: &[u8], i: usize) -> (r: usize)
    requires
        i <= s@.len(),
    ensures
        r as int == spec_scan_digits(s@, i as int),
        i <= r <= s@.len(),
{
    let n = s.len();
    let mut r = i;
    while r < n
        invariant
            i <= r <= n,
            n == s@.len(),
            spec_scan_digits(s@, i as int) == spec_scan_digits(s@, r as int),
        decreases n - r,
    {
        let c = s[r];
        if B_ZERO <= c && c <= B_NINE {
            r += 1;
        } else {
            return r;
        }
    }
    r
}

/// Scans up to the next double quote from `i`.
fn scan_name(s: &[u8], i: usize) -> (r: usize)
    requires
        i <= s@.len(),
    ensures
        r as int == spec_scan_name(s@, i as int),
        i <= r <= s@.len(),
{
    let n = s.len();
    let mut r = i;
    while r < n
        invariant
            i <= r <= n,
            n == s@.len(),
            spec_scan_name(s@, i as int) == spec_scan_name(s@, r as int),
        decreases n - r,
    {
        if s[r] != B_QUOTE {
            r += 1;
        } else {
            return r;
        }
    }
    r
}

/// Parses a decimal number at `i`.
fn parse_num(s: &[u8], i: usize) -> (r: Option<(u8, usize)>)
    requires
        i <= s@.len(),
    ensures
        (r is Some) == (spec_parse_num(s@, i as int) is Some),
        r matches Some(vj) ==> spec_parse_num(s@, i as int) == Some((vj.0, vj.1 as int)) && i
            < vj.1 <= s@.len(),
{
    let j = scan_digits(s, i);
    if j == i {
        return None;
    }
    proof {
        lemma_scan_digits_range(s@, i as int);
    }
    let mut acc: u32 = 0;
    let mut t = i;
    while t < j
        invariant
            i <= t <= j <= s@.len(),
            j as int == spec_scan_digits(s@, i as int),
            forall|m: int| i <= m < j ==> spec_is_digit(#[trigger] s@[m]),
            spec_digits_val(s@, i as int, t as int) <= 255 ==> acc == spec_digits_val(
                s@,
                i as int,
                t as int,
            ),
            spec_digits_val(s@, i as int, t as int) > 255 ==> acc == 256 && spec_digits_val(
                s@,
                i as int,
                t as int,
            ) > 255,
        decreases j - t,
    {
        let d = s[t] - B_ZERO;
        acc = acc * 10 + d as u32;
        if acc > 255 {
            acc = 256;
        }
        t += 1;
    }
    if acc > 255 {
        return None;
    }
    Some((acc as u8, j))
}

/// Parses a quoted name at `i`.
fn parse_name(s: &[u8], i: usize) -> (r: Option<(Vec<u8>, usize)>)
    requires
        i <= s@.len(),
    ensures
        (r is Some) == (spec_parse_name(s@, i as int) is Some),
        r matches Some(vj) ==> (spec_parse_name(s@, i as int) matches Some(sj) && vj.0@ == sj.0
            && vj.1 as int == sj.1 && i < vj.1 <= s@.len()),
{
    if !(i < s.len() && s[i] == B_QUOTE) {
        return None;
    }
    let j = scan_name(s, i + 1);
    if j == s.len() {
        return None;
    }
    let mut name: Vec<u8> = Vec::new();
    let mut t = i + 1;
    while t < j
        invariant
            i + 1 <= t <= j < s@.len(),
            name@ == s@.subrange(i as int + 1, t as int),
        decreases j - t,
    {
        name.push(s[t]);
        t += 1;
        proof {
            assert(s@.subrange(i as int + 1, t as int) =~= s@.subrange(
                i as int + 1,
                t as int - 1,
            ).push(s@[t as int - 1]));
        }
    }
    Some((name, j + 1))
}

/// Skips whitespace and demands the single byte `c`.
fn expect(s: &[u8], i: usize, c: u8) -> (r: Option<usize>)
    requires
        i <= s@.len(),
    ensures
        (r is Some) == (spec_expect(s@, i as int, c) is Some),
        r matches Some(j) ==> spec_expect(s@, i as int, c) == Some(j as int) && i < j <= s@.len(),
{
    let k = skip_ws(s, i);
    if k < s.len() && s[k] == c {
        Some(k + 1)
    } else {
        None
    }
}

/// Skips whitespace and demands the keyword `id`.
fn expect_kw_id(s: &[u8], i: usize) -> (r: Option<usize>)
    requires
        i <= s@.len(),
    ensures
        (r is Some) == (spec_expect_kw(s@, i as int, spec_kw_id()) is Some),
        r matches Some(j) ==> spec_expect_kw(s@, i as int, spec_kw_id()) == Some(j as int) && i
            < j <= s@.len(),
{
    let k = skip_ws(s, i);
    if s.len() >= 2 && k <= s.len() - 2 && s[k] == 105 && s[k + 1] == 100 {
        proof {
            assert(s@.subrange(k as int, k as int + 2) =~= spec_kw_id());
        }
        Some(k + 2)
    } else {
        proof {
            if k as int + 2 <= s@.len() && s@.subrange(k as int, k as int + 2) == spec_kw_id() {
                assert(s@[k as int] == spec_kw_id()[0]);
                assert(s@[k as int + 1] == spec_kw_id()[1]);
            }
        }
        None
    }
}

/// Skips whitespace and demands the keyword `perimeter`.
fn expect_kw_perimeter(s: &[u8], i: usize) -> (r: Option<usize>)
    requires
        i <= s@.len(),
    ensures
        (r is Some) == (spec_expect_kw(s@, i as int, spec_kw_perimeter()) is Some),
        r matches Some(j) ==> spec_expect_kw(s@, i as int, spec_kw_perimeter()) == Some(j as int)
            && i < j <= s@.len(),
{
    let k = skip_ws(s, i);
    if s.len() >= 9 && k <= s.len() - 9 && s[k] == 112 && s[k + 1] == 101 && s[k + 2] == 114 && s[k
        + 3] == 105 && s[k + 4] == 109 && s[k + 5] == 101 && s[k + 6] == 116 && s[k + 7] == 101
        && s[k + 8] == 114 {
        proof {
            assert(s@.subrange(k as int, k as int + 9) =~= spec_kw_perimeter());
        }
        Some(k + 9)
    } else {
        proof {
            if k as int + 9 <= s@.len() && s@.subrange(k as int, k as int + 9)
                == spec_kw_perimeter() {
                assert forall|m: int| 0 <= m < 9 implies s@[k as int + m] == spec_kw_perimeter()[m] by {
                    assert(s@.subrange(k as int, k as int + 9)[m] == s@[k as int + m]);
                }
            }
        }
        None
    }
}

/// Skips whitespace and demands the keyword `name`.
fn expect_kw_name(s: &[u8], i: usize) -> (r: Option<usize>)
    requires
        i <= s@.len(),
    ensures
        (r is Some) == (spec_expect_kw(s@, i as int, spec_kw_name()) is Some),
        r matches Some(j) ==> spec_expect_kw(s@, i as int, spec_kw_name()) == Some(j as int) && i
            < j <= s@.len(),
{
    let k = skip_ws(s, i);
    if s.len() >= 4 && k <= s.len() - 4 && s[k] == 110 && s[k + 1] == 97 && s[k + 2] == 109 && s[k
        + 3] == 101 {
        proof {
            assert(s@.subrange(k as int, k as int + 4) =~= spec_kw_name());
        }
        Some(k + 4)
    } else {
        proof {
            if k as int + 4 <= s@.len() && s@.subrange(k as int, k as int + 4) == spec_kw_name() {
                assert forall|m: int| 0 <= m < 4 implies s@[k as int + m] == spec_kw_name()[m] by {
                    assert(s@.subrange(k as int, k as int + 4)[m] == s@[k as int + m]);
                }
            }
        }
        None
    }
}

/// Parses a perimeter list at `i`.
fn parse_numlist(s: &[u8], i: usize) -> (r: Option<(Vec<u8>, usize)>)
    requires
        i <= s@.len(),
    ensures
        (r is Some) == (spec_parse_numlist(s@, i as int) is Some),
        r matches Some(vj) ==> (spec_parse_numlist(s@, i as int) matches Some(sj) && vj.0@ == sj.0
            && vj.1 as int == sj.1 && i < vj.1 <= s@.len()),
{
    let start = match expect(s, i, B_LBRACKET) {
        Option::None => {
            return None;
        },
        Option::Some(j) => j,
    };
    proof {
        lemma_numlist_items_advance(s@, start as int, Seq::<u8>::empty());
    }
    let mut acc: Vec<u8> = Vec::new();
    let mut pos = start;
    loop
        invariant
            start <= pos <= s@.len(),
            i < start <= s@.len(),
            spec_expect(s@, i as int, B_LBRACKET) == Some(start as int),
            spec_parse_numlist_items(s@, start as int, Seq::<u8>::empty())
                == spec_parse_numlist_items(s@, pos as int, acc@),
        decreases s@.len() - pos,
    {
        proof {
            lemma_numlist_items_advance(s@, pos as int, acc@);
        }
        let k = skip_ws(s, pos);
        if k == s.len() {
            return None;
        }
        if s[k] == B_RBRACKET {
            return Some((acc, k + 1));
        }
        match parse_num(s, k) {
            Option::None => {
                return None;
            },
            Option::Some((v, p)) => {
                let l = skip_ws(s, p);
                if l == s.len() {
                    return None;
                }
                if s[l] == B_COMMA {
                    acc.push(v);
                    pos = l + 1;
                } else if s[l] == B_RBRACKET {
                    acc.push(v);
                    return Some((acc, l + 1));
                } else {
                    return None;
                }
            },
        }
    }
}

/// Parses one record at `i`.
fn parse_record(s: &[u8], i: usize) -> (r: Option<(TileDefinition, usize)>)
    requires
        i <= s@.len(),
    ensures
        (r is Some) == (spec_parse_record(s@, i as int) is Some),
        r matches Some(dj) ==> (spec_parse_record(s@, i as int) matches Some(rj)
            && spec_def_matches(dj.0, rj.0) && dj.1 as int == rj.1 && i < dj.1 <= s@.len()),
{
    if !(i < s.len() && s[i] == B_LPAREN) {
        return None;
    }
    let p1 = match expect_kw_id(s, i + 1) {
        Option::None => {
            return None;
        },
        Option::Some(p) => p,
    };
    let p2 = match expect(s, p1, B_COLON) {
        Option::None => {
            return None;
        },
        Option::Some(p) => p,
    };
    let p3 = skip_ws(s, p2);
    let (id, p4) = match parse_num(s, p3) {
        Option::None => {
            return None;
        },
        Option::Some(vp) => vp,
    };
    let p5 = match expect(s, p4, B_COMMA) {
        Option::None => {
            return None;
        },
        Option::Some(p) => p,
    };
    let p6 = match expect_kw_perimeter(s, p5) {
        Option::None => {
            return None;
        },
        Option::Some(p) => p,
    };
    let p7 = match expect(s, p6, B_COLON) {
        Option::None => {
            return None;
        },
        Option::Some(p) => p,
    };
    let (per, p8) = match parse_numlist(s, p7) {
        Option::None => {
            return None;
        },
        Option::Some(vp) => vp,
    };
    let p9 = match expect(s, p8, B_COMMA) {
        Option::None => {
            return None;
        },
        Option::Some(p) => p,
    };
    let p10 = match expect_kw_name(s, p9) {
        Option::None => {
            return None;
        },
        Option::Some(p) => p,
    };
    let p11 = match expect(s, p10, B_COLON) {
        Option::None => {
            return None;
        },
        Option::Some(p) => p,
    };
    let p12 = skip_ws(s, p11);
    let (name, p13) = match parse_name(s, p12) {
        Option::None => {
            return None;
        },
        Option::Some(vp) => vp,
    };
    let def = TileDefinition { id, perimeter: per, name };
    match expect(s, p13, B_COMMA) {
        Option::Some(p14) => match expect(s, p14, B_RPAREN) {
            Option::None => None,
            Option::Some(p15) => Some((def, p15)),
        },
        Option::None => match expect(s, p13, B_RPAREN) {
            Option::None => None,
            Option::Some(p15) => Some((def, p15)),
        },
    }
}

/// Loads tile definitions from the bytes of their text asset format.
#[derive(Clone, Copy, Debug, Default)]
pub struct TileDefinitionsLoader;

impl TileDefinitionsLoader {
    /// Parses a whole definitions file. Returns the definitions exactly
    /// when the bytes match the format, and `ParseError` otherwise; a
    /// failed load leaves any previously loaded definitions untouched,
    /// since nothing is mutated here.
    pub fn load(&self, bytes: &[u8]) -> (r: Result<TileDefinitions, ParseError>)
        ensures
            (r is Ok) == (spec_parse_defs(bytes@) is Some),
            r matches Ok(defs) ==> (spec_parse_defs(bytes@) matches Some(recs) && defs.0@.len()
                == recs.len() && (forall|q: int|
                0 <= q < recs.len() ==> spec_def_matches(defs.0@[q], #[trigger] recs[q]))),
    {
        let start = match expect(bytes, 0, B_LBRACKET) {
            Option::None => {
                return Err(ParseError);
            },
            Option::Some(j) => j,
        };
        let mut out: Vec<TileDefinition> = Vec::new();
        let ghost mut racc: Seq<DefRecord> = Seq::<DefRecord>::empty();
        let mut pos = start;
        loop
            invariant
                start <= pos <= bytes@.len(),
                spec_expect(bytes@, 0, B_LBRACKET) == Some(start as int),
                spec_parse_records(bytes@, start as int, Seq::<DefRecord>::empty())
                    == spec_parse_records(bytes@, pos as int, racc),
                out@.len() == racc.len(),
                forall|q: int|
                    0 <= q < racc.len() ==> spec_def_matches(out@[q], #[trigger] racc[q]),
            decreases bytes@.len() - pos,
        {
            let k = skip_ws(bytes, pos);
            if k == bytes.len() {
                return Err(ParseError);
            }
            if bytes[k] == B_RBRACKET {
                let e = skip_ws(bytes, k + 1);
                if e == bytes.len() {
                    return Ok(TileDefinitions(out));
                } else {
                    return Err(ParseError);
                }
            }
            match parse_record(bytes, k) {
                Option::None => {
                    return Err(ParseError);
                },
                Option::Some((def, p)) => {
                    let l = skip_ws(bytes, p);
                    if l == bytes.len() {
                        return Err(ParseError);
                    }
                    if bytes[l] == B_COMMA {
                        proof {
                            racc = racc.push(spec_parse_record(bytes@, k as int)->Some_0.0);
                        }
                        out.push(def);
                        pos = l + 1;
                    } else if bytes[l] == B_RBRACKET {
                        proof {
                            racc = racc.push(spec_parse_record(bytes@, k as int)->Some_0.0);
                        }
                        out.push(def);
                        let e = skip_ws(bytes, l + 1);
                        if e == bytes.len() {
                            return Ok(TileDefinitions(out));
                        } else {
                            return Err(ParseError);
                        }
                    } else {
                        return Err(ParseError);
                    }
                },
            }
        }
    }
}

} // verus!
