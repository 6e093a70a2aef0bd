//! The JSON parser: a specification-level recursive-descent parser over byte
//! sequences, and an executable parser proved to agree with it exactly.
use vstd::prelude::*;
use crate::json::JsonModel;
use crate::json::JsonValue;
use crate::json::jv_model;
use crate::json::model_list;
use crate::json::model_members;
use crate::json::is_digit;
use crate::json::append_bytes;
use crate::json::scan_digits;
use crate::json::frac_end;
use crate::json::exp_end;
use crate::json::num_end;

verus! {

pub open spec fn is_ws(b: u8) -> bool {
    b == 0x20 || b == 0x09 || b == 0x0a || b == 0x0d
}

/// Position of the first non-whitespace byte at or after `i`.
pub open spec fn skip_ws(s: Seq<u8>, i: int) -> int
    decreases s.len() - i,
{
    if 0 <= i < s.len() && is_ws(s[i]) {
        skip_ws(s, i + 1)
    } else {
        i
    }
}

/// The byte a short escape stands for, if the byte after the backslash is a
/// legal escape character.
pub open spec fn unesc(b: u8) -> Option<u8> {
    if b == 0x22 {
        Some(0x22u8)
    } else if b == 0x5c {
        Some(0x5cu8)
    } else if b == 0x2f {
        Some(0x2fu8)
    } else if b == 0x62 {
        Some(0x08u8)
    } else if b == 0x74 {
        Some(0x09u8)
    } else if b == 0x6e {
        Some(0x0au8)
    } else if b == 0x66 {
        Some(0x0cu8)
    } else if b == 0x72 {
        Some(0x0du8)
    } else {
        None
    }
}

/// The value of a hex digit, either case.
pub open spec fn hex_val(b: u8) -> Option<int> {
    if 0x30 <= b <= 0x39 {
        Some((b - 0x30) as int)
    } else if 0x61 <= b <= 0x66 {
        Some((b - 0x61 + 10) as int)
    } else if 0x41 <= b <= 0x46 {
        Some((b - 0x41 + 10) as int)
    } else {
        None
    }
}

/// The value of four hex digits at `p`.
pub open spec fn hex4(s: Seq<u8>, p: int) -> Option<int> {
    if p >= 0 && p + 4 <= s.len() {
        match (hex_val(s[p]), hex_val(s[p + 1]), hex_val(s[p + 2]), hex_val(s[p + 3])) {
            (Some(a), Some(b), Some(c), Some(d)) => Some(a * 4096 + b * 256 + c * 16 + d),
            _ => None,
        }
    } else {
        None
    }
}

/// The UTF-8 bytes of a code point.
pub open spec fn utf8_enc(c: int) -> Seq<u8> {
    if c < 0x80 {
        seq![c as u8]
    } else if c < 0x800 {
        seq![(0xC0 + c / 64) as u8, (0x80 + c % 64) as u8]
    } else if c < 0x10000 {
        seq![(0xE0 + c / 4096) as u8, (0x80 + (c / 64) % 64) as u8, (0x80 + c % 64) as u8]
    } else {
        seq![
            (0xF0 + c / 262144) as u8,
            (0x80 + (c / 4096) % 64) as u8,
            (0x80 + (c / 64) % 64) as u8,
            (0x80 + c % 64) as u8,
        ]
    }
}

/// Decode a `\uXXXX` escape whose backslash stands at `i`: a BMP code point
/// becomes its UTF-8 bytes; a high surrogate must be followed by a second
/// escape holding a low surrogate, the pair becoming a four-byte sequence; a
/// lone surrogate is rejected.
pub open spec fn u_escape(s: Seq<u8>, i: int) -> Option<(Seq<u8>, int)> {
    match hex4(s, i + 2) {
        None => None,
        Some(c1) => if 0xD800 <= c1 <= 0xDBFF {
            if i + 8 <= s.len() && s[i + 6] == 0x5c && s[i + 7] == 0x75 {
                match hex4(s, i + 8) {
                    None => None,
                    Some(c2) => if 0xDC00 <= c2 <= 0xDFFF {
                        Some(
                            (
                                utf8_enc(0x10000 + (c1 - 0xD800) * 0x400 + (c2 - 0xDC00)),
                                i + 12,
                            ),
                        )
                    } else {
                        None
                    },
                }
            } else {
                None
            }
        } else if 0xDC00 <= c1 <= 0xDFFF {
            None
        } else {
            Some((utf8_enc(c1), i + 6))
        },
    }
}

/// Parse the body of a string, starting after the opening quote; the returned
/// position is just past the closing quote.
pub open spec fn parse_str_body(s: Seq<u8>, i: int) -> Option<(Seq<u8>, int)>
    decreases s.len() - i,
{
    if i < 0 || i >= s.len() {
        None
    } else if s[i] == 0x22 {
        Some((seq![], i + 1))
    } else if s[i] == 0x5c {
        if i + 1 < s.len() {
            if s[i + 1] == 0x75 {
                match u_escape(s, i) {
                    Some(u) => if i < u.1 && u.1 <= s.len() {
                        match parse_str_body(s, u.1) {
                            Some(t) => Some((u.0 + t.0, t.1)),
                            None => None,
                        }
                    } else {
                        None
                    },
                    None => None,
                }
            } else {
                match unesc(s[i + 1]) {
                    Some(b) => match parse_str_body(s, i + 2) {
                        Some(t) => Some((seq![b] + t.0, t.1)),
                        None => None,
                    },
                    None => None,
                }
            }
        } else {
            None
        }
    } else if s[i] >= 0x20 {
        match parse_str_body(s, i + 1) {
            Some(t) => Some((seq![s[i]] + t.0, t.1)),
            None => None,
        }
    } else {
        None
    }
}

/// Parse a number: the lexeme bytes are kept verbatim.
pub open spec fn parse_num(s: Seq<u8>, i: int) -> Option<(JsonModel, int)> {
    match num_end(s, i) {
        Some(e) => Some((JsonModel::Num(s.subrange(i, e)), e)),
        None => None,
    }
}

/// Whether the bytes of `w` occur in `s` at position `i`.
pub open spec fn has_at(s: Seq<u8>, i: int, w: Seq<u8>) -> bool {
    i >= 0 && i + w.len() <= s.len() && s.subrange(i, i + w.len()) == w
}

/// Parse one JSON value starting exactly at `i` (no leading whitespace); the
/// returned position is just past the value.
pub open spec fn parse_value(s: Seq<u8>, i: int) -> Option<(JsonModel, int)>
    decreases s.len() - i, 0int,
{
    if i < 0 || i >= s.len() {
        None
    } else if s[i] == 0x6e {
        if has_at(s, i, seq![0x6eu8, 0x75u8, 0x6cu8, 0x6cu8]) {
            Some((JsonModel::Null, i + 4))
        } else {
            None
        }
    } else if s[i] == 0x74 {
        if has_at(s, i, seq![0x74u8, 0x72u8, 0x75u8, 0x65u8]) {
            Some((JsonModel::Bool(true), i + 4))
        } else {
            None
        }
    } else if s[i] == 0x66 {
        if has_at(s, i, seq![0x66u8, 0x61u8, 0x6cu8, 0x73u8, 0x65u8]) {
            Some((JsonModel::Bool(false), i + 5))
        } else {
            None
        }
    } else if s[i] == 0x22 {
        match parse_str_body(s, i + 1) {
            Some(t) => Some((JsonModel::Str(t.0), t.1)),
            None => None,
        }
    } else if s[i] == 0x2d || is_digit(s[i]) {
        parse_num(s, i)
    } else if s[i] == 0x5b {
        let j = skip_ws(s, i + 1);
        if j < s.len() && s[j] == 0x5d {
            Some((JsonModel::Arr(seq![]), j + 1))
        } else if i < j && j <= s.len() {
            match parse_items(s, j) {
                Some(t) => Some((JsonModel::Arr(t.0), t.1)),
                None => None,
            }
        } else {
            None
        }
    } else if s[i] == 0x7b {
        let j = skip_ws(s, i + 1);
        if j < s.len() && s[j] == 0x7d {
            Some((JsonModel::Obj(seq![]), j + 1))
        } else if i < j && j <= s.len() {
            match parse_members(s, j) {
                Some(t) => Some((JsonModel::Obj(t.0), t.1)),
                None => None,
            }
        } else {
            None
        }
    } else {
        None
    }
}

/// Parse the items of a non-empty array, starting at the first item; the
/// returned position is just past the closing bracket.
pub open spec fn parse_items(s: Seq<u8>, i: int) -> Option<(Seq<JsonModel>, int)>
    decreases s.len() - i, 1int,
{
    if i < 0 || i >= s.len() {
        None
    } else {
        match parse_value(s, i) {
            None => None,
            Some(t) => {
                let k = skip_ws(s, t.1);
                if k < s.len() && s[k] == 0x2c {
                    let m = skip_ws(s, k + 1);
                    if i < m && m <= s.len() {
                        match parse_items(s, m) {
                            Some(r) => Some((seq![t.0] + r.0, r.1)),
                            None => None,
                        }
                    } else {
                        None
                    }
                } else if k < s.len() && s[k] == 0x5d {
                    Some((seq![t.0], k + 1))
                } else {
                    None
                }
            },
        }
    }
}

/// Parse the members of a non-empty object, starting at the first key; the
/// returned position is just past the closing brace.
pub open spec fn parse_members(s: Seq<u8>, i: int) -> Option<(Seq<(Seq<u8>, JsonModel)>, int)>
    decreases s.len() - i, 1int,
{
    if i < 0 || i >= s.len() || s[i] != 0x22 {
        None
    } else {
        match parse_str_body(s, i + 1) {
            None => None,
            Some(kt) => {
                let c = skip_ws(s, kt.1);
                if c < s.len() && s[c] == 0x3a {
                    let m = skip_ws(s, c + 1);
                    if i < m && m <= s.len() {
                        match parse_value(s, m) {
                            None => None,
                            Some(vt) => {
                                let k2 = skip_ws(s, vt.1);
                                if k2 < s.len() && s[k2] == 0x2c {
                                    let m2 = skip_ws(s, k2 + 1);
                                    if i < m2 && m2 <= s.len() {
                                        match parse_members(s, m2) {
                                            Some(r) => Some((seq![(kt.0, vt.0)] + r.0, r.1)),
                                            None => None,
                                        }
                                    } else {
                                        None
                                    }
                                } else if k2 < s.len() && s[k2] == 0x7d {
                                    Some((seq![(kt.0, vt.0)], k2 + 1))
                                } else {
                                    None
                                }
                            },
                        }
                    } else {
                        None
                    }
                } else {
                    None
                }
            },
        }
    }
}

/// Parse a whole document: optional whitespace, one value, optional
/// whitespace, end of input.
pub open spec fn parse_doc(s: Seq<u8>) -> Option<JsonModel> {
    let i = skip_ws(s, 0);
    match parse_value(s, i) {
        Some(t) => if skip_ws(s, t.1) == s.len() {
            Some(t.0)
        } else {
            None
        },
        None => None,
    }
}

/// Relation between a specification parse result and an executable one.
pub open spec fn rel_val(sp: Option<(JsonModel, int)>, ex: Option<(JsonValue, usize)>) -> bool {
    match sp {
        None => ex is None,
        Some(t) => ex matches Some(e) && jv_model(e.0) == t.0 && e.1 as int == t.1,
    }
}

pub open spec fn rel_str(sp: Option<(Seq<u8>, int)>, ex: Option<(Vec<u8>, usize)>) -> bool {
    match sp {
        None => ex is None,
        Some(t) => ex matches Some(e) && e.0@ == t.0 && e.1 as int == t.1,
    }
}

pub open spec fn rel_items(sp: Option<(Seq<JsonModel>, int)>, ex: Option<(Vec<JsonValue>, usize)>) -> bool {
    match sp {
        None => ex is None,
        Some(t) => ex matches Some(e) && model_list(e.0@) == t.0 && e.1 as int == t.1,
    }
}

pub open spec fn rel_members(
    sp: Option<(Seq<(Seq<u8>, JsonModel)>, int)>,
    ex: Option<(Vec<(Vec<u8>, JsonValue)>, usize)>,
) -> bool {
    match sp {
        None => ex is None,
        Some(t) => ex matches Some(e) && model_members(e.0@) == t.0 && e.1 as int == t.1,
    }
}

fn skip_ws_exec(s: &[u8], i: usize) -> (r: usize)
    requires
        i <= s@.len(),
    ensures
        r as int == skip_ws(s@, i as int),
        i <= r <= s@.len(),
{
    let mut j = i;
    while j < s.len() && (s[j] == 0x20 || s[j] == 0x09 || s[j] == 0x0a || s[j] == 0x0d)
        invariant
            i <= j <= s@.len(),
            skip_ws(s@, i as int) == skip_ws(s@, j as int),
        decreases s@.len() - j,
    {
        proof {
            assert(skip_ws(s@, j as int) == skip_ws(s@, j + 1 as int));
        }
        j = j + 1;
    }
    proof {
        assert(skip_ws(s@, j as int) == j as int);
    }
    j
}

/// Copy `s[from..to]` into a fresh vector.
fn copy_range(s: &[u8], from: usize, to: usize) -> (r: Vec<u8>)
    requires
        from <= to <= s@.len(),
    ensures
        r@ == s@.subrange(from as int, to as int),
{
    let mut out: Vec<u8> = Vec::new();
    let mut i = from;
    while i < to
        invariant
            from <= i <= to <= s@.len(),
            out@ == s@.subrange(from as int, i as int),
        decreases to - i,
    {
        out.push(s[i]);
        proof {
            assert(out@ =~= s@.subrange(from as int, i + 1 as int));
        }
        i = i + 1;
    }
    out
}

fn hex_val_exec(b: u8) -> (r: Option<u8>)
    ensures
        match hex_val(b) {
            Some(v) => r matches Some(x) && x as int == v && v < 16,
            None => r is None,
        },
{
    if 0x30 <= b && b <= 0x39 {
        Some(b - 0x30)
    } else if 0x61 <= b && b <= 0x66 {
        Some(b - 0x61 + 10)
    } else if 0x41 <= b && b <= 0x46 {
        Some(b - 0x41 + 10)
    } else {
        None
    }
}

fn hex4_exec(s: &[u8], p: usize) -> (r: Option<u32>)
    ensures
        match hex4(s@, p as int) {
            Some(v) => r matches Some(x) && x as int == v && v < 0x10000,
            None => r is None,
        },
{
    if s.len() < 4 || p > s.len() - 4 {
        return None;
    }
    let a = match hex_val_exec(s[p]) {
        Some(x) => x,
        None => {
            return None;
        },
    };
    let b = match hex_val_exec(s[p + 1]) {
        Some(x) => x,
        None => {
            return None;
        },
    };
    let c = match hex_val_exec(s[p + 2]) {
        Some(x) => x,
        None => {
            return None;
        },
    };
    let d = match hex_val_exec(s[p + 3]) {
        Some(x) => x,
        None => {
            return None;
        },
    };
    Some((a as u32) * 4096 + (b as u32) * 256 + (c as u32) * 16 + (d as u32))
}

fn utf8_enc_exec(c: u32) -> (r: Vec<u8>)
    requires
        c < 0x110000,
    ensures
        r@ == utf8_enc(c as int),
{
    let mut out: Vec<u8> = Vec::new();
    if c < 0x80 {
        out.push(c as u8);
    } else if c < 0x800 {
        out.push(0xC0 + (c / 64) as u8);
        out.push(0x80 + (c % 64) as u8);
    } else if c < 0x10000 {
        out.push(0xE0 + (c / 4096) as u8);
        out.push(0x80 + ((c / 64) % 64) as u8);
        out.push(0x80 + (c % 64) as u8);
    } else {
        out.push(0xF0 + (c / 262144) as u8);
        out.push(0x80 + ((c / 4096) % 64) as u8);
        out.push(0x80 + ((c / 64) % 64) as u8);
        out.push(0x80 + (c % 64) as u8);
    }
    proof {
        assert(out@ =~= utf8_enc(c as int));
    }
    out
}

fn u_escape_exec(s: &[u8], i: usize) -> (r: Option<(Vec<u8>, usize)>)
    requires
        i < s@.len(),
    ensures
        match u_escape(s@, i as int) {
            Some(t) => r matches Some(e) && e.0@ == t.0 && e.1 as int == t.1,
            None => r is None,
        },
        r matches Some(e) ==> i < e.1 <= s@.len(),
{
    if s.len() - i < 6 {
        proof {
            assert(hex4(s@, i as int + 2) is None);
        }
        return None;
    }
    match hex4_exec(s, i + 2) {
        None => None,
        Some(c1) => {
            if 0xD800 <= c1 && c1 <= 0xDBFF {
                if s.len() - i >= 12 && s[i + 6] == 0x5c && s[i + 7] == 0x75 {
                    match hex4_exec(s, i + 8) {
                        None => None,
                        Some(c2) => {
                            if 0xDC00 <= c2 && c2 <= 0xDFFF {
                                let cp: u32 = 0x10000 + (c1 - 0xD800) * 0x400 + (c2 - 0xDC00);
                                let bytes = utf8_enc_exec(cp);
                                Some((bytes, i + 12))
                            } else {
                                None
                            }
                        },
                    }
                } else {
                    proof {
                        if i as int + 8 <= s@.len() && s@[i as int + 6] == 0x5c && s@[i as int + 7]
                            == 0x75 {
                            assert(s@.len() < i as int + 12);
                            assert(hex4(s@, i as int + 8) is None);
                        }
                    }
                    None
                }
            } else if 0xDC00 <= c1 && c1 <= 0xDFFF {
                None
            } else {
                let bytes = utf8_enc_exec(c1);
                Some((bytes, i + 6))
            }
        },
    }
}

fn parse_str_body_exec(s: &[u8], i: usize) -> (r: Option<(Vec<u8>, usize)>)
    requires
        i <= s@.len(),
    ensures
        rel_str(parse_str_body(s@, i as int), r),
        r matches Some(t) ==> i < t.1 <= s@.len(),
{
    let mut acc: Vec<u8> = Vec::new();
    let mut j = i;
    proof {
        match parse_str_body(s@, i as int) {
            Some(t0) => {
                assert(Seq::<u8>::empty() + t0.0 =~= t0.0);
            },
            None => {},
        }
    }
    loop
        invariant
            i <= j <= s@.len(),
            match parse_str_body(s@, j as int) {
                Some(t) => parse_str_body(s@, i as int) == Some::<(Seq<u8>, int)>((
                    acc@ + t.0,
                    t.1,
                )),
                None => parse_str_body(s@, i as int) is None,
            },
        decreases s@.len() - j,
    {
        if j >= s.len() {
            return None;
        }
        let b = s[j];
        if b == 0x22 {
            proof {
                assert(parse_str_body(s@, j as int) == Some::<(Seq<u8>, int)>((
                    Seq::<u8>::empty(),
                    j + 1 as int,
                )));
                assert(acc@ + Seq::<u8>::empty() =~= acc@);
            }
            return Some((acc, j + 1));
        } else if b == 0x5c {
            if s.len() - j >= 2 {
                let e = s[j + 1];
                if e == 0x75 {
                    match u_escape_exec(s, j) {
                        Some((ubytes, next)) => {
                            let ghost prev = acc@;
                            append_bytes(&mut acc, ubytes.as_slice());
                            proof {
                                match parse_str_body(s@, next as int) {
                                    Some(t2) => {
                                        assert(parse_str_body(s@, j as int) == Some::<
                                            (Seq<u8>, int),
                                        >((ubytes@ + t2.0, t2.1)));
                                        assert(prev + (ubytes@ + t2.0) =~= acc@ + t2.0);
                                    },
                                    None => {
                                        assert(parse_str_body(s@, j as int) is None);
                                    },
                                }
                            }
                            j = next;
                        },
                        None => {
                            return None;
                        },
                    }
                    continue;
                }
                let u: Option<u8> = if e == 0x22 {
                    Some(0x22)
                } else if e == 0x5c {
                    Some(0x5c)
                } else if e == 0x2f {
                    Some(0x2f)
                } else if e == 0x62 {
                    Some(0x08)
                } else if e == 0x74 {
                    Some(0x09)
                } else if e == 0x6e {
                    Some(0x0a)
                } else if e == 0x66 {
                    Some(0x0c)
                } else if e == 0x72 {
                    Some(0x0d)
                } else {
                    None
                };
                proof {
                    assert(u == unesc(s@[j as int + 1]));
                }
                match u {
                    Some(ub) => {
                        let ghost prev = acc@;
                        acc.push(ub);
                        proof {
                            match parse_str_body(s@, j + 2 as int) {
                                Some(t2) => {
                                    assert(parse_str_body(s@, j as int) == Some::<(Seq<u8>, int)>((
                                        seq![ub] + t2.0,
                                        t2.1,
                                    )));
                                    assert(prev + (seq![ub] + t2.0) =~= acc@ + t2.0);
                                },
                                None => {
                                    assert(parse_str_body(s@, j as int) is None);
                                },
                            }
                        }
                        j = j + 2;
                    },
                    None => {
                        return None;
                    },
                }
            } else {
                return None;
            }
        } else if b >= 0x20 {
            let ghost prev = acc@;
            acc.push(b);
            proof {
                match parse_str_body(s@, j + 1 as int) {
                    Some(t2) => {
                        assert(parse_str_body(s@, j as int) == Some::<(Seq<u8>, int)>((
                            seq![b] + t2.0,
                            t2.1,
                        )));
                        assert(prev + (seq![b] + t2.0) =~= acc@ + t2.0);
                    },
                    None => {
                        assert(parse_str_body(s@, j as int) is None);
                    },
                }
            }
            j = j + 1;
        } else {
            return None;
        }
    }
}

fn scan_digits_exec(s: &[u8], i: usize) -> (r: usize)
    requires
        i <= s@.len(),
    ensures
        r as int == scan_digits(s@, i as int),
        i <= r <= s@.len(),
{
    let mut j = i;
    while j < s.len() && 0x30 <= s[j] && s[j] <= 0x39
        invariant
            i <= j <= s@.len(),
            scan_digits(s@, i as int) == scan_digits(s@, j as int),
        decreases s@.len() - j,
    {
        proof {
            assert(scan_digits(s@, j as int) == scan_digits(s@, j + 1 as int));
        }
        j = j + 1;
    }
    proof {
        assert(scan_digits(s@, j as int) == j as int);
    }
    j
}

fn parse_value_exec(s: &[u8], i: usize) -> (r: Option<(JsonValue, usize)>)
    requires
        i <= s@.len(),
    ensures
        rel_val(parse_value(s@, i as int), r),
        r matches Some(t) ==> i < t.1 <= s@.len(),
    decreases s@.len() - i, 0int,
{
    if i >= s.len() {
        return None;
    }
    let b = s[i];
    if b == 0x6e {
        if s.len() - i >= 4 && s[i + 1] == 0x75 && s[i + 2] == 0x6c && s[i + 3] == 0x6c {
            proof {
                assert(s@.subrange(i as int, i as int + 4) =~= seq![0x6eu8, 0x75u8, 0x6cu8, 0x6cu8]);
            }
            Some((JsonValue::Null, i + 4))
        } else {
            proof {
                assert(!has_at(s@, i as int, seq![0x6eu8, 0x75u8, 0x6cu8, 0x6cu8])) by {
                    if has_at(s@, i as int, seq![0x6eu8, 0x75u8, 0x6cu8, 0x6cu8]) {
                        assert(s@.subrange(i as int, i as int + 4)[1] == s@[i as int + 1]);
                        assert(s@.subrange(i as int, i as int + 4)[2] == s@[i as int + 2]);
                        assert(s@.subrange(i as int, i as int + 4)[3] == s@[i as int + 3]);
                    }
                }
            }
            None
        }
    } else if b == 0x74 {
        if s.len() - i >= 4 && s[i + 1] == 0x72 && s[i + 2] == 0x75 && s[i + 3] == 0x65 {
            proof {
                assert(s@.subrange(i as int, i as int + 4) =~= seq![0x74u8, 0x72u8, 0x75u8, 0x65u8]);
            }
            Some((JsonValue::Bool(true), i + 4))
        } else {
            proof {
                assert(!has_at(s@, i as int, seq![0x74u8, 0x72u8, 0x75u8, 0x65u8])) by {
                    if has_at(s@, i as int, seq![0x74u8, 0x72u8, 0x75u8, 0x65u8]) {
                        assert(s@.subrange(i as int, i as int + 4)[1] == s@[i as int + 1]);
                        assert(s@.subrange(i as int, i as int + 4)[2] == s@[i as int + 2]);
                        assert(s@.subrange(i as int, i as int + 4)[3] == s@[i as int + 3]);
                    }
                }
            }
            None
        }
    } else if b == 0x66 {
        if s.len() - i >= 5 && s[i + 1] == 0x61 && s[i + 2] == 0x6c && s[i + 3] == 0x73 && s[i + 4]
            == 0x65 {
            proof {
                assert(s@.subrange(i as int, i as int + 5) =~= seq![
                    0x66u8,
                    0x61u8,
                    0x6cu8,
                    0x73u8,
                    0x65u8,
                ]);
            }
            Some((JsonValue::Bool(false), i + 5))
        } else {
            proof {
                assert(!has_at(s@, i as int, seq![0x66u8, 0x61u8, 0x6cu8, 0x73u8, 0x65u8])) by {
                    if has_at(s@, i as int, seq![0x66u8, 0x61u8, 0x6cu8, 0x73u8, 0x65u8]) {
                        assert(s@.subrange(i as int, i as int + 5)[1] == s@[i as int + 1]);
                        assert(s@.subrange(i as int, i as int + 5)[2] == s@[i as int + 2]);
                        assert(s@.subrange(i as int, i as int + 5)[3] == s@[i as int + 3]);
                        assert(s@.subrange(i as int, i as int + 5)[4] == s@[i as int + 4]);
                    }
                }
            }
            None
        }
    } else if b == 0x22 {
        match parse_str_body_exec(s, i + 1) {
            Some(t) => Some((JsonValue::Str(t.0), t.1)),
            None => None,
        }
    } else if b == 0x2d || (0x30 <= b && b <= 0x39) {
        let ds = if b == 0x2d {
            i + 1
        } else {
            i
        };
        let e1 = scan_digits_exec(s, ds);
        if e1 == ds {
            return None;
        }
        if s[ds] == 0x30 && e1 > ds + 1 {
            return None;
        }
        let e2 = if e1 < s.len() && s[e1] == 0x2e {
            let f = scan_digits_exec(s, e1 + 1);
            if f == e1 + 1 {
                proof {
                    assert(frac_end(s@, e1 as int) is None);
                }
                return None;
            }
            f
        } else {
            e1
        };
        proof {
            assert(frac_end(s@, e1 as int) == Some(e2 as int));
        }
        let e3 = if e2 < s.len() && (s[e2] == 0x65 || s[e2] == 0x45) {
            let q = if e2 + 1 < s.len() && (s[e2 + 1] == 0x2b || s[e2 + 1] == 0x2d) {
                e2 + 2
            } else {
                e2 + 1
            };
            let g = scan_digits_exec(s, q);
            if g == q {
                proof {
                    assert(exp_end(s@, e2 as int) is None);
                }
                return None;
            }
            g
        } else {
            e2
        };
        proof {
            assert(exp_end(s@, e2 as int) == Some(e3 as int));
            assert(num_end(s@, i as int) == Some(e3 as int));
        }
        let lex = copy_range(s, i, e3);
        Some((JsonValue::Num(lex), e3))
    } else if b == 0x5b {
        let j = skip_ws_exec(s, i + 1);
        if j < s.len() && s[j] == 0x5d {
            let empty_items: Vec<JsonValue> = Vec::new();
            proof {
                assert(model_list(Seq::<JsonValue>::empty()) =~= Seq::<JsonModel>::empty());
                assert(jv_model(JsonValue::Arr(empty_items)) == JsonModel::Arr(
                    Seq::<JsonModel>::empty(),
                ));
            }
            Some((JsonValue::Arr(empty_items), j + 1))
        } else {
            match parse_items_exec(s, j) {
                Some(t) => Some((JsonValue::Arr(t.0), t.1)),
                None => None,
            }
        }
    } else if b == 0x7b {
        let j = skip_ws_exec(s, i + 1);
        if j < s.len() && s[j] == 0x7d {
            let empty_members: Vec<(Vec<u8>, JsonValue)> = Vec::new();
            proof {
                assert(model_members(Seq::<(Vec<u8>, JsonValue)>::empty())
                    =~= Seq::<(Seq<u8>, JsonModel)>::empty());
                assert(jv_model(JsonValue::Obj(empty_members)) == JsonModel::Obj(
                    Seq::<(Seq<u8>, JsonModel)>::empty(),
                ));
            }
            Some((JsonValue::Obj(empty_members), j + 1))
        } else {
            match parse_members_exec(s, j) {
                Some(t) => Some((JsonValue::Obj(t.0), t.1)),
                None => None,
            }
        }
    } else {
        None
    }
}

fn parse_items_exec(s: &[u8], i: usize) -> (r: Option<(Vec<JsonValue>, usize)>)
    requires
        i <= s@.len(),
    ensures
        rel_items(parse_items(s@, i as int), r),
        r matches Some(t) ==> i < t.1 <= s@.len(),
    decreases s@.len() - i, 1int,
{
    if i >= s.len() {
        return None;
    }
    match parse_value_exec(s, i) {
        None => None,
        Some((v, j)) => {
            let k = skip_ws_exec(s, j);
            if k < s.len() && s[k] == 0x2c {
                let m = skip_ws_exec(s, k + 1);
                match parse_items_exec(s, m) {
                    Some((rest, e)) => {
                        let mut items = rest;
                        let ghost before = items@;
                        let ghost mv = jv_model(v);
                        items.insert(0, v);
                        proof {
                            assert(items@.drop_first() =~= before);
                            assert(model_list(items@) =~= seq![mv] + model_list(before));
                        }
                        Some((items, e))
                    },
                    None => None,
                }
            } else if k < s.len() && s[k] == 0x5d {
                let ghost mv = jv_model(v);
                let mut one: Vec<JsonValue> = Vec::new();
                one.push(v);
                proof {
                    assert(one@.drop_first() =~= Seq::<JsonValue>::empty());
                    assert(model_list(Seq::<JsonValue>::empty()) =~= Seq::<JsonModel>::empty());
                    assert(model_list(one@) =~= seq![mv]);
                }
                Some((one, k + 1))
            } else {
                None
            }
        },
    }
}

fn parse_members_exec(s: &[u8], i: usize) -> (r: Option<(Vec<(Vec<u8>, JsonValue)>, usize)>)
    requires
        i <= s@.len(),
    ensures
        rel_members(parse_members(s@, i as int), r),
        r matches Some(t) ==> i < t.1 <= s@.len(),
    decreases s@.len() - i, 1int,
{
    if i >= s.len() {
        return None;
    }
    if s[i] != 0x22 {
        return None;
    }
    match parse_str_body_exec(s, i + 1) {
        None => None,
        Some((key, p)) => {
            let c = skip_ws_exec(s, p);
            if c < s.len() && s[c] == 0x3a {
                let m = skip_ws_exec(s, c + 1);
                match parse_value_exec(s, m) {
                    None => None,
                    Some((v, q)) => {
                        let k2 = skip_ws_exec(s, q);
                        if k2 < s.len() && s[k2] == 0x2c {
                            let m2 = skip_ws_exec(s, k2 + 1);
                            match parse_members_exec(s, m2) {
                                Some((rest, e)) => {
                                    let mut members = rest;
                                    let ghost before = members@;
                                    let ghost gk = key@;
                                    let ghost gv = jv_model(v);
                                    members.insert(0, (key, v));
                                    proof {
                                        assert(members@.drop_first() =~= before);
                                        assert(members@[0].0@ == gk);
                                        assert(model_members(members@) =~= seq![(gk, gv)]
                                            + model_members(before));
                                    }
                                    Some((members, e))
                                },
                                None => None,
                            }
                        } else if k2 < s.len() && s[k2] == 0x7d {
                            let ghost gk = key@;
                            let ghost gv = jv_model(v);
                            let mut one: Vec<(Vec<u8>, JsonValue)> = Vec::new();
                            one.push((key, v));
                            proof {
                                assert(one@.drop_first() =~= Seq::<(Vec<u8>, JsonValue)>::empty());
                                assert(model_members(Seq::<(Vec<u8>, JsonValue)>::empty())
                                    =~= Seq::<(Seq<u8>, JsonModel)>::empty());
                                assert(model_members(one@) =~= seq![(gk, gv)]);
                            }
                            Some((one, k2 + 1))
                        } else {
                            None
                        }
                    },
                }
            } else {
                None
            }
        },
    }
}

/// Parse a whole JSON document: whitespace, one value, whitespace, end of
/// input. Returns the parsed value exactly when the specification parser
/// accepts the bytes.
pub fn parse_json(s: &[u8]) -> (r: Option<JsonValue>)
    ensures
        match parse_doc(s@) {
            Some(m) => r matches Some(v) && jv_model(v) == m,
            None => r is None,
        },
{
    let i = skip_ws_exec(s, 0);
    match parse_value_exec(s, i) {
        Some((v, j)) => {
            let k = skip_ws_exec(s, j);
            if k == s.len() {
                Some(v)
            } else {
                None
            }
        },
        None => None,
    }
}

} // verus!
