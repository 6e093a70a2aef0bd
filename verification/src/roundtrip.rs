//! The serialize/parse round-trip law: parsing the canonical serialization of
//! a well-formed JSON value yields that value back.
use vstd::prelude::*;
use crate::json::JsonModel;
use crate::json::wf;
use crate::json::wf_pair;
use crate::json::is_num_lexeme;
use crate::json::is_digit;
use crate::json::scan_digits;
use crate::json::frac_end;
use crate::json::exp_end;
use crate::json::num_end;
use crate::json::hex_digit;
use crate::json::lemma_scan_digits_props;
use crate::json::lemma_scan_digits_run;
use crate::json::esc;
use crate::json::esc_byte;
use crate::json::ser;
use crate::json::ser_str;
use crate::json::ser_list;
use crate::json::ser_members;
use crate::parse::is_ws;
use crate::parse::skip_ws;
use crate::parse::unesc;
use crate::parse::parse_str_body;
use crate::parse::hex_val;
use crate::parse::hex4;
use crate::parse::utf8_enc;
use crate::parse::u_escape;
use crate::parse::parse_num;
use crate::parse::has_at;
use crate::parse::parse_value;
use crate::parse::parse_items;
use crate::parse::parse_members;
use crate::parse::parse_doc;

verus! {

broadcast use vstd::seq::axiom_seq_index_decreases, vstd::seq::axiom_seq_subrange_decreases;

proof fn lemma_has_at_cat(s: Seq<u8>, i: int, a: Seq<u8>, b: Seq<u8>)
    requires
        has_at(s, i, a + b),
    ensures
        has_at(s, i, a),
        has_at(s, i + a.len(), b),
{
    assert forall|k: int| 0 <= k < a.len() implies s.subrange(i, i + a.len())[k] == a[k] by {
        assert((a + b)[k] == a[k]);
        assert(s.subrange(i, i + (a + b).len() as int)[k] == s[i + k]);
        assert(s.subrange(i, i + a.len() as int)[k] == s[i + k]);
    }
    assert(s.subrange(i, i + a.len() as int) =~= a);
    assert forall|k: int| 0 <= k < b.len() implies s.subrange(
        i + a.len(),
        i + a.len() + b.len(),
    )[k] == b[k] by {
        assert((a + b)[a.len() + k] == b[k]);
        assert(s.subrange(i, i + (a + b).len() as int)[a.len() + k] == s[i + a.len() + k]);
        assert(s.subrange(i + a.len(), i + a.len() + b.len() as int)[k] == s[i + a.len() + k]);
    }
    assert(s.subrange(i + a.len(), i + a.len() + b.len() as int) =~= b);
}

proof fn lemma_has_at_byte(s: Seq<u8>, i: int, w: Seq<u8>, k: int)
    requires
        has_at(s, i, w),
        0 <= k < w.len(),
    ensures
        s[i + k] == w[k],
{
    assert(s.subrange(i, i + w.len() as int)[k] == s[i + k]);
}

/// A byte that cannot extend a number lexeme.
spec fn ends_num(b: u8) -> bool {
    !(is_digit(b) || b == 0x2e || b == 0x65 || b == 0x45)
}

/// A digit run inside the lexeme occurrence scans in `s` exactly as it scans
/// in `l`, the terminator after the occurrence being no digit.
proof fn lemma_scan_transport(l: Seq<u8>, s: Seq<u8>, i: int, p: int)
    requires
        has_at(s, i, l),
        0 <= p <= l.len(),
        i + l.len() == s.len() || !is_digit(s[i + l.len()]),
    ensures
        scan_digits(s, i + p) == i + scan_digits(l, p),
{
    lemma_scan_digits_props(l, p);
    let q = scan_digits(l, p);
    assert forall|k: int| i + p <= k < i + q implies is_digit(#[trigger] s[k]) by {
        lemma_has_at_byte(s, i, l, k - i);
        assert(is_digit(l[k - i]));
    }
    if q < l.len() {
        lemma_has_at_byte(s, i, l, q);
        assert(s[i + q] == l[q]);
    }
    lemma_scan_digits_run(s, i + p, i + q);
}

proof fn lemma_parse_num_lex(l: Seq<u8>, s: Seq<u8>, i: int)
    requires
        is_num_lexeme(l),
        has_at(s, i, l),
        i + l.len() == s.len() || ends_num(s[i + l.len()]),
    ensures
        parse_num(s, i) == Some::<(JsonModel, int)>((JsonModel::Num(l), i + l.len())),
        l[0] == 0x2d || is_digit(l[0]),
        parse_value(s, i) == Some::<(JsonModel, int)>((JsonModel::Num(l), i + l.len())),
{
    let ll = l.len() as int;
    lemma_has_at_byte(s, i, l, 0);
    assert(s[i] == l[0]);
    assert(num_end(l, 0) == Some(ll));
    let ds = if l[0] == 0x2d {
        1int
    } else {
        0int
    };
    let e1 = scan_digits(l, ds);
    assert(e1 != ds);
    lemma_scan_digits_props(l, ds);
    assert(ds < e1 <= ll);
    assert(is_digit(l[ds]));
    if l[0] != 0x2d {
        assert(is_digit(l[0]));
    }
    // the integer digit run transports into s
    lemma_scan_transport(l, s, i, ds);
    assert(scan_digits(s, i + ds) == i + e1);
    lemma_has_at_byte(s, i, l, ds);
    assert(s[i + ds] == l[ds]);
    // the fraction part
    let e2 = frac_end(l, e1)->Some_0;
    assert(frac_end(l, e1) == Some(e2));
    if e1 < ll && l[e1] == 0x2e {
        lemma_has_at_byte(s, i, l, e1);
        assert(s[i + e1] == 0x2e);
        let f = scan_digits(l, e1 + 1);
        assert(f != e1 + 1);
        lemma_scan_transport(l, s, i, e1 + 1);
        assert(scan_digits(s, i + e1 + 1) == i + f);
        assert(e2 == f);
        assert(frac_end(s, i + e1) == Some(i + e2));
    } else {
        assert(e2 == e1);
        if e1 < ll {
            lemma_has_at_byte(s, i, l, e1);
            assert(s[i + e1] != 0x2e);
        }
        assert(frac_end(s, i + e1) == Some(i + e1));
    }
    // the exponent part ends exactly at the end of the lexeme
    assert(exp_end(l, e2) == Some(ll));
    if e2 < ll && (l[e2] == 0x65 || l[e2] == 0x45) {
        lemma_has_at_byte(s, i, l, e2);
        assert(s[i + e2] == l[e2]);
        let q = if e2 + 1 < ll && (l[e2 + 1] == 0x2b || l[e2 + 1] == 0x2d) {
            e2 + 2
        } else {
            e2 + 1
        };
        assert(e2 + 1 < ll) by {
            if e2 + 1 == ll {
                assert(scan_digits(l, e2 + 1) == ll) by {
                    lemma_scan_digits_props(l, e2 + 1);
                }
                assert(exp_end(l, e2) is None);
            }
        }
        lemma_has_at_byte(s, i, l, e2 + 1);
        assert(s[i + e2 + 1] == l[e2 + 1]);
        let g = scan_digits(l, q);
        assert(g != q);
        assert(g == ll);
        lemma_scan_transport(l, s, i, q);
        assert(scan_digits(s, i + q) == i + g);
        assert(exp_end(s, i + e2) == Some(i + ll));
    } else {
        assert(e2 == ll);
        if i + ll < s.len() {
            assert(s[i + ll] != 0x65 && s[i + ll] != 0x45);
        }
        assert(exp_end(s, i + ll) == Some(i + ll));
    }
    assert(num_end(s, i) == Some(i + ll));
    assert(s.subrange(i, i + ll) =~= l);
    // the dispatch in parse_value reaches the number branch
    assert(s[i] != 0x6e && s[i] != 0x74 && s[i] != 0x66 && s[i] != 0x22);
}

proof fn lemma_parse_esc(t: Seq<u8>, s: Seq<u8>, i: int)
    requires
        has_at(s, i, esc(t) + seq![0x22u8]),
    ensures
        parse_str_body(s, i) == Some::<(Seq<u8>, int)>((t, i + esc(t).len() + 1)),
    decreases t.len(),
{
    if t.len() == 0 {
        assert(esc(t) =~= Seq::<u8>::empty());
        assert(esc(t) + seq![0x22u8] =~= seq![0x22u8]);
        lemma_has_at_byte(s, i, esc(t) + seq![0x22u8], 0);
        assert(s[i] == 0x22);
        assert(parse_str_body(s, i) == Some::<(Seq<u8>, int)>((Seq::<u8>::empty(), i + 1)));
        assert(t =~= Seq::<u8>::empty());
    } else {
        let b = t[0];
        let rest = t.drop_first();
        assert(esc(t) == esc_byte(b) + esc(rest));
        assert(esc(t) + seq![0x22u8] =~= esc_byte(b) + (esc(rest) + seq![0x22u8]));
        lemma_has_at_cat(s, i, esc_byte(b), esc(rest) + seq![0x22u8]);
        let n = esc_byte(b).len() as int;
        lemma_parse_esc(rest, s, i + n);
        if b == 0x22 || b == 0x5c || b == 0x08 || b == 0x09 || b == 0x0a || b == 0x0c || b
            == 0x0d {
            assert(esc_byte(b).len() == 2);
            lemma_has_at_byte(s, i, esc_byte(b), 0);
            lemma_has_at_byte(s, i, esc_byte(b), 1);
            assert(s[i] == 0x5c);
            assert(s[i + 1] != 0x75);
            assert(unesc(s[i + 1]) == Some(b));
            assert(i + 1 < s.len());
            assert(parse_str_body(s, i) == Some::<(Seq<u8>, int)>((seq![b] + rest, i + esc(
                t,
            ).len() + 1)));
            assert(seq![b] + rest =~= t);
        } else if b < 0x20 {
            // the serializer emitted a six-byte \u00XX escape
            assert(esc_byte(b) == seq![
                0x5cu8,
                0x75u8,
                0x30u8,
                0x30u8,
                hex_digit(b / 16),
                hex_digit(b % 16),
            ]);
            assert(esc_byte(b).len() == 6);
            lemma_has_at_byte(s, i, esc_byte(b), 0);
            lemma_has_at_byte(s, i, esc_byte(b), 1);
            lemma_has_at_byte(s, i, esc_byte(b), 2);
            lemma_has_at_byte(s, i, esc_byte(b), 3);
            lemma_has_at_byte(s, i, esc_byte(b), 4);
            lemma_has_at_byte(s, i, esc_byte(b), 5);
            assert(s[i] == 0x5c && s[i + 1] == 0x75);
            assert(s[i + 2] == 0x30 && s[i + 3] == 0x30);
            assert(s[i + 4] == hex_digit(b / 16) && s[i + 5] == hex_digit(b % 16));
            assert(hex_val(0x30u8) == Some(0int));
            assert(hex_val(hex_digit(b / 16)) == Some((b / 16) as int));
            assert(hex_val(hex_digit(b % 16)) == Some((b % 16) as int));
            assert(i + 6 <= s.len());
            assert(hex4(s, i + 2) == Some(((b / 16) * 16 + b % 16) as int));
            assert((b / 16) * 16 + b % 16 == b);
            assert(u_escape(s, i) == Some::<(Seq<u8>, int)>((utf8_enc(b as int), i + 6)));
            assert(utf8_enc(b as int) =~= seq![b]);
            assert(i + 1 < s.len());
            assert(parse_str_body(s, i) == Some::<(Seq<u8>, int)>((seq![b] + rest, i + esc(
                t,
            ).len() + 1)));
            assert(seq![b] + rest =~= t);
        } else {
            assert(esc_byte(b) =~= seq![b]);
            lemma_has_at_byte(s, i, esc_byte(b), 0);
            assert(s[i] == b);
            assert(b >= 0x20);
            assert(b != 0x22 && b != 0x5c);
            assert(parse_str_body(s, i) == Some::<(Seq<u8>, int)>((seq![b] + rest, i + esc(
                t,
            ).len() + 1)));
            assert(seq![b] + rest =~= t);
        }
    }
}

/// The first byte of a serialized value: never whitespace, never a closing
/// bracket or brace, never a comma, never a digit continuation hazard.
proof fn lemma_ser_head(v: JsonModel)
    requires
        wf(v),
    ensures
        ser(v).len() > 0,
        !is_ws(ser(v)[0]),
        ser(v)[0] != 0x5d,
        ser(v)[0] != 0x7d,
        ser(v)[0] != 0x2c,
        ser(v)[0] != 0x3a,
{
    match v {
        JsonModel::Null => {},
        JsonModel::Bool(b) => {},
        JsonModel::Num(l) => {
            assert(is_num_lexeme(l));
            let ds = if l[0] == 0x2d {
                1int
            } else {
                0int
            };
            assert(scan_digits(l, ds) != ds);
            lemma_scan_digits_props(l, ds);
            assert(is_digit(l[ds]));
            if l[0] != 0x2d {
                assert(is_digit(l[0]));
            }
        },
        JsonModel::Str(t) => {
            assert(ser(v)[0] == 0x22);
        },
        JsonModel::Arr(items) => {
            assert(ser(v)[0] == 0x5b);
        },
        JsonModel::Obj(ms) => {
            assert(ser(v)[0] == 0x7b);
        },
    }
}

#[verifier::rlimit(60)]
proof fn lemma_parse_ser_val(v: JsonModel, s: Seq<u8>, i: int)
    requires
        wf(v),
        has_at(s, i, ser(v)),
        i + ser(v).len() == s.len() || ends_num(s[i + ser(v).len()]),
    ensures
        parse_value(s, i) == Some::<(JsonModel, int)>((v, i + ser(v).len())),
    decreases v, 0int,
{
    lemma_ser_head(v);
    assert(0 <= i < s.len());
    lemma_has_at_byte(s, i, ser(v), 0);
    match v {
        JsonModel::Null => {
            assert(ser(v) =~= seq![0x6eu8, 0x75u8, 0x6cu8, 0x6cu8]);
            assert(s[i] == 0x6e);
        },
        JsonModel::Bool(b) => {
            if b {
                assert(ser(v) =~= seq![0x74u8, 0x72u8, 0x75u8, 0x65u8]);
                assert(s[i] == 0x74);
            } else {
                assert(ser(v) =~= seq![0x66u8, 0x61u8, 0x6cu8, 0x73u8, 0x65u8]);
                assert(s[i] == 0x66);
            }
        },
        JsonModel::Num(l) => {
            lemma_parse_num_lex(l, s, i);
        },
        JsonModel::Str(t) => {
            assert(ser(v) =~= seq![0x22u8] + (esc(t) + seq![0x22u8]));
            lemma_has_at_cat(s, i, seq![0x22u8], esc(t) + seq![0x22u8]);
            lemma_has_at_byte(s, i, seq![0x22u8], 0);
            assert(s[i] == 0x22);
            lemma_parse_esc(t, s, i + 1);
            assert(parse_value(s, i) == Some::<(JsonModel, int)>((JsonModel::Str(t), i + ser(
                v,
            ).len())));
        },
        JsonModel::Arr(items) => {
            assert(ser(v) =~= seq![0x5bu8] + (ser_list(items) + seq![0x5du8]));
            lemma_has_at_cat(s, i, seq![0x5bu8], ser_list(items) + seq![0x5du8]);
            lemma_has_at_cat(s, i + 1, ser_list(items), seq![0x5du8]);
            let ll = ser_list(items).len() as int;
            lemma_has_at_byte(s, i + 1 + ll, seq![0x5du8], 0);
            assert(s[i + 1 + ll] == 0x5d);
            assert(s[i] == 0x5b);
            if items.len() == 0 {
                assert(ser_list(items) =~= Seq::<u8>::empty());
                assert(s[i + 1] == 0x5d);
                assert(skip_ws(s, i + 1) == i + 1);
                assert(parse_value(s, i) == Some::<(JsonModel, int)>((
                    JsonModel::Arr(seq![]),
                    i + 2,
                )));
                assert(items =~= Seq::<JsonModel>::empty());
            } else {
                assert(wf(items[0]));
                lemma_ser_head(items[0]);
                assert(ser_list(items)[0] == ser(items[0])[0]) by {
                    if items.len() > 1 {
                        assert(ser_list(items) == ser(items[0]) + seq![0x2cu8] + ser_list(
                            items.drop_first(),
                        ));
                    }
                }
                lemma_has_at_byte(s, i + 1, ser_list(items), 0);
                assert(!is_ws(s[i + 1]));
                assert(skip_ws(s, i + 1) == i + 1);
                assert(s[i + 1] != 0x5d);
                lemma_parse_ser_items(items, s, i + 1);
                assert(parse_value(s, i) == Some::<(JsonModel, int)>((v, i + ser(v).len())));
            }
        },
        JsonModel::Obj(ms) => {
            assert(ser(v) =~= seq![0x7bu8] + (ser_members(ms) + seq![0x7du8]));
            lemma_has_at_cat(s, i, seq![0x7bu8], ser_members(ms) + seq![0x7du8]);
            lemma_has_at_cat(s, i + 1, ser_members(ms), seq![0x7du8]);
            let ll = ser_members(ms).len() as int;
            lemma_has_at_byte(s, i + 1 + ll, seq![0x7du8], 0);
            assert(s[i + 1 + ll] == 0x7d);
            assert(s[i] == 0x7b);
            if ms.len() == 0 {
                assert(ser_members(ms) =~= Seq::<u8>::empty());
                assert(s[i + 1] == 0x7d);
                assert(skip_ws(s, i + 1) == i + 1);
                assert(parse_value(s, i) == Some::<(JsonModel, int)>((
                    JsonModel::Obj(seq![]),
                    i + 2,
                )));
                assert(ms =~= Seq::<(Seq<u8>, JsonModel)>::empty());
            } else {
                assert(ser_members(ms)[0] == 0x22) by {
                    assert(ser_str(ms[0].0)[0] == 0x22);
                    if ms.len() > 1 {
                        assert(ser_members(ms) == ser_str(ms[0].0) + seq![0x3au8] + ser(ms[0].1)
                            + seq![0x2cu8] + ser_members(ms.drop_first()));
                    }
                }
                lemma_has_at_byte(s, i + 1, ser_members(ms), 0);
                assert(s[i + 1] == 0x22);
                assert(!is_ws(s[i + 1]));
                assert(skip_ws(s, i + 1) == i + 1);
                assert(s[i + 1] != 0x7d);
                lemma_parse_ser_members(ms, s, i + 1);
                assert(parse_value(s, i) == Some::<(JsonModel, int)>((v, i + ser(v).len())));
            }
        },
    }
}

proof fn lemma_parse_ser_items(items: Seq<JsonModel>, s: Seq<u8>, i: int)
    requires
        items.len() > 0,
        forall|k: int| 0 <= k < items.len() ==> wf(#[trigger] items[k]),
        has_at(s, i, ser_list(items)),
        i + ser_list(items).len() < s.len(),
        s[i + ser_list(items).len()] == 0x5d,
    ensures
        parse_items(s, i) == Some::<(Seq<JsonModel>, int)>((
            items,
            i + ser_list(items).len() + 1,
        )),
    decreases items, 1int,
{
    let v0 = items[0];
    assert(wf(v0));
    lemma_ser_head(v0);
    let l0 = ser(v0).len() as int;
    if items.len() == 1 {
        assert(ser_list(items) == ser(v0));
        lemma_parse_ser_val(v0, s, i);
        assert(skip_ws(s, i + l0) == i + l0);
        assert(parse_items(s, i) == Some::<(Seq<JsonModel>, int)>((seq![v0], i + l0 + 1)));
        assert(seq![v0] =~= items);
    } else {
        let rest = items.drop_first();
        assert(ser_list(items) == ser(v0) + seq![0x2cu8] + ser_list(rest));
        assert(ser_list(items) =~= ser(v0) + (seq![0x2cu8] + ser_list(rest)));
        lemma_has_at_cat(s, i, ser(v0), seq![0x2cu8] + ser_list(rest));
        lemma_has_at_cat(s, i + l0, seq![0x2cu8], ser_list(rest));
        lemma_has_at_byte(s, i + l0, seq![0x2cu8], 0);
        assert(s[i + l0] == 0x2c);
        lemma_parse_ser_val(v0, s, i);
        assert(skip_ws(s, i + l0) == i + l0);
        assert(rest.len() > 0);
        assert(forall|k: int| 0 <= k < rest.len() ==> wf(#[trigger] rest[k])) by {
            assert(forall|k: int| 0 <= k < rest.len() ==> #[trigger] rest[k] == items[k + 1]);
        }
        assert(wf(rest[0]));
        lemma_ser_head(rest[0]);
        assert(ser_list(rest)[0] == ser(rest[0])[0]) by {
            if rest.len() > 1 {
                assert(ser_list(rest) == ser(rest[0]) + seq![0x2cu8] + ser_list(
                    rest.drop_first(),
                ));
            }
        }
        lemma_has_at_byte(s, i + l0 + 1, ser_list(rest), 0);
        assert(!is_ws(s[i + l0 + 1]));
        assert(skip_ws(s, i + l0 + 1) == i + l0 + 1);
        lemma_parse_ser_items(rest, s, i + l0 + 1);
        assert(seq![v0] + rest =~= items);
        assert(parse_items(s, i) == Some::<(Seq<JsonModel>, int)>((
            items,
            i + ser_list(items).len() + 1,
        )));
    }
}

proof fn lemma_parse_ser_members(ms: Seq<(Seq<u8>, JsonModel)>, s: Seq<u8>, i: int)
    requires
        ms.len() > 0,
        forall|k: int| 0 <= k < ms.len() ==> wf_pair(#[trigger] ms[k]),
        has_at(s, i, ser_members(ms)),
        i + ser_members(ms).len() < s.len(),
        s[i + ser_members(ms).len()] == 0x7d,
    ensures
        parse_members(s, i) == Some::<(Seq<(Seq<u8>, JsonModel)>, int)>((
            ms,
            i + ser_members(ms).len() + 1,
        )),
    decreases ms, 1int,
{
    let k0 = ms[0].0;
    let v0 = ms[0].1;
    assert(wf_pair(ms[0]));
    assert(wf(v0));
    lemma_ser_head(v0);
    let sk = ser_str(k0).len() as int;
    let l0 = ser(v0).len() as int;
    let head = ser_str(k0) + seq![0x3au8] + ser(v0);
    if ms.len() == 1 {
        assert(ser_members(ms) == head);
    } else {
        assert(ser_members(ms) == head + seq![0x2cu8] + ser_members(ms.drop_first()));
    }
    // split off the key string, the colon, and the value
    assert(head =~= ser_str(k0) + (seq![0x3au8] + ser(v0)));
    if ms.len() == 1 {
        lemma_has_at_cat(s, i, ser_str(k0), seq![0x3au8] + ser(v0));
    } else {
        assert(ser_members(ms) =~= ser_str(k0) + ((seq![0x3au8] + ser(v0)) + (seq![0x2cu8]
            + ser_members(ms.drop_first()))));
        lemma_has_at_cat(s, i, ser_str(k0), (seq![0x3au8] + ser(v0)) + (seq![0x2cu8]
            + ser_members(ms.drop_first())));
        lemma_has_at_cat(s, i + sk, seq![0x3au8] + ser(v0), seq![0x2cu8] + ser_members(
            ms.drop_first(),
        ));
    }
    lemma_has_at_cat(s, i + sk, seq![0x3au8], ser(v0));
    lemma_has_at_byte(s, i + sk, seq![0x3au8], 0);
    assert(s[i + sk] == 0x3a);
    // the key string parses back
    assert(ser_str(k0) =~= seq![0x22u8] + (esc(k0) + seq![0x22u8]));
    lemma_has_at_cat(s, i, seq![0x22u8], esc(k0) + seq![0x22u8]);
    lemma_has_at_byte(s, i, seq![0x22u8], 0);
    assert(s[i] == 0x22);
    lemma_parse_esc(k0, s, i + 1);
    assert(parse_str_body(s, i + 1) == Some::<(Seq<u8>, int)>((k0, i + sk)));
    assert(skip_ws(s, i + sk) == i + sk);
    // the value parses back
    assert(ser(v0)[0] == s[i + sk + 1]) by {
        lemma_has_at_byte(s, i + sk + 1, ser(v0), 0);
    }
    assert(!is_ws(s[i + sk + 1]));
    assert(skip_ws(s, i + sk + 1) == i + sk + 1);
    if ms.len() == 1 {
        assert(s[i + sk + 1 + l0] == 0x7d);
        lemma_parse_ser_val(v0, s, i + sk + 1);
        assert(skip_ws(s, i + sk + 1 + l0) == i + sk + 1 + l0);
        assert(parse_members(s, i) == Some::<(Seq<(Seq<u8>, JsonModel)>, int)>((
            seq![(k0, v0)],
            i + sk + 1 + l0 + 1,
        )));
        assert(seq![(k0, v0)] =~= ms);
        assert((k0, v0) == ms[0]);
    } else {
        let rest = ms.drop_first();
        lemma_has_at_cat(s, i + sk + 1 + l0, seq![0x2cu8], ser_members(rest));
        lemma_has_at_byte(s, i + sk + 1 + l0, seq![0x2cu8], 0);
        assert(s[i + sk + 1 + l0] == 0x2c);
        lemma_parse_ser_val(v0, s, i + sk + 1);
        assert(skip_ws(s, i + sk + 1 + l0) == i + sk + 1 + l0);
        assert(rest.len() > 0);
        assert forall|k: int| 0 <= k < rest.len() implies wf_pair(#[trigger] rest[k]) by {
            assert(rest[k] == ms[k + 1]);
            assert(wf_pair(ms[k + 1]));
        }
        assert(ser_members(rest)[0] == 0x22) by {
            assert(ser_str(rest[0].0)[0] == 0x22);
            if rest.len() > 1 {
                assert(ser_members(rest) == ser_str(rest[0].0) + seq![0x3au8] + ser(rest[0].1)
                    + seq![0x2cu8] + ser_members(rest.drop_first()));
            }
        }
        lemma_has_at_byte(s, i + sk + 1 + l0 + 1, ser_members(rest), 0);
        assert(s[i + sk + 1 + l0 + 1] == 0x22);
        assert(!is_ws(s[i + sk + 1 + l0 + 1]));
        assert(skip_ws(s, i + sk + 1 + l0 + 1) == i + sk + 1 + l0 + 1);
        lemma_parse_ser_members(rest, s, i + sk + 1 + l0 + 1);
        assert(seq![(k0, v0)] + rest =~= ms);
        assert((k0, v0) == ms[0]);
        assert(parse_members(s, i) == Some::<(Seq<(Seq<u8>, JsonModel)>, int)>((
            ms,
            i + ser_members(ms).len() + 1,
        )));
    }
}

/// Round trip: parsing the canonical serialization of any well-formed JSON
/// value yields exactly that value. Every field keeps its value and its kind.
pub proof fn lemma_round_trip(v: JsonModel)
    requires
        wf(v),
    ensures
        parse_doc(ser(v)) == Some(v),
{
    let s = ser(v);
    lemma_ser_head(v);
    assert(skip_ws(s, 0) == 0);
    assert(s.subrange(0, s.len() as int) =~= s);
    assert(has_at(s, 0, ser(v)));
    lemma_parse_ser_val(v, s, 0);
    assert(skip_ws(s, s.len() as int) == s.len());
}

} // verus!
