//! The JSON wire grammar: values, their mathematical model, well-formedness,
//! and serialization.
use vstd::prelude::*;

verus! {

broadcast use vstd::seq::axiom_seq_index_decreases, vstd::seq::axiom_seq_subrange_decreases, vstd::std_specs::vec::axiom_vec_decreases_to_view;

/// A JSON value as carried on the wire. Numbers keep their decimal lexeme so
/// that values round-trip without numeric re-interpretation; strings are byte
/// strings, transparent to encoding.
#[derive(Debug)]
pub enum JsonValue {
    Null,
    Bool(bool),
    Num(Vec<u8>),
    Str(Vec<u8>),
    Arr(Vec<JsonValue>),
    Obj(Vec<(Vec<u8>, JsonValue)>),
}

/// The mathematical model of a JSON value.
pub enum JsonModel {
    Null,
    Bool(bool),
    Num(Seq<u8>),
    Str(Seq<u8>),
    Arr(Seq<JsonModel>),
    Obj(Seq<(Seq<u8>, JsonModel)>),
}

pub open spec fn jv_model(v: JsonValue) -> JsonModel
    decreases v,
{
    match v {
        JsonValue::Null => JsonModel::Null,
        JsonValue::Bool(b) => JsonModel::Bool(b),
        JsonValue::Num(l) => JsonModel::Num(l@),
        JsonValue::Str(s) => JsonModel::Str(s@),
        JsonValue::Arr(items) => JsonModel::Arr(model_list(items@)),
        JsonValue::Obj(members) => JsonModel::Obj(model_members(members@)),
    }
}

pub open spec fn model_list(s: Seq<JsonValue>) -> Seq<JsonModel>
    decreases s,
{
    if s.len() <= 0 {
        seq![]
    } else {
        seq![jv_model(s[0])] + model_list(s.drop_first())
    }
}

pub open spec fn model_members(s: Seq<(Vec<u8>, JsonValue)>) -> Seq<(Seq<u8>, JsonModel)>
    decreases s,
{
    if s.len() <= 0 {
        seq![]
    } else {
        seq![(s[0].0@, jv_model(s[0].1))] + model_members(s.drop_first())
    }
}

impl View for JsonValue {
    type V = JsonModel;

    open spec fn view(&self) -> JsonModel {
        jv_model(*self)
    }
}

pub open spec fn is_digit(b: u8) -> bool {
    0x30 <= b <= 0x39
}

/// A non-empty digit run with no leading zero (unless it is exactly "0").
pub open spec fn num_digits_ok(d: Seq<u8>) -> bool {
    &&& d.len() > 0
    &&& forall|i: int| 0 <= i < d.len() ==> is_digit(#[trigger] d[i])
    &&& (d[0] == 0x30 ==> d.len() == 1)
}

/// Position just past the run of decimal digits starting at `i`.
pub open spec fn scan_digits(s: Seq<u8>, i: int) -> int
    decreases s.len() - i,
{
    if 0 <= i < s.len() && is_digit(s[i]) {
        scan_digits(s, i + 1)
    } else {
        i
    }
}

/// The digit run starting at `from`: everything before the stop is a digit,
/// and the stop position holds a non-digit or the end.
pub proof fn lemma_scan_digits_props(s: Seq<u8>, from: int)
    requires
        0 <= from <= s.len(),
    ensures
        from <= scan_digits(s, from) <= s.len(),
        forall|k: int| from <= k < scan_digits(s, from) ==> is_digit(#[trigger] s[k]),
        scan_digits(s, from) < s.len() ==> !is_digit(s[scan_digits(s, from)]),
    decreases s.len() - from,
{
    if from < s.len() && is_digit(s[from]) {
        lemma_scan_digits_props(s, from + 1);
    }
}

/// A run of digits bounded by a non-digit (or the end) scans exactly to its
/// bound.
pub proof fn lemma_scan_digits_run(s: Seq<u8>, from: int, to: int)
    requires
        0 <= from <= to <= s.len(),
        forall|k: int| from <= k < to ==> is_digit(#[trigger] s[k]),
        to == s.len() || !is_digit(s[to]),
    ensures
        scan_digits(s, from) == to,
    decreases to - from,
{
    if from < to {
        lemma_scan_digits_run(s, from + 1, to);
    }
}

/// End of the optional fraction part starting at `p`: a dot must be followed
/// by at least one digit.
pub open spec fn frac_end(s: Seq<u8>, p: int) -> Option<int> {
    if 0 <= p < s.len() && s[p] == 0x2e {
        let f = scan_digits(s, p + 1);
        if f == p + 1 {
            None
        } else {
            Some(f)
        }
    } else {
        Some(p)
    }
}

/// End of the optional exponent part starting at `p`: `e` or `E`, an optional
/// sign, and at least one digit.
pub open spec fn exp_end(s: Seq<u8>, p: int) -> Option<int> {
    if 0 <= p < s.len() && (s[p] == 0x65 || s[p] == 0x45) {
        let q = if p + 1 < s.len() && (s[p + 1] == 0x2b || s[p + 1] == 0x2d) {
            p + 2
        } else {
            p + 1
        };
        let g = scan_digits(s, q);
        if g == q {
            None
        } else {
            Some(g)
        }
    } else {
        Some(p)
    }
}

/// Position just past a number starting at `i`: an optional minus, an integer
/// part with no leading zero, an optional fraction, an optional exponent.
pub open spec fn num_end(s: Seq<u8>, i: int) -> Option<int> {
    if i < 0 || i >= s.len() {
        None
    } else {
        let ds = if s[i] == 0x2d {
            i + 1
        } else {
            i
        };
        let e1 = scan_digits(s, ds);
        if e1 == ds {
            None
        } else if s[ds] == 0x30 && e1 > ds + 1 {
            None
        } else {
            match frac_end(s, e1) {
                None => None,
                Some(e2) => exp_end(s, e2),
            }
        }
    }
}

/// A number lexeme: exactly one complete number and nothing more.
pub open spec fn is_num_lexeme(s: Seq<u8>) -> bool {
    s.len() > 0 && num_end(s, 0) == Some(s.len() as int)
}

/// A digit run with no leading zero is a number lexeme.
pub proof fn lemma_digit_run_is_num_lexeme(l: Seq<u8>)
    requires
        num_digits_ok(l),
    ensures
        is_num_lexeme(l),
        !(l[0] == 0x2d),
{
    assert(is_digit(l[0]));
    lemma_scan_digits_run(l, 0, l.len() as int);
    assert(frac_end(l, l.len() as int) == Some(l.len() as int));
    assert(exp_end(l, l.len() as int) == Some(l.len() as int));
}

/// Well-formed JSON model: number lexemes follow the grammar. Strings and
/// keys are unconstrained: every byte string serializes (raw, by a short
/// escape, or as a `\u00XX` escape).
pub open spec fn wf(m: JsonModel) -> bool
    decreases m,
{
    match m {
        JsonModel::Null => true,
        JsonModel::Bool(_) => true,
        JsonModel::Num(l) => is_num_lexeme(l),
        JsonModel::Str(_) => true,
        JsonModel::Arr(items) => forall|i: int| 0 <= i < items.len() ==> wf(#[trigger] items[i]),
        JsonModel::Obj(ms) => forall|i: int| 0 <= i < ms.len() ==> wf_pair(#[trigger] ms[i]),
    }
}

/// Well-formed object member: a well-formed value (keys are unconstrained).
pub open spec fn wf_pair(p: (Seq<u8>, JsonModel)) -> bool
    decreases p,
{
    wf(p.1)
}

/// A member of a well-formed JSON object has a well-formed value.
pub proof fn lemma_wf_obj_member(m: JsonModel, i: int)
    requires
        wf(m),
        m is Obj,
        0 <= i < m->Obj_0.len(),
    ensures
        wf(m->Obj_0[i].1),
{
    match m {
        JsonModel::Obj(ms) => {
            assert(wf_pair(ms[i]));
        },
        _ => {},
    }
}

/// The lowercase hex digit for a value below 16.
pub open spec fn hex_digit(x: u8) -> u8 {
    if x < 10 {
        (0x30 + x) as u8
    } else {
        (0x57 + x) as u8
    }
}

/// The escape sequence (or the byte itself) that the serializer emits for one
/// string byte: the short escapes, `\u00XX` for the other control bytes,
/// and the byte itself otherwise.
pub open spec fn esc_byte(b: u8) -> Seq<u8> {
    if b == 0x22 {
        seq![0x5cu8, 0x22u8]
    } else if b == 0x5c {
        seq![0x5cu8, 0x5cu8]
    } else if b == 0x08 {
        seq![0x5cu8, 0x62u8]
    } else if b == 0x09 {
        seq![0x5cu8, 0x74u8]
    } else if b == 0x0a {
        seq![0x5cu8, 0x6eu8]
    } else if b == 0x0c {
        seq![0x5cu8, 0x66u8]
    } else if b == 0x0d {
        seq![0x5cu8, 0x72u8]
    } else if b < 0x20 {
        seq![0x5cu8, 0x75u8, 0x30u8, 0x30u8, hex_digit(b / 16), hex_digit(b % 16)]
    } else {
        seq![b]
    }
}

pub open spec fn esc(s: Seq<u8>) -> Seq<u8>
    decreases s.len(),
{
    if s.len() == 0 {
        seq![]
    } else {
        esc_byte(s[0]) + esc(s.drop_first())
    }
}

/// Serialization of a string: a quote, the escaped bytes, a quote.
pub open spec fn ser_str(s: Seq<u8>) -> Seq<u8> {
    seq![0x22u8] + esc(s) + seq![0x22u8]
}

/// Canonical serialization of a JSON model value: no interior whitespace,
/// members and items in order.
pub open spec fn ser(m: JsonModel) -> Seq<u8>
    decreases m,
{
    match m {
        JsonModel::Null => seq![0x6eu8, 0x75u8, 0x6cu8, 0x6cu8],
        JsonModel::Bool(b) => if b {
            seq![0x74u8, 0x72u8, 0x75u8, 0x65u8]
        } else {
            seq![0x66u8, 0x61u8, 0x6cu8, 0x73u8, 0x65u8]
        },
        JsonModel::Num(l) => l,
        JsonModel::Str(s) => ser_str(s),
        JsonModel::Arr(items) => seq![0x5bu8] + ser_list(items) + seq![0x5du8],
        JsonModel::Obj(ms) => seq![0x7bu8] + ser_members(ms) + seq![0x7du8],
    }
}

pub open spec fn ser_list(items: Seq<JsonModel>) -> Seq<u8>
    decreases items,
{
    if items.len() <= 0 {
        seq![]
    } else if items.len() == 1 {
        ser(items[0])
    } else {
        ser(items[0]) + seq![0x2cu8] + ser_list(items.drop_first())
    }
}

pub open spec fn ser_members(ms: Seq<(Seq<u8>, JsonModel)>) -> Seq<u8>
    decreases ms,
{
    if ms.len() <= 0 {
        seq![]
    } else if ms.len() == 1 {
        ser_str(ms[0].0) + seq![0x3au8] + ser(ms[0].1)
    } else {
        ser_str(ms[0].0) + seq![0x3au8] + ser(ms[0].1) + seq![0x2cu8] + ser_members(ms.drop_first())
    }
}

/// Append `src` to `dst`.
pub fn append_bytes(dst: &mut Vec<u8>, src: &[u8])
    ensures
        final(dst)@ == old(dst)@ + src@,
{
    let mut i: usize = 0;
    while i < src.len()
        invariant
            i <= src.len(),
            dst@ == old(dst)@ + src@.subrange(0, i as int),
        decreases src.len() - i,
    {
        dst.push(src[i]);
        proof {
            assert(dst@ =~= old(dst)@ + src@.subrange(0, i + 1 as int));
        }
        i = i + 1;
    }
    proof {
        assert(dst@ =~= old(dst)@ + src@);
    }
}

/// Byte-for-byte equality of two byte strings.
pub fn bytes_eq(a: &[u8], b: &[u8]) -> (r: bool)
    ensures
        r == (a@ == b@),
{
    if a.len() != b.len() {
        proof {
            assert(a@.len() != b@.len());
        }
        return false;
    }
    let mut i: usize = 0;
    while i < a.len()
        invariant
            i <= a.len(),
            a@.len() == b@.len(),
            forall|j: int| 0 <= j < i ==> a@[j] == b@[j],
        decreases a.len() - i,
    {
        if a[i] != b[i] {
            return false;
        }
        i = i + 1;
    }
    proof {
        assert(a@ =~= b@);
    }
    true
}

proof fn lemma_esc_push(t: Seq<u8>, b: u8)
    ensures
        esc(t.push(b)) == esc(t) + esc_byte(b),
    decreases t.len(),
{
    if t.len() == 0 {
        assert(t.push(b)[0] == b);
        assert(t.push(b).drop_first() =~= Seq::<u8>::empty());
        assert(esc(Seq::<u8>::empty()) =~= Seq::<u8>::empty());
        assert(esc(t.push(b)) == esc_byte(b) + esc(Seq::<u8>::empty()));
        assert(esc(t.push(b)) =~= esc_byte(b));
        assert(esc(t) + esc_byte(b) =~= esc_byte(b));
    } else {
        assert(t.push(b).drop_first() =~= t.drop_first().push(b));
        lemma_esc_push(t.drop_first(), b);
        assert(esc(t.push(b)) =~= esc(t) + esc_byte(b));
    }
}

pub proof fn lemma_model_list_push(s: Seq<JsonValue>, x: JsonValue)
    ensures
        model_list(s.push(x)) == model_list(s).push(jv_model(x)),
    decreases s,
{
    if s.len() == 0 {
        assert(s.push(x)[0] == x);
        assert(s.push(x).drop_first() =~= Seq::<JsonValue>::empty());
        assert(model_list(Seq::<JsonValue>::empty()) =~= Seq::<JsonModel>::empty());
        assert(model_list(s.push(x)) == seq![jv_model(x)] + model_list(Seq::<JsonValue>::empty()));
        assert(model_list(s.push(x)) =~= model_list(s).push(jv_model(x)));
    } else {
        assert(s.push(x).drop_first() =~= s.drop_first().push(x));
        lemma_model_list_push(s.drop_first(), x);
        assert(model_list(s.push(x)) =~= model_list(s).push(jv_model(x)));
    }
}

pub proof fn lemma_model_members_push(s: Seq<(Vec<u8>, JsonValue)>, x: (Vec<u8>, JsonValue))
    ensures
        model_members(s.push(x)) == model_members(s).push((x.0@, jv_model(x.1))),
    decreases s,
{
    if s.len() == 0 {
        assert(s.push(x)[0] == x);
        assert(s.push(x).drop_first() =~= Seq::<(Vec<u8>, JsonValue)>::empty());
        assert(model_members(Seq::<(Vec<u8>, JsonValue)>::empty()) =~= Seq::<(Seq<u8>, JsonModel)>::empty());
        assert(model_members(s.push(x)) == seq![(x.0@, jv_model(x.1))] + model_members(Seq::<(Vec<u8>, JsonValue)>::empty()));
        assert(model_members(s.push(x)) =~= model_members(s).push((x.0@, jv_model(x.1))));
    } else {
        assert(s.push(x).drop_first() =~= s.drop_first().push(x));
        lemma_model_members_push(s.drop_first(), x);
        assert(model_members(s.push(x)) =~= model_members(s).push((x.0@, jv_model(x.1))));
    }
}

proof fn lemma_ser_list_push(s: Seq<JsonModel>, x: JsonModel)
    ensures
        ser_list(s.push(x)) == if s.len() == 0 {
            ser(x)
        } else {
            ser_list(s) + seq![0x2cu8] + ser(x)
        },
    decreases s,
{
    if s.len() == 0 {
        assert(s.push(x)[0] == x);
        assert(s.push(x).len() == 1);
        assert(ser_list(s.push(x)) == ser(s.push(x)[0]));
    } else if s.len() == 1 {
        assert(s.push(x)[0] == s[0]);
        assert(s.push(x).drop_first() =~= seq![x]);
        assert(ser_list(seq![x]) == ser(x));
        assert(ser_list(s.push(x)) =~= ser_list(s) + seq![0x2cu8] + ser(x));
    } else {
        assert(s.push(x)[0] == s[0]);
        assert(s.push(x).drop_first() =~= s.drop_first().push(x));
        lemma_ser_list_push(s.drop_first(), x);
        assert(ser_list(s.push(x)) =~= ser_list(s) + seq![0x2cu8] + ser(x));
    }
}

proof fn lemma_ser_members_push(s: Seq<(Seq<u8>, JsonModel)>, x: (Seq<u8>, JsonModel))
    ensures
        ser_members(s.push(x)) == if s.len() == 0 {
            ser_str(x.0) + seq![0x3au8] + ser(x.1)
        } else {
            ser_members(s) + seq![0x2cu8] + ser_str(x.0) + seq![0x3au8] + ser(x.1)
        },
    decreases s,
{
    if s.len() == 0 {
        assert(s.push(x)[0] == x);
        assert(s.push(x).len() == 1);
        assert(ser_members(s.push(x)) == ser_str(s.push(x)[0].0) + seq![0x3au8] + ser(s.push(x)[0].1));
    } else if s.len() == 1 {
        assert(s.push(x)[0] == s[0]);
        assert(s.push(x).drop_first() =~= seq![x]);
        assert(ser_members(seq![x]) == ser_str(x.0) + seq![0x3au8] + ser(x.1));
        assert(ser_members(s.push(x)) =~= ser_members(s) + seq![0x2cu8] + ser_str(x.0) + seq![0x3au8] + ser(
            x.1,
        ));
    } else {
        assert(s.push(x)[0] == s[0]);
        assert(s.push(x).drop_first() =~= s.drop_first().push(x));
        lemma_ser_members_push(s.drop_first(), x);
        assert(ser_members(s.push(x)) =~= ser_members(s) + seq![0x2cu8] + ser_str(x.0) + seq![0x3au8] + ser(
            x.1,
        ));
    }
}

/// Write the serialization of a string (quotes and escapes included) onto `out`.
pub fn write_json_str(s: &[u8], out: &mut Vec<u8>)
    ensures
        final(out)@ == old(out)@ + ser_str(s@),
{
    out.push(0x22);
    let mut i: usize = 0;
    while i < s.len()
        invariant
            i <= s.len(),
            out@ == old(out)@ + seq![0x22u8] + esc(s@.subrange(0, i as int)),
        decreases s.len() - i,
    {
        let ghost pre = s@.subrange(0, i as int);
        let b = s[i];
        if b == 0x22 {
            out.push(0x5c);
            out.push(0x22);
        } else if b == 0x5c {
            out.push(0x5c);
            out.push(0x5c);
        } else if b == 0x08 {
            out.push(0x5c);
            out.push(0x62);
        } else if b == 0x09 {
            out.push(0x5c);
            out.push(0x74);
        } else if b == 0x0a {
            out.push(0x5c);
            out.push(0x6e);
        } else if b == 0x0c {
            out.push(0x5c);
            out.push(0x66);
        } else if b == 0x0d {
            out.push(0x5c);
            out.push(0x72);
        } else if b < 0x20 {
            out.push(0x5c);
            out.push(0x75);
            out.push(0x30);
            out.push(0x30);
            let hi: u8 = b / 16;
            let lo: u8 = b % 16;
            out.push(if hi < 10 { 0x30 + hi } else { 0x57 + hi });
            out.push(if lo < 10 { 0x30 + lo } else { 0x57 + lo });
            proof {
                assert(hex_digit(b / 16) == if hi < 10 { (0x30 + hi) as u8 } else { (0x57 + hi) as u8 });
                assert(hex_digit(b % 16) == if lo < 10 { (0x30 + lo) as u8 } else { (0x57 + lo) as u8 });
            }
        } else {
            out.push(b);
        }
        proof {
            lemma_esc_push(pre, b);
            assert(s@.subrange(0, i + 1 as int) =~= pre.push(b));
            assert(out@ =~= old(out)@ + seq![0x22u8] + esc(s@.subrange(0, i + 1 as int)));
        }
        i = i + 1;
    }
    out.push(0x22);
    proof {
        assert(s@.subrange(0, s@.len() as int) =~= s@);
        assert(out@ =~= old(out)@ + ser_str(s@));
    }
}

/// Write the canonical serialization of `v` onto `out`.
#[verifier::loop_isolation(false)]
#[verifier::rlimit(60)]
pub fn write_json(v: &JsonValue, out: &mut Vec<u8>)
    ensures
        final(out)@ == old(out)@ + ser(jv_model(*v)),
    decreases *v,
{
    match v {
        JsonValue::Null => {
            out.push(0x6e);
            out.push(0x75);
            out.push(0x6c);
            out.push(0x6c);
            proof {
                assert(out@ =~= old(out)@ + ser(jv_model(*v)));
            }
        },
        JsonValue::Bool(b) => {
            if *b {
                out.push(0x74);
                out.push(0x72);
                out.push(0x75);
                out.push(0x65);
            } else {
                out.push(0x66);
                out.push(0x61);
                out.push(0x6c);
                out.push(0x73);
                out.push(0x65);
            }
            proof {
                assert(out@ =~= old(out)@ + ser(jv_model(*v)));
            }
        },
        JsonValue::Num(l) => {
            append_bytes(out, l.as_slice());
        },
        JsonValue::Str(s) => {
            write_json_str(s.as_slice(), out);
        },
        JsonValue::Arr(items) => {
            out.push(0x5b);
            let ghost base = out@;
            let mut i: usize = 0;
            while i < items.len()
                invariant
                    i <= items.len(),
                    base == old(out)@ + seq![0x5bu8],
                    out@ == base + ser_list(model_list(items@.subrange(0, i as int))),
                decreases items.len() - i,
            {
                let ghost pre = items@.subrange(0, i as int);
                if i > 0 {
                    out.push(0x2c);
                }
                proof {
                    assert(*v matches JsonValue::Arr(_));
                    assert((*v)->Arr_0 == *items);
                    assert(decreases_to!(*v => (*v)->Arr_0));
                    assert(decreases_to!(*items => items@));
                    assert(decreases_to!(items@ => items@[i as int]));
                    assert(decreases_to!(*v => items@[i as int]));
                }
                write_json(&items[i], out);
                proof {
                    lemma_model_list_push(pre, items@[i as int]);
                    lemma_ser_list_push(model_list(pre), jv_model(items@[i as int]));
                    assert(items@.subrange(0, i + 1 as int) =~= pre.push(items@[i as int]));
                    if i > 0 {
                        assert(model_list(pre).len() > 0) by {
                            assert(pre.len() > 0);
                        }
                    } else {
                        assert(pre.len() == 0);
                        assert(model_list(pre).len() == 0);
                    }
                    assert(out@ =~= base + ser_list(model_list(items@.subrange(0, i + 1 as int))));
                }
                i = i + 1;
            }
            out.push(0x5d);
            proof {
                assert(items@.subrange(0, items@.len() as int) =~= items@);
                assert(out@ =~= old(out)@ + ser(jv_model(*v)));
            }
        },
        JsonValue::Obj(members) => {
            out.push(0x7b);
            let ghost base = out@;
            let mut i: usize = 0;
            while i < members.len()
                invariant
                    i <= members.len(),
                    base == old(out)@ + seq![0x7bu8],
                    out@ == base + ser_members(model_members(members@.subrange(0, i as int))),
                decreases members.len() - i,
            {
                let ghost pre = members@.subrange(0, i as int);
                if i > 0 {
                    out.push(0x2c);
                }
                write_json_str(members[i].0.as_slice(), out);
                out.push(0x3a);
                proof {
                    assert(decreases_to!(*v => (*v)->Obj_0));
                    assert((*v)->Obj_0 == *members);
                    assert(decreases_to!(*members => members@));
                    assert(decreases_to!(members@ => members@[i as int]));
                    assert(decreases_to!(members@[i as int] => members@[i as int].1));
                    assert(decreases_to!(*v => members@[i as int].1));
                }
                write_json(&members[i].1, out);
                proof {
                    lemma_model_members_push(pre, members@[i as int]);
                    lemma_ser_members_push(
                        model_members(pre),
                        (members@[i as int].0@, jv_model(members@[i as int].1)),
                    );
                    assert(members@.subrange(0, i + 1 as int) =~= pre.push(members@[i as int]));
                    if i > 0 {
                        assert(model_members(pre).len() > 0) by {
                            assert(pre.len() > 0);
                        }
                    } else {
                        assert(pre.len() == 0);
                        assert(model_members(pre).len() == 0);
                    }
                    assert(out@ =~= base + ser_members(model_members(members@.subrange(0, i + 1 as int))));
                }
                i = i + 1;
            }
            out.push(0x7d);
            proof {
                assert(members@.subrange(0, members@.len() as int) =~= members@);
                assert(out@ =~= old(out)@ + ser(jv_model(*v)));
            }
        },
    }
}

/// Serialize `v` as a JSON document.
pub fn serialize_json(v: &JsonValue) -> (r: Vec<u8>)
    ensures
        r@ == ser(jv_model(*v)),
{
    let mut out: Vec<u8> = Vec::new();
    write_json(v, &mut out);
    out
}

/// Unfolding of the member model at a suffix position.
pub proof fn lemma_members_skip_unfold(ms: Seq<(Vec<u8>, JsonValue)>, i: int)
    requires
        0 <= i < ms.len(),
    ensures
        model_members(ms.skip(i)) == seq![(ms[i].0@, jv_model(ms[i].1))] + model_members(
            ms.skip(i + 1),
        ),
{
    assert(ms.skip(i)[0] == ms[i]);
    assert(ms.skip(i).drop_first() =~= ms.skip(i + 1));
    assert(model_members(ms.skip(i)) == seq![(ms.skip(i)[0].0@, jv_model(ms.skip(i)[0].1))]
        + model_members(ms.skip(i).drop_first()));
}

/// Unfolding of the item model at a suffix position.
pub proof fn lemma_list_skip_unfold(items: Seq<JsonValue>, i: int)
    requires
        0 <= i < items.len(),
    ensures
        model_list(items.skip(i)) == seq![jv_model(items[i])] + model_list(items.skip(i + 1)),
{
    assert(items.skip(i)[0] == items[i]);
    assert(items.skip(i).drop_first() =~= items.skip(i + 1));
    assert(model_list(items.skip(i)) == seq![jv_model(items.skip(i)[0])] + model_list(
        items.skip(i).drop_first(),
    ));
}

/// Copy a byte string.
pub fn copy_bytes(v: &[u8]) -> (r: Vec<u8>)
    ensures
        r@ == v@,
{
    let mut out: Vec<u8> = Vec::new();
    append_bytes(&mut out, v);
    proof {
        assert(out@ =~= v@);
    }
    out
}

/// Deep copy of a JSON value.
#[verifier::loop_isolation(false)]
pub fn json_clone(v: &JsonValue) -> (r: JsonValue)
    ensures
        jv_model(r) == jv_model(*v),
    decreases *v,
{
    match v {
        JsonValue::Null => JsonValue::Null,
        JsonValue::Bool(b) => JsonValue::Bool(*b),
        JsonValue::Num(l) => JsonValue::Num(copy_bytes(l.as_slice())),
        JsonValue::Str(s) => JsonValue::Str(copy_bytes(s.as_slice())),
        JsonValue::Arr(items) => {
            let mut out: Vec<JsonValue> = Vec::new();
            let mut i: usize = 0;
            while i < items.len()
                invariant
                    i <= items.len(),
                    model_list(out@) == model_list(items@.subrange(0, i as int)),
                decreases items.len() - i,
            {
                proof {
                    assert(decreases_to!(*v => (*v)->Arr_0));
                    assert((*v)->Arr_0 == *items);
                    assert(decreases_to!(*items => items@));
                    assert(decreases_to!(items@ => items@[i as int]));
                    assert(decreases_to!(*v => items@[i as int]));
                }
                let c = json_clone(&items[i]);
                let ghost pre_out = out@;
                let ghost pre = items@.subrange(0, i as int);
                out.push(c);
                proof {
                    lemma_model_list_push(pre_out, c);
                    lemma_model_list_push(pre, items@[i as int]);
                    assert(items@.subrange(0, i + 1 as int) =~= pre.push(items@[i as int]));
                    assert(out@ =~= pre_out.push(c));
                }
                i = i + 1;
            }
            proof {
                assert(items@.subrange(0, items@.len() as int) =~= items@);
            }
            JsonValue::Arr(out)
        },
        JsonValue::Obj(members) => {
            let mut out: Vec<(Vec<u8>, JsonValue)> = Vec::new();
            let mut i: usize = 0;
            while i < members.len()
                invariant
                    i <= members.len(),
                    model_members(out@) == model_members(members@.subrange(0, i as int)),
                decreases members.len() - i,
            {
                proof {
                    assert(decreases_to!(*v => (*v)->Obj_0));
                    assert((*v)->Obj_0 == *members);
                    assert(decreases_to!(*members => members@));
                    assert(decreases_to!(members@ => members@[i as int]));
                    assert(decreases_to!(members@[i as int] => members@[i as int].1));
                    assert(decreases_to!(*v => members@[i as int].1));
                }
                let k = copy_bytes(members[i].0.as_slice());
                let c = json_clone(&members[i].1);
                let ghost pre_out = out@;
                let ghost pre = members@.subrange(0, i as int);
                out.push((k, c));
                proof {
                    lemma_model_members_push(pre_out, ((k, c)));
                    lemma_model_members_push(pre, members@[i as int]);
                    assert(members@.subrange(0, i + 1 as int) =~= pre.push(members@[i as int]));
                    assert(out@ =~= pre_out.push((k, c)));
                }
                i = i + 1;
            }
            proof {
                assert(members@.subrange(0, members@.len() as int) =~= members@);
            }
            JsonValue::Obj(out)
        },
    }
}

} // verus!
