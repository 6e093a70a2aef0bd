//! The profile-data builder: an incrementally built payload of named JSON
//! values with last-write-wins map semantics.
use vstd::prelude::*;
use crate::json::JsonModel;
use crate::json::JsonValue;
use crate::json::wf;
use crate::json::wf_pair;
use crate::json::jv_model;
use crate::json::model_members;
use crate::json::lemma_model_members_push;
use crate::json::lemma_wf_obj_member;
use crate::json::copy_bytes;
use crate::json::bytes_eq;
use crate::text::txt_name;
use crate::text::txt_email;
use crate::text::lit_name;
use crate::text::lit_email;

verus! {

/// The mapping a payload denotes: later entries for a key override earlier
/// ones.
pub open spec fn payload_map(ms: Seq<(Seq<u8>, JsonModel)>) -> Map<Seq<u8>, JsonModel>
    decreases ms.len(),
{
    if ms.len() == 0 {
        Map::empty()
    } else {
        payload_map(ms.drop_last()).insert(ms.last().0, ms.last().1)
    }
}

/// Look up the value a payload binds to `key`: the last entry wins.
pub fn payload_get<'a>(data: &'a Vec<(Vec<u8>, JsonValue)>, key: &[u8]) -> (r: Option<
    &'a JsonValue,
>)
    ensures
        payload_map(model_members(data@)).contains_key(key@) ==> (r matches Some(v) && jv_model(*v)
            == payload_map(model_members(data@))[key@]),
        !payload_map(model_members(data@)).contains_key(key@) ==> r is None,
{
    proof {
        assert(data@.subrange(0, data@.len() as int) =~= data@);
    }
    let mut i: usize = data.len();
    while i > 0
        invariant
            i <= data@.len(),
            payload_map(model_members(data@)).contains_key(key@) == payload_map(
                model_members(data@.subrange(0, i as int)),
            ).contains_key(key@),
            payload_map(model_members(data@)).contains_key(key@) ==> payload_map(
                model_members(data@),
            )[key@] == payload_map(model_members(data@.subrange(0, i as int)))[key@],
        decreases i,
    {
        proof {
            assert(data@.subrange(0, i as int) =~= data@.subrange(0, i - 1 as int).push(
                data@[i - 1 as int],
            ));
            lemma_model_members_push(data@.subrange(0, i - 1 as int), data@[i - 1 as int]);
            let mm = model_members(data@.subrange(0, i as int));
            let mp = model_members(data@.subrange(0, i - 1 as int));
            assert(mm.drop_last() =~= mp);
            assert(mm.last() == (data@[i - 1 as int].0@, jv_model(data@[i - 1 as int].1)));
            assert(payload_map(mm) == payload_map(mp).insert(
                data@[i - 1 as int].0@,
                jv_model(data@[i - 1 as int].1),
            ));
        }
        if bytes_eq(data[i - 1].0.as_slice(), key) {
            proof {
                assert(payload_map(model_members(data@.subrange(0, i as int))).contains_key(key@));
                assert(payload_map(model_members(data@.subrange(0, i as int)))[key@] == jv_model(
                    data@[i - 1 as int].1,
                ));
            }
            return Some(&data[i - 1].1);
        }
        i = i - 1;
    }
    proof {
        assert(data@.subrange(0, 0) =~= Seq::<(Vec<u8>, JsonValue)>::empty());
        assert(model_members(Seq::<(Vec<u8>, JsonValue)>::empty()) =~= Seq::<(
            Seq<u8>,
            JsonModel,
        )>::empty());
        assert(!payload_map(Seq::<(Seq<u8>, JsonModel)>::empty()).contains_key(key@));
    }
    None
}

/// Builds a profile-data payload field by field.
#[derive(Debug)]
pub struct ProfileBuilder {
    pub data: Vec<(Vec<u8>, JsonValue)>,
}

impl ProfileBuilder {
    /// An empty payload.
    pub fn new() -> (r: Self)
        ensures
            r.data@.len() == 0,
            payload_map(model_members(r.data@)) == Map::<Seq<u8>, JsonModel>::empty(),
            wf(JsonModel::Obj(model_members(r.data@))),
    {
        let b = ProfileBuilder { data: Vec::new() };
        proof {
            assert(model_members(b.data@) =~= Seq::<(Seq<u8>, JsonModel)>::empty());
        }
        b
    }

    /// Bind `key` to `value`; a later binding for the same key overrides an
    /// earlier one.
    pub fn field(self, key: &[u8], value: JsonValue) -> (r: Self)
        ensures
            payload_map(model_members(r.data@)) == payload_map(model_members(self.data@)).insert(
                key@,
                jv_model(value),
            ),
            wf(JsonModel::Obj(model_members(self.data@))) && wf(jv_model(value)) ==> wf(
                JsonModel::Obj(model_members(r.data@)),
            ),
    {
        let mut data = self.data;
        let ghost pre = data@;
        let ghost gv = jv_model(value);
        let kc = copy_bytes(key);
        data.push((kc, value));
        proof {
            lemma_model_members_push(pre, data@[pre.len() as int]);
            assert(data@ =~= pre.push(data@[pre.len() as int]));
            let mm = model_members(data@);
            let mp = model_members(pre);
            assert(mm.drop_last() =~= mp);
            assert(payload_map(mm) == payload_map(mp).insert(key@, gv));
            if wf(JsonModel::Obj(mp)) && wf(gv) {
                assert forall|i: int| 0 <= i < mm.len() implies wf_pair(#[trigger] mm[i]) by {
                    if i < mp.len() {
                        assert(mm[i] == mp[i]);
                        lemma_wf_obj_member(JsonModel::Obj(mp), i);
                        assert(wf_pair(mp[i]));
                    } else {
                        assert(mm[i] == (key@, gv));
                        assert(wf_pair((key@, gv)));
                    }
                }
            }
        }
        ProfileBuilder { data }
    }

    /// Bind the `name` field to a string.
    pub fn name(self, name: &[u8]) -> (r: Self)
        ensures
            payload_map(model_members(r.data@)) == payload_map(model_members(self.data@)).insert(
                txt_name(),
                JsonModel::Str(name@),
            ),
    {
        let k = lit_name();
        self.field(k.as_slice(), JsonValue::Str(copy_bytes(name)))
    }

    /// Bind the `email` field to a string.
    pub fn email(self, email: &[u8]) -> (r: Self)
        ensures
            payload_map(model_members(r.data@)) == payload_map(model_members(self.data@)).insert(
                txt_email(),
                JsonModel::Str(email@),
            ),
    {
        let k = lit_email();
        self.field(k.as_slice(), JsonValue::Str(copy_bytes(email)))
    }

    /// Hand the payload over.
    pub fn build(self) -> (r: Vec<(Vec<u8>, JsonValue)>)
        ensures
            r@ == self.data@,
    {
        self.data
    }
}

/// Every inserted pair is retrievable unchanged; a later insertion for the
/// same key overwrites an earlier one; bindings of other keys are untouched.
pub proof fn lemma_payload_last_write_wins(
    m: Map<Seq<u8>, JsonModel>,
    k: Seq<u8>,
    v1: JsonModel,
    v2: JsonModel,
)
    ensures
        m.insert(k, v1).insert(k, v2) == m.insert(k, v2),
        m.insert(k, v2).contains_key(k),
        m.insert(k, v2)[k] == v2,
        forall|k2: Seq<u8>|
            k2 != k ==> #[trigger] m.insert(k, v2).contains_key(k2) == m.contains_key(k2),
        forall|k2: Seq<u8>|
            k2 != k && m.contains_key(k2) ==> #[trigger] m.insert(k, v2)[k2] == m[k2],
{
    assert(m.insert(k, v1).insert(k, v2) =~= m.insert(k, v2));
}

/// The denoted mapping does not depend on the order in which distinct keys
/// were inserted.
pub proof fn lemma_payload_insert_commutes(
    m: Map<Seq<u8>, JsonModel>,
    k1: Seq<u8>,
    v1: JsonModel,
    k2: Seq<u8>,
    v2: JsonModel,
)
    requires
        k1 != k2,
    ensures
        m.insert(k1, v1).insert(k2, v2) == m.insert(k2, v2).insert(k1, v1),
{
    assert(m.insert(k1, v1).insert(k2, v2) =~= m.insert(k2, v2).insert(k1, v1));
}

} // verus!
