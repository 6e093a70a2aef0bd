//! Response interpretation: decoding the service's JSON envelopes and mapping
//! HTTP status plus envelope fields to a typed result.
use vstd::prelude::*;
use crate::json::JsonModel;
use crate::json::JsonValue;
use crate::json::jv_model;
use crate::json::model_list;
use crate::json::model_members;
use crate::json::copy_bytes;
use crate::json::json_clone;
use crate::json::bytes_eq;
use crate::json::append_bytes;
use crate::json::lemma_model_members_push;
use crate::json::lemma_members_skip_unfold;
use crate::json::lemma_list_skip_unfold;
use crate::parse::parse_doc;
use crate::parse::parse_json;
use crate::error::ProfError;
use crate::error::ErrorModel;
use crate::text::txt_uuid;
use crate::text::txt_name;
use crate::text::txt_email;
use crate::text::txt_image_filename;
use crate::text::txt_created_at;
use crate::text::txt_updated_at;
use crate::text::txt_success;
use crate::text::txt_profile;
use crate::text::txt_error;
use crate::text::txt_details;
use crate::text::txt_status;
use crate::text::txt_service;
use crate::text::txt_version;
use crate::text::txt_timestamp;
use crate::text::txt_validation_failed;
use crate::text::txt_unknown_error;
use crate::text::txt_no_profile;
use crate::text::txt_invalid_format_prefix;
use crate::text::txt_could_not_parse_prefix;
use crate::text::txt_delete_failed;
use crate::text::txt_spell_failed;
use crate::text::txt_not_found_default;
use crate::text::txt_profile_not_found;
use crate::text::txt_image_not_found;
use crate::text::lit_uuid;
use crate::text::lit_name;
use crate::text::lit_email;
use crate::text::lit_image_filename;
use crate::text::lit_created_at;
use crate::text::lit_updated_at;
use crate::text::lit_success;
use crate::text::lit_profile;
use crate::text::lit_error;
use crate::text::lit_details;
use crate::text::lit_status;
use crate::text::lit_service;
use crate::text::lit_version;
use crate::text::lit_timestamp;
use crate::text::lit_validation_failed;
use crate::text::lit_unknown_error;
use crate::text::lit_no_profile;
use crate::text::lit_invalid_format_prefix;
use crate::text::lit_could_not_parse_prefix;
use crate::text::lit_delete_failed;
use crate::text::lit_spell_failed;
use crate::text::lit_not_found_default;
use crate::text::lit_profile_not_found;
use crate::text::lit_image_not_found;

verus! {

/// The value bound to `key`, if any: with a duplicated key the last
/// occurrence wins, matching the builder's own payload semantics.
pub open spec fn obj_get(ms: Seq<(Seq<u8>, JsonModel)>, key: Seq<u8>) -> Option<JsonModel>
    decreases ms.len(),
{
    if ms.len() == 0 {
        None
    } else if ms.last().0 == key {
        Some(ms.last().1)
    } else {
        obj_get(ms.drop_last(), key)
    }
}

/// A required string member: the first occurrence of `key` must be a string.
pub open spec fn str_field(ms: Seq<(Seq<u8>, JsonModel)>, key: Seq<u8>) -> Option<Seq<u8>> {
    match obj_get(ms, key) {
        Some(JsonModel::Str(s)) => Some(s),
        _ => None,
    }
}

/// An optional string member: absent or null is accepted as no value, a
/// string is accepted, anything else is a decode failure (outer `None`).
pub open spec fn opt_str_field(ms: Seq<(Seq<u8>, JsonModel)>, key: Seq<u8>) -> Option<
    Option<Seq<u8>>,
> {
    match obj_get(ms, key) {
        None => Some(None),
        Some(JsonModel::Null) => Some(None),
        Some(JsonModel::Str(s)) => Some(Some(s)),
        Some(_) => None,
    }
}

/// The members of a profile object that are named by the schema.
pub open spec fn known_profile_key(k: Seq<u8>) -> bool {
    ||| k == txt_uuid()
    ||| k == txt_name()
    ||| k == txt_email()
    ||| k == txt_image_filename()
    ||| k == txt_created_at()
    ||| k == txt_updated_at()
}

/// The members of a profile object that are not named by the schema, in
/// order of appearance.
pub open spec fn extra_fields(ms: Seq<(Seq<u8>, JsonModel)>) -> Seq<(Seq<u8>, JsonModel)>
    decreases ms.len(),
{
    if ms.len() == 0 {
        seq![]
    } else if known_profile_key(ms[0].0) {
        extra_fields(ms.drop_first())
    } else {
        seq![ms[0]] + extra_fields(ms.drop_first())
    }
}

/// A profile record as returned by the service. Fields the schema does not
/// name are kept verbatim in `additional_fields`.
#[derive(Debug)]
pub struct Profile {
    pub uuid: Vec<u8>,
    pub name: Vec<u8>,
    pub email: Vec<u8>,
    pub image_filename: Option<Vec<u8>>,
    pub created_at: Vec<u8>,
    pub updated_at: Vec<u8>,
    pub additional_fields: Vec<(Vec<u8>, JsonValue)>,
}

/// The model of a profile record.
pub struct ProfileModel {
    pub uuid: Seq<u8>,
    pub name: Seq<u8>,
    pub email: Seq<u8>,
    pub image_filename: Option<Seq<u8>>,
    pub created_at: Seq<u8>,
    pub updated_at: Seq<u8>,
    pub additional_fields: Seq<(Seq<u8>, JsonModel)>,
}

impl View for Profile {
    type V = ProfileModel;

    open spec fn view(&self) -> ProfileModel {
        ProfileModel {
            uuid: self.uuid@,
            name: self.name@,
            email: self.email@,
            image_filename: match self.image_filename {
                Some(f) => Some(f@),
                None => None,
            },
            created_at: self.created_at@,
            updated_at: self.updated_at@,
            additional_fields: model_members(self.additional_fields@),
        }
    }
}

/// Decode a profile from the members of a JSON object: `uuid`, `name`,
/// `email`, `createdAt` and `updatedAt` must be strings, `imageFilename` may
/// be absent, null or a string, and every other member is kept verbatim.
pub open spec fn decode_profile(ms: Seq<(Seq<u8>, JsonModel)>) -> Option<ProfileModel> {
    match (
        str_field(ms, txt_uuid()),
        str_field(ms, txt_name()),
        str_field(ms, txt_email()),
        str_field(ms, txt_created_at()),
        str_field(ms, txt_updated_at()),
        opt_str_field(ms, txt_image_filename()),
    ) {
        (Some(u), Some(n), Some(e), Some(c), Some(up), Some(img)) => Some(
            ProfileModel {
                uuid: u,
                name: n,
                email: e,
                image_filename: img,
                created_at: c,
                updated_at: up,
                additional_fields: extra_fields(ms),
            },
        ),
        _ => None,
    }
}

/// The contents of an array whose items must all be strings.
pub open spec fn all_strings(items: Seq<JsonModel>) -> Option<Seq<Seq<u8>>>
    decreases items.len(),
{
    if items.len() == 0 {
        Some(seq![])
    } else {
        match items[0] {
            JsonModel::Str(s) => match all_strings(items.drop_first()) {
                Some(r) => Some(seq![s] + r),
                None => None,
            },
            _ => None,
        }
    }
}

/// The string items of an array, non-strings dropped silently.
pub open spec fn strings_kept(items: Seq<JsonModel>) -> Seq<Seq<u8>>
    decreases items.len(),
{
    if items.len() == 0 {
        seq![]
    } else {
        match items[0] {
            JsonModel::Str(s) => seq![s] + strings_kept(items.drop_first()),
            _ => strings_kept(items.drop_first()),
        }
    }
}

/// The standard response envelope.
#[derive(Debug)]
pub struct ProfileResponse {
    pub success: bool,
    pub profile: Option<Profile>,
    pub error: Option<Vec<u8>>,
    pub details: Option<Vec<Vec<u8>>>,
}

/// The model of a response envelope.
pub struct EnvelopeModel {
    pub success: bool,
    pub profile: Option<ProfileModel>,
    pub error: Option<Seq<u8>>,
    pub details: Option<Seq<Seq<u8>>>,
}

impl View for ProfileResponse {
    type V = EnvelopeModel;

    open spec fn view(&self) -> EnvelopeModel {
        EnvelopeModel {
            success: self.success,
            profile: match self.profile {
                Some(p) => Some(p@),
                None => None,
            },
            error: match self.error {
                Some(e) => Some(e@),
                None => None,
            },
            details: match self.details {
                Some(d) => Some(d@.map_values(|e: Vec<u8>| e@)),
                None => None,
            },
        }
    }
}

/// Decode the full envelope: `success` must be a boolean; `profile` absent,
/// null or a well-formed profile object; `error` absent, null or a string;
/// `details` absent, null or an array of strings. Unknown members are
/// ignored.
pub open spec fn decode_envelope(m: JsonModel) -> Option<EnvelopeModel> {
    match m {
        JsonModel::Obj(ms) => match obj_get(ms, txt_success()) {
            Some(JsonModel::Bool(b)) => {
                let prof = match obj_get(ms, txt_profile()) {
                    None => Some(None),
                    Some(JsonModel::Null) => Some(None),
                    Some(JsonModel::Obj(pms)) => match decode_profile(pms) {
                        Some(p) => Some(Some(p)),
                        None => None,
                    },
                    Some(_) => None,
                };
                let err = opt_str_field(ms, txt_error());
                let det = match obj_get(ms, txt_details()) {
                    None => Some(None),
                    Some(JsonModel::Null) => Some(None),
                    Some(JsonModel::Arr(items)) => match all_strings(items) {
                        Some(ss) => Some(Some(ss)),
                        None => None,
                    },
                    Some(_) => None,
                };
                match (prof, err, det) {
                    (Some(p), Some(e), Some(d)) => Some(
                        EnvelopeModel { success: b, profile: p, error: e, details: d },
                    ),
                    _ => None,
                }
            },
            _ => None,
        },
        _ => None,
    }
}

/// The tolerated alternate error shape: any JSON object with a string
/// `error` member; `details` contributes its string items when it is an
/// array, and is dropped otherwise.
pub open spec fn fallback_envelope(m: JsonModel) -> Option<EnvelopeModel> {
    match m {
        JsonModel::Obj(ms) => match obj_get(ms, txt_error()) {
            Some(JsonModel::Str(e)) => Some(
                EnvelopeModel {
                    success: false,
                    profile: None,
                    error: Some(e),
                    details: match obj_get(ms, txt_details()) {
                        Some(JsonModel::Arr(items)) => Some(strings_kept(items)),
                        _ => None,
                    },
                },
            ),
            _ => None,
        },
        _ => None,
    }
}

pub open spec fn or_default(o: Option<Seq<u8>>, d: Seq<u8>) -> Seq<u8> {
    match o {
        Some(x) => x,
        None => d,
    }
}

/// Map a decoded envelope and the HTTP status to the final result: failure
/// envelopes become Validation on 400 with details, NotFound on 404, and
/// Service otherwise; success envelopes must carry a profile.
pub open spec fn envelope_to_result(status: u16, env: EnvelopeModel, nf_default: Seq<u8>) -> Result<
    ProfileModel,
    ErrorModel,
> {
    if !env.success {
        if status == 400 {
            match env.details {
                Some(d) => Err(ErrorModel::Validation(d)),
                None => Err(ErrorModel::Service(or_default(env.error, txt_validation_failed()))),
            }
        } else if status == 404 {
            Err(ErrorModel::NotFound(or_default(env.error, nf_default)))
        } else {
            Err(ErrorModel::Service(or_default(env.error, txt_unknown_error())))
        }
    } else {
        match env.profile {
            Some(p) => Ok(p),
            None => Err(ErrorModel::Service(txt_no_profile())),
        }
    }
}

/// The ordered fallback chain for a profile-carrying response: a well-formed
/// envelope, else a recognized error shape, else a Service error naming the
/// raw body; the winner is mapped through `envelope_to_result`.
pub open spec fn interpret_profile(status: u16, body: Seq<u8>, nf_default: Seq<u8>) -> Result<
    ProfileModel,
    ErrorModel,
> {
    match parse_doc(body) {
        None => Err(ErrorModel::Service(txt_could_not_parse_prefix() + body)),
        Some(m) => match decode_envelope(m) {
            Some(env) => envelope_to_result(status, env, nf_default),
            None => match fallback_envelope(m) {
                Some(env) => envelope_to_result(status, env, nf_default),
                None => Err(ErrorModel::Service(txt_invalid_format_prefix() + body)),
            },
        },
    }
}

pub open spec fn is_success_status(status: u16) -> bool {
    200 <= status < 300
}

/// Interpretation of a delete response: success status is enough; otherwise
/// the body must hold a well-formed envelope whose error is reported.
pub open spec fn interpret_delete(status: u16, body: Seq<u8>) -> Result<(), ErrorModel> {
    if is_success_status(status) {
        Ok(())
    } else {
        match parse_doc(body) {
            Some(m) => match decode_envelope(m) {
                Some(env) => Err(ErrorModel::Service(or_default(env.error, txt_delete_failed()))),
                None => Err(ErrorModel::Serialization(body)),
            },
            None => Err(ErrorModel::Serialization(body)),
        }
    }
}

/// The health endpoint's fixed shape.
#[derive(Debug, PartialEq, Eq)]
pub struct HealthResponse {
    pub status: Vec<u8>,
    pub service: Vec<u8>,
    pub version: Vec<u8>,
    pub timestamp: Vec<u8>,
}

pub struct HealthModel {
    pub status: Seq<u8>,
    pub service: Seq<u8>,
    pub version: Seq<u8>,
    pub timestamp: Seq<u8>,
}

impl View for HealthResponse {
    type V = HealthModel;

    open spec fn view(&self) -> HealthModel {
        HealthModel {
            status: self.status@,
            service: self.service@,
            version: self.version@,
            timestamp: self.timestamp@,
        }
    }
}

pub open spec fn decode_health(m: JsonModel) -> Option<HealthModel> {
    match m {
        JsonModel::Obj(ms) => match (
            str_field(ms, txt_status()),
            str_field(ms, txt_service()),
            str_field(ms, txt_version()),
            str_field(ms, txt_timestamp()),
        ) {
            (Some(st), Some(sv), Some(ve), Some(ts)) => Some(
                HealthModel { status: st, service: sv, version: ve, timestamp: ts },
            ),
            _ => None,
        },
        _ => None,
    }
}

pub open spec fn interpret_health(body: Seq<u8>) -> Result<HealthModel, ErrorModel> {
    match parse_doc(body) {
        Some(m) => match decode_health(m) {
            Some(h) => Ok(h),
            None => Err(ErrorModel::Serialization(body)),
        },
        None => Err(ErrorModel::Serialization(body)),
    }
}

/// The spell endpoint's envelope: a success flag, an optional error, and all
/// other members kept verbatim.
#[derive(Debug)]
pub struct MagicResponse {
    pub success: bool,
    pub error: Option<Vec<u8>>,
    pub data: Vec<(Vec<u8>, JsonValue)>,
}

pub struct MagicModel {
    pub success: bool,
    pub error: Option<Seq<u8>>,
    pub data: Seq<(Seq<u8>, JsonModel)>,
}

impl View for MagicResponse {
    type V = MagicModel;

    open spec fn view(&self) -> MagicModel {
        MagicModel {
            success: self.success,
            error: match self.error {
                Some(e) => Some(e@),
                None => None,
            },
            data: model_members(self.data@),
        }
    }
}

pub open spec fn known_magic_key(k: Seq<u8>) -> bool {
    k == txt_success() || k == txt_error()
}

/// The members of a spell response that are not the success flag or the
/// error message, in order of appearance.
pub open spec fn magic_extra(ms: Seq<(Seq<u8>, JsonModel)>) -> Seq<(Seq<u8>, JsonModel)>
    decreases ms.len(),
{
    if ms.len() == 0 {
        seq![]
    } else if known_magic_key(ms[0].0) {
        magic_extra(ms.drop_first())
    } else {
        seq![ms[0]] + magic_extra(ms.drop_first())
    }
}

pub open spec fn decode_magic(m: JsonModel) -> Option<MagicModel> {
    match m {
        JsonModel::Obj(ms) => match obj_get(ms, txt_success()) {
            Some(JsonModel::Bool(b)) => match opt_str_field(ms, txt_error()) {
                Some(e) => Some(MagicModel { success: b, error: e, data: magic_extra(ms) }),
                None => None,
            },
            _ => None,
        },
        _ => None,
    }
}

/// Interpretation of a spell response: the body must decode; a failure flag
/// is reported as a Service error with the envelope's message.
pub open spec fn interpret_spell(body: Seq<u8>) -> Result<MagicModel, ErrorModel> {
    match parse_doc(body) {
        Some(m) => match decode_magic(m) {
            Some(mm) => if !mm.success {
                Err(ErrorModel::Service(or_default(mm.error, txt_spell_failed())))
            } else {
                Ok(mm)
            },
            None => Err(ErrorModel::Serialization(body)),
        },
        None => Err(ErrorModel::Serialization(body)),
    }
}

// ---------------------------------------------------------------------------
// Executable decoding, proved to agree with the specification decoders.
// ---------------------------------------------------------------------------

pub open spec fn rel_profile_result(sp: Result<ProfileModel, ErrorModel>, ex: Result<
    Profile,
    ProfError,
>) -> bool {
    match sp {
        Ok(pm) => ex matches Ok(p) && p@ == pm,
        Err(em) => ex matches Err(e) && e@ == em,
    }
}

/// Borrowing lookup of the member a key is bound to (the last occurrence).
fn obj_find<'a>(members: &'a Vec<(Vec<u8>, JsonValue)>, key: &[u8]) -> (r: Option<&'a JsonValue>)
    ensures
        match obj_get(model_members(members@), key@) {
            Some(m) => r matches Some(v) && jv_model(*v) == m,
            None => r is None,
        },
{
    proof {
        assert(members@.subrange(0, members@.len() as int) =~= members@);
    }
    let mut i: usize = members.len();
    while i > 0
        invariant
            i <= members@.len(),
            obj_get(model_members(members@), key@) == obj_get(
                model_members(members@.subrange(0, i as int)),
                key@,
            ),
        decreases i,
    {
        proof {
            assert(members@.subrange(0, i as int) =~= members@.subrange(0, i - 1 as int).push(
                members@[i - 1 as int],
            ));
            lemma_model_members_push(members@.subrange(0, i - 1 as int), members@[i - 1 as int]);
            let mm = model_members(members@.subrange(0, i as int));
            let mp = model_members(members@.subrange(0, i - 1 as int));
            assert(mm.drop_last() =~= mp);
            assert(mm.last() == (members@[i - 1 as int].0@, jv_model(members@[i - 1 as int].1)));
        }
        if bytes_eq(members[i - 1].0.as_slice(), key) {
            proof {
                assert(obj_get(model_members(members@.subrange(0, i as int)), key@) == Some(
                    jv_model(members@[i - 1 as int].1),
                ));
            }
            return Some(&members[i - 1].1);
        }
        proof {
            assert(obj_get(model_members(members@.subrange(0, i as int)), key@) == obj_get(
                model_members(members@.subrange(0, i - 1 as int)),
                key@,
            ));
        }
        i = i - 1;
    }
    proof {
        assert(members@.subrange(0, 0) =~= Seq::<(Vec<u8>, JsonValue)>::empty());
        assert(model_members(Seq::<(Vec<u8>, JsonValue)>::empty())
            =~= Seq::<(Seq<u8>, JsonModel)>::empty());
    }
    None
}

fn is_known_profile_key(k: &[u8]) -> (r: bool)
    ensures
        r == known_profile_key(k@),
{
    let a = lit_uuid();
    if bytes_eq(k, a.as_slice()) {
        return true;
    }
    let b = lit_name();
    if bytes_eq(k, b.as_slice()) {
        return true;
    }
    let c = lit_email();
    if bytes_eq(k, c.as_slice()) {
        return true;
    }
    let d = lit_image_filename();
    if bytes_eq(k, d.as_slice()) {
        return true;
    }
    let e = lit_created_at();
    if bytes_eq(k, e.as_slice()) {
        return true;
    }
    let f = lit_updated_at();
    if bytes_eq(k, f.as_slice()) {
        return true;
    }
    false
}

fn is_known_magic_key(k: &[u8]) -> (r: bool)
    ensures
        r == known_magic_key(k@),
{
    let a = lit_success();
    if bytes_eq(k, a.as_slice()) {
        return true;
    }
    let b = lit_error();
    if bytes_eq(k, b.as_slice()) {
        return true;
    }
    false
}

/// Decode a profile from the members of a JSON object.
pub fn decode_profile_members(members: &Vec<(Vec<u8>, JsonValue)>) -> (r: Option<Profile>)
    ensures
        match decode_profile(model_members(members@)) {
            Some(pm) => r matches Some(p) && p@ == pm,
            None => r is None,
        },
{
    let key = lit_uuid();
    let uuid = match obj_find(members, key.as_slice()) {
        Some(v) => match v {
            JsonValue::Str(sb) => copy_bytes(sb.as_slice()),
            _ => {
                return None;
            },
        },
        None => {
            return None;
        },
    };
    let key = lit_name();
    let name = match obj_find(members, key.as_slice()) {
        Some(v) => match v {
            JsonValue::Str(sb) => copy_bytes(sb.as_slice()),
            _ => {
                return None;
            },
        },
        None => {
            return None;
        },
    };
    let key = lit_email();
    let email = match obj_find(members, key.as_slice()) {
        Some(v) => match v {
            JsonValue::Str(sb) => copy_bytes(sb.as_slice()),
            _ => {
                return None;
            },
        },
        None => {
            return None;
        },
    };
    let key = lit_created_at();
    let created_at = match obj_find(members, key.as_slice()) {
        Some(v) => match v {
            JsonValue::Str(sb) => copy_bytes(sb.as_slice()),
            _ => {
                return None;
            },
        },
        None => {
            return None;
        },
    };
    let key = lit_updated_at();
    let updated_at = match obj_find(members, key.as_slice()) {
        Some(v) => match v {
            JsonValue::Str(sb) => copy_bytes(sb.as_slice()),
            _ => {
                return None;
            },
        },
        None => {
            return None;
        },
    };
    let key = lit_image_filename();
    let image_filename = match obj_find(members, key.as_slice()) {
        None => None,
        Some(v) => match v {
            JsonValue::Null => None,
            JsonValue::Str(sb) => Some(copy_bytes(sb.as_slice())),
            _ => {
                return None;
            },
        },
    };
    let mut additional: Vec<(Vec<u8>, JsonValue)> = Vec::new();
    proof {
        assert(members@.skip(0) =~= members@);
        assert(model_members(Seq::<(Vec<u8>, JsonValue)>::empty())
            =~= Seq::<(Seq<u8>, JsonModel)>::empty());
        assert(Seq::<(Seq<u8>, JsonModel)>::empty() + extra_fields(model_members(members@))
            =~= extra_fields(model_members(members@)));
    }
    let mut i: usize = 0;
    while i < members.len()
        invariant
            i <= members@.len(),
            extra_fields(model_members(members@)) == model_members(additional@) + extra_fields(
                model_members(members@.skip(i as int)),
            ),
        decreases members@.len() - i,
    {
        proof {
            lemma_members_skip_unfold(members@, i as int);
        }
        let known = is_known_profile_key(members[i].0.as_slice());
        if !known {
            let ghost pre = additional@;
            let key_copy = copy_bytes(members[i].0.as_slice());
            let val_copy = json_clone(&members[i].1);
            let ghost pair = (key_copy@, jv_model(val_copy));
            additional.push((key_copy, val_copy));
            proof {
                lemma_model_members_push(pre, (additional@[pre.len() as int].0, additional@[pre.len() as int].1));
                assert(additional@ =~= pre.push(additional@[pre.len() as int]));
                assert(model_members(additional@) =~= model_members(pre).push(pair));
                let x = model_members(members@.skip(i as int));
                assert(x[0] == pair);
                assert(x.drop_first() =~= model_members(members@.skip(i as int + 1)));
                assert(extra_fields(x) == seq![pair] + extra_fields(x.drop_first()));
                assert(model_members(pre) + extra_fields(x) =~= model_members(additional@)
                    + extra_fields(model_members(members@.skip(i as int + 1))));
            }
        } else {
            proof {
                let x = model_members(members@.skip(i as int));
                assert(x.drop_first() =~= model_members(members@.skip(i as int + 1)));
                assert(extra_fields(x) == extra_fields(model_members(members@.skip(i as int + 1))));
            }
        }
        i = i + 1;
    }
    proof {
        assert(members@.skip(members@.len() as int) =~= Seq::<(Vec<u8>, JsonValue)>::empty());
        assert(model_members(Seq::<(Vec<u8>, JsonValue)>::empty())
            =~= Seq::<(Seq<u8>, JsonModel)>::empty());
        assert(extra_fields(Seq::<(Seq<u8>, JsonModel)>::empty()) =~= Seq::<(
            Seq<u8>,
            JsonModel,
        )>::empty());
        assert(model_members(additional@) + Seq::<(Seq<u8>, JsonModel)>::empty()
            =~= model_members(additional@));
    }
    Some(
        Profile {
            uuid,
            name,
            email,
            image_filename,
            created_at,
            updated_at,
            additional_fields: additional,
        },
    )
}

fn all_strings_exec(items: &Vec<JsonValue>) -> (r: Option<Vec<Vec<u8>>>)
    ensures
        match all_strings(model_list(items@)) {
            Some(ss) => r matches Some(d) && d@.map_values(|e: Vec<u8>| e@) == ss,
            None => r is None,
        },
{
    let mut acc: Vec<Vec<u8>> = Vec::new();
    proof {
        assert(items@.skip(0) =~= items@);
        assert(acc@.map_values(|e: Vec<u8>| e@) =~= Seq::<Seq<u8>>::empty());
    }
    let mut i: usize = 0;
    while i < items.len()
        invariant
            i <= items@.len(),
            match all_strings(model_list(items@.skip(i as int))) {
                Some(rest) => all_strings(model_list(items@)) == Some(
                    acc@.map_values(|e: Vec<u8>| e@) + rest,
                ),
                None => all_strings(model_list(items@)) is None,
            },
        decreases items@.len() - i,
    {
        proof {
            lemma_list_skip_unfold(items@, i as int);
            let x = model_list(items@.skip(i as int));
            assert(x[0] == jv_model(items@[i as int]));
            assert(x.drop_first() =~= model_list(items@.skip(i as int + 1)));
        }
        match &items[i] {
            JsonValue::Str(sb) => {
                let ghost pre = acc@;
                acc.push(copy_bytes(sb.as_slice()));
                proof {
                    assert(acc@ =~= pre.push(acc@[pre.len() as int]));
                    assert(acc@.map_values(|e: Vec<u8>| e@) =~= pre.map_values(
                        |e: Vec<u8>| e@,
                    ).push(sb@));
                    match all_strings(model_list(items@.skip(i as int + 1))) {
                        Some(rest2) => {
                            assert(pre.map_values(|e: Vec<u8>| e@) + (seq![sb@] + rest2)
                                =~= acc@.map_values(|e: Vec<u8>| e@) + rest2);
                        },
                        None => {},
                    }
                }
            },
            _ => {
                proof {
                    assert(all_strings(model_list(items@.skip(i as int))) is None);
                }
                return None;
            },
        }
        i = i + 1;
    }
    proof {
        assert(items@.skip(items@.len() as int) =~= Seq::<JsonValue>::empty());
        assert(model_list(Seq::<JsonValue>::empty()) =~= Seq::<JsonModel>::empty());
        assert(all_strings(Seq::<JsonModel>::empty()) == Some(Seq::<Seq<u8>>::empty()));
        assert(acc@.map_values(|e: Vec<u8>| e@) + Seq::<Seq<u8>>::empty() =~= acc@.map_values(
            |e: Vec<u8>| e@,
        ));
    }
    Some(acc)
}

fn strings_kept_exec(items: &Vec<JsonValue>) -> (r: Vec<Vec<u8>>)
    ensures
        r@.map_values(|e: Vec<u8>| e@) == strings_kept(model_list(items@)),
{
    let mut acc: Vec<Vec<u8>> = Vec::new();
    proof {
        assert(items@.skip(0) =~= items@);
        assert(acc@.map_values(|e: Vec<u8>| e@) =~= Seq::<Seq<u8>>::empty());
    }
    let mut i: usize = 0;
    while i < items.len()
        invariant
            i <= items@.len(),
            strings_kept(model_list(items@)) == acc@.map_values(|e: Vec<u8>| e@) + strings_kept(
                model_list(items@.skip(i as int)),
            ),
        decreases items@.len() - i,
    {
        proof {
            lemma_list_skip_unfold(items@, i as int);
            let x = model_list(items@.skip(i as int));
            assert(x[0] == jv_model(items@[i as int]));
            assert(x.drop_first() =~= model_list(items@.skip(i as int + 1)));
        }
        match &items[i] {
            JsonValue::Str(sb) => {
                let ghost pre = acc@;
                acc.push(copy_bytes(sb.as_slice()));
                proof {
                    assert(acc@ =~= pre.push(acc@[pre.len() as int]));
                    assert(acc@.map_values(|e: Vec<u8>| e@) =~= pre.map_values(
                        |e: Vec<u8>| e@,
                    ).push(sb@));
                    assert(pre.map_values(|e: Vec<u8>| e@) + (seq![sb@] + strings_kept(
                        model_list(items@.skip(i as int + 1)),
                    )) =~= acc@.map_values(|e: Vec<u8>| e@) + strings_kept(
                        model_list(items@.skip(i as int + 1)),
                    ));
                }
            },
            _ => {},
        }
        i = i + 1;
    }
    proof {
        assert(items@.skip(items@.len() as int) =~= Seq::<JsonValue>::empty());
        assert(model_list(Seq::<JsonValue>::empty()) =~= Seq::<JsonModel>::empty());
        assert(strings_kept(Seq::<JsonModel>::empty()) =~= Seq::<Seq<u8>>::empty());
        assert(acc@.map_values(|e: Vec<u8>| e@) + Seq::<Seq<u8>>::empty() =~= acc@.map_values(
            |e: Vec<u8>| e@,
        ));
    }
    acc
}

/// Decode the full envelope from a parsed JSON document.
pub fn decode_envelope_exec(v: &JsonValue) -> (r: Option<ProfileResponse>)
    ensures
        match decode_envelope(jv_model(*v)) {
            Some(em) => r matches Some(env) && env@ == em,
            None => r is None,
        },
{
    match v {
        JsonValue::Obj(ms) => {
            let key = lit_success();
            let success = match obj_find(ms, key.as_slice()) {
                Some(sv) => match sv {
                    JsonValue::Bool(b) => *b,
                    _ => {
                        return None;
                    },
                },
                None => {
                    return None;
                },
            };
            let key = lit_profile();
            let profile = match obj_find(ms, key.as_slice()) {
                None => None,
                Some(pv) => match pv {
                    JsonValue::Null => None,
                    JsonValue::Obj(pms) => match decode_profile_members(pms) {
                        Some(p) => Some(p),
                        None => {
                            return None;
                        },
                    },
                    _ => {
                        return None;
                    },
                },
            };
            let key = lit_error();
            let error = match obj_find(ms, key.as_slice()) {
                None => None,
                Some(ev) => match ev {
                    JsonValue::Null => None,
                    JsonValue::Str(sb) => Some(copy_bytes(sb.as_slice())),
                    _ => {
                        return None;
                    },
                },
            };
            let key = lit_details();
            let details = match obj_find(ms, key.as_slice()) {
                None => None,
                Some(dv) => match dv {
                    JsonValue::Null => None,
                    JsonValue::Arr(ditems) => match all_strings_exec(ditems) {
                        Some(d) => Some(d),
                        None => {
                            return None;
                        },
                    },
                    _ => {
                        return None;
                    },
                },
            };
            Some(ProfileResponse { success, profile, error, details })
        },
        _ => None,
    }
}

/// Decode the tolerated alternate error shape.
pub fn fallback_envelope_exec(v: &JsonValue) -> (r: Option<ProfileResponse>)
    ensures
        match fallback_envelope(jv_model(*v)) {
            Some(em) => r matches Some(env) && env@ == em,
            None => r is None,
        },
{
    match v {
        JsonValue::Obj(ms) => {
            let key = lit_error();
            match obj_find(ms, key.as_slice()) {
                Some(ev) => match ev {
                    JsonValue::Str(sb) => {
                        let key = lit_details();
                        let details = match obj_find(ms, key.as_slice()) {
                            Some(dv) => match dv {
                                JsonValue::Arr(ditems) => Some(strings_kept_exec(ditems)),
                                _ => None,
                            },
                            None => None,
                        };
                        Some(
                            ProfileResponse {
                                success: false,
                                profile: None,
                                error: Some(copy_bytes(sb.as_slice())),
                                details,
                            },
                        )
                    },
                    _ => None,
                },
                None => None,
            }
        },
        _ => None,
    }
}

/// Map a decoded envelope and the HTTP status to the final result.
pub fn envelope_result(status: u16, env: ProfileResponse, nf_default: Vec<u8>) -> (r: Result<
    Profile,
    ProfError,
>)
    ensures
        rel_profile_result(envelope_to_result(status, env@, nf_default@), r),
{
    if !env.success {
        if status == 400 {
            match env.details {
                Some(d) => Err(ProfError::Validation { errors: d }),
                None => match env.error {
                    Some(e) => Err(ProfError::Service(e)),
                    None => Err(ProfError::Service(lit_validation_failed())),
                },
            }
        } else if status == 404 {
            match env.error {
                Some(e) => Err(ProfError::NotFound(e)),
                None => Err(ProfError::NotFound(nf_default)),
            }
        } else {
            match env.error {
                Some(e) => Err(ProfError::Service(e)),
                None => Err(ProfError::Service(lit_unknown_error())),
            }
        }
    } else {
        match env.profile {
            Some(p) => Ok(p),
            None => Err(ProfError::Service(lit_no_profile())),
        }
    }
}

fn interpret_profile_body(status: u16, body: &[u8], nf_default: Vec<u8>) -> (r: Result<
    Profile,
    ProfError,
>)
    ensures
        rel_profile_result(interpret_profile(status, body@, nf_default@), r),
{
    match parse_json(body) {
        None => {
            let mut msg = lit_could_not_parse_prefix();
            append_bytes(&mut msg, body);
            Err(ProfError::Service(msg))
        },
        Some(doc) => match decode_envelope_exec(&doc) {
            Some(env) => envelope_result(status, env, nf_default),
            None => match fallback_envelope_exec(&doc) {
                Some(env) => envelope_result(status, env, nf_default),
                None => {
                    let mut msg = lit_invalid_format_prefix();
                    append_bytes(&mut msg, body);
                    Err(ProfError::Service(msg))
                },
            },
        },
    }
}

/// Interpret the response of profile creation.
pub fn interpret_create_profile_response(status: u16, body: &[u8]) -> (r: Result<
    Profile,
    ProfError,
>)
    ensures
        rel_profile_result(interpret_profile(status, body@, txt_not_found_default()), r),
{
    interpret_profile_body(status, body, lit_not_found_default())
}

/// Interpret the response of a profile update.
pub fn interpret_update_profile_response(status: u16, body: &[u8]) -> (r: Result<
    Profile,
    ProfError,
>)
    ensures
        rel_profile_result(interpret_profile(status, body@, txt_profile_not_found()), r),
{
    interpret_profile_body(status, body, lit_profile_not_found())
}

/// Interpret the response of a profile fetch.
pub fn interpret_get_profile_response(status: u16, body: &[u8]) -> (r: Result<Profile, ProfError>)
    ensures
        rel_profile_result(interpret_profile(status, body@, txt_profile_not_found()), r),
{
    interpret_profile_body(status, body, lit_profile_not_found())
}

/// Interpret the response of a profile deletion.
pub fn interpret_delete_response(status: u16, body: &[u8]) -> (r: Result<(), ProfError>)
    ensures
        match interpret_delete(status, body@) {
            Ok(u) => r is Ok,
            Err(em) => r matches Err(e) && e@ == em,
        },
{
    if 200 <= status && status < 300 {
        Ok(())
    } else {
        match parse_json(body) {
            Some(doc) => match decode_envelope_exec(&doc) {
                Some(env) => match env.error {
                    Some(e) => Err(ProfError::Service(e)),
                    None => Err(ProfError::Service(lit_delete_failed())),
                },
                None => Err(ProfError::Serialization(copy_bytes(body))),
            },
            None => Err(ProfError::Serialization(copy_bytes(body))),
        }
    }
}

/// Interpret the response of the health endpoint.
pub fn interpret_health_response(body: &[u8]) -> (r: Result<HealthResponse, ProfError>)
    ensures
        match interpret_health(body@) {
            Ok(hm) => r matches Ok(h) && h@ == hm,
            Err(em) => r matches Err(e) && e@ == em,
        },
{
    match parse_json(body) {
        Some(doc) => match &doc {
            JsonValue::Obj(ms) => {
                let key = lit_status();
                let status = match obj_find(ms, key.as_slice()) {
                    Some(v) => match v {
                        JsonValue::Str(sb) => copy_bytes(sb.as_slice()),
                        _ => {
                            return Err(ProfError::Serialization(copy_bytes(body)));
                        },
                    },
                    None => {
                        return Err(ProfError::Serialization(copy_bytes(body)));
                    },
                };
                let key = lit_service();
                let service = match obj_find(ms, key.as_slice()) {
                    Some(v) => match v {
                        JsonValue::Str(sb) => copy_bytes(sb.as_slice()),
                        _ => {
                            return Err(ProfError::Serialization(copy_bytes(body)));
                        },
                    },
                    None => {
                        return Err(ProfError::Serialization(copy_bytes(body)));
                    },
                };
                let key = lit_version();
                let version = match obj_find(ms, key.as_slice()) {
                    Some(v) => match v {
                        JsonValue::Str(sb) => copy_bytes(sb.as_slice()),
                        _ => {
                            return Err(ProfError::Serialization(copy_bytes(body)));
                        },
                    },
                    None => {
                        return Err(ProfError::Serialization(copy_bytes(body)));
                    },
                };
                let key = lit_timestamp();
                let timestamp = match obj_find(ms, key.as_slice()) {
                    Some(v) => match v {
                        JsonValue::Str(sb) => copy_bytes(sb.as_slice()),
                        _ => {
                            return Err(ProfError::Serialization(copy_bytes(body)));
                        },
                    },
                    None => {
                        return Err(ProfError::Serialization(copy_bytes(body)));
                    },
                };
                Ok(HealthResponse { status, service, version, timestamp })
            },
            _ => Err(ProfError::Serialization(copy_bytes(body))),
        },
        None => Err(ProfError::Serialization(copy_bytes(body))),
    }
}

/// Interpret the response of a spell invocation.
pub fn interpret_spell_response(body: &[u8]) -> (r: Result<MagicResponse, ProfError>)
    ensures
        match interpret_spell(body@) {
            Ok(mm) => r matches Ok(m) && m@ == mm,
            Err(em) => r matches Err(e) && e@ == em,
        },
{
    match parse_json(body) {
        Some(doc) => match &doc {
            JsonValue::Obj(ms) => {
                let key = lit_success();
                let success = match obj_find(ms, key.as_slice()) {
                    Some(sv) => match sv {
                        JsonValue::Bool(b) => *b,
                        _ => {
                            return Err(ProfError::Serialization(copy_bytes(body)));
                        },
                    },
                    None => {
                        return Err(ProfError::Serialization(copy_bytes(body)));
                    },
                };
                let key = lit_error();
                let error = match obj_find(ms, key.as_slice()) {
                    None => None,
                    Some(ev) => match ev {
                        JsonValue::Null => None,
                        JsonValue::Str(sb) => Some(copy_bytes(sb.as_slice())),
                        _ => {
                            return Err(ProfError::Serialization(copy_bytes(body)));
                        },
                    },
                };
                if !success {
                    match error {
                        Some(e) => Err(ProfError::Service(e)),
                        None => Err(ProfError::Service(lit_spell_failed())),
                    }
                } else {
                    let mut data: Vec<(Vec<u8>, JsonValue)> = Vec::new();
                    proof {
                        assert(ms@.skip(0) =~= ms@);
                        assert(model_members(Seq::<(Vec<u8>, JsonValue)>::empty())
                            =~= Seq::<(Seq<u8>, JsonModel)>::empty());
                        assert(Seq::<(Seq<u8>, JsonModel)>::empty() + magic_extra(
                            model_members(ms@),
                        ) =~= magic_extra(model_members(ms@)));
                    }
                    let mut i: usize = 0;
                    while i < ms.len()
                        invariant
                            i <= ms@.len(),
                            magic_extra(model_members(ms@)) == model_members(data@) + magic_extra(
                                model_members(ms@.skip(i as int)),
                            ),
                        decreases ms@.len() - i,
                    {
                        proof {
                            lemma_members_skip_unfold(ms@, i as int);
                            let x = model_members(ms@.skip(i as int));
                            assert(x[0] == (ms@[i as int].0@, jv_model(ms@[i as int].1)));
                            assert(x.drop_first() =~= model_members(ms@.skip(i as int + 1)));
                        }
                        let known = is_known_magic_key(ms[i].0.as_slice());
                        if !known {
                            let ghost pre = data@;
                            let key_copy = copy_bytes(ms[i].0.as_slice());
                            let val_copy = json_clone(&ms[i].1);
                            let ghost pair = (key_copy@, jv_model(val_copy));
                            data.push((key_copy, val_copy));
                            proof {
                                lemma_model_members_push(
                                    pre,
                                    (data@[pre.len() as int].0, data@[pre.len() as int].1),
                                );
                                assert(data@ =~= pre.push(data@[pre.len() as int]));
                                assert(model_members(data@) =~= model_members(pre).push(pair));
                                let x = model_members(ms@.skip(i as int));
                                assert(magic_extra(x) == seq![pair] + magic_extra(x.drop_first()));
                                assert(model_members(pre) + magic_extra(x) =~= model_members(data@)
                                    + magic_extra(model_members(ms@.skip(i as int + 1))));
                            }
                        } else {
                            proof {
                                let x = model_members(ms@.skip(i as int));
                                assert(magic_extra(x) == magic_extra(
                                    model_members(ms@.skip(i as int + 1)),
                                ));
                            }
                        }
                        i = i + 1;
                    }
                    proof {
                        assert(ms@.skip(ms@.len() as int) =~= Seq::<(Vec<u8>, JsonValue)>::empty());
                        assert(model_members(Seq::<(Vec<u8>, JsonValue)>::empty())
                            =~= Seq::<(Seq<u8>, JsonModel)>::empty());
                        assert(magic_extra(Seq::<(Seq<u8>, JsonModel)>::empty()) =~= Seq::<(
                            Seq<u8>,
                            JsonModel,
                        )>::empty());
                        assert(model_members(data@) + Seq::<(Seq<u8>, JsonModel)>::empty()
                            =~= model_members(data@));
                    }
                    Ok(MagicResponse { success, error, data })
                }
            },
            _ => Err(ProfError::Serialization(copy_bytes(body))),
        },
        None => Err(ProfError::Serialization(copy_bytes(body))),
    }
}

/// Interpret the response of an image fetch: any non-success status is
/// reported as NotFound, a success status hands the raw bytes through.
pub fn interpret_image_response(status: u16, body: Vec<u8>) -> (r: Result<Vec<u8>, ProfError>)
    ensures
        is_success_status(status) ==> (r matches Ok(b) && b@ == body@),
        !is_success_status(status) ==> (r matches Err(e) && e@ == ErrorModel::NotFound(
            txt_image_not_found(),
        )),
{
    if 200 <= status && status < 300 {
        Ok(body)
    } else {
        Err(ProfError::NotFound(lit_image_not_found()))
    }
}

} // verus!
