//! The client: connection configuration, signing identity, auth-parameter
//! generation, URL construction, and MIME detection.
use vstd::prelude::*;
use sessionless::Sessionless;
use sessionless::hex::IntoHex;
use crate::dec_rep;
use crate::u64_to_dec;
use crate::error::ProfError;
use crate::error::ErrorModel;
use crate::json::JsonModel;
use crate::json::JsonValue;
use crate::json::jv_model;
use crate::json::model_members;
use crate::json::lemma_model_members_push;
use crate::json::lemma_members_skip_unfold;
use crate::json::json_clone;
use crate::json::append_bytes;
use crate::json::copy_bytes;
use crate::json::bytes_eq;
use crate::json::ser;
use crate::json::serialize_json;
use crate::text::txt_uuid;
use crate::text::txt_timestamp;
use crate::text::txt_hash;
use crate::text::txt_signature;
use crate::text::txt_auth_not_configured;
use crate::text::txt_path_user;
use crate::text::txt_path_profile;
use crate::text::txt_path_profile_image;
use crate::text::txt_path_health;
use crate::text::txt_path_magic_spell;
use crate::text::txt_ext_jpg;
use crate::text::txt_ext_jpeg;
use crate::text::txt_ext_png;
use crate::text::txt_ext_webp;
use crate::text::txt_mime_jpeg;
use crate::text::txt_mime_png;
use crate::text::txt_mime_webp;
use crate::text::txt_mime_octet;
use crate::text::lit_uuid;
use crate::text::lit_timestamp;
use crate::text::lit_hash;
use crate::text::lit_signature;
use crate::text::lit_auth_not_configured;
use crate::text::lit_path_user;
use crate::text::lit_path_profile;
use crate::text::lit_path_profile_image;
use crate::text::lit_path_health;
use crate::text::lit_path_magic_spell;
use crate::text::lit_ext_jpg;
use crate::text::lit_ext_jpeg;
use crate::text::lit_ext_png;
use crate::text::lit_ext_webp;
use crate::text::lit_mime_jpeg;
use crate::text::lit_mime_png;
use crate::text::lit_mime_webp;
use crate::text::lit_mime_octet;

verus! {

#[verifier::external_type_specification]
#[verifier::external_body]
pub struct ExSessionless(Sessionless);

/// Relies on `Sessionless::public_key` and `IntoHex::to_hex` for
/// `secp256k1::PublicKey`: the hex encoding of the 33-byte compressed public
/// key, two hex digits per byte.
#[verifier::external_body]
fn public_key_hex(s: &Sessionless) -> (r: Vec<u8>)
    ensures
        r@.len() == 66,
{
    s.public_key().to_hex().into_bytes()
}

/// Relies on `Sessionless::sign` and `IntoHex::to_hex` for
/// `secp256k1::ecdsa::Signature`: the hex encoding of the 64-byte compact
/// signature over the message.
#[verifier::external_body]
fn sign_hex(s: &Sessionless, message: &[u8]) -> (r: Vec<u8>)
    ensures
        r@.len() == 128,
{
    s.sign(message).to_hex().into_bytes()
}

/// Relies on `uuid::Uuid::new_v4` and its `Display` form: a random version-4
/// UUID rendered in the 36-character hyphenated form. Freshness is
/// probabilistic, so nothing is claimed beyond the length.
#[verifier::external_body]
fn fresh_nonce() -> (r: Vec<u8>)
    ensures
        r@.len() == 36,
{
    uuid::Uuid::new_v4().to_string().into_bytes()
}

/// Relies on `std::time::SystemTime::now` and
/// `SystemTime::duration_since(UNIX_EPOCH)`: wall-clock milliseconds since
/// the Unix epoch; a clock before the epoch yields zero.
#[verifier::external_body]
fn now_millis() -> (r: u64)
{
    match std::time::SystemTime::now().duration_since(std::time::UNIX_EPOCH) {
        Ok(d) => d.as_millis() as u64,
        Err(_) => 0,
    }
}

/// The four per-request authentication values, all freshly generated.
#[derive(Debug, PartialEq, Eq)]
pub struct AuthParams {
    pub uuid: Vec<u8>,
    pub timestamp: Vec<u8>,
    pub hash: Vec<u8>,
    pub signature: Vec<u8>,
}

/// The model of the four authentication values.
pub struct AuthModel {
    pub uuid: Seq<u8>,
    pub timestamp: Seq<u8>,
    pub hash: Seq<u8>,
    pub signature: Seq<u8>,
}

impl View for AuthParams {
    type V = AuthModel;

    open spec fn view(&self) -> AuthModel {
        AuthModel {
            uuid: self.uuid@,
            timestamp: self.timestamp@,
            hash: self.hash@,
            signature: self.signature@,
        }
    }
}

/// What every set of auth parameters generated for `identity` satisfies: the
/// uuid is the signer's hex identity, the timestamp is the decimal rendering
/// of some millisecond clock value, the nonce has UUID length, the signature
/// has compact-hex length.
pub open spec fn auth_ok(identity: Seq<u8>, a: AuthModel) -> bool {
    &&& a.uuid == identity
    &&& exists|ms: u64| a.timestamp == dec_rep(ms as nat)
    &&& a.hash.len() == 36
    &&& a.signature.len() == 128
}

/// The query string carrying the four auth values, in fixed order.
pub open spec fn auth_query(a: AuthModel) -> Seq<u8> {
    txt_uuid() + seq![0x3du8] + a.uuid + seq![0x26u8] + txt_timestamp() + seq![0x3du8]
        + a.timestamp + seq![0x26u8] + txt_hash() + seq![0x3du8] + a.hash + seq![0x26u8]
        + txt_signature() + seq![0x3du8] + a.signature
}

/// The members of a JSON object carrying the four auth values, in fixed
/// order.
pub open spec fn auth_members(a: AuthModel) -> Seq<(Seq<u8>, JsonModel)> {
    seq![
        (txt_uuid(), JsonModel::Str(a.uuid)),
        (txt_timestamp(), JsonModel::Str(a.timestamp)),
        (txt_hash(), JsonModel::Str(a.hash)),
        (txt_signature(), JsonModel::Str(a.signature)),
    ]
}

pub open spec fn profile_url(base: Seq<u8>, uuid: Seq<u8>) -> Seq<u8> {
    base + txt_path_user() + uuid + txt_path_profile()
}

pub open spec fn profile_url_with_auth(base: Seq<u8>, uuid: Seq<u8>, a: AuthModel) -> Seq<u8> {
    profile_url(base, uuid) + seq![0x3fu8] + auth_query(a)
}

pub open spec fn profile_image_url(base: Seq<u8>, uuid: Seq<u8>) -> Seq<u8> {
    base + txt_path_user() + uuid + txt_path_profile_image()
}

pub open spec fn image_url_with_auth(base: Seq<u8>, uuid: Seq<u8>, a: AuthModel) -> Seq<u8> {
    profile_image_url(base, uuid) + seq![0x3fu8] + auth_query(a)
}

pub open spec fn health_url(base: Seq<u8>) -> Seq<u8> {
    base + txt_path_health()
}

pub open spec fn spell_url(base: Seq<u8>, name: Seq<u8>) -> Seq<u8> {
    base + txt_path_magic_spell() + name
}

/// A base URL with one trailing slash stripped.
pub open spec fn normalized(base: Seq<u8>) -> Seq<u8> {
    if base.len() > 0 && base[base.len() - 1] == 0x2f {
        base.drop_last()
    } else {
        base
    }
}

/// The profile-service client: a base URL and an optional signing identity.
/// `identity_hex` caches the signer's hex public key; it is empty while no
/// signer is configured.
pub struct ProfClient {
    pub base_url: Vec<u8>,
    pub signer: Option<Sessionless>,
    pub identity_hex: Vec<u8>,
}

impl ProfClient {
    /// Create a client for `base_url`, stripping one trailing slash.
    pub fn new(base_url: Vec<u8>) -> (r: Self)
        ensures
            r.base_url@ == normalized(base_url@),
            r.signer is None,
            r.identity_hex@.len() == 0,
    {
        let mut b = base_url;
        if b.len() > 0 && b[b.len() - 1] == 0x2f {
            let ghost before = b@;
            b.pop();
            proof {
                assert(b@ =~= before.drop_last());
            }
        }
        ProfClient { base_url: b, signer: None, identity_hex: Vec::new() }
    }

    /// Attach a signing identity, consuming the client.
    pub fn with_sessionless(self, sessionless: Sessionless) -> (r: Self)
        ensures
            r.base_url@ == self.base_url@,
            r.signer is Some,
            r.identity_hex@.len() == 66,
    {
        let hexid = public_key_hex(&sessionless);
        ProfClient { base_url: self.base_url, signer: Some(sessionless), identity_hex: hexid }
    }

    /// Replace the signing identity in place.
    pub fn set_sessionless(&mut self, sessionless: Sessionless)
        ensures
            final(self).base_url@ == old(self).base_url@,
            final(self).signer is Some,
            final(self).identity_hex@.len() == 66,
    {
        self.identity_hex = public_key_hex(&sessionless);
        self.signer = Some(sessionless);
    }

    /// Generate fresh auth parameters: fails exactly when no signer is
    /// configured; otherwise all four values are present, the uuid being the
    /// signer's hex identity.
    pub fn get_auth_params(&self) -> (r: Result<AuthParams, ProfError>)
        ensures
            self.signer is None ==> (r matches Err(e) && e@ == ErrorModel::Auth(
                txt_auth_not_configured(),
            )),
            self.signer is Some ==> (r matches Ok(a) && auth_ok(self.identity_hex@, a@)),
    {
        match &self.signer {
            None => Err(ProfError::Auth(lit_auth_not_configured())),
            Some(sess) => {
                let ms = now_millis();
                let timestamp = u64_to_dec(ms);
                let hash = fresh_nonce();
                let signature = sign_hex(sess, timestamp.as_slice());
                let uuid = copy_bytes(self.identity_hex.as_slice());
                let a = AuthParams { uuid, timestamp, hash, signature };
                proof {
                    assert(a@.timestamp == dec_rep(ms as nat));
                    assert(exists|m: u64| a@.timestamp == dec_rep(m as nat));
                }
                Ok(a)
            },
        }
    }

    /// The profile URL for `uuid` under this client's base URL.
    pub fn build_profile_url(&self, uuid: &[u8]) -> (r: Vec<u8>)
        ensures
            r@ == profile_url(self.base_url@, uuid@),
    {
        let mut out = copy_bytes(self.base_url.as_slice());
        let seg = lit_path_user();
        append_bytes(&mut out, seg.as_slice());
        append_bytes(&mut out, uuid);
        let seg = lit_path_profile();
        append_bytes(&mut out, seg.as_slice());
        proof {
            assert(out@ =~= profile_url(self.base_url@, uuid@));
        }
        out
    }

    /// The health URL under this client's base URL.
    pub fn build_health_url(&self) -> (r: Vec<u8>)
        ensures
            r@ == health_url(self.base_url@),
    {
        let mut out = copy_bytes(self.base_url.as_slice());
        let seg = lit_path_health();
        append_bytes(&mut out, seg.as_slice());
        proof {
            assert(out@ =~= health_url(self.base_url@));
        }
        out
    }

    /// The spell URL for `name` under this client's base URL.
    pub fn build_spell_url(&self, name: &[u8]) -> (r: Vec<u8>)
        ensures
            r@ == spell_url(self.base_url@, name@),
    {
        let mut out = copy_bytes(self.base_url.as_slice());
        let seg = lit_path_magic_spell();
        append_bytes(&mut out, seg.as_slice());
        append_bytes(&mut out, name);
        proof {
            assert(out@ =~= spell_url(self.base_url@, name@));
        }
        out
    }
}

/// The query string `uuid=..&timestamp=..&hash=..&signature=..`, values
/// unescaped, in fixed order.
pub fn build_auth_query(a: &AuthParams) -> (r: Vec<u8>)
    ensures
        r@ == auth_query(a@),
{
    let mut out: Vec<u8> = Vec::new();
    let k = lit_uuid();
    append_bytes(&mut out, k.as_slice());
    out.push(0x3d);
    append_bytes(&mut out, a.uuid.as_slice());
    out.push(0x26);
    let k = lit_timestamp();
    append_bytes(&mut out, k.as_slice());
    out.push(0x3d);
    append_bytes(&mut out, a.timestamp.as_slice());
    out.push(0x26);
    let k = lit_hash();
    append_bytes(&mut out, k.as_slice());
    out.push(0x3d);
    append_bytes(&mut out, a.hash.as_slice());
    out.push(0x26);
    let k = lit_signature();
    append_bytes(&mut out, k.as_slice());
    out.push(0x3d);
    append_bytes(&mut out, a.signature.as_slice());
    proof {
        assert(out@ =~= auth_query(a@));
    }
    out
}

impl ProfClient {
    /// The profile URL for `uuid` with the auth query string attached.
    pub fn build_profile_url_with_auth(&self, uuid: &[u8], a: &AuthParams) -> (r: Vec<u8>)
        ensures
            r@ == profile_url_with_auth(self.base_url@, uuid@, a@),
    {
        let mut out = self.build_profile_url(uuid);
        out.push(0x3f);
        let q = build_auth_query(a);
        append_bytes(&mut out, q.as_slice());
        proof {
            assert(out@ =~= profile_url_with_auth(self.base_url@, uuid@, a@));
        }
        out
    }

    /// The image URL for `uuid` with the auth query string attached.
    pub fn build_image_url_with_auth(&self, uuid: &[u8], a: &AuthParams) -> (r: Vec<u8>)
        ensures
            r@ == image_url_with_auth(self.base_url@, uuid@, a@),
    {
        let mut out = copy_bytes(self.base_url.as_slice());
        let seg = lit_path_user();
        append_bytes(&mut out, seg.as_slice());
        append_bytes(&mut out, uuid);
        let seg = lit_path_profile_image();
        append_bytes(&mut out, seg.as_slice());
        out.push(0x3f);
        let q = build_auth_query(a);
        append_bytes(&mut out, q.as_slice());
        proof {
            assert(out@ =~= image_url_with_auth(self.base_url@, uuid@, a@));
        }
        out
    }

    /// The authenticated image URL: pure construction from the client's own
    /// fields, the signer, the clock and a fresh nonce, with no network or
    /// file contact (nothing in this crate performs I/O, and the borrowed
    /// receiver leaves the client unchanged). On success the URL is exactly
    /// the image path for the target (the argument, or the signer's own
    /// identity) followed by the four auth values as a query string, the
    /// uuid among them being the signer's hex identity.
    pub fn get_profile_image_url(&self, uuid: Option<&[u8]>) -> (r: Result<Vec<u8>, ProfError>)
        ensures
            self.signer is None ==> (r matches Err(e) && e@ == ErrorModel::Auth(
                txt_auth_not_configured(),
            )),
            self.signer is Some ==> (r matches Ok(u) && exists|a: AuthModel|
                #[trigger] auth_ok(self.identity_hex@, a) && u@ == image_url_with_auth(
                    self.base_url@,
                    match uuid {
                        Some(x) => x@,
                        None => self.identity_hex@,
                    },
                    a,
                )),
    {
        let auth = match self.get_auth_params() {
            Ok(a) => a,
            Err(e) => {
                return Err(e);
            },
        };
        let url = match uuid {
            Some(u) => self.build_image_url_with_auth(u, &auth),
            None => {
                let own = copy_bytes(self.identity_hex.as_slice());
                self.build_image_url_with_auth(own.as_slice(), &auth)
            },
        };
        proof {
            assert(auth_ok(self.identity_hex@, auth@));
        }
        Ok(url)
    }
}

/// The serialized JSON body holding exactly the four auth values.
pub fn build_auth_body(a: &AuthParams) -> (r: Vec<u8>)
    ensures
        r@ == ser(JsonModel::Obj(auth_members(a@))),
{
    let mut members: Vec<(Vec<u8>, JsonValue)> = Vec::new();
    members.push((lit_uuid(), JsonValue::Str(copy_bytes(a.uuid.as_slice()))));
    members.push((lit_timestamp(), JsonValue::Str(copy_bytes(a.timestamp.as_slice()))));
    members.push((lit_hash(), JsonValue::Str(copy_bytes(a.hash.as_slice()))));
    members.push((lit_signature(), JsonValue::Str(copy_bytes(a.signature.as_slice()))));
    let doc = JsonValue::Obj(members);
    proof {
        assert(jv_model(doc) == JsonModel::Obj(auth_members(a@))) by {
            assert(jv_model(doc) == JsonModel::Obj(model_members(doc->Obj_0@)));
            assert(model_members(doc->Obj_0@) =~= auth_members(a@)) by {
                let ms = doc->Obj_0@;
                assert(ms.len() == 4);
                assert(model_members(ms) == seq![(ms[0].0@, jv_model(ms[0].1))] + model_members(
                    ms.drop_first(),
                ));
                assert(ms.drop_first().drop_first() =~= ms.skip(2));
                assert(model_members(ms.drop_first()) == seq![
                    (ms.drop_first()[0].0@, jv_model(ms.drop_first()[0].1)),
                ] + model_members(ms.drop_first().drop_first()));
                assert(model_members(ms.skip(2)) == seq![
                    (ms.skip(2)[0].0@, jv_model(ms.skip(2)[0].1)),
                ] + model_members(ms.skip(2).drop_first()));
                assert(ms.skip(2).drop_first() =~= ms.skip(3));
                assert(model_members(ms.skip(3)) == seq![
                    (ms.skip(3)[0].0@, jv_model(ms.skip(3)[0].1)),
                ] + model_members(ms.skip(3).drop_first()));
                assert(ms.skip(3).drop_first() =~= Seq::<(Vec<u8>, JsonValue)>::empty());
                assert(model_members(Seq::<(Vec<u8>, JsonValue)>::empty())
                    =~= Seq::<(Seq<u8>, JsonModel)>::empty());
            }
        }
    }
    serialize_json(&doc)
}

/// Whether `k` is one of the four auth member keys.
pub open spec fn is_auth_key(k: Seq<u8>) -> bool {
    k == txt_uuid() || k == txt_timestamp() || k == txt_hash() || k == txt_signature()
}

fn is_auth_key_exec(k: &[u8]) -> (r: bool)
    ensures
        r == is_auth_key(k@),
{
    let a = lit_uuid();
    if bytes_eq(k, a.as_slice()) {
        return true;
    }
    let b = lit_timestamp();
    if bytes_eq(k, b.as_slice()) {
        return true;
    }
    let c = lit_hash();
    if bytes_eq(k, c.as_slice()) {
        return true;
    }
    let d = lit_signature();
    if bytes_eq(k, d.as_slice()) {
        return true;
    }
    false
}

/// The caller's members whose key is not an auth key, in order.
pub open spec fn non_auth_members(ms: Seq<(Seq<u8>, JsonModel)>) -> Seq<(Seq<u8>, JsonModel)>
    decreases ms.len(),
{
    if ms.len() == 0 {
        seq![]
    } else if is_auth_key(ms[0].0) {
        non_auth_members(ms.drop_first())
    } else {
        seq![ms[0]] + non_auth_members(ms.drop_first())
    }
}

/// The serialized JSON body for a spell: the caller's data with the four
/// auth values as string members. An auth value overwrites a same-named
/// member of the caller's data: the caller's copy is dropped, so each auth
/// key occurs exactly once, bound to the auth value.
pub fn build_spell_body(data: Vec<(Vec<u8>, JsonValue)>, a: &AuthParams) -> (r: Vec<u8>)
    ensures
        r@ == ser(
            JsonModel::Obj(non_auth_members(model_members(data@)) + auth_members(a@)),
        ),
{
    let ghost orig = non_auth_members(model_members(data@));
    let mut members: Vec<(Vec<u8>, JsonValue)> = Vec::new();
    proof {
        assert(data@.skip(0) =~= data@);
        assert(model_members(Seq::<(Vec<u8>, JsonValue)>::empty())
            =~= Seq::<(Seq<u8>, JsonModel)>::empty());
        assert(Seq::<(Seq<u8>, JsonModel)>::empty() + non_auth_members(model_members(data@))
            =~= non_auth_members(model_members(data@)));
    }
    let mut i: usize = 0;
    while i < data.len()
        invariant
            i <= data@.len(),
            non_auth_members(model_members(data@)) == model_members(members@) + non_auth_members(
                model_members(data@.skip(i as int)),
            ),
        decreases data@.len() - i,
    {
        proof {
            lemma_members_skip_unfold(data@, i as int);
            let x = model_members(data@.skip(i as int));
            assert(x[0] == (data@[i as int].0@, jv_model(data@[i as int].1)));
            assert(x.drop_first() =~= model_members(data@.skip(i as int + 1)));
        }
        let keep = !is_auth_key_exec(data[i].0.as_slice());
        if keep {
            let ghost pre = members@;
            let key_copy = copy_bytes(data[i].0.as_slice());
            let val_copy = json_clone(&data[i].1);
            let ghost pair = (key_copy@, jv_model(val_copy));
            members.push((key_copy, val_copy));
            proof {
                lemma_model_members_push(
                    pre,
                    (members@[pre.len() as int].0, members@[pre.len() as int].1),
                );
                assert(members@ =~= pre.push(members@[pre.len() as int]));
                assert(model_members(members@) =~= model_members(pre).push(pair));
                let x = model_members(data@.skip(i as int));
                assert(non_auth_members(x) == seq![pair] + non_auth_members(x.drop_first()));
                assert(model_members(pre) + non_auth_members(x) =~= model_members(members@)
                    + non_auth_members(model_members(data@.skip(i as int + 1))));
            }
        } else {
            proof {
                let x = model_members(data@.skip(i as int));
                assert(non_auth_members(x) == non_auth_members(
                    model_members(data@.skip(i as int + 1)),
                ));
            }
        }
        i = i + 1;
    }
    proof {
        assert(data@.skip(data@.len() as int) =~= Seq::<(Vec<u8>, JsonValue)>::empty());
        assert(model_members(Seq::<(Vec<u8>, JsonValue)>::empty())
            =~= Seq::<(Seq<u8>, JsonModel)>::empty());
        assert(non_auth_members(Seq::<(Seq<u8>, JsonModel)>::empty()) =~= Seq::<(
            Seq<u8>,
            JsonModel,
        )>::empty());
        assert(model_members(members@) + Seq::<(Seq<u8>, JsonModel)>::empty()
            =~= model_members(members@));
        assert(model_members(members@) == orig);
    }
    let ghost m0 = members@;
    members.push((lit_uuid(), JsonValue::Str(copy_bytes(a.uuid.as_slice()))));
    let ghost m1 = members@;
    members.push((lit_timestamp(), JsonValue::Str(copy_bytes(a.timestamp.as_slice()))));
    let ghost m2 = members@;
    members.push((lit_hash(), JsonValue::Str(copy_bytes(a.hash.as_slice()))));
    let ghost m3 = members@;
    members.push((lit_signature(), JsonValue::Str(copy_bytes(a.signature.as_slice()))));
    proof {
        lemma_model_members_push(m0, m1[m0.len() as int]);
        assert(m1 =~= m0.push(m1[m0.len() as int]));
        lemma_model_members_push(m1, m2[m1.len() as int]);
        assert(m2 =~= m1.push(m2[m1.len() as int]));
        lemma_model_members_push(m2, m3[m2.len() as int]);
        assert(m3 =~= m2.push(m3[m2.len() as int]));
        lemma_model_members_push(m3, members@[m3.len() as int]);
        assert(members@ =~= m3.push(members@[m3.len() as int]));
        assert(model_members(members@) =~= orig + auth_members(a@));
    }
    let doc = JsonValue::Obj(members);
    serialize_json(&doc)
}

/// Extension of a file name: everything after the last dot, or the whole
/// name when there is none.
pub open spec fn ext_from(s: Seq<u8>, i: int) -> Seq<u8>
    decreases i,
{
    if i <= 0 {
        s
    } else if s[i - 1] == 0x2e {
        s.subrange(i, s.len() as int)
    } else {
        ext_from(s, i - 1)
    }
}

pub open spec fn ext_of(s: Seq<u8>) -> Seq<u8> {
    ext_from(s, s.len() as int)
}

pub open spec fn lower_byte(b: u8) -> u8 {
    if 0x41 <= b <= 0x5a {
        (b + 0x20) as u8
    } else {
        b
    }
}

pub open spec fn lower(s: Seq<u8>) -> Seq<u8> {
    s.map_values(|b: u8| lower_byte(b))
}

/// The MIME type inferred from a file name's extension, by the extension
/// alone: jpg and jpeg map to image/jpeg, png and webp to their image types,
/// anything else to the catch-all octet stream.
pub open spec fn spec_mime(s: Seq<u8>) -> Seq<u8> {
    let e = lower(ext_of(s));
    if e == txt_ext_jpg() || e == txt_ext_jpeg() {
        txt_mime_jpeg()
    } else if e == txt_ext_png() {
        txt_mime_png()
    } else if e == txt_ext_webp() {
        txt_mime_webp()
    } else {
        txt_mime_octet()
    }
}

/// Infer the MIME type for an image file name from its extension.
pub fn guess_mime_type(filename: &[u8]) -> (r: Vec<u8>)
    ensures
        r@ == spec_mime(filename@),
{
    // find the extension
    let mut i: usize = filename.len();
    while i > 0 && filename[i - 1] != 0x2e
        invariant
            i <= filename@.len(),
            ext_of(filename@) == ext_from(filename@, i as int),
        decreases i,
    {
        proof {
            assert(ext_from(filename@, i as int) == ext_from(filename@, i - 1 as int));
        }
        i = i - 1;
    }
    let mut e: Vec<u8> = Vec::new();
    let mut j: usize = i;
    while j < filename.len()
        invariant
            i <= j <= filename@.len(),
            e@ == filename@.subrange(i as int, j as int).map_values(|b: u8| lower_byte(b)),
        decreases filename@.len() - j,
    {
        let b = filename[j];
        let lb: u8 = if 0x41 <= b && b <= 0x5a {
            b + 0x20
        } else {
            b
        };
        e.push(lb);
        proof {
            assert(filename@.subrange(i as int, j + 1 as int) =~= filename@.subrange(
                i as int,
                j as int,
            ).push(b));
            assert(e@ =~= filename@.subrange(i as int, j + 1 as int).map_values(
                |b2: u8| lower_byte(b2),
            ));
        }
        j = j + 1;
    }
    proof {
        if i > 0 {
            assert(filename@[i as int - 1] == 0x2e);
            assert(ext_from(filename@, i as int) == filename@.subrange(
                i as int,
                filename@.len() as int,
            ));
        } else {
            assert(ext_from(filename@, 0) == filename@);
            assert(filename@.subrange(0, filename@.len() as int) =~= filename@);
        }
        assert(e@ == lower(ext_of(filename@)));
    }
    let k = lit_ext_jpg();
    if bytes_eq(e.as_slice(), k.as_slice()) {
        return lit_mime_jpeg();
    }
    let k = lit_ext_jpeg();
    if bytes_eq(e.as_slice(), k.as_slice()) {
        return lit_mime_jpeg();
    }
    let k = lit_ext_png();
    if bytes_eq(e.as_slice(), k.as_slice()) {
        return lit_mime_png();
    }
    let k = lit_ext_webp();
    if bytes_eq(e.as_slice(), k.as_slice()) {
        return lit_mime_webp();
    }
    lit_mime_octet()
}

} // verus!
