//! The byte-string constants of the wire protocol: JSON keys, URL path
//! segments, MIME types, and error messages.
use vstd::prelude::*;

verus! {

/// The bytes of `Validation failed`.
pub open spec fn txt_validation_failed() -> Seq<u8> {
    seq![0x56u8, 0x61u8, 0x6cu8, 0x69u8, 0x64u8, 0x61u8, 0x74u8, 0x69u8, 0x6fu8, 0x6eu8, 0x20u8, 0x66u8, 0x61u8, 0x69u8, 0x6cu8, 0x65u8, 0x64u8]
}

/// The bytes of `Validation failed`.
pub fn lit_validation_failed() -> (r: Vec<u8>)
    ensures
        r@ == txt_validation_failed(),
{
    let v: Vec<u8> = vec![0x56u8, 0x61u8, 0x6cu8, 0x69u8, 0x64u8, 0x61u8, 0x74u8, 0x69u8, 0x6fu8, 0x6eu8, 0x20u8, 0x66u8, 0x61u8, 0x69u8, 0x6cu8, 0x65u8, 0x64u8];
    proof { assert(v@ =~= txt_validation_failed()); }
    v
}

/// The bytes of `Not found`.
pub open spec fn txt_not_found_default() -> Seq<u8> {
    seq![0x4eu8, 0x6fu8, 0x74u8, 0x20u8, 0x66u8, 0x6fu8, 0x75u8, 0x6eu8, 0x64u8]
}

/// The bytes of `Not found`.
pub fn lit_not_found_default() -> (r: Vec<u8>)
    ensures
        r@ == txt_not_found_default(),
{
    let v: Vec<u8> = vec![0x4eu8, 0x6fu8, 0x74u8, 0x20u8, 0x66u8, 0x6fu8, 0x75u8, 0x6eu8, 0x64u8];
    proof { assert(v@ =~= txt_not_found_default()); }
    v
}

/// The bytes of `Profile not found`.
pub open spec fn txt_profile_not_found() -> Seq<u8> {
    seq![0x50u8, 0x72u8, 0x6fu8, 0x66u8, 0x69u8, 0x6cu8, 0x65u8, 0x20u8, 0x6eu8, 0x6fu8, 0x74u8, 0x20u8, 0x66u8, 0x6fu8, 0x75u8, 0x6eu8, 0x64u8]
}

/// The bytes of `Profile not found`.
pub fn lit_profile_not_found() -> (r: Vec<u8>)
    ensures
        r@ == txt_profile_not_found(),
{
    let v: Vec<u8> = vec![0x50u8, 0x72u8, 0x6fu8, 0x66u8, 0x69u8, 0x6cu8, 0x65u8, 0x20u8, 0x6eu8, 0x6fu8, 0x74u8, 0x20u8, 0x66u8, 0x6fu8, 0x75u8, 0x6eu8, 0x64u8];
    proof { assert(v@ =~= txt_profile_not_found()); }
    v
}

/// The bytes of `Unknown error`.
pub open spec fn txt_unknown_error() -> Seq<u8> {
    seq![0x55u8, 0x6eu8, 0x6bu8, 0x6eu8, 0x6fu8, 0x77u8, 0x6eu8, 0x20u8, 0x65u8, 0x72u8, 0x72u8, 0x6fu8, 0x72u8]
}

/// The bytes of `Unknown error`.
pub fn lit_unknown_error() -> (r: Vec<u8>)
    ensures
        r@ == txt_unknown_error(),
{
    let v: Vec<u8> = vec![0x55u8, 0x6eu8, 0x6bu8, 0x6eu8, 0x6fu8, 0x77u8, 0x6eu8, 0x20u8, 0x65u8, 0x72u8, 0x72u8, 0x6fu8, 0x72u8];
    proof { assert(v@ =~= txt_unknown_error()); }
    v
}

/// The bytes of `No profile in response`.
pub open spec fn txt_no_profile() -> Seq<u8> {
    seq![0x4eu8, 0x6fu8, 0x20u8, 0x70u8, 0x72u8, 0x6fu8, 0x66u8, 0x69u8, 0x6cu8, 0x65u8, 0x20u8, 0x69u8, 0x6eu8, 0x20u8, 0x72u8, 0x65u8, 0x73u8, 0x70u8, 0x6fu8, 0x6eu8, 0x73u8, 0x65u8]
}

/// The bytes of `No profile in response`.
pub fn lit_no_profile() -> (r: Vec<u8>)
    ensures
        r@ == txt_no_profile(),
{
    let v: Vec<u8> = vec![0x4eu8, 0x6fu8, 0x20u8, 0x70u8, 0x72u8, 0x6fu8, 0x66u8, 0x69u8, 0x6cu8, 0x65u8, 0x20u8, 0x69u8, 0x6eu8, 0x20u8, 0x72u8, 0x65u8, 0x73u8, 0x70u8, 0x6fu8, 0x6eu8, 0x73u8, 0x65u8];
    proof { assert(v@ =~= txt_no_profile()); }
    v
}

/// The bytes of `Invalid response format: `.
pub open spec fn txt_invalid_format_prefix() -> Seq<u8> {
    seq![0x49u8, 0x6eu8, 0x76u8, 0x61u8, 0x6cu8, 0x69u8, 0x64u8, 0x20u8, 0x72u8, 0x65u8, 0x73u8, 0x70u8, 0x6fu8, 0x6eu8, 0x73u8, 0x65u8, 0x20u8, 0x66u8, 0x6fu8, 0x72u8, 0x6du8, 0x61u8, 0x74u8, 0x3au8, 0x20u8]
}

/// The bytes of `Invalid response format: `.
pub fn lit_invalid_format_prefix() -> (r: Vec<u8>)
    ensures
        r@ == txt_invalid_format_prefix(),
{
    let v: Vec<u8> = vec![0x49u8, 0x6eu8, 0x76u8, 0x61u8, 0x6cu8, 0x69u8, 0x64u8, 0x20u8, 0x72u8, 0x65u8, 0x73u8, 0x70u8, 0x6fu8, 0x6eu8, 0x73u8, 0x65u8, 0x20u8, 0x66u8, 0x6fu8, 0x72u8, 0x6du8, 0x61u8, 0x74u8, 0x3au8, 0x20u8];
    proof { assert(v@ =~= txt_invalid_format_prefix()); }
    v
}

/// The bytes of `Could not parse response: `.
pub open spec fn txt_could_not_parse_prefix() -> Seq<u8> {
    seq![0x43u8, 0x6fu8, 0x75u8, 0x6cu8, 0x64u8, 0x20u8, 0x6eu8, 0x6fu8, 0x74u8, 0x20u8, 0x70u8, 0x61u8, 0x72u8, 0x73u8, 0x65u8, 0x20u8, 0x72u8, 0x65u8, 0x73u8, 0x70u8, 0x6fu8, 0x6eu8, 0x73u8, 0x65u8, 0x3au8, 0x20u8]
}

/// The bytes of `Could not parse response: `.
pub fn lit_could_not_parse_prefix() -> (r: Vec<u8>)
    ensures
        r@ == txt_could_not_parse_prefix(),
{
    let v: Vec<u8> = vec![0x43u8, 0x6fu8, 0x75u8, 0x6cu8, 0x64u8, 0x20u8, 0x6eu8, 0x6fu8, 0x74u8, 0x20u8, 0x70u8, 0x61u8, 0x72u8, 0x73u8, 0x65u8, 0x20u8, 0x72u8, 0x65u8, 0x73u8, 0x70u8, 0x6fu8, 0x6eu8, 0x73u8, 0x65u8, 0x3au8, 0x20u8];
    proof { assert(v@ =~= txt_could_not_parse_prefix()); }
    v
}

/// The bytes of `Sessionless not configured`.
pub open spec fn txt_auth_not_configured() -> Seq<u8> {
    seq![0x53u8, 0x65u8, 0x73u8, 0x73u8, 0x69u8, 0x6fu8, 0x6eu8, 0x6cu8, 0x65u8, 0x73u8, 0x73u8, 0x20u8, 0x6eu8, 0x6fu8, 0x74u8, 0x20u8, 0x63u8, 0x6fu8, 0x6eu8, 0x66u8, 0x69u8, 0x67u8, 0x75u8, 0x72u8, 0x65u8, 0x64u8]
}

/// The bytes of `Sessionless not configured`.
pub fn lit_auth_not_configured() -> (r: Vec<u8>)
    ensures
        r@ == txt_auth_not_configured(),
{
    let v: Vec<u8> = vec![0x53u8, 0x65u8, 0x73u8, 0x73u8, 0x69u8, 0x6fu8, 0x6eu8, 0x6cu8, 0x65u8, 0x73u8, 0x73u8, 0x20u8, 0x6eu8, 0x6fu8, 0x74u8, 0x20u8, 0x63u8, 0x6fu8, 0x6eu8, 0x66u8, 0x69u8, 0x67u8, 0x75u8, 0x72u8, 0x65u8, 0x64u8];
    proof { assert(v@ =~= txt_auth_not_configured()); }
    v
}

/// The bytes of `Delete failed`.
pub open spec fn txt_delete_failed() -> Seq<u8> {
    seq![0x44u8, 0x65u8, 0x6cu8, 0x65u8, 0x74u8, 0x65u8, 0x20u8, 0x66u8, 0x61u8, 0x69u8, 0x6cu8, 0x65u8, 0x64u8]
}

/// The bytes of `Delete failed`.
pub fn lit_delete_failed() -> (r: Vec<u8>)
    ensures
        r@ == txt_delete_failed(),
{
    let v: Vec<u8> = vec![0x44u8, 0x65u8, 0x6cu8, 0x65u8, 0x74u8, 0x65u8, 0x20u8, 0x66u8, 0x61u8, 0x69u8, 0x6cu8, 0x65u8, 0x64u8];
    proof { assert(v@ =~= txt_delete_failed()); }
    v
}

/// The bytes of `Image not found`.
pub open spec fn txt_image_not_found() -> Seq<u8> {
    seq![0x49u8, 0x6du8, 0x61u8, 0x67u8, 0x65u8, 0x20u8, 0x6eu8, 0x6fu8, 0x74u8, 0x20u8, 0x66u8, 0x6fu8, 0x75u8, 0x6eu8, 0x64u8]
}

/// The bytes of `Image not found`.
pub fn lit_image_not_found() -> (r: Vec<u8>)
    ensures
        r@ == txt_image_not_found(),
{
    let v: Vec<u8> = vec![0x49u8, 0x6du8, 0x61u8, 0x67u8, 0x65u8, 0x20u8, 0x6eu8, 0x6fu8, 0x74u8, 0x20u8, 0x66u8, 0x6fu8, 0x75u8, 0x6eu8, 0x64u8];
    proof { assert(v@ =~= txt_image_not_found()); }
    v
}

/// The bytes of `Spell execution failed`.
pub open spec fn txt_spell_failed() -> Seq<u8> {
    seq![0x53u8, 0x70u8, 0x65u8, 0x6cu8, 0x6cu8, 0x20u8, 0x65u8, 0x78u8, 0x65u8, 0x63u8, 0x75u8, 0x74u8, 0x69u8, 0x6fu8, 0x6eu8, 0x20u8, 0x66u8, 0x61u8, 0x69u8, 0x6cu8, 0x65u8, 0x64u8]
}

/// The bytes of `Spell execution failed`.
pub fn lit_spell_failed() -> (r: Vec<u8>)
    ensures
        r@ == txt_spell_failed(),
{
    let v: Vec<u8> = vec![0x53u8, 0x70u8, 0x65u8, 0x6cu8, 0x6cu8, 0x20u8, 0x65u8, 0x78u8, 0x65u8, 0x63u8, 0x75u8, 0x74u8, 0x69u8, 0x6fu8, 0x6eu8, 0x20u8, 0x66u8, 0x61u8, 0x69u8, 0x6cu8, 0x65u8, 0x64u8];
    proof { assert(v@ =~= txt_spell_failed()); }
    v
}

/// The bytes of `success`.
pub open spec fn txt_success() -> Seq<u8> {
    seq![0x73u8, 0x75u8, 0x63u8, 0x63u8, 0x65u8, 0x73u8, 0x73u8]
}

/// The bytes of `success`.
pub fn lit_success() -> (r: Vec<u8>)
    ensures
        r@ == txt_success(),
{
    let v: Vec<u8> = vec![0x73u8, 0x75u8, 0x63u8, 0x63u8, 0x65u8, 0x73u8, 0x73u8];
    proof { assert(v@ =~= txt_success()); }
    v
}

/// The bytes of `profile`.
pub open spec fn txt_profile() -> Seq<u8> {
    seq![0x70u8, 0x72u8, 0x6fu8, 0x66u8, 0x69u8, 0x6cu8, 0x65u8]
}

/// The bytes of `profile`.
pub fn lit_profile() -> (r: Vec<u8>)
    ensures
        r@ == txt_profile(),
{
    let v: Vec<u8> = vec![0x70u8, 0x72u8, 0x6fu8, 0x66u8, 0x69u8, 0x6cu8, 0x65u8];
    proof { assert(v@ =~= txt_profile()); }
    v
}

/// The bytes of `error`.
pub open spec fn txt_error() -> Seq<u8> {
    seq![0x65u8, 0x72u8, 0x72u8, 0x6fu8, 0x72u8]
}

/// The bytes of `error`.
pub fn lit_error() -> (r: Vec<u8>)
    ensures
        r@ == txt_error(),
{
    let v: Vec<u8> = vec![0x65u8, 0x72u8, 0x72u8, 0x6fu8, 0x72u8];
    proof { assert(v@ =~= txt_error()); }
    v
}

/// The bytes of `details`.
pub open spec fn txt_details() -> Seq<u8> {
    seq![0x64u8, 0x65u8, 0x74u8, 0x61u8, 0x69u8, 0x6cu8, 0x73u8]
}

/// The bytes of `details`.
pub fn lit_details() -> (r: Vec<u8>)
    ensures
        r@ == txt_details(),
{
    let v: Vec<u8> = vec![0x64u8, 0x65u8, 0x74u8, 0x61u8, 0x69u8, 0x6cu8, 0x73u8];
    proof { assert(v@ =~= txt_details()); }
    v
}

/// The bytes of `uuid`.
pub open spec fn txt_uuid() -> Seq<u8> {
    seq![0x75u8, 0x75u8, 0x69u8, 0x64u8]
}

/// The bytes of `uuid`.
pub fn lit_uuid() -> (r: Vec<u8>)
    ensures
        r@ == txt_uuid(),
{
    let v: Vec<u8> = vec![0x75u8, 0x75u8, 0x69u8, 0x64u8];
    proof { assert(v@ =~= txt_uuid()); }
    v
}

/// The bytes of `timestamp`.
pub open spec fn txt_timestamp() -> Seq<u8> {
    seq![0x74u8, 0x69u8, 0x6du8, 0x65u8, 0x73u8, 0x74u8, 0x61u8, 0x6du8, 0x70u8]
}

/// The bytes of `timestamp`.
pub fn lit_timestamp() -> (r: Vec<u8>)
    ensures
        r@ == txt_timestamp(),
{
    let v: Vec<u8> = vec![0x74u8, 0x69u8, 0x6du8, 0x65u8, 0x73u8, 0x74u8, 0x61u8, 0x6du8, 0x70u8];
    proof { assert(v@ =~= txt_timestamp()); }
    v
}

/// The bytes of `hash`.
pub open spec fn txt_hash() -> Seq<u8> {
    seq![0x68u8, 0x61u8, 0x73u8, 0x68u8]
}

/// The bytes of `hash`.
pub fn lit_hash() -> (r: Vec<u8>)
    ensures
        r@ == txt_hash(),
{
    let v: Vec<u8> = vec![0x68u8, 0x61u8, 0x73u8, 0x68u8];
    proof { assert(v@ =~= txt_hash()); }
    v
}

/// The bytes of `signature`.
pub open spec fn txt_signature() -> Seq<u8> {
    seq![0x73u8, 0x69u8, 0x67u8, 0x6eu8, 0x61u8, 0x74u8, 0x75u8, 0x72u8, 0x65u8]
}

/// The bytes of `signature`.
pub fn lit_signature() -> (r: Vec<u8>)
    ensures
        r@ == txt_signature(),
{
    let v: Vec<u8> = vec![0x73u8, 0x69u8, 0x67u8, 0x6eu8, 0x61u8, 0x74u8, 0x75u8, 0x72u8, 0x65u8];
    proof { assert(v@ =~= txt_signature()); }
    v
}

/// The bytes of `name`.
pub open spec fn txt_name() -> Seq<u8> {
    seq![0x6eu8, 0x61u8, 0x6du8, 0x65u8]
}

/// The bytes of `name`.
pub fn lit_name() -> (r: Vec<u8>)
    ensures
        r@ == txt_name(),
{
    let v: Vec<u8> = vec![0x6eu8, 0x61u8, 0x6du8, 0x65u8];
    proof { assert(v@ =~= txt_name()); }
    v
}

/// The bytes of `email`.
pub open spec fn txt_email() -> Seq<u8> {
    seq![0x65u8, 0x6du8, 0x61u8, 0x69u8, 0x6cu8]
}

/// The bytes of `email`.
pub fn lit_email() -> (r: Vec<u8>)
    ensures
        r@ == txt_email(),
{
    let v: Vec<u8> = vec![0x65u8, 0x6du8, 0x61u8, 0x69u8, 0x6cu8];
    proof { assert(v@ =~= txt_email()); }
    v
}

/// The bytes of `imageFilename`.
pub open spec fn txt_image_filename() -> Seq<u8> {
    seq![0x69u8, 0x6du8, 0x61u8, 0x67u8, 0x65u8, 0x46u8, 0x69u8, 0x6cu8, 0x65u8, 0x6eu8, 0x61u8, 0x6du8, 0x65u8]
}

/// The bytes of `imageFilename`.
pub fn lit_image_filename() -> (r: Vec<u8>)
    ensures
        r@ == txt_image_filename(),
{
    let v: Vec<u8> = vec![0x69u8, 0x6du8, 0x61u8, 0x67u8, 0x65u8, 0x46u8, 0x69u8, 0x6cu8, 0x65u8, 0x6eu8, 0x61u8, 0x6du8, 0x65u8];
    proof { assert(v@ =~= txt_image_filename()); }
    v
}

/// The bytes of `createdAt`.
pub open spec fn txt_created_at() -> Seq<u8> {
    seq![0x63u8, 0x72u8, 0x65u8, 0x61u8, 0x74u8, 0x65u8, 0x64u8, 0x41u8, 0x74u8]
}

/// The bytes of `createdAt`.
pub fn lit_created_at() -> (r: Vec<u8>)
    ensures
        r@ == txt_created_at(),
{
    let v: Vec<u8> = vec![0x63u8, 0x72u8, 0x65u8, 0x61u8, 0x74u8, 0x65u8, 0x64u8, 0x41u8, 0x74u8];
    proof { assert(v@ =~= txt_created_at()); }
    v
}

/// The bytes of `updatedAt`.
pub open spec fn txt_updated_at() -> Seq<u8> {
    seq![0x75u8, 0x70u8, 0x64u8, 0x61u8, 0x74u8, 0x65u8, 0x64u8, 0x41u8, 0x74u8]
}

/// The bytes of `updatedAt`.
pub fn lit_updated_at() -> (r: Vec<u8>)
    ensures
        r@ == txt_updated_at(),
{
    let v: Vec<u8> = vec![0x75u8, 0x70u8, 0x64u8, 0x61u8, 0x74u8, 0x65u8, 0x64u8, 0x41u8, 0x74u8];
    proof { assert(v@ =~= txt_updated_at()); }
    v
}

/// The bytes of `status`.
pub open spec fn txt_status() -> Seq<u8> {
    seq![0x73u8, 0x74u8, 0x61u8, 0x74u8, 0x75u8, 0x73u8]
}

/// The bytes of `status`.
pub fn lit_status() -> (r: Vec<u8>)
    ensures
        r@ == txt_status(),
{
    let v: Vec<u8> = vec![0x73u8, 0x74u8, 0x61u8, 0x74u8, 0x75u8, 0x73u8];
    proof { assert(v@ =~= txt_status()); }
    v
}

/// The bytes of `service`.
pub open spec fn txt_service() -> Seq<u8> {
    seq![0x73u8, 0x65u8, 0x72u8, 0x76u8, 0x69u8, 0x63u8, 0x65u8]
}

/// The bytes of `service`.
pub fn lit_service() -> (r: Vec<u8>)
    ensures
        r@ == txt_service(),
{
    let v: Vec<u8> = vec![0x73u8, 0x65u8, 0x72u8, 0x76u8, 0x69u8, 0x63u8, 0x65u8];
    proof { assert(v@ =~= txt_service()); }
    v
}

/// The bytes of `version`.
pub open spec fn txt_version() -> Seq<u8> {
    seq![0x76u8, 0x65u8, 0x72u8, 0x73u8, 0x69u8, 0x6fu8, 0x6eu8]
}

/// The bytes of `version`.
pub fn lit_version() -> (r: Vec<u8>)
    ensures
        r@ == txt_version(),
{
    let v: Vec<u8> = vec![0x76u8, 0x65u8, 0x72u8, 0x73u8, 0x69u8, 0x6fu8, 0x6eu8];
    proof { assert(v@ =~= txt_version()); }
    v
}

/// The bytes of `/user/`.
pub open spec fn txt_path_user() -> Seq<u8> {
    seq![0x2fu8, 0x75u8, 0x73u8, 0x65u8, 0x72u8, 0x2fu8]
}

/// The bytes of `/user/`.
pub fn lit_path_user() -> (r: Vec<u8>)
    ensures
        r@ == txt_path_user(),
{
    let v: Vec<u8> = vec![0x2fu8, 0x75u8, 0x73u8, 0x65u8, 0x72u8, 0x2fu8];
    proof { assert(v@ =~= txt_path_user()); }
    v
}

/// The bytes of `/profile`.
pub open spec fn txt_path_profile() -> Seq<u8> {
    seq![0x2fu8, 0x70u8, 0x72u8, 0x6fu8, 0x66u8, 0x69u8, 0x6cu8, 0x65u8]
}

/// The bytes of `/profile`.
pub fn lit_path_profile() -> (r: Vec<u8>)
    ensures
        r@ == txt_path_profile(),
{
    let v: Vec<u8> = vec![0x2fu8, 0x70u8, 0x72u8, 0x6fu8, 0x66u8, 0x69u8, 0x6cu8, 0x65u8];
    proof { assert(v@ =~= txt_path_profile()); }
    v
}

/// The bytes of `/profile/image`.
pub open spec fn txt_path_profile_image() -> Seq<u8> {
    seq![0x2fu8, 0x70u8, 0x72u8, 0x6fu8, 0x66u8, 0x69u8, 0x6cu8, 0x65u8, 0x2fu8, 0x69u8, 0x6du8, 0x61u8, 0x67u8, 0x65u8]
}

/// The bytes of `/profile/image`.
pub fn lit_path_profile_image() -> (r: Vec<u8>)
    ensures
        r@ == txt_path_profile_image(),
{
    let v: Vec<u8> = vec![0x2fu8, 0x70u8, 0x72u8, 0x6fu8, 0x66u8, 0x69u8, 0x6cu8, 0x65u8, 0x2fu8, 0x69u8, 0x6du8, 0x61u8, 0x67u8, 0x65u8];
    proof { assert(v@ =~= txt_path_profile_image()); }
    v
}

/// The bytes of `/health`.
pub open spec fn txt_path_health() -> Seq<u8> {
    seq![0x2fu8, 0x68u8, 0x65u8, 0x61u8, 0x6cu8, 0x74u8, 0x68u8]
}

/// The bytes of `/health`.
pub fn lit_path_health() -> (r: Vec<u8>)
    ensures
        r@ == txt_path_health(),
{
    let v: Vec<u8> = vec![0x2fu8, 0x68u8, 0x65u8, 0x61u8, 0x6cu8, 0x74u8, 0x68u8];
    proof { assert(v@ =~= txt_path_health()); }
    v
}

/// The bytes of `/magic/spell/`.
pub open spec fn txt_path_magic_spell() -> Seq<u8> {
    seq![0x2fu8, 0x6du8, 0x61u8, 0x67u8, 0x69u8, 0x63u8, 0x2fu8, 0x73u8, 0x70u8, 0x65u8, 0x6cu8, 0x6cu8, 0x2fu8]
}

/// The bytes of `/magic/spell/`.
pub fn lit_path_magic_spell() -> (r: Vec<u8>)
    ensures
        r@ == txt_path_magic_spell(),
{
    let v: Vec<u8> = vec![0x2fu8, 0x6du8, 0x61u8, 0x67u8, 0x69u8, 0x63u8, 0x2fu8, 0x73u8, 0x70u8, 0x65u8, 0x6cu8, 0x6cu8, 0x2fu8];
    proof { assert(v@ =~= txt_path_magic_spell()); }
    v
}

/// The bytes of `jpg`.
pub open spec fn txt_ext_jpg() -> Seq<u8> {
    seq![0x6au8, 0x70u8, 0x67u8]
}

/// The bytes of `jpg`.
pub fn lit_ext_jpg() -> (r: Vec<u8>)
    ensures
        r@ == txt_ext_jpg(),
{
    let v: Vec<u8> = vec![0x6au8, 0x70u8, 0x67u8];
    proof { assert(v@ =~= txt_ext_jpg()); }
    v
}

/// The bytes of `jpeg`.
pub open spec fn txt_ext_jpeg() -> Seq<u8> {
    seq![0x6au8, 0x70u8, 0x65u8, 0x67u8]
}

/// The bytes of `jpeg`.
pub fn lit_ext_jpeg() -> (r: Vec<u8>)
    ensures
        r@ == txt_ext_jpeg(),
{
    let v: Vec<u8> = vec![0x6au8, 0x70u8, 0x65u8, 0x67u8];
    proof { assert(v@ =~= txt_ext_jpeg()); }
    v
}

/// The bytes of `png`.
pub open spec fn txt_ext_png() -> Seq<u8> {
    seq![0x70u8, 0x6eu8, 0x67u8]
}

/// The bytes of `png`.
pub fn lit_ext_png() -> (r: Vec<u8>)
    ensures
        r@ == txt_ext_png(),
{
    let v: Vec<u8> = vec![0x70u8, 0x6eu8, 0x67u8];
    proof { assert(v@ =~= txt_ext_png()); }
    v
}

/// The bytes of `webp`.
pub open spec fn txt_ext_webp() -> Seq<u8> {
    seq![0x77u8, 0x65u8, 0x62u8, 0x70u8]
}

/// The bytes of `webp`.
pub fn lit_ext_webp() -> (r: Vec<u8>)
    ensures
        r@ == txt_ext_webp(),
{
    let v: Vec<u8> = vec![0x77u8, 0x65u8, 0x62u8, 0x70u8];
    proof { assert(v@ =~= txt_ext_webp()); }
    v
}

/// The bytes of `image/jpeg`.
pub open spec fn txt_mime_jpeg() -> Seq<u8> {
    seq![0x69u8, 0x6du8, 0x61u8, 0x67u8, 0x65u8, 0x2fu8, 0x6au8, 0x70u8, 0x65u8, 0x67u8]
}

/// The bytes of `image/jpeg`.
pub fn lit_mime_jpeg() -> (r: Vec<u8>)
    ensures
        r@ == txt_mime_jpeg(),
{
    let v: Vec<u8> = vec![0x69u8, 0x6du8, 0x61u8, 0x67u8, 0x65u8, 0x2fu8, 0x6au8, 0x70u8, 0x65u8, 0x67u8];
    proof { assert(v@ =~= txt_mime_jpeg()); }
    v
}

/// The bytes of `image/png`.
pub open spec fn txt_mime_png() -> Seq<u8> {
    seq![0x69u8, 0x6du8, 0x61u8, 0x67u8, 0x65u8, 0x2fu8, 0x70u8, 0x6eu8, 0x67u8]
}

/// The bytes of `image/png`.
pub fn lit_mime_png() -> (r: Vec<u8>)
    ensures
        r@ == txt_mime_png(),
{
    let v: Vec<u8> = vec![0x69u8, 0x6du8, 0x61u8, 0x67u8, 0x65u8, 0x2fu8, 0x70u8, 0x6eu8, 0x67u8];
    proof { assert(v@ =~= txt_mime_png()); }
    v
}

/// The bytes of `image/webp`.
pub open spec fn txt_mime_webp() -> Seq<u8> {
    seq![0x69u8, 0x6du8, 0x61u8, 0x67u8, 0x65u8, 0x2fu8, 0x77u8, 0x65u8, 0x62u8, 0x70u8]
}

/// The bytes of `image/webp`.
pub fn lit_mime_webp() -> (r: Vec<u8>)
    ensures
        r@ == txt_mime_webp(),
{
    let v: Vec<u8> = vec![0x69u8, 0x6du8, 0x61u8, 0x67u8, 0x65u8, 0x2fu8, 0x77u8, 0x65u8, 0x62u8, 0x70u8];
    proof { assert(v@ =~= txt_mime_webp()); }
    v
}

/// The bytes of `application/octet-stream`.
pub open spec fn txt_mime_octet() -> Seq<u8> {
    seq![0x61u8, 0x70u8, 0x70u8, 0x6cu8, 0x69u8, 0x63u8, 0x61u8, 0x74u8, 0x69u8, 0x6fu8, 0x6eu8, 0x2fu8, 0x6fu8, 0x63u8, 0x74u8, 0x65u8, 0x74u8, 0x2du8, 0x73u8, 0x74u8, 0x72u8, 0x65u8, 0x61u8, 0x6du8]
}

/// The bytes of `application/octet-stream`.
pub fn lit_mime_octet() -> (r: Vec<u8>)
    ensures
        r@ == txt_mime_octet(),
{
    let v: Vec<u8> = vec![0x61u8, 0x70u8, 0x70u8, 0x6cu8, 0x69u8, 0x63u8, 0x61u8, 0x74u8, 0x69u8, 0x6fu8, 0x6eu8, 0x2fu8, 0x6fu8, 0x63u8, 0x74u8, 0x65u8, 0x74u8, 0x2du8, 0x73u8, 0x74u8, 0x72u8, 0x65u8, 0x61u8, 0x6du8];
    proof { assert(v@ =~= txt_mime_octet()); }
    v
}

} // verus!
