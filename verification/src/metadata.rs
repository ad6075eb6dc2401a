//! The four metadata documents, their nested entries, and the signed
//! envelope that carries a payload together with its signatures.
//!
//! The envelope keeps the `"signed"` payload as the parsed-but-uninterpreted
//! value it arrived as: re-serializing a payload after interpreting it could
//! silently change the bytes a signature covers.

use vstd::prelude::*;
use core::marker::PhantomData;
use crate::dtime::is_rfc3339_utc;
use crate::dtime::num2;
use crate::dtime::num4;
use crate::dtime::parse_datetime;
use crate::dtime::DateTimeUtc;
use crate::error::invalid_field;
use crate::error::missing_field;
use crate::error::ErrV;
use crate::error::Error;
use crate::hex::is_hex;
use crate::hex::unhex;
use crate::hex::hex_decode;
use crate::jsonval::arr_view;
use crate::jsonval::clone_members;
use crate::jsonval::jv_get;
use crate::jsonval::lemma_arr_view_index;
use crate::jsonval::lemma_arr_view_len;
use crate::jsonval::lemma_mem_view_index;
use crate::jsonval::lemma_mem_view_len;
use crate::jsonval::mem_view;
use crate::jsonval::obj_get;
use crate::jsonval::JsonValue;
use crate::jsonval::Jv;
use crate::keys::key_map_view;
use crate::keys::parse_key_map;
use crate::keys::spec_parse_key_map;
use crate::keys::spec_parse_signature;
use crate::keys::spec_hash_type;
use crate::keys::HashType;
use crate::keys::HashTypeV;
use crate::keys::HashValue;
use crate::keys::Key;
use crate::keys::KeyId;
use crate::keys::KeyV;
use crate::keys::Signature;
use crate::keys::SignatureV;
use crate::roles::spec_parse_delegations;
use crate::roles::spec_parse_role_definition;
use crate::roles::spec_role_from;
use crate::roles::Delegations;
use crate::roles::DelegationsV;
use crate::roles::Role;
use crate::roles::RoleDefV;
use crate::roles::RoleDefinition;
use crate::roles::RoleType;

verus! {

/// The expiry timestamp a member list carries under `"expires"`.
pub open spec fn spec_get_expires(ms: Seq<(Seq<char>, Jv)>) -> Result<DateTimeUtc, ErrV> {
    match jv_get(ms, "expires"@) {
        Option::None => Err(ErrV::MissingField("expires"@)),
        Option::Some(ev) => match ev {
            Jv::Str(s) => {
                if is_rfc3339_utc(s) {
                    Ok(
                        DateTimeUtc {
                            year: num4(s, 0) as u32,
                            month: num2(s, 5) as u8,
                            day: num2(s, 8) as u8,
                            hour: num2(s, 11) as u8,
                            minute: num2(s, 14) as u8,
                            second: num2(s, 17) as u8,
                        },
                    )
                } else {
                    Err(ErrV::InvalidFieldValue("expires"@, Box::new(ErrV::MalformedDocument)))
                }
            },
            _ => Err(ErrV::InvalidFieldValue("expires"@, Box::new(ErrV::MalformedDocument))),
        },
    }
}

/// Reads the `"expires"` timestamp of a document.
fn get_expires(members: &Vec<(String, JsonValue)>) -> (r: Result<DateTimeUtc, Error>)
    ensures
        match r {
            Ok(dt) => spec_get_expires(mem_view(members@)) == Ok::<DateTimeUtc, ErrV>(dt),
            Err(e) => spec_get_expires(mem_view(members@)) == Err::<DateTimeUtc, ErrV>(e@),
        },
{
    match obj_get(members, "expires") {
        None => Err(missing_field("expires")),
        Some(ev) => match ev.as_str_value() {
            Some(s) => match parse_datetime(s.as_str()) {
                Ok(dt) => Ok(dt),
                Err(e) => Err(invalid_field("expires", e)),
            },
            None => Err(invalid_field("expires", Error::MalformedDocument)),
        },
    }
}

/// The version number a member list carries under `"version"`.
pub open spec fn spec_get_version(ms: Seq<(Seq<char>, Jv)>) -> Result<int, ErrV> {
    match jv_get(ms, "version"@) {
        Option::None => Err(ErrV::MissingField("version"@)),
        Option::Some(vv) => match vv {
            Jv::Int(n) => {
                if n > i32::MAX as int || n < i32::MIN as int {
                    Err(ErrV::InvalidFieldValue("version"@, Box::new(ErrV::MalformedDocument)))
                } else {
                    Ok(n)
                }
            },
            _ => Err(ErrV::InvalidFieldValue("version"@, Box::new(ErrV::MalformedDocument))),
        },
    }
}

/// Reads the `"version"` number of a document.
fn get_version(members: &Vec<(String, JsonValue)>) -> (r: Result<i32, Error>)
    ensures
        match r {
            Ok(n) => spec_get_version(mem_view(members@)) == Ok::<int, ErrV>(n as int),
            Err(e) => spec_get_version(mem_view(members@)) == Err::<int, ErrV>(e@),
        },
{
    match obj_get(members, "version") {
        None => Err(missing_field("version")),
        Some(vv) => match vv.as_int_value() {
            Some(n) => {
                if n > i32::MAX as i64 || n < i32::MIN as i64 {
                    Err(invalid_field("version", Error::MalformedDocument))
                } else {
                    Ok(n as i32)
                }
            },
            None => Err(invalid_field("version", Error::MalformedDocument)),
        },
    }
}

/// The models of a digest map: hash types paired with digest bytes.
pub open spec fn hash_map_view(v: Seq<(HashType, HashValue)>) -> Seq<(HashTypeV, Seq<u8>)> {
    Seq::new(v.len(), |i: int| (v[i].0@, v[i].1@))
}

/// What a digest map parses to: each member name is a hash algorithm name
/// and each value its hex digest.
pub open spec fn spec_parse_hash_map(ms: Seq<(Seq<char>, Jv)>) -> Result<
    Seq<(HashTypeV, Seq<u8>)>,
    ErrV,
>
    decreases ms.len(),
{
    if ms.len() == 0 {
        Ok(Seq::empty())
    } else {
        match ms[0].1 {
            Jv::Str(s) => {
                if is_hex(s) {
                    match spec_parse_hash_map(ms.drop_first()) {
                        Ok(rest) => Ok(seq![(spec_hash_type(ms[0].0), unhex(s))] + rest),
                        Err(e) => Err(e),
                    }
                } else {
                    Err(ErrV::MalformedDocument)
                }
            },
            _ => Err(ErrV::MalformedDocument),
        }
    }
}

/// Reads a digest map, keeping the members' order.
fn parse_hash_map(members: &Vec<(String, JsonValue)>) -> (r: Result<
    Vec<(HashType, HashValue)>,
    Error,
>)
    ensures
        match r {
            Ok(hs) => spec_parse_hash_map(mem_view(members@)) == Ok::<
                Seq<(HashTypeV, Seq<u8>)>,
                ErrV,
            >(hash_map_view(hs@)),
            Err(e) => spec_parse_hash_map(mem_view(members@)) == Err::<
                Seq<(HashTypeV, Seq<u8>)>,
                ErrV,
            >(e@),
        },
{
    let ghost ms = mem_view(members@);
    let mut out: Vec<(HashType, HashValue)> = Vec::new();
    let mut i: usize = 0;
    proof {
        lemma_mem_view_len(members@);
        assert(ms.skip(0) =~= ms);
        assert(hash_map_view(out@) =~= Seq::<(HashTypeV, Seq<u8>)>::empty());
    }
    while i < members.len()
        invariant
            i <= members.len(),
            ms == mem_view(members@),
            ms.len() == members@.len(),
            out@.len() == i,
            spec_parse_hash_map(ms) == (match spec_parse_hash_map(ms.skip(i as int)) {
                Ok(rest) => Ok::<Seq<(HashTypeV, Seq<u8>)>, ErrV>(hash_map_view(out@) + rest),
                Err(e) => Err::<Seq<(HashTypeV, Seq<u8>)>, ErrV>(e),
            }),
        decreases members.len() - i,
    {
        proof {
            lemma_mem_view_index(members@, i as int);
            assert(ms.skip(i as int)[0] == ms[i as int]);
            assert(ms.skip(i as int).drop_first() =~= ms.skip(i + 1 as int));
        }
        let hv = match members[i].1.as_str_value() {
            Some(s) => match hex_decode(s.as_str()) {
                Ok(bytes) => HashValue(bytes),
                Err(e) => {
                    return Err(e);
                },
            },
            None => {
                return Err(Error::MalformedDocument);
            },
        };
        let ht = match HashType::from_str(members[i].0.as_str()) {
            Ok(t) => t,
            Err(e) => {
                return Err(e);
            },
        };
        let ghost prev = out@;
        out.push((ht, hv));
        proof {
            assert(hash_map_view(out@) =~= hash_map_view(prev).push(
                (spec_hash_type(ms[i as int].0), unhex(ms[i as int].1->Str_0)),
            ));
            if spec_parse_hash_map(ms.skip(i + 1 as int)) is Ok {
                let rest = spec_parse_hash_map(ms.skip(i + 1 as int))->Ok_0;
                assert(hash_map_view(prev) + (seq![
                    (spec_hash_type(ms[i as int].0), unhex(ms[i as int].1->Str_0)),
                ] + rest) =~= hash_map_view(out@) + rest);
            }
        }
        i += 1;
    }
    proof {
        assert(ms.skip(i as int).len() == 0);
        assert(hash_map_view(out@) + Seq::<(HashTypeV, Seq<u8>)>::empty() =~= hash_map_view(
            out@,
        ));
    }
    Ok(out)
}

/// Description of one target file: its byte count, its digests, and an
/// optional opaque pass-through mapping this core never interprets.
#[derive(Debug, Clone)]
pub struct TargetInfo {
    pub length: i64,
    pub hashes: Vec<(HashType, HashValue)>,
    pub custom: Option<Vec<(String, JsonValue)>>,
}

/// The model of a target description.
#[verifier::ext_equal]
pub struct TargetInfoV {
    pub length: int,
    pub hashes: Seq<(HashTypeV, Seq<u8>)>,
    pub custom: Option<Seq<(Seq<char>, Jv)>>,
}

impl View for TargetInfo {
    type V = TargetInfoV;

    open spec fn view(&self) -> TargetInfoV {
        TargetInfoV {
            length: self.length as int,
            hashes: hash_map_view(self.hashes@),
            custom: match self.custom {
                Option::Some(m) => Option::Some(mem_view(m@)),
                Option::None => Option::None,
            },
        }
    }
}

/// What a target description parses to: a `length`, a digest map under
/// `hashes`, and an optional opaque `custom` object kept as it came.
pub open spec fn spec_parse_target_info(j: Jv) -> Result<TargetInfoV, ErrV> {
    match j {
        Jv::Obj(ms) => match jv_get(ms, "length"@) {
            Option::None => Err(ErrV::MissingField("length"@)),
            Option::Some(lv) => match lv {
                Jv::Int(len) => match jv_get(ms, "hashes"@) {
                    Option::None => Err(ErrV::MissingField("hashes"@)),
                    Option::Some(hv) => match hv {
                        Jv::Obj(hms) => match spec_parse_hash_map(hms) {
                            Err(e) => Err(ErrV::InvalidFieldValue("hashes"@, Box::new(e))),
                            Ok(hashes) => match jv_get(ms, "custom"@) {
                                Option::None => Ok(
                                    TargetInfoV { length: len, hashes, custom: Option::None },
                                ),
                                Option::Some(cv) => match cv {
                                    Jv::Obj(cms) => Ok(
                                        TargetInfoV {
                                            length: len,
                                            hashes,
                                            custom: Option::Some(cms),
                                        },
                                    ),
                                    _ => Err(
                                        ErrV::InvalidFieldValue(
                                            "custom"@,
                                            Box::new(ErrV::MalformedDocument),
                                        ),
                                    ),
                                },
                            },
                        },
                        _ => Err(
                            ErrV::InvalidFieldValue("hashes"@, Box::new(ErrV::MalformedDocument)),
                        ),
                    },
                },
                _ => Err(ErrV::InvalidFieldValue("length"@, Box::new(ErrV::MalformedDocument))),
            },
        },
        _ => Err(ErrV::MalformedDocument),
    }
}

impl TargetInfo {
    /// Reads a target description.
    pub fn parse(v: &JsonValue) -> (r: Result<TargetInfo, Error>)
        ensures
            match r {
                Ok(t) => spec_parse_target_info(v@) == Ok::<TargetInfoV, ErrV>(t@),
                Err(e) => spec_parse_target_info(v@) == Err::<TargetInfoV, ErrV>(e@),
            },
    {
        let members = match v.as_object_value() {
            Some(m) => m,
            None => {
                return Err(Error::MalformedDocument);
            },
        };
        let length = match obj_get(members, "length") {
            None => {
                return Err(missing_field("length"));
            },
            Some(lv) => match lv.as_int_value() {
                Some(n) => n,
                None => {
                    return Err(invalid_field("length", Error::MalformedDocument));
                },
            },
        };
        let hashes = match obj_get(members, "hashes") {
            None => {
                return Err(missing_field("hashes"));
            },
            Some(hv) => match hv.as_object_value() {
                Some(hms) => match parse_hash_map(hms) {
                    Ok(hs) => hs,
                    Err(e) => {
                        return Err(invalid_field("hashes", e));
                    },
                },
                None => {
                    return Err(invalid_field("hashes", Error::MalformedDocument));
                },
            },
        };
        let custom = match obj_get(members, "custom") {
            None => None,
            Some(cv) => match cv.as_object_value() {
                Some(cms) => Some(clone_members(cms)),
                None => {
                    return Err(invalid_field("custom", Error::MalformedDocument));
                },
            },
        };
        Ok(TargetInfo { length, hashes, custom })
    }
}

/// What the timestamp role records about one metadata file.
#[derive(Debug, Clone, PartialEq)]
pub struct MetadataMetadata {
    pub length: i64,
    pub hashes: Vec<(HashType, HashValue)>,
    pub version: i32,
}

/// The model of a timestamp meta entry.
#[verifier::ext_equal]
pub struct MetadataMetadataV {
    pub length: int,
    pub hashes: Seq<(HashTypeV, Seq<u8>)>,
    pub version: int,
}

impl View for MetadataMetadata {
    type V = MetadataMetadataV;

    open spec fn view(&self) -> MetadataMetadataV {
        MetadataMetadataV {
            length: self.length as int,
            hashes: hash_map_view(self.hashes@),
            version: self.version as int,
        }
    }
}

/// What a timestamp meta entry parses to: `length`, `hashes` and `version`,
/// all required.
pub open spec fn spec_parse_meta_entry(j: Jv) -> Result<MetadataMetadataV, ErrV> {
    match j {
        Jv::Obj(ms) => match jv_get(ms, "length"@) {
            Option::None => Err(ErrV::MissingField("length"@)),
            Option::Some(lv) => match lv {
                Jv::Int(len) => match jv_get(ms, "hashes"@) {
                    Option::None => Err(ErrV::MissingField("hashes"@)),
                    Option::Some(hv) => match hv {
                        Jv::Obj(hms) => match spec_parse_hash_map(hms) {
                            Err(e) => Err(ErrV::InvalidFieldValue("hashes"@, Box::new(e))),
                            Ok(hashes) => match spec_get_version(ms) {
                                Err(e) => Err(e),
                                Ok(version) => Ok(
                                    MetadataMetadataV { length: len, hashes, version },
                                ),
                            },
                        },
                        _ => Err(
                            ErrV::InvalidFieldValue("hashes"@, Box::new(ErrV::MalformedDocument)),
                        ),
                    },
                },
                _ => Err(ErrV::InvalidFieldValue("length"@, Box::new(ErrV::MalformedDocument))),
            },
        },
        _ => Err(ErrV::MalformedDocument),
    }
}

impl MetadataMetadata {
    /// Reads a timestamp meta entry.
    pub fn parse(v: &JsonValue) -> (r: Result<MetadataMetadata, Error>)
        ensures
            match r {
                Ok(t) => spec_parse_meta_entry(v@) == Ok::<MetadataMetadataV, ErrV>(t@),
                Err(e) => spec_parse_meta_entry(v@) == Err::<MetadataMetadataV, ErrV>(e@),
            },
    {
        let members = match v.as_object_value() {
            Some(m) => m,
            None => {
                return Err(Error::MalformedDocument);
            },
        };
        let length = match obj_get(members, "length") {
            None => {
                return Err(missing_field("length"));
            },
            Some(lv) => match lv.as_int_value() {
                Some(n) => n,
                None => {
                    return Err(invalid_field("length", Error::MalformedDocument));
                },
            },
        };
        let hashes = match obj_get(members, "hashes") {
            None => {
                return Err(missing_field("hashes"));
            },
            Some(hv) => match hv.as_object_value() {
                Some(hms) => match parse_hash_map(hms) {
                    Ok(hs) => hs,
                    Err(e) => {
                        return Err(invalid_field("hashes", e));
                    },
                },
                None => {
                    return Err(invalid_field("hashes", Error::MalformedDocument));
                },
            },
        };
        let version = match get_version(members) {
            Ok(n) => n,
            Err(e) => {
                return Err(e);
            },
        };
        Ok(MetadataMetadata { length, hashes, version })
    }
}

/// What the snapshot role records about one metadata file; length and
/// digests may be omitted under the consistent-snapshot optimization.
#[derive(Debug, Clone, PartialEq)]
pub struct SnapshotMetadataMetadata {
    pub length: Option<i64>,
    pub hashes: Option<Vec<(HashType, HashValue)>>,
    pub version: i32,
}

/// The model of a snapshot meta entry.
#[verifier::ext_equal]
pub struct SnapshotMetadataMetadataV {
    pub length: Option<int>,
    pub hashes: Option<Seq<(HashTypeV, Seq<u8>)>>,
    pub version: int,
}

impl View for SnapshotMetadataMetadata {
    type V = SnapshotMetadataMetadataV;

    open spec fn view(&self) -> SnapshotMetadataMetadataV {
        SnapshotMetadataMetadataV {
            length: match self.length {
                Option::Some(n) => Option::Some(n as int),
                Option::None => Option::None,
            },
            hashes: match self.hashes {
                Option::Some(hs) => Option::Some(hash_map_view(hs@)),
                Option::None => Option::None,
            },
            version: self.version as int,
        }
    }
}

/// What a snapshot meta entry parses to: a required `version`, an optional
/// `length` and an optional digest map.
pub open spec fn spec_parse_snapshot_entry(j: Jv) -> Result<SnapshotMetadataMetadataV, ErrV> {
    match j {
        Jv::Obj(ms) => {
            let length = match jv_get(ms, "length"@) {
                Option::None => Ok(Option::None),
                Option::Some(lv) => match lv {
                    Jv::Int(len) => Ok(Option::Some(len)),
                    _ => Err(
                        ErrV::InvalidFieldValue("length"@, Box::new(ErrV::MalformedDocument)),
                    ),
                },
            };
            match length {
                Err(e) => Err(e),
                Ok(length) => {
                    let hashes = match jv_get(ms, "hashes"@) {
                        Option::None => Ok(Option::None),
                        Option::Some(hv) => match hv {
                            Jv::Obj(hms) => match spec_parse_hash_map(hms) {
                                Ok(hashes) => Ok(Option::Some(hashes)),
                                Err(e) => Err(ErrV::InvalidFieldValue("hashes"@, Box::new(e))),
                            },
                            _ => Err(
                                ErrV::InvalidFieldValue(
                                    "hashes"@,
                                    Box::new(ErrV::MalformedDocument),
                                ),
                            ),
                        },
                    };
                    match hashes {
                        Err(e) => Err(e),
                        Ok(hashes) => match spec_get_version(ms) {
                            Err(e) => Err(e),
                            Ok(version) => Ok(
                                SnapshotMetadataMetadataV { length, hashes, version },
                            ),
                        },
                    }
                },
            }
        },
        _ => Err(ErrV::MalformedDocument),
    }
}

impl SnapshotMetadataMetadata {
    /// Reads a snapshot meta entry.
    pub fn parse(v: &JsonValue) -> (r: Result<SnapshotMetadataMetadata, Error>)
        ensures
            match r {
                Ok(t) => spec_parse_snapshot_entry(v@) == Ok::<SnapshotMetadataMetadataV, ErrV>(
                    t@,
                ),
                Err(e) => spec_parse_snapshot_entry(v@) == Err::<SnapshotMetadataMetadataV, ErrV>(
                    e@,
                ),
            },
    {
        let members = match v.as_object_value() {
            Some(m) => m,
            None => {
                return Err(Error::MalformedDocument);
            },
        };
        let length = match obj_get(members, "length") {
            None => None,
            Some(lv) => match lv.as_int_value() {
                Some(n) => Some(n),
                None => {
                    return Err(invalid_field("length", Error::MalformedDocument));
                },
            },
        };
        let hashes = match obj_get(members, "hashes") {
            None => None,
            Some(hv) => match hv.as_object_value() {
                Some(hms) => match parse_hash_map(hms) {
                    Ok(hs) => Some(hs),
                    Err(e) => {
                        return Err(invalid_field("hashes", e));
                    },
                },
                None => {
                    return Err(invalid_field("hashes", Error::MalformedDocument));
                },
            },
        };
        let version = match get_version(members) {
            Ok(n) => n,
            Err(e) => {
                return Err(e);
            },
        };
        Ok(SnapshotMetadataMetadata { length, hashes, version })
    }
}

/// A typed metadata payload: each document kind knows its expiry.
pub trait Metadata<R: RoleType> {
    /// The document's expiry timestamp.
    spec fn spec_expires(&self) -> DateTimeUtc;

    /// When the document stops being trustworthy; comparing it against the
    /// current time is the calling workflow's job.
    fn expires(&self) -> (r: &DateTimeUtc)
        ensures
            *r == self.spec_expires(),
    ;
}

/// The models of a list of signatures.
pub open spec fn sigs_view(v: Seq<Signature>) -> Seq<SignatureV> {
    Seq::new(v.len(), |i: int| v[i]@)
}

/// What a list of signatures parses to.
pub open spec fn spec_parse_sig_array(es: Seq<Jv>) -> Result<Seq<SignatureV>, ErrV>
    decreases es.len(),
{
    if es.len() == 0 {
        Ok(Seq::empty())
    } else {
        match spec_parse_signature(es[0]) {
            Err(e) => Err(e),
            Ok(s) => match spec_parse_sig_array(es.drop_first()) {
                Ok(rest) => Ok(seq![s] + rest),
                Err(e) => Err(e),
            },
        }
    }
}

/// Reads a list of signatures, keeping their order.
fn parse_sig_array(elems: &Vec<JsonValue>) -> (r: Result<Vec<Signature>, Error>)
    ensures
        match r {
            Ok(ss) => spec_parse_sig_array(arr_view(elems@)) == Ok::<Seq<SignatureV>, ErrV>(
                sigs_view(ss@),
            ),
            Err(e) => spec_parse_sig_array(arr_view(elems@)) == Err::<Seq<SignatureV>, ErrV>(e@),
        },
{
    let ghost es = arr_view(elems@);
    let mut out: Vec<Signature> = Vec::new();
    let mut i: usize = 0;
    proof {
        lemma_arr_view_len(elems@);
        assert(es.skip(0) =~= es);
        assert(sigs_view(out@) =~= Seq::<SignatureV>::empty());
    }
    while i < elems.len()
        invariant
            i <= elems.len(),
            es == arr_view(elems@),
            es.len() == elems@.len(),
            out@.len() == i,
            spec_parse_sig_array(es) == (match spec_parse_sig_array(es.skip(i as int)) {
                Ok(rest) => Ok::<Seq<SignatureV>, ErrV>(sigs_view(out@) + rest),
                Err(e) => Err::<Seq<SignatureV>, ErrV>(e),
            }),
        decreases elems.len() - i,
    {
        proof {
            lemma_arr_view_index(elems@, i as int);
            assert(es.skip(i as int)[0] == es[i as int]);
            assert(es.skip(i as int).drop_first() =~= es.skip(i + 1 as int));
        }
        let s = match Signature::parse(&elems[i]) {
            Ok(s) => s,
            Err(e) => {
                return Err(e);
            },
        };
        let ghost prev = out@;
        out.push(s);
        proof {
            assert(sigs_view(out@) =~= sigs_view(prev).push(
                spec_parse_signature(es[i as int])->Ok_0,
            ));
            if spec_parse_sig_array(es.skip(i + 1 as int)) is Ok {
                let rest = spec_parse_sig_array(es.skip(i + 1 as int))->Ok_0;
                assert(sigs_view(prev) + (seq![spec_parse_signature(es[i as int])->Ok_0] + rest)
                    =~= sigs_view(out@) + rest);
            }
        }
        i += 1;
    }
    proof {
        assert(es.skip(i as int).len() == 0);
        assert(sigs_view(out@) + Seq::<SignatureV>::empty() =~= sigs_view(out@));
    }
    Ok(out)
}

/// The envelope around a payload: the signature list and the payload value
/// exactly as it arrived, still uninterpreted so that the bytes a signature
/// covers can be recomputed.
#[derive(Debug)]
#[verifier::reject_recursive_types(R)]
pub struct SignedMetadata<R: RoleType> {
    /// The signatures, in document order; the order carries no meaning.
    pub signatures: Vec<Signature>,
    /// The still-canonical payload value.
    pub signed: JsonValue,
    pub _role: PhantomData<R>,
}

/// The model of an envelope.
#[verifier::ext_equal]
pub struct SignedMetadataV {
    pub signatures: Seq<SignatureV>,
    pub signed: Jv,
}

impl<R: RoleType> View for SignedMetadata<R> {
    type V = SignedMetadataV;

    open spec fn view(&self) -> SignedMetadataV {
        SignedMetadataV { signatures: sigs_view(self.signatures@), signed: self.signed@ }
    }
}

/// What an envelope parses to: exactly a `"signatures"` array and a
/// `"signed"` object; a document missing either is rejected, never treated
/// as trusted-with-zero-signatures.
pub open spec fn spec_parse_signed(j: Jv) -> Result<SignedMetadataV, ErrV> {
    match j {
        Jv::Obj(ms) => match jv_get(ms, "signatures"@) {
            Option::None => Err(ErrV::MissingField("signatures"@)),
            Option::Some(sv) => match sv {
                Jv::Arr(es) => match spec_parse_sig_array(es) {
                    Err(e) => Err(ErrV::InvalidFieldValue("signatures"@, Box::new(e))),
                    Ok(sigs) => match jv_get(ms, "signed"@) {
                        Option::None => Err(ErrV::MissingField("signed"@)),
                        Option::Some(pv) => match pv {
                            Jv::Obj(_) => Ok(
                                SignedMetadataV { signatures: sigs, signed: pv },
                            ),
                            _ => Err(
                                ErrV::InvalidFieldValue(
                                    "signed"@,
                                    Box::new(ErrV::MalformedDocument),
                                ),
                            ),
                        },
                    },
                },
                _ => Err(
                    ErrV::InvalidFieldValue("signatures"@, Box::new(ErrV::MalformedDocument)),
                ),
            },
        },
        _ => Err(ErrV::MalformedDocument),
    }
}

impl<R: RoleType> SignedMetadata<R> {
    /// Reads an envelope, keeping the payload value uninterpreted.
    pub fn parse(v: &JsonValue) -> (r: Result<SignedMetadata<R>, Error>)
        ensures
            match r {
                Ok(m) => spec_parse_signed(v@) == Ok::<SignedMetadataV, ErrV>(m@),
                Err(e) => spec_parse_signed(v@) == Err::<SignedMetadataV, ErrV>(e@),
            },
    {
        let members = match v.as_object_value() {
            Some(m) => m,
            None => {
                return Err(Error::MalformedDocument);
            },
        };
        let signatures = match obj_get(members, "signatures") {
            None => {
                return Err(missing_field("signatures"));
            },
            Some(sv) => match sv.as_array_value() {
                Some(es) => match parse_sig_array(es) {
                    Ok(ss) => ss,
                    Err(e) => {
                        return Err(invalid_field("signatures", e));
                    },
                },
                None => {
                    return Err(invalid_field("signatures", Error::MalformedDocument));
                },
            },
        };
        let signed = match obj_get(members, "signed") {
            None => {
                return Err(missing_field("signed"));
            },
            Some(pv) => match pv.as_object_value() {
                Some(_) => pv.deep_clone(),
                None => {
                    return Err(invalid_field("signed", Error::MalformedDocument));
                },
            },
        };
        Ok(SignedMetadata { signatures, signed, _role: PhantomData })
    }
}

/// The root document: the complete key pool and the four top-level role
/// definitions.
#[derive(Debug, Clone, PartialEq)]
pub struct RootMetadata {
    pub consistent_snapshot: bool,
    pub expires: DateTimeUtc,
    pub version: i32,
    pub keys: Vec<(KeyId, Key)>,
    pub root: RoleDefinition,
    pub targets: RoleDefinition,
    pub timestamp: RoleDefinition,
    pub snapshot: RoleDefinition,
}

/// The model of a root document.
#[verifier::ext_equal]
pub struct RootMetadataV {
    pub consistent_snapshot: bool,
    pub expires: DateTimeUtc,
    pub version: int,
    pub keys: Seq<(Seq<char>, KeyV)>,
    pub root: RoleDefV,
    pub targets: RoleDefV,
    pub timestamp: RoleDefV,
    pub snapshot: RoleDefV,
}

impl View for RootMetadata {
    type V = RootMetadataV;

    open spec fn view(&self) -> RootMetadataV {
        RootMetadataV {
            consistent_snapshot: self.consistent_snapshot,
            expires: self.expires,
            version: self.version as int,
            keys: key_map_view(self.keys@),
            root: self.root@,
            targets: self.targets@,
            timestamp: self.timestamp@,
            snapshot: self.snapshot@,
        }
    }
}

impl Metadata<crate::roles::Root> for RootMetadata {
    open spec fn spec_expires(&self) -> DateTimeUtc {
        self.expires
    }

    fn expires(&self) -> &DateTimeUtc {
        &self.expires
    }
}

/// One role definition out of the root document's `"roles"` object.
pub open spec fn spec_get_role_def(ms: Seq<(Seq<char>, Jv)>, name: Seq<char>) -> Result<
    RoleDefV,
    ErrV,
> {
    match jv_get(ms, name) {
        Option::None => Err(ErrV::MissingField(name)),
        Option::Some(rv) => match spec_parse_role_definition(rv) {
            Ok(d) => Ok(d),
            Err(e) => Err(ErrV::InvalidFieldValue(name, Box::new(e))),
        },
    }
}

/// Reads one role definition out of the root document's `"roles"` object.
fn get_role_def(members: &Vec<(String, JsonValue)>, name: &str) -> (r: Result<
    RoleDefinition,
    Error,
>)
    ensures
        match r {
            Ok(d) => spec_get_role_def(mem_view(members@), name@) == Ok::<RoleDefV, ErrV>(d@),
            Err(e) => spec_get_role_def(mem_view(members@), name@) == Err::<RoleDefV, ErrV>(e@),
        },
{
    match obj_get(members, name) {
        None => Err(missing_field(name)),
        Some(rv) => match RoleDefinition::parse(rv) {
            Ok(d) => Ok(d),
            Err(e) => Err(invalid_field(name, e)),
        },
    }
}

/// What a root document parses to.  The `_type` tag must name the root
/// role; each missing or malformed field is reported under its own name.
pub open spec fn spec_parse_root(j: Jv) -> Result<RootMetadataV, ErrV> {
    match j {
        Jv::Obj(ms) => match jv_get(ms, "_type"@) {
            Option::None => Err(ErrV::MissingField("_type"@)),
            Option::Some(tv) => match tv {
                Jv::Str(ts) => match spec_role_from(ts) {
                    Err(e) => Err(ErrV::InvalidFieldValue("_type"@, Box::new(e))),
                    Ok(role) => {
                        if !(role is Root) {
                            Err(
                                ErrV::InvalidFieldValue(
                                    "_type"@,
                                    Box::new(ErrV::MalformedDocument),
                                ),
                            )
                        } else {
                            match jv_get(ms, "keys"@) {
                                Option::None => Err(ErrV::MissingField("keys"@)),
                                Option::Some(kv) => match kv {
                                    Jv::Obj(kms) => match spec_parse_key_map(kms) {
                                        Err(e) => Err(
                                            ErrV::InvalidFieldValue("keys"@, Box::new(e)),
                                        ),
                                        Ok(keys) => match spec_get_expires(ms) {
                                            Err(e) => Err(e),
                                            Ok(expires) => match spec_get_version(ms) {
                                                Err(e) => Err(e),
                                                Ok(version) => match jv_get(
                                                    ms,
                                                    "consistent_snapshot"@,
                                                ) {
                                                    Option::None => Err(
                                                        ErrV::MissingField("consistent_snapshot"@),
                                                    ),
                                                    Option::Some(cv) => match cv {
                                                        Jv::Bool(cs) => match jv_get(ms, "roles"@) {
                                                            Option::Some(
                                                                Jv::Obj(rms),
                                                            ) => match spec_get_role_def(
                                                                rms,
                                                                "root"@,
                                                            ) {
                                                                Err(e) => Err(e),
                                                                Ok(root) => match spec_get_role_def(
                                                                    rms,
                                                                    "targets"@,
                                                                ) {
                                                                    Err(e) => Err(e),
                                                                    Ok(
                                                                        targets,
                                                                    ) => match spec_get_role_def(
                                                                        rms,
                                                                        "timestamp"@,
                                                                    ) {
                                                                        Err(e) => Err(e),
                                                                        Ok(
                                                                            timestamp,
                                                                        ) => match spec_get_role_def(
                                                                            rms,
                                                                            "snapshot"@,
                                                                        ) {
                                                                            Err(e) => Err(e),
                                                                            Ok(snapshot) => Ok(
                                                                                RootMetadataV {
                                                                                    consistent_snapshot:
                                                                                        cs,
                                                                                    expires,
                                                                                    version,
                                                                                    keys,
                                                                                    root,
                                                                                    targets,
                                                                                    timestamp,
                                                                                    snapshot,
                                                                                },
                                                                            ),
                                                                        },
                                                                    },
                                                                },
                                                            },
                                                            _ => Err(
                                                                ErrV::MissingField("roles"@),
                                                            ),
                                                        },
                                                        _ => Err(
                                                            ErrV::InvalidFieldValue(
                                                                "consistent_snapshot"@,
                                                                Box::new(ErrV::MalformedDocument),
                                                            ),
                                                        ),
                                                    },
                                                },
                                            },
                                        },
                                    },
                                    _ => Err(
                                        ErrV::InvalidFieldValue(
                                            "keys"@,
                                            Box::new(ErrV::MalformedDocument),
                                        ),
                                    ),
                                },
                            }
                        }
                    },
                },
                _ => Err(ErrV::InvalidFieldValue("_type"@, Box::new(ErrV::MalformedDocument))),
            },
        },
        _ => Err(ErrV::MalformedDocument),
    }
}

impl RootMetadata {
    /// Reads a root document.
    pub fn parse(v: &JsonValue) -> (r: Result<RootMetadata, Error>)
        ensures
            match r {
                Ok(m) => spec_parse_root(v@) == Ok::<RootMetadataV, ErrV>(m@),
                Err(e) => spec_parse_root(v@) == Err::<RootMetadataV, ErrV>(e@),
            },
    {
        let members = match v.as_object_value() {
            Some(m) => m,
            None => {
                return Err(Error::MalformedDocument);
            },
        };
        match obj_get(members, "_type") {
            None => {
                return Err(missing_field("_type"));
            },
            Some(tv) => match tv.as_str_value() {
                Some(ts) => match Role::from_str(ts.as_str()) {
                    Err(e) => {
                        return Err(invalid_field("_type", e));
                    },
                    Ok(Role::Root) => (),
                    Ok(_) => {
                        return Err(invalid_field("_type", Error::MalformedDocument));
                    },
                },
                None => {
                    return Err(invalid_field("_type", Error::MalformedDocument));
                },
            },
        }
        let keys = match obj_get(members, "keys") {
            None => {
                return Err(missing_field("keys"));
            },
            Some(kv) => match kv.as_object_value() {
                Some(kms) => match parse_key_map(kms) {
                    Ok(keys) => keys,
                    Err(e) => {
                        return Err(invalid_field("keys", e));
                    },
                },
                None => {
                    return Err(invalid_field("keys", Error::MalformedDocument));
                },
            },
        };
        let expires = match get_expires(members) {
            Ok(dt) => dt,
            Err(e) => {
                return Err(e);
            },
        };
        let version = match get_version(members) {
            Ok(n) => n,
            Err(e) => {
                return Err(e);
            },
        };
        let consistent_snapshot = match obj_get(members, "consistent_snapshot") {
            None => {
                return Err(missing_field("consistent_snapshot"));
            },
            Some(cv) => match cv.as_bool_value() {
                Some(b) => b,
                None => {
                    return Err(invalid_field("consistent_snapshot", Error::MalformedDocument));
                },
            },
        };
        let role_members = match obj_get(members, "roles") {
            None => {
                return Err(missing_field("roles"));
            },
            Some(rv) => match rv.as_object_value() {
                Some(rms) => rms,
                None => {
                    return Err(missing_field("roles"));
                },
            },
        };
        let root = match get_role_def(role_members, "root") {
            Ok(d) => d,
            Err(e) => {
                return Err(e);
            },
        };
        let targets = match get_role_def(role_members, "targets") {
            Ok(d) => d,
            Err(e) => {
                return Err(e);
            },
        };
        let timestamp = match get_role_def(role_members, "timestamp") {
            Ok(d) => d,
            Err(e) => {
                return Err(e);
            },
        };
        let snapshot = match get_role_def(role_members, "snapshot") {
            Ok(d) => d,
            Err(e) => {
                return Err(e);
            },
        };
        Ok(
            RootMetadata {
                consistent_snapshot,
                expires,
                version,
                keys,
                root,
                targets,
                timestamp,
                snapshot,
            },
        )
    }
}

/// The models of a target map: target names paired with their descriptions.
pub open spec fn target_map_view(v: Seq<(String, TargetInfo)>) -> Seq<(Seq<char>, TargetInfoV)> {
    Seq::new(v.len(), |i: int| (v[i].0@, v[i].1@))
}

/// What a target map parses to.
pub open spec fn spec_parse_target_map(ms: Seq<(Seq<char>, Jv)>) -> Result<
    Seq<(Seq<char>, TargetInfoV)>,
    ErrV,
>
    decreases ms.len(),
{
    if ms.len() == 0 {
        Ok(Seq::empty())
    } else {
        match spec_parse_target_info(ms[0].1) {
            Err(e) => Err(e),
            Ok(t) => match spec_parse_target_map(ms.drop_first()) {
                Ok(rest) => Ok(seq![(ms[0].0, t)] + rest),
                Err(e) => Err(e),
            },
        }
    }
}

/// Reads a target map, keeping the members' order.
fn parse_target_map(members: &Vec<(String, JsonValue)>) -> (r: Result<
    Vec<(String, TargetInfo)>,
    Error,
>)
    ensures
        match r {
            Ok(ts) => spec_parse_target_map(mem_view(members@)) == Ok::<
                Seq<(Seq<char>, TargetInfoV)>,
                ErrV,
            >(target_map_view(ts@)),
            Err(e) => spec_parse_target_map(mem_view(members@)) == Err::<
                Seq<(Seq<char>, TargetInfoV)>,
                ErrV,
            >(e@),
        },
{
    let ghost ms = mem_view(members@);
    let mut out: Vec<(String, TargetInfo)> = Vec::new();
    let mut i: usize = 0;
    proof {
        lemma_mem_view_len(members@);
        assert(ms.skip(0) =~= ms);
        assert(target_map_view(out@) =~= Seq::<(Seq<char>, TargetInfoV)>::empty());
    }
    while i < members.len()
        invariant
            i <= members.len(),
            ms == mem_view(members@),
            ms.len() == members@.len(),
            out@.len() == i,
            spec_parse_target_map(ms) == (match spec_parse_target_map(ms.skip(i as int)) {
                Ok(rest) => Ok::<Seq<(Seq<char>, TargetInfoV)>, ErrV>(
                    target_map_view(out@) + rest,
                ),
                Err(e) => Err::<Seq<(Seq<char>, TargetInfoV)>, ErrV>(e),
            }),
        decreases members.len() - i,
    {
        proof {
            lemma_mem_view_index(members@, i as int);
            assert(ms.skip(i as int)[0] == ms[i as int]);
            assert(ms.skip(i as int).drop_first() =~= ms.skip(i + 1 as int));
        }
        let t = match TargetInfo::parse(&members[i].1) {
            Ok(t) => t,
            Err(e) => {
                return Err(e);
            },
        };
        let name = members[i].0.clone();
        let ghost prev = out@;
        out.push((name, t));
        proof {
            assert(target_map_view(out@) =~= target_map_view(prev).push(
                (ms[i as int].0, spec_parse_target_info(ms[i as int].1)->Ok_0),
            ));
            if spec_parse_target_map(ms.skip(i + 1 as int)) is Ok {
                let rest = spec_parse_target_map(ms.skip(i + 1 as int))->Ok_0;
                assert(target_map_view(prev) + (seq![
                    (ms[i as int].0, spec_parse_target_info(ms[i as int].1)->Ok_0),
                ] + rest) =~= target_map_view(out@) + rest);
            }
        }
        i += 1;
    }
    proof {
        assert(ms.skip(i as int).len() == 0);
        assert(target_map_view(out@) + Seq::<(Seq<char>, TargetInfoV)>::empty()
            =~= target_map_view(out@));
    }
    Ok(out)
}

/// The targets document: the target map and an optional delegation section.
#[derive(Debug, Clone)]
pub struct TargetsMetadata {
    pub expires: DateTimeUtc,
    pub version: i32,
    /// The delegation section; absent means no delegation, while a present
    /// but malformed one is a parse error.
    pub delegations: Option<Delegations>,
    pub targets: Vec<(String, TargetInfo)>,
}

/// The model of a targets document.
#[verifier::ext_equal]
pub struct TargetsMetadataV {
    pub expires: DateTimeUtc,
    pub version: int,
    pub delegations: Option<DelegationsV>,
    pub targets: Seq<(Seq<char>, TargetInfoV)>,
}

impl View for TargetsMetadata {
    type V = TargetsMetadataV;

    open spec fn view(&self) -> TargetsMetadataV {
        TargetsMetadataV {
            expires: self.expires,
            version: self.version as int,
            delegations: match self.delegations {
                Option::Some(d) => Option::Some(d@),
                Option::None => Option::None,
            },
            targets: target_map_view(self.targets@),
        }
    }
}

impl Metadata<crate::roles::Targets> for TargetsMetadata {
    open spec fn spec_expires(&self) -> DateTimeUtc {
        self.expires
    }

    fn expires(&self) -> &DateTimeUtc {
        &self.expires
    }
}

/// What a targets document parses to: a missing `delegations` member means
/// no delegation, a present but malformed one is an error.
pub open spec fn spec_parse_targets(j: Jv) -> Result<TargetsMetadataV, ErrV> {
    match j {
        Jv::Obj(ms) => {
            let delegations = match jv_get(ms, "delegations"@) {
                Option::None => Ok(Option::None),
                Option::Some(dv) => match spec_parse_delegations(dv) {
                    Ok(d) => Ok(Option::Some(d)),
                    Err(e) => Err(ErrV::InvalidFieldValue("delegations"@, Box::new(e))),
                },
            };
            match delegations {
                Err(e) => Err(e),
                Ok(delegations) => match spec_get_expires(ms) {
                    Err(e) => Err(e),
                    Ok(expires) => match spec_get_version(ms) {
                        Err(e) => Err(e),
                        Ok(version) => match jv_get(ms, "targets"@) {
                            Option::None => Err(ErrV::MissingField("targets"@)),
                            Option::Some(tv) => match tv {
                                Jv::Obj(tms) => match spec_parse_target_map(tms) {
                                    Err(e) => Err(
                                        ErrV::InvalidFieldValue("targets"@, Box::new(e)),
                                    ),
                                    Ok(targets) => Ok(
                                        TargetsMetadataV {
                                            expires,
                                            version,
                                            delegations,
                                            targets,
                                        },
                                    ),
                                },
                                _ => Err(
                                    ErrV::InvalidFieldValue(
                                        "targets"@,
                                        Box::new(ErrV::MalformedDocument),
                                    ),
                                ),
                            },
                        },
                    },
                },
            }
        },
        _ => Err(ErrV::MalformedDocument),
    }
}

impl TargetsMetadata {
    /// Reads a targets document.
    pub fn parse(v: &JsonValue) -> (r: Result<TargetsMetadata, Error>)
        ensures
            match r {
                Ok(m) => spec_parse_targets(v@) == Ok::<TargetsMetadataV, ErrV>(m@),
                Err(e) => spec_parse_targets(v@) == Err::<TargetsMetadataV, ErrV>(e@),
            },
    {
        let members = match v.as_object_value() {
            Some(m) => m,
            None => {
                return Err(Error::MalformedDocument);
            },
        };
        let delegations = match obj_get(members, "delegations") {
            None => None,
            Some(dv) => match Delegations::parse(dv) {
                Ok(d) => Some(d),
                Err(e) => {
                    return Err(invalid_field("delegations", e));
                },
            },
        };
        let expires = match get_expires(members) {
            Ok(dt) => dt,
            Err(e) => {
                return Err(e);
            },
        };
        let version = match get_version(members) {
            Ok(n) => n,
            Err(e) => {
                return Err(e);
            },
        };
        let targets = match obj_get(members, "targets") {
            None => {
                return Err(missing_field("targets"));
            },
            Some(tv) => match tv.as_object_value() {
                Some(tms) => match parse_target_map(tms) {
                    Ok(ts) => ts,
                    Err(e) => {
                        return Err(invalid_field("targets", e));
                    },
                },
                None => {
                    return Err(invalid_field("targets", Error::MalformedDocument));
                },
            },
        };
        Ok(TargetsMetadata { expires, version, delegations, targets })
    }
}

/// The models of a timestamp meta map.
pub open spec fn meta_map_view(v: Seq<(String, MetadataMetadata)>) -> Seq<
    (Seq<char>, MetadataMetadataV),
> {
    Seq::new(v.len(), |i: int| (v[i].0@, v[i].1@))
}

/// What a timestamp meta map parses to.
pub open spec fn spec_parse_meta_map(ms: Seq<(Seq<char>, Jv)>) -> Result<
    Seq<(Seq<char>, MetadataMetadataV)>,
    ErrV,
>
    decreases ms.len(),
{
    if ms.len() == 0 {
        Ok(Seq::empty())
    } else {
        match spec_parse_meta_entry(ms[0].1) {
            Err(e) => Err(e),
            Ok(t) => match spec_parse_meta_map(ms.drop_first()) {
                Ok(rest) => Ok(seq![(ms[0].0, t)] + rest),
                Err(e) => Err(e),
            },
        }
    }
}

/// Reads a timestamp meta map, keeping the members' order.
fn parse_meta_map(members: &Vec<(String, JsonValue)>) -> (r: Result<
    Vec<(String, MetadataMetadata)>,
    Error,
>)
    ensures
        match r {
            Ok(ts) => spec_parse_meta_map(mem_view(members@)) == Ok::<
                Seq<(Seq<char>, MetadataMetadataV)>,
                ErrV,
            >(meta_map_view(ts@)),
            Err(e) => spec_parse_meta_map(mem_view(members@)) == Err::<
                Seq<(Seq<char>, MetadataMetadataV)>,
                ErrV,
            >(e@),
        },
{
    let ghost ms = mem_view(members@);
    let mut out: Vec<(String, MetadataMetadata)> = Vec::new();
    let mut i: usize = 0;
    proof {
        lemma_mem_view_len(members@);
        assert(ms.skip(0) =~= ms);
        assert(meta_map_view(out@) =~= Seq::<(Seq<char>, MetadataMetadataV)>::empty());
    }
    while i < members.len()
        invariant
            i <= members.len(),
            ms == mem_view(members@),
            ms.len() == members@.len(),
            out@.len() == i,
            spec_parse_meta_map(ms) == (match spec_parse_meta_map(ms.skip(i as int)) {
                Ok(rest) => Ok::<Seq<(Seq<char>, MetadataMetadataV)>, ErrV>(
                    meta_map_view(out@) + rest,
                ),
                Err(e) => Err::<Seq<(Seq<char>, MetadataMetadataV)>, ErrV>(e),
            }),
        decreases members.len() - i,
    {
        proof {
            lemma_mem_view_index(members@, i as int);
            assert(ms.skip(i as int)[0] == ms[i as int]);
            assert(ms.skip(i as int).drop_first() =~= ms.skip(i + 1 as int));
        }
        let t = match MetadataMetadata::parse(&members[i].1) {
            Ok(t) => t,
            Err(e) => {
                return Err(e);
            },
        };
        let name = members[i].0.clone();
        let ghost prev = out@;
        out.push((name, t));
        proof {
            assert(meta_map_view(out@) =~= meta_map_view(prev).push(
                (ms[i as int].0, spec_parse_meta_entry(ms[i as int].1)->Ok_0),
            ));
            if spec_parse_meta_map(ms.skip(i + 1 as int)) is Ok {
                let rest = spec_parse_meta_map(ms.skip(i + 1 as int))->Ok_0;
                assert(meta_map_view(prev) + (seq![
                    (ms[i as int].0, spec_parse_meta_entry(ms[i as int].1)->Ok_0),
                ] + rest) =~= meta_map_view(out@) + rest);
            }
        }
        i += 1;
    }
    proof {
        assert(ms.skip(i as int).len() == 0);
        assert(meta_map_view(out@) + Seq::<(Seq<char>, MetadataMetadataV)>::empty()
            =~= meta_map_view(out@));
    }
    Ok(out)
}

/// The timestamp document: what it records about the snapshot file.
#[derive(Debug, Clone, PartialEq)]
pub struct TimestampMetadata {
    pub expires: DateTimeUtc,
    pub version: i32,
    pub meta: Vec<(String, MetadataMetadata)>,
}

/// The model of a timestamp document.
#[verifier::ext_equal]
pub struct TimestampMetadataV {
    pub expires: DateTimeUtc,
    pub version: int,
    pub meta: Seq<(Seq<char>, MetadataMetadataV)>,
}

impl View for TimestampMetadata {
    type V = TimestampMetadataV;

    open spec fn view(&self) -> TimestampMetadataV {
        TimestampMetadataV {
            expires: self.expires,
            version: self.version as int,
            meta: meta_map_view(self.meta@),
        }
    }
}

impl Metadata<crate::roles::Timestamp> for TimestampMetadata {
    open spec fn spec_expires(&self) -> DateTimeUtc {
        self.expires
    }

    fn expires(&self) -> &DateTimeUtc {
        &self.expires
    }
}

/// What a timestamp document parses to.
pub open spec fn spec_parse_timestamp(j: Jv) -> Result<TimestampMetadataV, ErrV> {
    match j {
        Jv::Obj(ms) => match spec_get_expires(ms) {
            Err(e) => Err(e),
            Ok(expires) => match spec_get_version(ms) {
                Err(e) => Err(e),
                Ok(version) => match jv_get(ms, "meta"@) {
                    Option::None => Err(ErrV::MissingField("meta"@)),
                    Option::Some(mv) => match mv {
                        Jv::Obj(mms) => match spec_parse_meta_map(mms) {
                            Err(e) => Err(ErrV::InvalidFieldValue("meta"@, Box::new(e))),
                            Ok(meta) => Ok(TimestampMetadataV { expires, version, meta }),
                        },
                        _ => Err(
                            ErrV::InvalidFieldValue("meta"@, Box::new(ErrV::MalformedDocument)),
                        ),
                    },
                },
            },
        },
        _ => Err(ErrV::MalformedDocument),
    }
}

impl TimestampMetadata {
    /// Reads a timestamp document.
    pub fn parse(v: &JsonValue) -> (r: Result<TimestampMetadata, Error>)
        ensures
            match r {
                Ok(m) => spec_parse_timestamp(v@) == Ok::<TimestampMetadataV, ErrV>(m@),
                Err(e) => spec_parse_timestamp(v@) == Err::<TimestampMetadataV, ErrV>(e@),
            },
    {
        let members = match v.as_object_value() {
            Some(m) => m,
            None => {
                return Err(Error::MalformedDocument);
            },
        };
        let expires = match get_expires(members) {
            Ok(dt) => dt,
            Err(e) => {
                return Err(e);
            },
        };
        let version = match get_version(members) {
            Ok(n) => n,
            Err(e) => {
                return Err(e);
            },
        };
        let meta = match obj_get(members, "meta") {
            None => {
                return Err(missing_field("meta"));
            },
            Some(mv) => match mv.as_object_value() {
                Some(mms) => match parse_meta_map(mms) {
                    Ok(ts) => ts,
                    Err(e) => {
                        return Err(invalid_field("meta", e));
                    },
                },
                None => {
                    return Err(invalid_field("meta", Error::MalformedDocument));
                },
            },
        };
        Ok(TimestampMetadata { expires, version, meta })
    }
}

/// The models of a snapshot meta map.
pub open spec fn snapshot_meta_map_view(v: Seq<(String, SnapshotMetadataMetadata)>) -> Seq<
    (Seq<char>, SnapshotMetadataMetadataV),
> {
    Seq::new(v.len(), |i: int| (v[i].0@, v[i].1@))
}

/// What a snapshot meta map parses to.
pub open spec fn spec_parse_snapshot_meta_map(ms: Seq<(Seq<char>, Jv)>) -> Result<
    Seq<(Seq<char>, SnapshotMetadataMetadataV)>,
    ErrV,
>
    decreases ms.len(),
{
    if ms.len() == 0 {
        Ok(Seq::empty())
    } else {
        match spec_parse_snapshot_entry(ms[0].1) {
            Err(e) => Err(e),
            Ok(t) => match spec_parse_snapshot_meta_map(ms.drop_first()) {
                Ok(rest) => Ok(seq![(ms[0].0, t)] + rest),
                Err(e) => Err(e),
            },
        }
    }
}

/// Reads a snapshot meta map, keeping the members' order.
fn parse_snapshot_meta_map(members: &Vec<(String, JsonValue)>) -> (r: Result<
    Vec<(String, SnapshotMetadataMetadata)>,
    Error,
>)
    ensures
        match r {
            Ok(ts) => spec_parse_snapshot_meta_map(mem_view(members@)) == Ok::<
                Seq<(Seq<char>, SnapshotMetadataMetadataV)>,
                ErrV,
            >(snapshot_meta_map_view(ts@)),
            Err(e) => spec_parse_snapshot_meta_map(mem_view(members@)) == Err::<
                Seq<(Seq<char>, SnapshotMetadataMetadataV)>,
                ErrV,
            >(e@),
        },
{
    let ghost ms = mem_view(members@);
    let mut out: Vec<(String, SnapshotMetadataMetadata)> = Vec::new();
    let mut i: usize = 0;
    proof {
        lemma_mem_view_len(members@);
        assert(ms.skip(0) =~= ms);
        assert(snapshot_meta_map_view(out@) =~= Seq::<
            (Seq<char>, SnapshotMetadataMetadataV),
        >::empty());
    }
    while i < members.len()
        invariant
            i <= members.len(),
            ms == mem_view(members@),
            ms.len() == members@.len(),
            out@.len() == i,
            spec_parse_snapshot_meta_map(ms) == (match spec_parse_snapshot_meta_map(
                ms.skip(i as int),
            ) {
                Ok(rest) => Ok::<Seq<(Seq<char>, SnapshotMetadataMetadataV)>, ErrV>(
                    snapshot_meta_map_view(out@) + rest,
                ),
                Err(e) => Err::<Seq<(Seq<char>, SnapshotMetadataMetadataV)>, ErrV>(e),
            }),
        decreases members.len() - i,
    {
        proof {
            lemma_mem_view_index(members@, i as int);
            assert(ms.skip(i as int)[0] == ms[i as int]);
            assert(ms.skip(i as int).drop_first() =~= ms.skip(i + 1 as int));
        }
        let t = match SnapshotMetadataMetadata::parse(&members[i].1) {
            Ok(t) => t,
            Err(e) => {
                return Err(e);
            },
        };
        let name = members[i].0.clone();
        let ghost prev = out@;
        out.push((name, t));
        proof {
            assert(snapshot_meta_map_view(out@) =~= snapshot_meta_map_view(prev).push(
                (ms[i as int].0, spec_parse_snapshot_entry(ms[i as int].1)->Ok_0),
            ));
            if spec_parse_snapshot_meta_map(ms.skip(i + 1 as int)) is Ok {
                let rest = spec_parse_snapshot_meta_map(ms.skip(i + 1 as int))->Ok_0;
                assert(snapshot_meta_map_view(prev) + (seq![
                    (ms[i as int].0, spec_parse_snapshot_entry(ms[i as int].1)->Ok_0),
                ] + rest) =~= snapshot_meta_map_view(out@) + rest);
            }
        }
        i += 1;
    }
    proof {
        assert(ms.skip(i as int).len() == 0);
        assert(snapshot_meta_map_view(out@) + Seq::<
            (Seq<char>, SnapshotMetadataMetadataV),
        >::empty() =~= snapshot_meta_map_view(out@));
    }
    Ok(out)
}

/// The snapshot document: what it records about the other metadata files.
#[derive(Debug, Clone, PartialEq)]
pub struct SnapshotMetadata {
    pub expires: DateTimeUtc,
    pub version: i32,
    pub meta: Vec<(String, SnapshotMetadataMetadata)>,
}

/// The model of a snapshot document.
#[verifier::ext_equal]
pub struct SnapshotMetadataV {
    pub expires: DateTimeUtc,
    pub version: int,
    pub meta: Seq<(Seq<char>, SnapshotMetadataMetadataV)>,
}

impl View for SnapshotMetadata {
    type V = SnapshotMetadataV;

    open spec fn view(&self) -> SnapshotMetadataV {
        SnapshotMetadataV {
            expires: self.expires,
            version: self.version as int,
            meta: snapshot_meta_map_view(self.meta@),
        }
    }
}

impl Metadata<crate::roles::Snapshot> for SnapshotMetadata {
    open spec fn spec_expires(&self) -> DateTimeUtc {
        self.expires
    }

    fn expires(&self) -> &DateTimeUtc {
        &self.expires
    }
}

/// What a snapshot document parses to.
pub open spec fn spec_parse_snapshot(j: Jv) -> Result<SnapshotMetadataV, ErrV> {
    match j {
        Jv::Obj(ms) => match spec_get_expires(ms) {
            Err(e) => Err(e),
            Ok(expires) => match spec_get_version(ms) {
                Err(e) => Err(e),
                Ok(version) => match jv_get(ms, "meta"@) {
                    Option::None => Err(ErrV::MissingField("meta"@)),
                    Option::Some(mv) => match mv {
                        Jv::Obj(mms) => match spec_parse_snapshot_meta_map(mms) {
                            Err(e) => Err(ErrV::InvalidFieldValue("meta"@, Box::new(e))),
                            Ok(meta) => Ok(SnapshotMetadataV { expires, version, meta }),
                        },
                        _ => Err(
                            ErrV::InvalidFieldValue("meta"@, Box::new(ErrV::MalformedDocument)),
                        ),
                    },
                },
            },
        },
        _ => Err(ErrV::MalformedDocument),
    }
}

impl SnapshotMetadata {
    /// Reads a snapshot document.
    pub fn parse(v: &JsonValue) -> (r: Result<SnapshotMetadata, Error>)
        ensures
            match r {
                Ok(m) => spec_parse_snapshot(v@) == Ok::<SnapshotMetadataV, ErrV>(m@),
                Err(e) => spec_parse_snapshot(v@) == Err::<SnapshotMetadataV, ErrV>(e@),
            },
    {
        let members = match v.as_object_value() {
            Some(m) => m,
            None => {
                return Err(Error::MalformedDocument);
            },
        };
        let expires = match get_expires(members) {
            Ok(dt) => dt,
            Err(e) => {
                return Err(e);
            },
        };
        let version = match get_version(members) {
            Ok(n) => n,
            Err(e) => {
                return Err(e);
            },
        };
        let meta = match obj_get(members, "meta") {
            None => {
                return Err(missing_field("meta"));
            },
            Some(mv) => match mv.as_object_value() {
                Some(mms) => match parse_snapshot_meta_map(mms) {
                    Ok(ts) => ts,
                    Err(e) => {
                        return Err(invalid_field("meta", e));
                    },
                },
                None => {
                    return Err(invalid_field("meta", Error::MalformedDocument));
                },
            },
        };
        Ok(SnapshotMetadata { expires, version, meta })
    }
}

} // verus!

