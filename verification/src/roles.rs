//! The role model: who is trusted to sign what, at what threshold, and (for
//! delegations) over which target-name space.

use vstd::prelude::*;
use crate::error::invalid_field;
use crate::error::missing_field;
use crate::error::ErrV;
use crate::error::Error;
use crate::jsonval::jv_get;
use crate::jsonval::arr_view;
use crate::jsonval::lemma_arr_view_index;
use crate::jsonval::lemma_arr_view_len;
use crate::jsonval::obj_get;
use crate::jsonval::str_eq;
use crate::jsonval::str_prefix;
use crate::jsonval::JsonValue;
use crate::jsonval::Jv;
use crate::keys::key_map_view;
use crate::keys::parse_key_map;
use crate::keys::spec_parse_key_map;
use crate::keys::Key;
use crate::keys::KeyId;
use crate::keys::KeyV;

verus! {

/// A named trust responsibility: one of the four top-level roles, or a named
/// delegated targets role.
#[derive(Debug, Clone, PartialEq, Eq)]
pub enum Role {
    Root,
    Targets,
    Timestamp,
    Snapshot,
    TargetsDelegation(String),
}

/// The model of a role.
#[verifier::ext_equal]
pub enum RoleV {
    Root,
    Targets,
    Timestamp,
    Snapshot,
    TargetsDelegation(Seq<char>),
}

impl View for Role {
    type V = RoleV;

    open spec fn view(&self) -> RoleV {
        match self {
            Role::Root => RoleV::Root,
            Role::Targets => RoleV::Targets,
            Role::Timestamp => RoleV::Timestamp,
            Role::Snapshot => RoleV::Snapshot,
            Role::TargetsDelegation(s) => RoleV::TargetsDelegation(s@),
        }
    }
}

/// The role a name denotes; only the four top-level role names are known.
pub open spec fn spec_role_from(s: Seq<char>) -> Result<RoleV, ErrV> {
    if s == "Root"@ {
        Ok(RoleV::Root)
    } else if s == "Snapshot"@ {
        Ok(RoleV::Snapshot)
    } else if s == "Targets"@ {
        Ok(RoleV::Targets)
    } else if s == "Timestamp"@ {
        Ok(RoleV::Timestamp)
    } else {
        Err(ErrV::UnknownRole(s))
    }
}

impl Role {
    /// Reads a top-level role name; anything else is an unknown role.
    pub fn from_str(s: &str) -> (r: Result<Role, Error>)
        ensures
            match r {
                Ok(role) => spec_role_from(s@) == Ok::<RoleV, ErrV>(role@),
                Err(e) => spec_role_from(s@) == Err::<RoleV, ErrV>(e@),
            },
    {
        if str_eq(s, "Root") {
            Ok(Role::Root)
        } else if str_eq(s, "Snapshot") {
            Ok(Role::Snapshot)
        } else if str_eq(s, "Targets") {
            Ok(Role::Targets)
        } else if str_eq(s, "Timestamp") {
            Ok(Role::Timestamp)
        } else {
            Err(Error::UnknownRole(s.to_owned()))
        }
    }

    /// The role's conventional lowercase name; a delegation is named by its
    /// own name.
    pub fn name(&self) -> (r: String)
        ensures
            self@ is Root ==> r@ == "root"@,
            self@ is Targets ==> r@ == "targets"@,
            self@ is Timestamp ==> r@ == "timestamp"@,
            self@ is Snapshot ==> r@ == "snapshot"@,
            self@ matches RoleV::TargetsDelegation(s) ==> r@ == s,
    {
        match self {
            Role::Root => "root".to_owned(),
            Role::Targets => "targets".to_owned(),
            Role::Timestamp => "timestamp".to_owned(),
            Role::Snapshot => "snapshot".to_owned(),
            Role::TargetsDelegation(s) => s.clone(),
        }
    }
}

/// A capability tag: a static marker whose implementations each assert
/// "this role value matches my tag", so a metadata envelope for one role is
/// a different type from one for another.
pub trait RoleType {
    /// Which role values carry this tag.
    spec fn spec_matches(role: Role) -> bool;

    /// Whether the role value matches this tag.
    fn matches(role: &Role) -> (r: bool)
        ensures
            r == Self::spec_matches(*role),
    ;
}

/// The tag of the root role.
#[derive(Debug, Clone)]
pub struct Root {}

impl RoleType for Root {
    open spec fn spec_matches(role: Role) -> bool {
        role@ is Root
    }

    fn matches(role: &Role) -> (r: bool) {
        match role {
            Role::Root => true,
            _ => false,
        }
    }
}

/// The tag of the targets role.
#[derive(Debug, Clone)]
pub struct Targets {}

impl RoleType for Targets {
    open spec fn spec_matches(role: Role) -> bool {
        role@ is Targets
    }

    fn matches(role: &Role) -> (r: bool) {
        match role {
            Role::Targets => true,
            _ => false,
        }
    }
}

/// The tag of the timestamp role.
#[derive(Debug, Clone)]
pub struct Timestamp {}

impl RoleType for Timestamp {
    open spec fn spec_matches(role: Role) -> bool {
        role@ is Timestamp
    }

    fn matches(role: &Role) -> (r: bool) {
        match role {
            Role::Timestamp => true,
            _ => false,
        }
    }
}

/// The tag of the snapshot role.
#[derive(Debug, Clone)]
pub struct Snapshot {}

impl RoleType for Snapshot {
    open spec fn spec_matches(role: Role) -> bool {
        role@ is Snapshot
    }

    fn matches(role: &Role) -> (r: bool) {
        match role {
            Role::Snapshot => true,
            _ => false,
        }
    }
}

/// Which keys may sign for a role and how many distinct ones must have done
/// so before a document of the role is trusted.
#[derive(Debug, Clone, PartialEq)]
pub struct RoleDefinition {
    /// The authorized key IDs.  Order carries no meaning for trust.
    pub key_ids: Vec<KeyId>,
    /// How many distinct authorized keys must have signed; at least one.
    pub threshold: i32,
}

/// The model of a role definition.
#[verifier::ext_equal]
pub struct RoleDefV {
    pub key_ids: Seq<Seq<char>>,
    pub threshold: int,
}

/// The models of a list of key IDs.
pub open spec fn key_ids_view(v: Seq<KeyId>) -> Seq<Seq<char>> {
    Seq::new(v.len(), |i: int| v[i]@)
}

impl View for RoleDefinition {
    type V = RoleDefV;

    open spec fn view(&self) -> RoleDefV {
        RoleDefV { key_ids: key_ids_view(self.key_ids@), threshold: self.threshold as int }
    }
}

/// What a list of key IDs parses to: every element must be a string.
pub open spec fn spec_parse_keyid_array(es: Seq<Jv>) -> Result<Seq<Seq<char>>, ErrV>
    decreases es.len(),
{
    if es.len() == 0 {
        Ok(Seq::empty())
    } else {
        match es[0] {
            Jv::Str(s) => match spec_parse_keyid_array(es.drop_first()) {
                Ok(rest) => Ok(seq![s] + rest),
                Err(e) => Err(e),
            },
            _ => Err(ErrV::MalformedDocument),
        }
    }
}

/// Reads a list of key IDs.
pub(crate) fn parse_keyid_array(elems: &Vec<JsonValue>) -> (r: Result<Vec<KeyId>, Error>)
    ensures
        match r {
            Ok(ids) => spec_parse_keyid_array(arr_view(elems@)) == Ok::<Seq<Seq<char>>, ErrV>(
                key_ids_view(ids@),
            ),
            Err(e) => spec_parse_keyid_array(arr_view(elems@)) == Err::<Seq<Seq<char>>, ErrV>(
                e@,
            ),
        },
{
    let ghost es = arr_view(elems@);
    let mut out: Vec<KeyId> = Vec::new();
    let mut i: usize = 0;
    proof {
        lemma_arr_view_len(elems@);
        assert(es.skip(0) =~= es);
        assert(key_ids_view(out@) =~= Seq::<Seq<char>>::empty());
    }
    while i < elems.len()
        invariant
            i <= elems.len(),
            es == arr_view(elems@),
            es.len() == elems@.len(),
            out@.len() == i,
            spec_parse_keyid_array(es) == (match spec_parse_keyid_array(es.skip(i as int)) {
                Ok(rest) => Ok::<Seq<Seq<char>>, ErrV>(key_ids_view(out@) + rest),
                Err(e) => Err::<Seq<Seq<char>>, ErrV>(e),
            }),
        decreases elems.len() - i,
    {
        proof {
            lemma_arr_view_index(elems@, i as int);
            assert(es.skip(i as int)[0] == es[i as int]);
            assert(es.skip(i as int).drop_first() =~= es.skip(i + 1 as int));
        }
        let id = match elems[i].as_str_value() {
            Some(s) => KeyId(s.clone()),
            None => {
                return Err(Error::MalformedDocument);
            },
        };
        let ghost prev = out@;
        out.push(id);
        proof {
            assert(key_ids_view(out@) =~= key_ids_view(prev).push(es[i as int]->Str_0));
            if spec_parse_keyid_array(es.skip(i + 1 as int)) is Ok {
                let rest = spec_parse_keyid_array(es.skip(i + 1 as int))->Ok_0;
                assert(key_ids_view(prev) + (seq![es[i as int]->Str_0] + rest) =~= key_ids_view(
                    out@,
                ) + rest);
            }
        }
        i += 1;
    }
    proof {
        assert(es.skip(i as int).len() == 0);
        assert(key_ids_view(out@) + Seq::<Seq<char>>::empty() =~= key_ids_view(out@));
    }
    Ok(out)
}

/// What a role definition parses to: an object with a `keyids` list and a
/// `threshold` of at least one.
pub open spec fn spec_parse_role_definition(j: Jv) -> Result<RoleDefV, ErrV> {
    match j {
        Jv::Obj(ms) => match jv_get(ms, "keyids"@) {
            Option::None => Err(ErrV::MissingField("keyids"@)),
            Option::Some(kv) => match kv {
                Jv::Arr(es) => match spec_parse_keyid_array(es) {
                    Err(e) => Err(ErrV::InvalidFieldValue("keyids"@, Box::new(e))),
                    Ok(ids) => match jv_get(ms, "threshold"@) {
                        Option::None => Err(ErrV::MissingField("threshold"@)),
                        Option::Some(tv) => match tv {
                            Jv::Int(t) => {
                                if t > i32::MAX as int {
                                    Err(
                                        ErrV::InvalidFieldValue(
                                            "threshold"@,
                                            Box::new(ErrV::MalformedDocument),
                                        ),
                                    )
                                } else if t <= 0 {
                                    Err(ErrV::InvalidThreshold)
                                } else {
                                    Ok(RoleDefV { key_ids: ids, threshold: t })
                                }
                            },
                            _ => Err(
                                ErrV::InvalidFieldValue(
                                    "threshold"@,
                                    Box::new(ErrV::MalformedDocument),
                                ),
                            ),
                        },
                    },
                },
                _ => Err(
                    ErrV::InvalidFieldValue("keyids"@, Box::new(ErrV::MalformedDocument)),
                ),
            },
        },
        _ => Err(ErrV::MalformedDocument),
    }
}

impl RoleDefinition {
    /// Reads a role definition; a threshold below one is rejected.
    pub fn parse(v: &JsonValue) -> (r: Result<RoleDefinition, Error>)
        ensures
            match r {
                Ok(d) => spec_parse_role_definition(v@) == Ok::<RoleDefV, ErrV>(d@),
                Err(e) => spec_parse_role_definition(v@) == Err::<RoleDefV, ErrV>(e@),
            },
            r matches Ok(d) ==> d.threshold >= 1,
    {
        let members = match v.as_object_value() {
            Some(m) => m,
            None => {
                return Err(Error::MalformedDocument);
            },
        };
        let key_ids = match obj_get(members, "keyids") {
            None => {
                return Err(missing_field("keyids"));
            },
            Some(kv) => match kv.as_array_value() {
                Some(elems) => match parse_keyid_array(elems) {
                    Ok(ids) => ids,
                    Err(e) => {
                        return Err(invalid_field("keyids", e));
                    },
                },
                None => {
                    return Err(invalid_field("keyids", Error::MalformedDocument));
                },
            },
        };
        let threshold = match obj_get(members, "threshold") {
            None => {
                return Err(missing_field("threshold"));
            },
            Some(tv) => match tv.as_int_value() {
                Some(t) => {
                    if t > i32::MAX as i64 {
                        return Err(invalid_field("threshold", Error::MalformedDocument));
                    }
                    if t <= 0 {
                        return Err(Error::InvalidThreshold);
                    }
                    t as i32
                },
                None => {
                    return Err(invalid_field("threshold", Error::MalformedDocument));
                },
            },
        };
        Ok(RoleDefinition { key_ids, threshold })
    }
}

/// For every role definition parse: a threshold below one is rejected with
/// the threshold error, and a threshold of at least one, together with any
/// well-formed key-ID list (in particular a threshold of one and any
/// positive number of key IDs), is accepted with exactly those fields.
pub proof fn lemma_role_definition_threshold(ms: Seq<(Seq<char>, Jv)>, es: Seq<Jv>, t: int)
    requires
        jv_get(ms, "keyids"@) == Some(Jv::Arr(es)),
        spec_parse_keyid_array(es) is Ok,
        jv_get(ms, "threshold"@) == Some(Jv::Int(t)),
        t <= i32::MAX as int,
    ensures
        t <= 0 ==> spec_parse_role_definition(Jv::Obj(ms)) == Err::<RoleDefV, ErrV>(
            ErrV::InvalidThreshold,
        ),
        t >= 1 ==> spec_parse_role_definition(Jv::Obj(ms)) == Ok::<RoleDefV, ErrV>(
            RoleDefV { key_ids: spec_parse_keyid_array(es)->Ok_0, threshold: t },
        ),
{
}

/// The target-path patterns a delegated role claims.
#[derive(Debug, Clone, PartialEq)]
pub enum TargetPaths {
    /// Literal patterns: an exact name, or a directory-style prefix ending
    /// in a path separator.
    Patterns(Vec<String>),
}

/// The models of a list of path patterns.
pub open spec fn paths_view(v: Seq<String>) -> Seq<Seq<char>> {
    Seq::new(v.len(), |i: int| v[i]@)
}

impl View for TargetPaths {
    type V = Seq<Seq<char>>;

    open spec fn view(&self) -> Seq<Seq<char>> {
        match self {
            TargetPaths::Patterns(ps) => paths_view(ps@),
        }
    }
}

/// A named delegated targets role.
#[derive(Debug, Clone, PartialEq)]
pub struct DelegatedRole {
    pub name: String,
    pub key_ids: Vec<KeyId>,
    pub threshold: i32,
    /// When true, a claim on a path stops the search through lower-priority
    /// delegations; enforcing that is the calling workflow's job.
    pub terminating: bool,
    /// The path patterns this role may speak for.
    pub paths: TargetPaths,
}

/// The model of a delegated role.
#[verifier::ext_equal]
pub struct DelegatedRoleV {
    pub name: Seq<char>,
    pub key_ids: Seq<Seq<char>>,
    pub threshold: int,
    pub terminating: bool,
    pub paths: Seq<Seq<char>>,
}

impl View for DelegatedRole {
    type V = DelegatedRoleV;

    open spec fn view(&self) -> DelegatedRoleV {
        DelegatedRoleV {
            name: self.name@,
            key_ids: key_ids_view(self.key_ids@),
            threshold: self.threshold as int,
            terminating: self.terminating,
            paths: self.paths@,
        }
    }
}

/// A pattern claims a target name when it equals it exactly, or when it ends
/// with a path separator and is a literal prefix of it.
pub open spec fn spec_claims(pattern: Seq<char>, target: Seq<char>) -> bool {
    pattern == target || (pattern.len() > 0 && pattern.last() == '/' && pattern.len()
        <= target.len() && target.subrange(0, pattern.len() as int) == pattern)
}

/// Whether any of the patterns claims the target name.
pub open spec fn spec_could_have_target(patterns: Seq<Seq<char>>, target: Seq<char>) -> bool {
    exists|i: int| 0 <= i < patterns.len() && spec_claims(#[trigger] patterns[i], target)
}

impl DelegatedRole {
    /// Whether this role could speak for the target name: some pattern
    /// equals it, or is a directory-style prefix of it.  This only narrows
    /// the candidate roles; signature and threshold checking are layered on
    /// top of it.
    pub fn could_have_target(&self, target: &str) -> (r: bool)
        ensures
            r == spec_could_have_target(self.paths@, target@),
    {
        let TargetPaths::Patterns(patterns) = &self.paths;
        let ghost pv = paths_view(patterns@);
        let mut i: usize = 0;
        while i < patterns.len()
            invariant
                i <= patterns.len(),
                pv == paths_view(patterns@),
                pv.len() == patterns@.len(),
                pv == self.paths@,
                forall|j: int| 0 <= j < i ==> !spec_claims(#[trigger] pv[j], target@),
            decreases patterns.len() - i,
        {
            let path = &patterns[i];
            if str_eq(path.as_str(), target) {
                proof {
                    assert(spec_claims(pv[i as int], target@));
                }
                return true;
            }
            let n = path.unicode_len();
            if n > 0 && path.get_char(n - 1) == '/' && str_prefix(target, path.as_str()) {
                proof {
                    assert(spec_claims(pv[i as int], target@));
                }
                return true;
            }
            proof {
                assert(!spec_claims(pv[i as int], target@));
            }
            i += 1;
        }
        false
    }
}

/// What a list of path patterns parses to: every element must be a string.
pub open spec fn spec_parse_path_array(es: Seq<Jv>) -> Result<Seq<Seq<char>>, ErrV>
    decreases es.len(),
{
    if es.len() == 0 {
        Ok(Seq::empty())
    } else {
        match es[0] {
            Jv::Str(s) => match spec_parse_path_array(es.drop_first()) {
                Ok(rest) => Ok(seq![s] + rest),
                Err(e) => Err(e),
            },
            _ => Err(ErrV::MalformedDocument),
        }
    }
}

/// Reads a list of path patterns.
fn parse_path_array(elems: &Vec<JsonValue>) -> (r: Result<Vec<String>, Error>)
    ensures
        match r {
            Ok(ps) => spec_parse_path_array(arr_view(elems@)) == Ok::<Seq<Seq<char>>, ErrV>(
                paths_view(ps@),
            ),
            Err(e) => spec_parse_path_array(arr_view(elems@)) == Err::<Seq<Seq<char>>, ErrV>(e@),
        },
{
    let ghost es = arr_view(elems@);
    let mut out: Vec<String> = Vec::new();
    let mut i: usize = 0;
    proof {
        lemma_arr_view_len(elems@);
        assert(es.skip(0) =~= es);
        assert(paths_view(out@) =~= Seq::<Seq<char>>::empty());
    }
    while i < elems.len()
        invariant
            i <= elems.len(),
            es == arr_view(elems@),
            es.len() == elems@.len(),
            out@.len() == i,
            spec_parse_path_array(es) == (match spec_parse_path_array(es.skip(i as int)) {
                Ok(rest) => Ok::<Seq<Seq<char>>, ErrV>(paths_view(out@) + rest),
                Err(e) => Err::<Seq<Seq<char>>, ErrV>(e),
            }),
        decreases elems.len() - i,
    {
        proof {
            lemma_arr_view_index(elems@, i as int);
            assert(es.skip(i as int)[0] == es[i as int]);
            assert(es.skip(i as int).drop_first() =~= es.skip(i + 1 as int));
        }
        let p = match elems[i].as_str_value() {
            Some(s) => s.clone(),
            None => {
                return Err(Error::MalformedDocument);
            },
        };
        let ghost prev = out@;
        out.push(p);
        proof {
            assert(paths_view(out@) =~= paths_view(prev).push(es[i as int]->Str_0));
            if spec_parse_path_array(es.skip(i + 1 as int)) is Ok {
                let rest = spec_parse_path_array(es.skip(i + 1 as int))->Ok_0;
                assert(paths_view(prev) + (seq![es[i as int]->Str_0] + rest) =~= paths_view(out@)
                    + rest);
            }
        }
        i += 1;
    }
    proof {
        assert(es.skip(i as int).len() == 0);
        assert(paths_view(out@) + Seq::<Seq<char>>::empty() =~= paths_view(out@));
    }
    Ok(out)
}

/// What a delegated role parses to.  A role carrying both `paths` and
/// `path_hash_prefixes` is rejected, as is one carrying only the latter:
/// hash-prefix delegation is deliberately not implemented.  A threshold
/// below one is rejected, as for the top-level role definitions.
pub open spec fn spec_parse_delegated_role(j: Jv) -> Result<DelegatedRoleV, ErrV> {
    match j {
        Jv::Obj(ms) => {
            let has_paths = jv_get(ms, "paths"@) is Some;
            let has_prefixes = jv_get(ms, "path_hash_prefixes"@) is Some;
            if has_paths && has_prefixes {
                Err(
                    ErrV::InvalidFieldValue(
                        "paths"@,
                        Box::new(ErrV::UnsupportedFeature("path_hash_prefixes"@)),
                    ),
                )
            } else if has_prefixes {
                Err(ErrV::UnsupportedFeature("path_hash_prefixes"@))
            } else {
                match jv_get(ms, "name"@) {
                    Option::None => Err(ErrV::MissingField("name"@)),
                    Option::Some(nv) => match nv {
                        Jv::Str(name) => match jv_get(ms, "keyids"@) {
                            Option::None => Err(ErrV::MissingField("keyids"@)),
                            Option::Some(kv) => match kv {
                                Jv::Arr(kes) => match spec_parse_keyid_array(kes) {
                                    Err(e) => Err(
                                        ErrV::InvalidFieldValue("keyids"@, Box::new(e)),
                                    ),
                                    Ok(ids) => match jv_get(ms, "threshold"@) {
                                        Option::None => Err(ErrV::MissingField("threshold"@)),
                                        Option::Some(tv) => match tv {
                                            Jv::Int(t) => {
                                                if t > i32::MAX as int {
                                                    Err(
                                                        ErrV::InvalidFieldValue(
                                                            "threshold"@,
                                                            Box::new(ErrV::MalformedDocument),
                                                        ),
                                                    )
                                                } else if t <= 0 {
                                                    Err(ErrV::InvalidThreshold)
                                                } else {
                                                    match jv_get(ms, "terminating"@) {
                                                        Option::None => Err(
                                                            ErrV::MissingField("terminating"@),
                                                        ),
                                                        Option::Some(bv) => match bv {
                                                            Jv::Bool(term) => match jv_get(
                                                                ms,
                                                                "paths"@,
                                                            ) {
                                                                Option::None => Err(
                                                                    ErrV::MissingField("paths"@),
                                                                ),
                                                                Option::Some(pv) => match pv {
                                                                    Jv::Arr(pes) => match
                                                                        spec_parse_path_array(pes) {
                                                                        Err(e) => Err(
                                                                            ErrV::InvalidFieldValue(
                                                                                "paths"@,
                                                                                Box::new(e),
                                                                            ),
                                                                        ),
                                                                        Ok(ps) => Ok(
                                                                            DelegatedRoleV {
                                                                                name: name,
                                                                                key_ids: ids,
                                                                                threshold: t,
                                                                                terminating: term,
                                                                                paths: ps,
                                                                            },
                                                                        ),
                                                                    },
                                                                    _ => Err(
                                                                        ErrV::InvalidFieldValue(
                                                                            "paths"@,
                                                                            Box::new(
                                                                                ErrV::MalformedDocument,
                                                                            ),
                                                                        ),
                                                                    ),
                                                                },
                                                            },
                                                            _ => Err(
                                                                ErrV::InvalidFieldValue(
                                                                    "terminating"@,
                                                                    Box::new(ErrV::MalformedDocument),
                                                                ),
                                                            ),
                                                        },
                                                    }
                                                }
                                            },
                                            _ => Err(
                                                ErrV::InvalidFieldValue(
                                                    "threshold"@,
                                                    Box::new(ErrV::MalformedDocument),
                                                ),
                                            ),
                                        },
                                    },
                                },
                                _ => Err(
                                    ErrV::InvalidFieldValue(
                                        "keyids"@,
                                        Box::new(ErrV::MalformedDocument),
                                    ),
                                ),
                            },
                        },
                        _ => Err(
                            ErrV::InvalidFieldValue("name"@, Box::new(ErrV::MalformedDocument)),
                        ),
                    },
                }
            }
        },
        _ => Err(ErrV::MalformedDocument),
    }
}

impl DelegatedRole {
    /// Reads a delegated role; a threshold below one is rejected.
    pub fn parse(v: &JsonValue) -> (r: Result<DelegatedRole, Error>)
        ensures
            match r {
                Ok(d) => spec_parse_delegated_role(v@) == Ok::<DelegatedRoleV, ErrV>(d@),
                Err(e) => spec_parse_delegated_role(v@) == Err::<DelegatedRoleV, ErrV>(e@),
            },
            r matches Ok(d) ==> d.threshold >= 1,
    {
        let members = match v.as_object_value() {
            Some(m) => m,
            None => {
                return Err(Error::MalformedDocument);
            },
        };
        let has_paths = obj_get(members, "paths").is_some();
        let has_prefixes = obj_get(members, "path_hash_prefixes").is_some();
        if has_paths && has_prefixes {
            return Err(
                invalid_field("paths", Error::UnsupportedFeature("path_hash_prefixes".to_owned())),
            );
        }
        if has_prefixes {
            return Err(Error::UnsupportedFeature("path_hash_prefixes".to_owned()));
        }
        let name = match obj_get(members, "name") {
            None => {
                return Err(missing_field("name"));
            },
            Some(nv) => match nv.as_str_value() {
                Some(s) => s.clone(),
                None => {
                    return Err(invalid_field("name", Error::MalformedDocument));
                },
            },
        };
        let key_ids = match obj_get(members, "keyids") {
            None => {
                return Err(missing_field("keyids"));
            },
            Some(kv) => match kv.as_array_value() {
                Some(elems) => match parse_keyid_array(elems) {
                    Ok(ids) => ids,
                    Err(e) => {
                        return Err(invalid_field("keyids", e));
                    },
                },
                None => {
                    return Err(invalid_field("keyids", Error::MalformedDocument));
                },
            },
        };
        let threshold = match obj_get(members, "threshold") {
            None => {
                return Err(missing_field("threshold"));
            },
            Some(tv) => match tv.as_int_value() {
                Some(t) => {
                    if t > i32::MAX as i64 {
                        return Err(invalid_field("threshold", Error::MalformedDocument));
                    }
                    if t <= 0 {
                        return Err(Error::InvalidThreshold);
                    }
                    t as i32
                },
                None => {
                    return Err(invalid_field("threshold", Error::MalformedDocument));
                },
            },
        };
        let terminating = match obj_get(members, "terminating") {
            None => {
                return Err(missing_field("terminating"));
            },
            Some(bv) => match bv.as_bool_value() {
                Some(b) => b,
                None => {
                    return Err(invalid_field("terminating", Error::MalformedDocument));
                },
            },
        };
        let paths = match obj_get(members, "paths") {
            None => {
                return Err(missing_field("paths"));
            },
            Some(pv) => match pv.as_array_value() {
                Some(elems) => match parse_path_array(elems) {
                    Ok(ps) => TargetPaths::Patterns(ps),
                    Err(e) => {
                        return Err(invalid_field("paths", e));
                    },
                },
                None => {
                    return Err(invalid_field("paths", Error::MalformedDocument));
                },
            },
        };
        Ok(DelegatedRole { name, key_ids, threshold, terminating, paths })
    }
}

/// A delegation section: its own key pool and a priority-ordered list of
/// delegated roles.
#[derive(Debug, Clone, PartialEq)]
pub struct Delegations {
    /// The key pool scoped to this delegation, distinct from the root's.
    pub keys: Vec<(KeyId, Key)>,
    /// Delegated roles, in priority order for path-claim resolution.
    pub roles: Vec<DelegatedRole>,
}

/// The model of a delegation section.
#[verifier::ext_equal]
pub struct DelegationsV {
    pub keys: Seq<(Seq<char>, KeyV)>,
    pub roles: Seq<DelegatedRoleV>,
}

/// The models of a list of delegated roles.
pub open spec fn roles_view(v: Seq<DelegatedRole>) -> Seq<DelegatedRoleV> {
    Seq::new(v.len(), |i: int| v[i]@)
}

impl View for Delegations {
    type V = DelegationsV;

    open spec fn view(&self) -> DelegationsV {
        DelegationsV { keys: key_map_view(self.keys@), roles: roles_view(self.roles@) }
    }
}

/// What a list of delegated roles parses to.
pub open spec fn spec_parse_role_array(es: Seq<Jv>) -> Result<Seq<DelegatedRoleV>, ErrV>
    decreases es.len(),
{
    if es.len() == 0 {
        Ok(Seq::empty())
    } else {
        match spec_parse_delegated_role(es[0]) {
            Err(e) => Err(e),
            Ok(d) => match spec_parse_role_array(es.drop_first()) {
                Ok(rest) => Ok(seq![d] + rest),
                Err(e) => Err(e),
            },
        }
    }
}

/// Reads a list of delegated roles, keeping their order.
fn parse_role_array(elems: &Vec<JsonValue>) -> (r: Result<Vec<DelegatedRole>, Error>)
    ensures
        match r {
            Ok(ds) => spec_parse_role_array(arr_view(elems@)) == Ok::<Seq<DelegatedRoleV>, ErrV>(
                roles_view(ds@),
            ),
            Err(e) => spec_parse_role_array(arr_view(elems@)) == Err::<Seq<DelegatedRoleV>, ErrV>(
                e@,
            ),
        },
{
    let ghost es = arr_view(elems@);
    let mut out: Vec<DelegatedRole> = Vec::new();
    let mut i: usize = 0;
    proof {
        lemma_arr_view_len(elems@);
        assert(es.skip(0) =~= es);
        assert(roles_view(out@) =~= Seq::<DelegatedRoleV>::empty());
    }
    while i < elems.len()
        invariant
            i <= elems.len(),
            es == arr_view(elems@),
            es.len() == elems@.len(),
            out@.len() == i,
            spec_parse_role_array(es) == (match spec_parse_role_array(es.skip(i as int)) {
                Ok(rest) => Ok::<Seq<DelegatedRoleV>, ErrV>(roles_view(out@) + rest),
                Err(e) => Err::<Seq<DelegatedRoleV>, ErrV>(e),
            }),
        decreases elems.len() - i,
    {
        proof {
            lemma_arr_view_index(elems@, i as int);
            assert(es.skip(i as int)[0] == es[i as int]);
            assert(es.skip(i as int).drop_first() =~= es.skip(i + 1 as int));
        }
        let d = match DelegatedRole::parse(&elems[i]) {
            Ok(d) => d,
            Err(e) => {
                return Err(e);
            },
        };
        let ghost prev = out@;
        out.push(d);
        proof {
            assert(roles_view(out@) =~= roles_view(prev).push(
                spec_parse_delegated_role(es[i as int])->Ok_0,
            ));
            if spec_parse_role_array(es.skip(i + 1 as int)) is Ok {
                let rest = spec_parse_role_array(es.skip(i + 1 as int))->Ok_0;
                assert(roles_view(prev) + (seq![spec_parse_delegated_role(es[i as int])->Ok_0]
                    + rest) =~= roles_view(out@) + rest);
            }
        }
        i += 1;
    }
    proof {
        assert(es.skip(i as int).len() == 0);
        assert(roles_view(out@) + Seq::<DelegatedRoleV>::empty() =~= roles_view(out@));
    }
    Ok(out)
}

/// What a delegation section parses to: a key pool and an ordered role
/// list.
pub open spec fn spec_parse_delegations(j: Jv) -> Result<DelegationsV, ErrV> {
    match j {
        Jv::Obj(ms) => match jv_get(ms, "keys"@) {
            Option::None => Err(ErrV::MissingField("keys"@)),
            Option::Some(kv) => match kv {
                Jv::Obj(kms) => match spec_parse_key_map(kms) {
                    Err(e) => Err(ErrV::InvalidFieldValue("keys"@, Box::new(e))),
                    Ok(keys) => match jv_get(ms, "roles"@) {
                        Option::None => Err(ErrV::MissingField("roles"@)),
                        Option::Some(rv) => match rv {
                            Jv::Arr(res) => match spec_parse_role_array(res) {
                                Err(e) => Err(ErrV::InvalidFieldValue("roles"@, Box::new(e))),
                                Ok(roles) => Ok(DelegationsV { keys, roles }),
                            },
                            _ => Err(
                                ErrV::InvalidFieldValue(
                                    "roles"@,
                                    Box::new(ErrV::MalformedDocument),
                                ),
                            ),
                        },
                    },
                },
                _ => Err(
                    ErrV::InvalidFieldValue("keys"@, Box::new(ErrV::MalformedDocument)),
                ),
            },
        },
        _ => Err(ErrV::MalformedDocument),
    }
}

impl Delegations {
    /// Reads a delegation section.
    pub fn parse(v: &JsonValue) -> (r: Result<Delegations, Error>)
        ensures
            match r {
                Ok(d) => spec_parse_delegations(v@) == Ok::<DelegationsV, ErrV>(d@),
                Err(e) => spec_parse_delegations(v@) == Err::<DelegationsV, ErrV>(e@),
            },
    {
        let members = match v.as_object_value() {
            Some(m) => m,
            None => {
                return Err(Error::MalformedDocument);
            },
        };
        let keys = match obj_get(members, "keys") {
            None => {
                return Err(missing_field("keys"));
            },
            Some(kv) => match kv.as_object_value() {
                Some(kms) => match parse_key_map(kms) {
                    Ok(keys) => keys,
                    Err(e) => {
                        return Err(invalid_field("keys", e));
                    },
                },
                None => {
                    return Err(invalid_field("keys", Error::MalformedDocument));
                },
            },
        };
        let roles = match obj_get(members, "roles") {
            None => {
                return Err(missing_field("roles"));
            },
            Some(rv) => match rv.as_array_value() {
                Some(res) => match parse_role_array(res) {
                    Ok(roles) => roles,
                    Err(e) => {
                        return Err(invalid_field("roles", e));
                    },
                },
                None => {
                    return Err(invalid_field("roles", Error::MalformedDocument));
                },
            },
        };
        Ok(Delegations { keys, roles })
    }
}

} // verus!
