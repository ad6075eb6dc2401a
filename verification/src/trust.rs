//! Threshold trust: a document is trusted for a role exactly when enough
//! distinct keys from the role's authorized set produced valid signatures
//! over the document's canonical payload bytes.

use vstd::prelude::*;
use crate::error::ErrV;
use crate::error::Error;
use crate::jsonval::str_eq;
use crate::keys::key_map_view;
use crate::keys::Key;
use crate::keys::KeyId;
use crate::keys::KeyV;
use crate::keys::Signature;
use crate::keys::SignatureV;
use crate::metadata::sigs_view;
use crate::roles::key_ids_view;
use crate::roles::RoleDefV;
use crate::roles::RoleDefinition;

verus! {

/// The key a pool holds under an ID; the first entry with that ID wins.
pub open spec fn spec_lookup_key(keys: Seq<(Seq<char>, KeyV)>, id: Seq<char>) -> Option<KeyV>
    decreases keys.len(),
{
    if keys.len() == 0 {
        None
    } else if keys[0].0 == id {
        Some(keys[0].1)
    } else {
        spec_lookup_key(keys.drop_first(), id)
    }
}

/// Whether some signature in the list is a valid signature by the key the
/// pool holds under `id`, over the message.
pub open spec fn spec_key_signed(
    id: Seq<char>,
    keys: Seq<(Seq<char>, KeyV)>,
    sigs: Seq<SignatureV>,
    msg: Seq<u8>,
) -> bool {
    exists|i: int|
        0 <= i < sigs.len() && (#[trigger] sigs[i]).key_id == id && (match spec_lookup_key(
            keys,
            id,
        ) {
            Some(k) => Key::spec_verify(k, sigs[i].method, msg, sigs[i].sig) == Ok::<(), ErrV>(
                (),
            ),
            None => false,
        })
}

/// How many distinct IDs in the list have a valid signature; a repeated ID
/// counts once.
pub open spec fn spec_count_trusted(
    ids: Seq<Seq<char>>,
    keys: Seq<(Seq<char>, KeyV)>,
    sigs: Seq<SignatureV>,
    msg: Seq<u8>,
) -> nat
    decreases ids.len(),
{
    if ids.len() == 0 {
        0
    } else {
        spec_count_trusted(ids.drop_last(), keys, sigs, msg) + (if !ids.drop_last().contains(
            ids.last(),
        ) && spec_key_signed(ids.last(), keys, sigs, msg) {
            1nat
        } else {
            0nat
        })
    }
}

/// A document meets a role's threshold when at least `threshold` distinct
/// authorized keys have validly signed its canonical payload.
pub open spec fn spec_role_trusted(
    def: RoleDefV,
    keys: Seq<(Seq<char>, KeyV)>,
    sigs: Seq<SignatureV>,
    msg: Seq<u8>,
) -> bool {
    spec_count_trusted(def.key_ids, keys, sigs, msg) >= def.threshold
}

/// Threshold trust, the acceptance side: under a role definition with three
/// distinct authorized key IDs and a threshold of two, valid signatures by
/// the first two keys make the document trusted, whatever the third key did.
pub proof fn lemma_two_of_three_trusted(
    a: Seq<char>,
    b: Seq<char>,
    c: Seq<char>,
    keys: Seq<(Seq<char>, KeyV)>,
    sigs: Seq<SignatureV>,
    msg: Seq<u8>,
)
    requires
        a != b,
        a != c,
        b != c,
        spec_key_signed(a, keys, sigs, msg),
        spec_key_signed(b, keys, sigs, msg),
    ensures
        spec_role_trusted(RoleDefV { key_ids: seq![a, b, c], threshold: 2 }, keys, sigs, msg),
{
    lemma_count_three(a, b, c, keys, sigs, msg);
}

/// Threshold trust, the rejection side: under the same role definition,
/// with no valid signature by the second and third keys, one valid
/// signature cannot meet the threshold of two; invalid or absent
/// signatures never count.
pub proof fn lemma_one_of_three_not_trusted(
    a: Seq<char>,
    b: Seq<char>,
    c: Seq<char>,
    keys: Seq<(Seq<char>, KeyV)>,
    sigs: Seq<SignatureV>,
    msg: Seq<u8>,
)
    requires
        a != b,
        a != c,
        b != c,
        !spec_key_signed(b, keys, sigs, msg),
        !spec_key_signed(c, keys, sigs, msg),
    ensures
        !spec_role_trusted(RoleDefV { key_ids: seq![a, b, c], threshold: 2 }, keys, sigs, msg),
{
    lemma_count_three(a, b, c, keys, sigs, msg);
}

/// How many of three distinct key IDs count: exactly the signed ones.
proof fn lemma_count_three(
    a: Seq<char>,
    b: Seq<char>,
    c: Seq<char>,
    keys: Seq<(Seq<char>, KeyV)>,
    sigs: Seq<SignatureV>,
    msg: Seq<u8>,
)
    requires
        a != b,
        a != c,
        b != c,
    ensures
        spec_count_trusted(seq![a, b, c], keys, sigs, msg) == (if spec_key_signed(
            a,
            keys,
            sigs,
            msg,
        ) {
            1nat
        } else {
            0nat
        }) + (if spec_key_signed(b, keys, sigs, msg) {
            1nat
        } else {
            0nat
        }) + (if spec_key_signed(c, keys, sigs, msg) {
            1nat
        } else {
            0nat
        }),
{
    let ids = seq![a, b, c];
    assert(ids.drop_last() =~= seq![a, b]);
    assert(seq![a, b].drop_last() =~= seq![a]);
    assert(seq![a].drop_last() =~= Seq::<Seq<char>>::empty());
    assert(!Seq::<Seq<char>>::empty().contains(a)) by {
        if Seq::<Seq<char>>::empty().contains(a) {
            let i = choose|i: int|
                0 <= i < Seq::<Seq<char>>::empty().len() && Seq::<Seq<char>>::empty()[i] == a;
        }
    }
    assert(!seq![a].contains(b)) by {
        if seq![a].contains(b) {
            let i = choose|i: int| 0 <= i < seq![a].len() && seq![a][i] == b;
            assert(seq![a][0] == a);
        }
    }
    assert(!seq![a, b].contains(c)) by {
        if seq![a, b].contains(c) {
            let i = choose|i: int| 0 <= i < seq![a, b].len() && seq![a, b][i] == c;
            assert(seq![a, b][0] == a);
            assert(seq![a, b][1] == b);
        }
    }
    assert(spec_count_trusted(Seq::<Seq<char>>::empty(), keys, sigs, msg) == 0);
    assert(seq![a].last() == a);
    assert(seq![a, b].last() == b);
    assert(ids.last() == c);
    assert(spec_count_trusted(seq![a], keys, sigs, msg) == (if spec_key_signed(
        a,
        keys,
        sigs,
        msg,
    ) {
        1nat
    } else {
        0nat
    }));
    assert(spec_count_trusted(seq![a, b], keys, sigs, msg) == spec_count_trusted(
        seq![a],
        keys,
        sigs,
        msg,
    ) + (if spec_key_signed(b, keys, sigs, msg) {
        1nat
    } else {
        0nat
    }));
    assert(spec_count_trusted(ids, keys, sigs, msg) == spec_count_trusted(
        seq![a, b],
        keys,
        sigs,
        msg,
    ) + (if spec_key_signed(c, keys, sigs, msg) {
        1nat
    } else {
        0nat
    }));
}

/// Finds the key a pool holds under an ID.
fn lookup_key<'a>(keys: &'a Vec<(KeyId, Key)>, id: &KeyId) -> (r: Option<&'a Key>)
    ensures
        match r {
            Some(k) => spec_lookup_key(key_map_view(keys@), id@) == Some(k@),
            None => spec_lookup_key(key_map_view(keys@), id@) is None,
        },
{
    let ghost kv = key_map_view(keys@);
    let mut i: usize = 0;
    proof {
        assert(kv.skip(0) =~= kv);
    }
    while i < keys.len()
        invariant
            i <= keys.len(),
            kv == key_map_view(keys@),
            kv.len() == keys@.len(),
            spec_lookup_key(kv, id@) == spec_lookup_key(kv.skip(i as int), id@),
        decreases keys.len() - i,
    {
        proof {
            assert(kv.skip(i as int)[0] == kv[i as int]);
            assert(kv.skip(i as int).drop_first() =~= kv.skip(i + 1 as int));
        }
        if str_eq(keys[i].0.0.as_str(), id.0.as_str()) {
            return Some(&keys[i].1);
        }
        i += 1;
    }
    proof {
        assert(kv.skip(i as int).len() == 0);
    }
    None
}

/// Whether some signature in the list is a valid signature by the key the
/// pool holds under the given ID.
fn key_signed(id: &KeyId, keys: &Vec<(KeyId, Key)>, sigs: &Vec<Signature>, msg: &[u8]) -> (r:
    bool)
    ensures
        r == spec_key_signed(id@, key_map_view(keys@), sigs_view(sigs@), msg@),
{
    let ghost kv = key_map_view(keys@);
    let ghost sv = sigs_view(sigs@);
    let key = match lookup_key(keys, id) {
        Some(k) => k,
        None => {
            return false;
        },
    };
    let mut i: usize = 0;
    while i < sigs.len()
        invariant
            i <= sigs.len(),
            kv == key_map_view(keys@),
            sv == sigs_view(sigs@),
            sv.len() == sigs@.len(),
            spec_lookup_key(kv, id@) == Some(key@),
            forall|j: int|
                0 <= j < i ==> !((#[trigger] sv[j]).key_id == id@ && Key::spec_verify(
                    key@,
                    sv[j].method,
                    msg@,
                    sv[j].sig,
                ) == Ok::<(), ErrV>(())),
        decreases sigs.len() - i,
    {
        if str_eq(sigs[i].key_id.0.as_str(), id.0.as_str()) {
            match key.verify(&sigs[i].method, msg, &sigs[i].sig) {
                Ok(()) => {
                    proof {
                        assert(sv[i as int].key_id == id@ && Key::spec_verify(
                            key@,
                            sv[i as int].method,
                            msg@,
                            sv[i as int].sig,
                        ) == Ok::<(), ErrV>(()));
                    }
                    return true;
                },
                Err(_) => (),
            }
        }
        i += 1;
    }
    false
}

/// Checks a document's signatures against a role definition: it is trusted
/// exactly when at least `threshold` distinct keys out of the role's
/// authorized set produced valid signatures over the canonical payload
/// bytes.  One bad signature among several never aborts the count.
pub fn verify_role(
    def: &RoleDefinition,
    keys: &Vec<(KeyId, Key)>,
    msg: &[u8],
    sigs: &Vec<Signature>,
) -> (r: Result<(), Error>)
    ensures
        r is Ok <==> spec_role_trusted(def@, key_map_view(keys@), sigs_view(sigs@), msg@),
        r matches Err(e) ==> e@ == ErrV::VerificationFailure,
{
    let ghost ids = key_ids_view(def.key_ids@);
    let ghost kv = key_map_view(keys@);
    let ghost sv = sigs_view(sigs@);
    let mut count: usize = 0;
    let mut i: usize = 0;
    proof {
        assert(ids.take(0) =~= Seq::<Seq<char>>::empty());
    }
    while i < def.key_ids.len()
        invariant
            i <= def.key_ids.len(),
            ids == key_ids_view(def.key_ids@),
            ids.len() == def.key_ids@.len(),
            kv == key_map_view(keys@),
            sv == sigs_view(sigs@),
            count <= i,
            count == spec_count_trusted(ids.take(i as int), kv, sv, msg@),
        decreases def.key_ids.len() - i,
    {
        let mut dup = false;
        let mut j: usize = 0;
        while j < i
            invariant
                j <= i,
                i < def.key_ids@.len(),
                ids == key_ids_view(def.key_ids@),
                ids.len() == def.key_ids@.len(),
                dup ==> ids.take(i as int).contains(ids[i as int]),
                !dup ==> forall|q: int| 0 <= q < j ==> ids.take(i as int)[q] != ids[i as int],
            decreases i - j,
        {
            if !dup && str_eq(def.key_ids[j].0.as_str(), def.key_ids[i].0.as_str()) {
                dup = true;
                proof {
                    assert(ids.take(i as int)[j as int] == ids[i as int]);
                }
            }
            j += 1;
        }
        let counted = if dup {
            false
        } else {
            proof {
                assert(!ids.take(i as int).contains(ids[i as int]));
            }
            key_signed(&def.key_ids[i], keys, sigs, msg)
        };
        if counted {
            count += 1;
        }
        proof {
            assert(ids.take(i + 1 as int) =~= ids.take(i as int).push(ids[i as int]));
            assert(ids.take(i + 1 as int).drop_last() =~= ids.take(i as int));
            assert(ids.take(i + 1 as int).last() == ids[i as int]);
            assert(count == spec_count_trusted(ids.take(i + 1 as int), kv, sv, msg@));
        }
        i += 1;
    }
    proof {
        assert(ids.take(i as int) =~= ids);
    }
    let t = def.threshold;
    if t <= 0 {
        Ok(())
    } else if count >= t as usize {
        Ok(())
    } else {
        Err(Error::VerificationFailure)
    }
}

} // verus!
