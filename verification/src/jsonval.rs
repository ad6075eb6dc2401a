//! The JSON-like value model that metadata documents are parsed from and
//! that the canonicalizer encodes.
//!
//! A `JsonValue` is the parsed-but-uninterpreted form of a document: numbers
//! are integers (the canonical form has no floats), and objects keep their
//! members in the order they were inserted.  The ghost model `Jv` is the
//! mathematical shape of a value, with strings as character sequences.

use vstd::prelude::*;

verus! {

/// A parsed JSON-like value.  Object members keep insertion order.
#[derive(Debug)]
pub enum JsonValue {
    Null,
    Bool(bool),
    Int(i64),
    Str(String),
    Array(Vec<JsonValue>),
    Object(Vec<(String, JsonValue)>),
}

/// The mathematical model of a `JsonValue`.
#[verifier::ext_equal]
pub enum Jv {
    Null,
    Bool(bool),
    Int(int),
    Str(Seq<char>),
    Arr(Seq<Jv>),
    Obj(Seq<(Seq<char>, Jv)>),
}

/// The model of a value: strings become character sequences, containers
/// become sequences of the models of their elements.
pub open spec fn jv_view(v: JsonValue) -> Jv
    decreases v,
{
    match v {
        JsonValue::Null => Jv::Null,
        JsonValue::Bool(b) => Jv::Bool(b),
        JsonValue::Int(i) => Jv::Int(i as int),
        JsonValue::Str(s) => Jv::Str(s@),
        JsonValue::Array(a) => Jv::Arr(arr_view(a@)),
        JsonValue::Object(m) => Jv::Obj(mem_view(m@)),
    }
}

/// The models of the elements of an array.
pub open spec fn arr_view(s: Seq<JsonValue>) -> Seq<Jv>
    decreases s,
{
    if s.len() == 0 {
        Seq::empty()
    } else {
        seq![jv_view(s[0])] + arr_view(s.drop_first())
    }
}

/// The models of the members of an object.
pub open spec fn mem_view(s: Seq<(String, JsonValue)>) -> Seq<(Seq<char>, Jv)>
    decreases s,
{
    if s.len() == 0 {
        Seq::empty()
    } else {
        seq![(s[0].0@, jv_view(s[0].1))] + mem_view(s.drop_first())
    }
}

/// Indexing into the member models is indexing into the members.
pub proof fn lemma_mem_view_index(s: Seq<(String, JsonValue)>, i: int)
    requires
        0 <= i < s.len(),
    ensures
        mem_view(s).len() == s.len(),
        mem_view(s)[i] == (s[i].0@, jv_view(s[i].1)),
    decreases s.len(),
{
    lemma_mem_view_len(s);
    if i > 0 {
        lemma_mem_view_index(s.drop_first(), i - 1);
    }
}

/// The member models are as long as the member list.
pub proof fn lemma_mem_view_len(s: Seq<(String, JsonValue)>)
    ensures
        mem_view(s).len() == s.len(),
    decreases s.len(),
{
    if s.len() > 0 {
        lemma_mem_view_len(s.drop_first());
    }
}

/// Indexing into the element models is indexing into the elements.
pub proof fn lemma_arr_view_index(s: Seq<JsonValue>, i: int)
    requires
        0 <= i < s.len(),
    ensures
        arr_view(s).len() == s.len(),
        arr_view(s)[i] == jv_view(s[i]),
    decreases s.len(),
{
    lemma_arr_view_len(s);
    if i > 0 {
        lemma_arr_view_index(s.drop_first(), i - 1);
    }
}

/// The element models are as long as the element list.
pub proof fn lemma_arr_view_len(s: Seq<JsonValue>)
    ensures
        arr_view(s).len() == s.len(),
    decreases s.len(),
{
    if s.len() > 0 {
        lemma_arr_view_len(s.drop_first());
    }
}

impl View for JsonValue {
    type V = Jv;

    open spec fn view(&self) -> Jv {
        jv_view(*self)
    }
}

/// Looks a member up by name; the first member with that name wins.
pub open spec fn jv_get(ms: Seq<(Seq<char>, Jv)>, name: Seq<char>) -> Option<Jv>
    decreases ms.len(),
{
    if ms.len() == 0 {
        None
    } else if ms[0].0 == name {
        Some(ms[0].1)
    } else {
        jv_get(ms.drop_first(), name)
    }
}

impl JsonValue {
    /// A copy with the same model.
    pub fn deep_clone(&self) -> (r: Self)
        ensures
            r@ == self@,
        decreases *self,
    {
        match self {
            JsonValue::Null => JsonValue::Null,
            JsonValue::Bool(b) => JsonValue::Bool(*b),
            JsonValue::Int(i) => JsonValue::Int(*i),
            JsonValue::Str(s) => JsonValue::Str(s.clone()),
            JsonValue::Array(a) => JsonValue::Array(clone_arr(a)),
            JsonValue::Object(m) => JsonValue::Object(clone_members(m)),
        }
    }
}

impl Clone for JsonValue {
    /// A copy with the same model.
    fn clone(&self) -> (r: Self)
        ensures
            r@ == self@,
    {
        self.deep_clone()
    }
}

/// Copies the elements of an array, keeping their models.
fn clone_arr(a: &Vec<JsonValue>) -> (r: Vec<JsonValue>)
    ensures
        arr_view(r@) == arr_view(a@),
        r@.len() == a@.len(),
    decreases *a,
{
    let mut out: Vec<JsonValue> = Vec::new();
    let mut i: usize = 0;
    proof {
        lemma_arr_view_len(a@);
    }
    while i < a.len()
        invariant
            i <= a.len(),
            out@.len() == i,
            arr_view(out@) =~= arr_view(a@).take(i as int),
            arr_view(a@).len() == a@.len(),
        decreases a@.len() - i,
    {
        proof {
            assert(decreases_to!(*a => a@));
            assert(decreases_to!(a@ => a@[i as int]));
        }
        let c = a[i].deep_clone();
        let ghost prev = out@;
        out.push(c);
        proof {
            lemma_arr_view_push(prev, c);
            lemma_arr_view_index(a@, i as int);
            assert(arr_view(a@).take(i + 1 as int) =~= arr_view(a@).take(i as int).push(
                arr_view(a@)[i as int],
            ));
            assert(arr_view(out@) =~= arr_view(a@).take(i + 1 as int));
        }
        i += 1;
    }
    proof {
        assert(arr_view(a@).take(a@.len() as int) =~= arr_view(a@));
    }
    out
}

/// Copies the members of an object, keeping their models.
pub(crate) fn clone_members(m: &Vec<(String, JsonValue)>) -> (r: Vec<(String, JsonValue)>)
    ensures
        mem_view(r@) == mem_view(m@),
        r@.len() == m@.len(),
    decreases *m,
{
    let mut out: Vec<(String, JsonValue)> = Vec::new();
    let mut i: usize = 0;
    proof {
        lemma_mem_view_len(m@);
    }
    while i < m.len()
        invariant
            i <= m.len(),
            out@.len() == i,
            mem_view(out@) =~= mem_view(m@).take(i as int),
            mem_view(m@).len() == m@.len(),
        decreases m@.len() - i,
    {
        proof {
            assert(decreases_to!(*m => m@));
            assert(decreases_to!(m@ => m@[i as int]));
            assert(decreases_to!(m@[i as int] => m@[i as int].1));
        }
        let k = m[i].0.clone();
        let v = m[i].1.deep_clone();
        let ghost prev = out@;
        out.push((k, v));
        proof {
            lemma_mem_view_push(prev, (k, v));
            lemma_mem_view_index(m@, i as int);
            assert(mem_view(m@).take(i + 1 as int) =~= mem_view(m@).take(i as int).push(
                mem_view(m@)[i as int],
            ));
            assert(mem_view(out@) =~= mem_view(m@).take(i + 1 as int));
        }
        i += 1;
    }
    proof {
        assert(mem_view(m@).take(m@.len() as int) =~= mem_view(m@));
    }
    out
}

/// Appending one element appends its model.
pub proof fn lemma_arr_view_push(s: Seq<JsonValue>, v: JsonValue)
    ensures
        arr_view(s.push(v)) =~= arr_view(s).push(jv_view(v)),
    decreases s.len(),
{
    lemma_arr_view_len(s);
    lemma_arr_view_len(s.push(v));
    let p = s.push(v);
    assert(p[0] == if s.len() == 0 { v } else { s[0] });
    if s.len() == 0 {
        assert(p.drop_first() =~= Seq::<JsonValue>::empty());
    } else {
        assert(p.drop_first() =~= s.drop_first().push(v));
        lemma_arr_view_push(s.drop_first(), v);
    }
}

/// Appending one member appends its model.
pub proof fn lemma_mem_view_push(s: Seq<(String, JsonValue)>, v: (String, JsonValue))
    ensures
        mem_view(s.push(v)) =~= mem_view(s).push((v.0@, jv_view(v.1))),
    decreases s.len(),
{
    lemma_mem_view_len(s);
    lemma_mem_view_len(s.push(v));
    let p = s.push(v);
    assert(p[0] == if s.len() == 0 { v } else { s[0] });
    if s.len() == 0 {
        assert(p.drop_first() =~= Seq::<(String, JsonValue)>::empty());
    } else {
        assert(p.drop_first() =~= s.drop_first().push(v));
        lemma_mem_view_push(s.drop_first(), v);
    }
}

/// Compares two strings character by character.
pub fn str_eq(a: &str, b: &str) -> (r: bool)
    ensures
        r == (a@ == b@),
{
    let a_len = a.unicode_len();
    let b_len = b.unicode_len();
    if a_len != b_len {
        assert(a@ != b@) by {
            assert(a@.len() != b@.len());
        }
        return false;
    }
    let mut i: usize = 0;
    while i < a_len
        invariant
            i <= a_len,
            a_len == a@.len(),
            b_len == b@.len(),
            a_len == b_len,
            forall|j: int| 0 <= j < i ==> a@[j] == b@[j],
        decreases a_len - i,
    {
        if a.get_char(i) != b.get_char(i) {
            return false;
        }
        i += 1;
    }
    proof {
        assert(a@ =~= b@);
    }
    true
}

impl JsonValue {
    /// The string inside, if the value is a string.
    pub fn as_str_value(&self) -> (r: Option<&String>)
        ensures
            match r {
                Some(s) => self@ == Jv::Str(s@),
                None => !(self@ is Str),
            },
    {
        match self {
            JsonValue::Str(s) => Some(s),
            JsonValue::Null => None,
            JsonValue::Bool(_) => None,
            JsonValue::Int(_) => None,
            JsonValue::Array(_) => None,
            JsonValue::Object(_) => None,
        }
    }

    /// The integer inside, if the value is an integer.
    pub fn as_int_value(&self) -> (r: Option<i64>)
        ensures
            match r {
                Some(i) => self@ == Jv::Int(i as int),
                None => !(self@ is Int),
            },
    {
        match self {
            JsonValue::Int(i) => Some(*i),
            JsonValue::Null => None,
            JsonValue::Bool(_) => None,
            JsonValue::Str(_) => None,
            JsonValue::Array(_) => None,
            JsonValue::Object(_) => None,
        }
    }

    /// The boolean inside, if the value is a boolean.
    pub fn as_bool_value(&self) -> (r: Option<bool>)
        ensures
            match r {
                Some(b) => self@ == Jv::Bool(b),
                None => !(self@ is Bool),
            },
    {
        match self {
            JsonValue::Bool(b) => Some(*b),
            JsonValue::Null => None,
            JsonValue::Int(_) => None,
            JsonValue::Str(_) => None,
            JsonValue::Array(_) => None,
            JsonValue::Object(_) => None,
        }
    }

    /// The elements inside, if the value is an array.
    pub fn as_array_value(&self) -> (r: Option<&Vec<JsonValue>>)
        ensures
            match r {
                Some(a) => self@ == Jv::Arr(arr_view(a@)),
                None => !(self@ is Arr),
            },
    {
        match self {
            JsonValue::Array(a) => Some(a),
            JsonValue::Null => None,
            JsonValue::Bool(_) => None,
            JsonValue::Int(_) => None,
            JsonValue::Str(_) => None,
            JsonValue::Object(_) => None,
        }
    }

    /// The members inside, if the value is an object.
    pub fn as_object_value(&self) -> (r: Option<&Vec<(String, JsonValue)>>)
        ensures
            match r {
                Some(m) => self@ == Jv::Obj(mem_view(m@)),
                None => !(self@ is Obj),
            },
    {
        match self {
            JsonValue::Object(m) => Some(m),
            JsonValue::Null => None,
            JsonValue::Bool(_) => None,
            JsonValue::Int(_) => None,
            JsonValue::Str(_) => None,
            JsonValue::Array(_) => None,
        }
    }
}

/// Whether one string starts with another.
pub fn str_prefix(s: &str, p: &str) -> (r: bool)
    ensures
        r == (p@.len() <= s@.len() && s@.subrange(0, p@.len() as int) == p@),
{
    let pl = p.unicode_len();
    let sl = s.unicode_len();
    if pl > sl {
        return false;
    }
    let mut i: usize = 0;
    while i < pl
        invariant
            i <= pl,
            pl == p@.len(),
            sl == s@.len(),
            pl <= sl,
            forall|j: int| 0 <= j < i ==> s@[j] == p@[j],
        decreases pl - i,
    {
        if s.get_char(i) != p.get_char(i) {
            proof {
                assert(s@.subrange(0, pl as int)[i as int] != p@[i as int]);
            }
            return false;
        }
        i += 1;
    }
    proof {
        assert(s@.subrange(0, pl as int) =~= p@);
    }
    true
}

/// A member that a lookup finds is one of the members.
pub proof fn lemma_jv_get_elem(ms: Seq<(Seq<char>, Jv)>, name: Seq<char>)
    requires
        jv_get(ms, name) is Some,
    ensures
        exists|k: int| 0 <= k < ms.len() && #[trigger] ms[k].1 == jv_get(ms, name)->Some_0,
    decreases ms.len(),
{
    if ms.len() > 0 {
        if ms[0].0 == name {
            assert(ms[0].1 == jv_get(ms, name)->Some_0);
        } else {
            lemma_jv_get_elem(ms.drop_first(), name);
            let k = choose|k: int|
                0 <= k < ms.drop_first().len() && #[trigger] ms.drop_first()[k].1 == jv_get(
                    ms.drop_first(),
                    name,
                )->Some_0;
            assert(ms[k + 1].1 == jv_get(ms, name)->Some_0);
        }
    }
}

/// Finds the first member of an object with the given name.
pub fn obj_get<'a>(members: &'a Vec<(String, JsonValue)>, name: &str) -> (r: Option<
    &'a JsonValue,
>)
    ensures
        match r {
            Some(v) => jv_get(mem_view(members@), name@) == Some(v@),
            None => jv_get(mem_view(members@), name@) is None,
        },
{
    let ghost ms = mem_view(members@);
    proof {
        lemma_mem_view_len(members@);
        assert(ms.skip(0) =~= ms);
    }
    let mut i: usize = 0;
    while i < members.len()
        invariant
            i <= members.len(),
            ms == mem_view(members@),
            ms.len() == members@.len(),
            jv_get(ms, name@) == jv_get(ms.skip(i as int), name@),
        decreases members.len() - i,
    {
        proof {
            lemma_mem_view_index(members@, i as int);
            assert(ms.skip(i as int)[0] == ms[i as int]);
            assert(ms.skip(i as int).drop_first() =~= ms.skip(i as int + 1));
        }
        if str_eq(members[i].0.as_str(), name) {
            return Some(&members[i].1);
        }
        i += 1;
    }
    proof {
        assert(ms.skip(i as int).len() == 0);
    }
    None
}

} // verus!
