use std::rc::Rc;

use vstd::prelude::*;

use crate::ast::{expr_of, Ast, Expr};

verus! {

broadcast use vstd::std_specs::vec::group_vec_axioms;

/// A runtime value. Composite values share their parts; object members are
/// kept in ascending key order.
#[derive(Debug)]
pub enum Variable {
    Null,
    Bool(bool),
    Number(i64),
    String(String),
    Array(Vec<RcVar>),
    Object(Vec<(String, RcVar)>),
    Expref(Ast),
}

/// A shared, immutable value.
pub type RcVar = Rc<Variable>;

/// The mathematical model of a `Variable`.
#[verifier::ext_equal]
pub enum Json {
    Null,
    Bool(bool),
    Number(int),
    Str(Seq<char>),
    Array(Seq<Json>),
    Object(Seq<(Seq<char>, Json)>),
    Expref(Box<Expr>),
}

/// The model of a value.
pub open spec fn model_of(v: &Variable) -> Json
    decreases v,
{
    match v {
        Variable::Null => Json::Null,
        Variable::Bool(b) => Json::Bool(*b),
        Variable::Number(n) => Json::Number(*n as int),
        Variable::String(s) => Json::Str(s@),
        Variable::Array(v) => Json::Array(
            Seq::new(
                v@.len(),
                |i: int|
                    if 0 <= i < v@.len() {
                        model_of(&*v@[i])
                    } else {
                        Json::Null
                    },
            ),
        ),
        Variable::Object(v) => Json::Object(
            Seq::new(
                v@.len(),
                |i: int|
                    if 0 <= i < v@.len() {
                        (v@[i].0@, model_of(&*v@[i].1))
                    } else {
                        (Seq::empty(), Json::Null)
                    },
            ),
        ),
        Variable::Expref(a) => Json::Expref(Box::new(expr_of(a))),
    }
    }

impl View for Variable {
    type V = Json;

    open spec fn view(&self) -> Json {
        model_of(self)
    }
}

/// Null, false, the empty string, the empty array and the empty object are
/// false; every other value, numeric zero included, is true.
pub open spec fn truthy(v: Json) -> bool {
    match v {
        Json::Null => false,
        Json::Bool(b) => b,
        Json::Str(s) => s.len() > 0,
        Json::Array(a) => a.len() > 0,
        Json::Object(o) => o.len() > 0,
        _ => true,
    }
}

/// Byte-wise lexicographic order.
pub open spec fn bytes_lt(a: Seq<u8>, b: Seq<u8>) -> bool
    decreases a.len(),
{
    if a.len() == 0 {
        b.len() > 0
    } else if b.len() == 0 {
        false
    } else if a[0] != b[0] {
        a[0] < b[0]
    } else {
        bytes_lt(a.drop_first(), b.drop_first())
    }
}

/// Order of object keys: lexicographic on their UTF-8 encoding, which is the
/// order of `String`.
pub open spec fn key_lt(a: Seq<char>, b: Seq<char>) -> bool {
    bytes_lt(vstd::utf8::encode_utf8(a), vstd::utf8::encode_utf8(b))
}

/// Keys strictly ascending, hence unique.
pub open spec fn keys_ascending(o: Seq<(Seq<char>, Json)>) -> bool {
    forall|i: int, j: int| 0 <= i < j < o.len() ==> key_lt(#[trigger] o[i].0, #[trigger] o[j].0)
}

/// The byte order is transitive.
pub proof fn lemma_bytes_lt_transitive(a: Seq<u8>, b: Seq<u8>, c: Seq<u8>)
    requires
        bytes_lt(a, b),
        bytes_lt(b, c),
    ensures
        bytes_lt(a, c),
    decreases a.len(),
{
    if a.len() > 0 && b.len() > 0 && c.len() > 0 && a[0] == b[0] && b[0] == c[0] {
        lemma_bytes_lt_transitive(a.drop_first(), b.drop_first(), c.drop_first());
    }
}

/// Every member of `keys_below(o, k)` is a member of `o` with a key below
/// `k`, and likewise above for `keys_above`.
proof fn lemma_split_members(o: Seq<(Seq<char>, Json)>, k: Seq<char>)
    ensures
        forall|x: (Seq<char>, Json)| #[trigger]
            keys_below(o, k).contains(x) ==> o.contains(x) && key_lt(x.0, k),
        forall|x: (Seq<char>, Json)| #[trigger]
            keys_above(o, k).contains(x) ==> o.contains(x) && key_lt(k, x.0),
    decreases o.len(),
{
    if o.len() > 0 {
        let p = o.drop_last();
        lemma_split_members(p, k);
        assert forall|x: (Seq<char>, Json)| #[trigger] p.contains(x) implies o.contains(x) by {
            let i = choose|i: int| 0 <= i < p.len() && p[i] == x;
            assert(o[i] == x);
        }
        assert(o[o.len() - 1] == o.last());
        assert forall|x: (Seq<char>, Json)| #[trigger]
            keys_below(o, k).contains(x) implies o.contains(x) && key_lt(x.0, k) by {
            let s = keys_below(o, k);
            let j = choose|j: int| 0 <= j < s.len() && s[j] == x;
            if key_lt(o.last().0, k) && j == s.len() - 1 {
                assert(x == o.last());
            } else {
                assert(keys_below(p, k)[j] == x);
                assert(keys_below(p, k).contains(x));
            }
        }
        assert forall|x: (Seq<char>, Json)| #[trigger]
            keys_above(o, k).contains(x) implies o.contains(x) && key_lt(k, x.0) by {
            let s = keys_above(o, k);
            let j = choose|j: int| 0 <= j < s.len() && s[j] == x;
            if key_lt(k, o.last().0) && j == s.len() - 1 {
                assert(x == o.last());
            } else {
                assert(keys_above(p, k)[j] == x);
                assert(keys_above(p, k).contains(x));
            }
        }
    }
}

/// The parts of an ascending object below and above a key are ascending.
proof fn lemma_split_ascending(o: Seq<(Seq<char>, Json)>, k: Seq<char>)
    requires
        keys_ascending(o),
    ensures
        keys_ascending(keys_below(o, k)),
        keys_ascending(keys_above(o, k)),
    decreases o.len(),
{
    if o.len() > 0 {
        let p = o.drop_last();
        assert(keys_ascending(p));
        lemma_split_ascending(p, k);
        lemma_split_members(p, k);
        assert forall|x: (Seq<char>, Json)| p.contains(x) implies key_lt(x.0, o.last().0) by {
            let i = choose|i: int| 0 <= i < p.len() && p[i] == x;
            assert(o[i] == x);
        }
        let b = keys_below(p, k);
        let c = keys_above(p, k);
        assert forall|i: int| 0 <= i < b.len() implies key_lt(b[i].0, o.last().0) by {
            assert(b.contains(b[i]));
        }
        assert forall|i: int| 0 <= i < c.len() implies key_lt(c[i].0, o.last().0) by {
            assert(c.contains(c[i]));
        }
    }
}

/// Setting a key in an ascending object keeps it ascending.
pub proof fn lemma_object_insert_ascending(o: Seq<(Seq<char>, Json)>, k: Seq<char>, v: Json)
    requires
        keys_ascending(o),
    ensures
        keys_ascending(object_insert(o, k, v)),
{
    lemma_split_ascending(o, k);
    lemma_split_members(o, k);
    let b = keys_below(o, k);
    let c = keys_above(o, k);
    let r = object_insert(o, k, v);
    assert forall|i: int, j: int| 0 <= i < j < r.len() implies key_lt(
        #[trigger] r[i].0,
        #[trigger] r[j].0,
    ) by {
        if j < b.len() {
            assert(r[i] == b[i] && r[j] == b[j]);
        } else if i > b.len() {
            assert(r[i] == c[i - b.len() - 1] && r[j] == c[j - b.len() - 1]);
        } else if i == b.len() {
            assert(c.contains(c[j - b.len() - 1]));
        } else if j == b.len() {
            assert(b.contains(b[i]));
        } else {
            assert(b.contains(b[i]));
            assert(c.contains(c[j - b.len() - 1]));
            lemma_bytes_lt_transitive(
                vstd::utf8::encode_utf8(b[i].0),
                vstd::utf8::encode_utf8(k),
                vstd::utf8::encode_utf8(c[j - b.len() - 1].0),
            );
        }
    }
}

/// Structural equality of data. Expression references are not data and
/// never compare equal.
pub open spec fn json_eq(a: Json, b: Json) -> bool
    decreases a,
{
    match (a, b) {
        (Json::Null, Json::Null) => true,
        (Json::Bool(x), Json::Bool(y)) => x == y,
        (Json::Number(x), Json::Number(y)) => x == y,
        (Json::Str(x), Json::Str(y)) => x == y,
        (Json::Array(x), Json::Array(y)) => x.len() == y.len() && forall|i: int|
            0 <= i < x.len() ==> json_eq(#[trigger] x[i], y[i]),
        (Json::Object(x), Json::Object(y)) => x.len() == y.len() && forall|i: int|
            0 <= i < x.len() ==> (#[trigger] x[i]).0 == y[i].0 && json_eq(x[i].1, y[i].1),
        _ => false,
    }
}

/// The value of the first member named `name`; null when there is none.
pub open spec fn lookup(o: Seq<(Seq<char>, Json)>, name: Seq<char>) -> Json
    decreases o.len(),
{
    if o.len() == 0 {
        Json::Null
    } else if o[0].0 == name {
        o[0].1
    } else {
        lookup(o.drop_first(), name)
    }
}

/// The value of the member `name` of an object; null when absent or when
/// `v` is no object.
pub open spec fn field_of(v: Json, name: Seq<char>) -> Json {
    match v {
        Json::Object(o) => lookup(o, name),
        _ => Json::Null,
    }
}

/// The models of a sequence of values.
pub open spec fn views(s: Seq<RcVar>) -> Seq<Json> {
    Seq::new(s.len(), |i: int| s[i]@)
}

/// The models of a sequence of object members.
pub open spec fn member_views(s: Seq<(String, RcVar)>) -> Seq<(Seq<char>, Json)> {
    Seq::new(s.len(), |i: int| (s[i].0@, s[i].1@))
}

/// The members of `o` whose key is below `k`, in order.
pub open spec fn keys_below(o: Seq<(Seq<char>, Json)>, k: Seq<char>) -> Seq<(Seq<char>, Json)>
    decreases o.len(),
{
    if o.len() == 0 {
        o
    } else if key_lt(o.last().0, k) {
        keys_below(o.drop_last(), k).push(o.last())
    } else {
        keys_below(o.drop_last(), k)
    }
}

/// The members of `o` whose key is above `k`, in order.
pub open spec fn keys_above(o: Seq<(Seq<char>, Json)>, k: Seq<char>) -> Seq<(Seq<char>, Json)>
    decreases o.len(),
{
    if o.len() == 0 {
        o
    } else if key_lt(k, o.last().0) {
        keys_above(o.drop_last(), k).push(o.last())
    } else {
        keys_above(o.drop_last(), k)
    }
}

/// The ordered object `o` with `k` set to `v`: a member with key `k` is
/// replaced, otherwise one is added in key order.
pub open spec fn object_insert(o: Seq<(Seq<char>, Json)>, k: Seq<char>, v: Json) -> Seq<
    (Seq<char>, Json),
> {
    keys_below(o, k) + seq![(k, v)] + keys_above(o, k)
}

/// The element at `idx` counted from the front when `idx >= 0` and from the
/// back when negative; null when out of range or when `v` is no array.
pub open spec fn index_of(v: Json, idx: int) -> Json {
    match v {
        Json::Array(a) => if 0 <= idx < a.len() {
            a[idx]
        } else if idx < 0 && a.len() + idx >= 0 {
            a[a.len() + idx]
        } else {
            Json::Null
        },
        _ => Json::Null,
    }
}

/// The name of a value's type.
pub open spec fn kind_name(v: Json) -> Seq<char> {
    match v {
        Json::Null => "null"@,
        Json::Bool(_) => "boolean"@,
        Json::Number(_) => "number"@,
        Json::Str(_) => "string"@,
        Json::Array(_) => "array"@,
        Json::Object(_) => "object"@,
        Json::Expref(_) => "expref"@,
    }
}

impl Variable {
    /// Whether the value counts as true in a boolean context.
    pub fn is_truthy(&self) -> (r: bool)
        ensures
            r == truthy(self@),
    {
        match self {
            Variable::Null => false,
            Variable::Bool(b) => *b,
            Variable::String(s) => !s.as_str().is_empty(),
            Variable::Array(a) => a.len() > 0,
            Variable::Object(o) => o.len() > 0,
            _ => true,
        }
    }

    /// Structural equality of data (see `json_eq`).
    pub fn equals(&self, other: &Variable) -> (r: bool)
        ensures
            r == json_eq(self@, other@),
        decreases self,
    {
        match (self, other) {
            (Variable::Null, Variable::Null) => true,
            (Variable::Bool(a), Variable::Bool(b)) => *a == *b,
            (Variable::Number(a), Variable::Number(b)) => *a == *b,
            (Variable::String(a), Variable::String(b)) => a.eq(b),
            (Variable::Array(x), Variable::Array(y)) => {
                if x.len() != y.len() {
                    return false;
                }
                let mut i: usize = 0;
                while i < x.len()
                    invariant
                        i <= x@.len(),
                        x@.len() == y@.len(),
                        *self == Variable::Array(*x),
                        *other == Variable::Array(*y),
                        forall|j: int| 0 <= j < i ==> json_eq(#[trigger] x@[j]@, y@[j]@),
                    decreases x@.len() - i,
                {
                    if !x[i].equals(&y[i]) {
                        assert(!json_eq(self@->Array_0[i as int], other@->Array_0[i as int]));
                        return false;
                    }
                    i = i + 1;
                }
                assert forall|j: int| 0 <= j < self@->Array_0.len() implies json_eq(
                    #[trigger] self@->Array_0[j],
                    other@->Array_0[j],
                ) by {
                    assert(json_eq(x@[j]@, y@[j]@));
                }
                true
            },
            (Variable::Object(x), Variable::Object(y)) => {
                if x.len() != y.len() {
                    return false;
                }
                let mut i: usize = 0;
                while i < x.len()
                    invariant
                        i <= x@.len(),
                        x@.len() == y@.len(),
                        *self == Variable::Object(*x),
                        *other == Variable::Object(*y),
                        forall|j: int|
                            0 <= j < i ==> (#[trigger] x@[j]).0@ == y@[j].0@ && json_eq(
                                x@[j].1@,
                                y@[j].1@,
                            ),
                    decreases x@.len() - i,
                {
                    if !x[i].0.eq(&y[i].0) {
                        assert(self@->Object_0[i as int].0 != other@->Object_0[i as int].0);
                        return false;
                    }
                    proof {
                        assert(decreases_to!(*self => *x));
                        assert(decreases_to!(*x => x[i as int]));
                        assert(decreases_to!(x[i as int] => x[i as int].1));
                    }
                    if !x[i].1.equals(&y[i].1) {
                        assert(!json_eq(self@->Object_0[i as int].1, other@->Object_0[i as int].1));
                        return false;
                    }
                    i = i + 1;
                }
                assert forall|j: int| 0 <= j < self@->Object_0.len() implies (
                #[trigger] self@->Object_0[j]).0 == other@->Object_0[j].0 && json_eq(
                    self@->Object_0[j].1,
                    other@->Object_0[j].1,
                ) by {
                    assert(x@[j].0@ == y@[j].0@ && json_eq(x@[j].1@, y@[j].1@));
                }
                true
            },
            _ => false,
        }
    }

    /// The name of the value's type.
    pub fn kind(&self) -> (r: String)
        ensures
            r@ == kind_name(self@),
    {
        match self {
            Variable::Null => "null".to_owned(),
            Variable::Bool(_) => "boolean".to_owned(),
            Variable::Number(_) => "number".to_owned(),
            Variable::String(_) => "string".to_owned(),
            Variable::Array(_) => "array".to_owned(),
            Variable::Object(_) => "object".to_owned(),
            Variable::Expref(_) => "expref".to_owned(),
        }
    }

    pub fn is_null(&self) -> (r: bool)
        ensures
            r == (self@ == Json::Null),
    {
        match self {
            Variable::Null => true,
            _ => false,
        }
    }
}

/// Whether `a` orders before `b` as an object key.
pub fn key_less(a: &String, b: &String) -> (r: bool)
    ensures
        r == key_lt(a@, b@),
{
    let x = a.as_str().as_bytes();
    let y = b.as_str().as_bytes();
    let mut i: usize = 0;
    assert(x@.skip(0) =~= x@);
    assert(y@.skip(0) =~= y@);
    while i < x.len() && i < y.len()
        invariant
            i <= x@.len(),
            i <= y@.len(),
            x@ == vstd::utf8::encode_utf8(a@),
            y@ == vstd::utf8::encode_utf8(b@),
            bytes_lt(x@, y@) == bytes_lt(x@.skip(i as int), y@.skip(i as int)),
        decreases x@.len() - i,
    {
        if x[i] != y[i] {
            return x[i] < y[i];
        }
        assert(x@.skip(i as int).drop_first() =~= x@.skip(i + 1));
        assert(y@.skip(i as int).drop_first() =~= y@.skip(i + 1));
        i = i + 1;
    }
    i < y.len()
}

/// `members` with `key` set to `value`, in key order.
pub fn insert_member(members: &Vec<(String, RcVar)>, key: String, value: RcVar) -> (r: Vec<
    (String, RcVar),
>)
    ensures
        member_views(r@) == object_insert(member_views(members@), key@, value@),
        keys_ascending(member_views(members@)) ==> keys_ascending(member_views(r@)),
{
    let ghost m = member_views(members@);
    let mut below: Vec<(String, RcVar)> = Vec::new();
    let mut above: Vec<(String, RcVar)> = Vec::new();
    let mut i: usize = 0;
    while i < members.len()
        invariant
            i <= members@.len(),
            m == member_views(members@),
            member_views(below@) == keys_below(m.take(i as int), key@),
            member_views(above@) == keys_above(m.take(i as int), key@),
        decreases members@.len() - i,
    {
        assert(m.take(i + 1).drop_last() =~= m.take(i as int));
        let lower = key_less(&members[i].0, &key);
        let higher = key_less(&key, &members[i].0);
        if lower {
            let entry = (members[i].0.clone(), members[i].1.clone());
            below.push(entry);
            assert(member_views(below@) =~= keys_below(m.take(i + 1), key@));
        }
        if higher {
            let entry = (members[i].0.clone(), members[i].1.clone());
            above.push(entry);
            assert(member_views(above@) =~= keys_above(m.take(i + 1), key@));
        }
        i = i + 1;
    }
    assert(m.take(members@.len() as int) =~= m);
    let ghost b = below@;
    below.push((key, value));
    let ghost b2 = below@;
    below.append(&mut above);
    assert(member_views(below@) =~= object_insert(m, key@, value@)) by {
        assert(member_views(b2) =~= member_views(b).push((key@, value@)));
    }
    proof {
        if keys_ascending(m) {
            lemma_object_insert_ascending(m, key@, value@);
        }
    }
    below
}

/// The object that setting each of `s`'s members in turn gives, starting
/// from the empty object.
pub open spec fn build_object(s: Seq<(Seq<char>, Json)>) -> Seq<(Seq<char>, Json)>
    decreases s.len(),
{
    if s.len() == 0 {
        s
    } else {
        object_insert(build_object(s.drop_last()), s.last().0, s.last().1)
    }
}

impl Variable {
    /// An object holding `members` in ascending key order; of two members
    /// with one key, the later one stays.
    pub fn object_from(members: Vec<(String, RcVar)>) -> (r: Variable)
        ensures
            r is Object,
            member_views(r->Object_0@) == build_object(member_views(members@)),
            keys_ascending(member_views(r->Object_0@)),
    {
        let ghost m = member_views(members@);
        let mut out: Vec<(String, RcVar)> = Vec::new();
        let mut i: usize = 0;
        assert(m.take(0) =~= Seq::<(Seq<char>, Json)>::empty());
        assert(member_views(out@) =~= Seq::<(Seq<char>, Json)>::empty());
        while i < members.len()
            invariant
                i <= members@.len(),
                m == member_views(members@),
                member_views(out@) == build_object(m.take(i as int)),
                keys_ascending(member_views(out@)),
            decreases members@.len() - i,
        {
            assert(m.take(i + 1).drop_last() =~= m.take(i as int));
            out = insert_member(&out, members[i].0.clone(), members[i].1.clone());
            i = i + 1;
        }
        assert(m.take(members@.len() as int) =~= m);
        Variable::Object(out)
    }
}

/// The model of an array or object is made of the models of its parts.
pub proof fn lemma_composite_view(v: &Variable)
    ensures
        v is Array ==> v@ == Json::Array(views(v->Array_0@)),
        v is Object ==> v@ == Json::Object(member_views(v->Object_0@)),
{
    match v {
        Variable::Array(a) => {
            assert(v@->Array_0 =~= views(a@));
        },
        Variable::Object(o) => {
            assert(v@->Object_0 =~= member_views(o@));
        },
        _ => {},
    }
}

/// The value of the first member named `name`, if any.
pub fn get_field(members: &Vec<(String, RcVar)>, name: &String) -> (r: Option<RcVar>)
    ensures
        match r {
            Some(v) => v@,
            None => Json::Null,
        } == lookup(member_views(members@), name@),
{
    let ghost m = member_views(members@);
    let mut i: usize = 0;
    assert(m.skip(0) =~= m);
    while i < members.len()
        invariant
            i <= members@.len(),
            m == member_views(members@),
            lookup(m, name@) == lookup(m.skip(i as int), name@),
        decreases members@.len() - i,
    {
        if members[i].0.eq(name) {
            return Some(members[i].1.clone());
        }
        assert(m.skip(i as int).drop_first() =~= m.skip(i + 1));
        i = i + 1;
    }
    None
}

/// The element at `idx`, counted from the back when negative, if any.
pub fn get_index(items: &Vec<RcVar>, idx: i32) -> (r: Option<RcVar>)
    ensures
        match r {
            Some(v) => v@,
            None => Json::Null,
        } == index_of(Json::Array(views(items@)), idx as int),
{
    if idx >= 0 {
        let k = idx as usize;
        if k < items.len() {
            Some(items[k].clone())
        } else {
            None
        }
    } else {
        let back = (-(idx as i64)) as usize;
        if back <= items.len() {
            Some(items[items.len() - back].clone())
        } else {
            None
        }
    }
}

/// Makes values, sharing one instance of each of null, true and false.
pub struct VariableAllocator {
    null: RcVar,
    true_value: RcVar,
    false_value: RcVar,
}

impl VariableAllocator {
    pub closed spec fn wf(&self) -> bool {
        &&& self.null@ == Json::Null
        &&& self.true_value@ == Json::Bool(true)
        &&& self.false_value@ == Json::Bool(false)
    }

    pub fn new() -> (r: Self)
        ensures
            r.wf(),
    {
        VariableAllocator {
            null: Rc::new(Variable::Null),
            true_value: Rc::new(Variable::Bool(true)),
            false_value: Rc::new(Variable::Bool(false)),
        }
    }

    /// Shares `v`.
    pub fn allocate(&self, v: Variable) -> (r: RcVar)
        ensures
            r@ == v@,
    {
        Rc::new(v)
    }

    /// The shared null.
    pub fn alloc_null(&self) -> (r: RcVar)
        requires
            self.wf(),
        ensures
            r@ == Json::Null,
    {
        self.null.clone()
    }

    /// The shared `b`.
    pub fn alloc_bool(&self, b: bool) -> (r: RcVar)
        requires
            self.wf(),
        ensures
            r@ == Json::Bool(b),
    {
        if b {
            self.true_value.clone()
        } else {
            self.false_value.clone()
        }
    }
}

} // verus!
