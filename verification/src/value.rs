//! Runtime values of the virtual machine.

use vstd::prelude::*;
use crate::numeric::{spec_num_eq, spec_num_truthy, num_eq_bits, num_truthy_bits};

verus! {

/// The mathematical shape of a runtime value.
#[verifier::ext_equal]
pub enum ValueV {
    Str(Seq<char>),
    Num(u64),
    Bool(bool),
    Null,
    Obj(Seq<(Seq<char>, ValueV)>),
    Arr(Seq<ValueV>),
}

/// A runtime datum: a tagged union of absence, booleans, 64-bit IEEE-754
/// numbers (carried as bit patterns), UTF-8 strings, ordered arrays, and
/// string-keyed maps. There are no other types and no implicit coercions
/// besides the truthiness projection.
#[derive(Debug)]
pub enum Value {
    /// A UTF-8 string.
    String(String),
    /// A 64-bit IEEE-754 number, as its bit pattern.
    Number(u64),
    /// A boolean.
    Boolean(bool),
    /// The absence value.
    Null,
    /// A string-keyed map of values.
    Object(Vec<(String, Value)>),
    /// An ordered array of values.
    Array(Vec<Value>),
}

impl View for Value {
    type V = ValueV;

    open spec fn view(&self) -> ValueV
        decreases self,
    {
        match self {
            Value::String(s) => ValueV::Str(s@),
            Value::Number(b) => ValueV::Num(*b),
            Value::Boolean(b) => ValueV::Bool(*b),
            Value::Null => ValueV::Null,
            Value::Object(es) => ValueV::Obj(spec_obj_views(es@)),
            Value::Array(vs) => ValueV::Arr(spec_arr_views(vs@)),
        }
    }
}

/// The views of an array's elements, in order.
pub open spec fn spec_arr_views(s: Seq<Value>) -> Seq<ValueV>
    decreases s,
{
    if s.len() == 0 {
        Seq::empty()
    } else {
        spec_arr_views(s.drop_last()).push(s.last().view())
    }
}

/// The views of a map's entries, in order.
pub open spec fn spec_obj_views(s: Seq<(String, Value)>) -> Seq<(Seq<char>, ValueV)>
    decreases s,
{
    if s.len() == 0 {
        Seq::empty()
    } else {
        spec_obj_views(s.drop_last()).push((s.last().0@, s.last().1.view()))
    }
}

/// Pointwise description of an array's element views.
pub broadcast proof fn lemma_arr_views(s: Seq<Value>)
    ensures
        (#[trigger] spec_arr_views(s)).len() == s.len(),
        forall|i: int| 0 <= i < s.len() ==> spec_arr_views(s)[i] == s[i]@,
    decreases s.len(),
{
    if s.len() > 0 {
        lemma_arr_views(s.drop_last());
        assert(spec_arr_views(s) == spec_arr_views(s.drop_last()).push(s.last().view()));
        assert(spec_arr_views(s.drop_last()).len() == s.drop_last().len());
        assert(s.drop_last().len() == s.len() - 1);
        assert forall|i: int| 0 <= i < s.len() implies spec_arr_views(s)[i] == s[i]@ by {
            if i < s.len() - 1 {
                assert(s.drop_last()[i] == s[i]);
                assert(spec_arr_views(s)[i] == spec_arr_views(s.drop_last())[i]);
            } else {
                assert(spec_arr_views(s)[i] == s.last()@);
            }
        }
    }
}

/// Pointwise description of a map's entry views.
pub broadcast proof fn lemma_obj_views(s: Seq<(String, Value)>)
    ensures
        (#[trigger] spec_obj_views(s)).len() == s.len(),
        forall|i: int|
            0 <= i < s.len() ==> spec_obj_views(s)[i] == ((#[trigger] s[i]).0@, s[i].1@),
    decreases s.len(),
{
    if s.len() > 0 {
        lemma_obj_views(s.drop_last());
        assert forall|i: int| 0 <= i < s.len() implies spec_obj_views(s)[i] == (s[i].0@, s[i].1@) by {
            if i < s.len() - 1 {
                assert(s.drop_last()[i] == s[i]);
                assert(spec_obj_views(s)[i] == spec_obj_views(s.drop_last())[i]);
            } else {
                assert(spec_obj_views(s)[i] == (s.last().0@, s.last().1@));
            }
        }
    }
}

/// The first value bound to `key` among the entries, if any.
pub open spec fn spec_obj_get(es: Seq<(Seq<char>, ValueV)>, key: Seq<char>) -> Option<ValueV>
    decreases es.len(),
{
    if es.len() == 0 {
        None
    } else if es[0].0 == key {
        Some(es[0].1)
    } else {
        spec_obj_get(es.drop_first(), key)
    }
}

/// Equality as the machine compares values: IEEE-754 equality on numbers
/// (NaN equals nothing; the two zeroes are equal), structural equality on
/// strings, booleans and absence, pointwise on arrays, and key-lookup on
/// maps of equal size.
pub open spec fn spec_val_eq(a: ValueV, b: ValueV) -> bool
    decreases a,
{
    match (a, b) {
        (ValueV::Null, ValueV::Null) => true,
        (ValueV::Bool(x), ValueV::Bool(y)) => x == y,
        (ValueV::Num(x), ValueV::Num(y)) => spec_num_eq(x, y),
        (ValueV::Str(x), ValueV::Str(y)) => x == y,
        (ValueV::Arr(x), ValueV::Arr(y)) => x.len() == y.len() && (forall|i: int|
            0 <= i < x.len() ==> spec_val_eq(#[trigger] x[i], y[i])),
        (ValueV::Obj(x), ValueV::Obj(y)) => x.len() == y.len() && (forall|i: int|
            0 <= i < x.len() ==> match spec_obj_get(y, (#[trigger] x[i]).0) {
                Some(v) => spec_val_eq(x[i].1, v),
                None => false,
            }),
        _ => false,
    }
}

/// The truthiness projection: absence, false, the zero numbers, and the
/// empty string, array and map are false; everything else is true.
pub open spec fn spec_truthy(v: ValueV) -> bool {
    match v {
        ValueV::Null => false,
        ValueV::Bool(b) => b,
        ValueV::Num(bits) => spec_num_truthy(bits),
        ValueV::Str(s) => s.len() > 0,
        ValueV::Arr(s) => s.len() > 0,
        ValueV::Obj(s) => s.len() > 0,
    }
}

proof fn lemma_obj_get_found(es: Seq<(Seq<char>, ValueV)>, key: Seq<char>, i: int)
    requires
        0 <= i < es.len(),
        es[i].0 == key,
        forall|j: int| 0 <= j < i ==> (#[trigger] es[j]).0 != key,
    ensures
        spec_obj_get(es, key) == Some(es[i].1),
    decreases es.len(),
{
    if i > 0 {
        assert(forall|j: int| 0 <= j < i - 1 ==> es.drop_first()[j] == es[j + 1]);
        lemma_obj_get_found(es.drop_first(), key, i - 1);
    }
}

proof fn lemma_obj_get_missing(es: Seq<(Seq<char>, ValueV)>, key: Seq<char>)
    requires
        forall|j: int| 0 <= j < es.len() ==> (#[trigger] es[j]).0 != key,
    ensures
        spec_obj_get(es, key) == None::<ValueV>,
    decreases es.len(),
{
    if es.len() > 0 {
        lemma_obj_get_missing(es.drop_first(), key);
    }
}

/// Look up the first entry bound to `key`.
pub fn obj_lookup<'a>(es: &'a Vec<(String, Value)>, key: &String) -> (r: Option<&'a Value>)
    ensures
        match r {
            Some(v) => spec_obj_get(obj_view(es), key@) == Some(v@),
            None => spec_obj_get(obj_view(es), key@) == None::<ValueV>,
        },
{
    broadcast use lemma_obj_views;

    let ghost ev = obj_view(es);
    let mut i: usize = 0;
    while i < es.len()
        invariant
            0 <= i <= es.len(),
            ev == obj_view(es),
            ev.len() == es.len(),
            forall|j: int| 0 <= j < i ==> (#[trigger] ev[j]).0 != key@,
        decreases es.len() - i,
    {
        proof {
            lemma_obj_views(es@);
            assert(ev[i as int] == (es@[i as int].0@, es@[i as int].1@));
        }
        if es[i].0 == *key {
            proof {
                lemma_obj_get_found(ev, key@, i as int);
            }
            return Some(&es[i].1);
        }
        i = i + 1;
    }
    proof {
        lemma_obj_get_missing(ev, key@);
    }
    None
}

/// The view of a map's entry vector.
pub open spec fn obj_view(es: &Vec<(String, Value)>) -> Seq<(Seq<char>, ValueV)> {
    spec_obj_views(es@)
}

/// The view of an array's element vector.
pub open spec fn arr_view(vs: &Vec<Value>) -> Seq<ValueV> {
    spec_arr_views(vs@)
}

/// Compare two values as the `Equal` instruction does.
pub fn value_eq(a: &Value, b: &Value) -> (r: bool)
    ensures
        r == spec_val_eq(a@, b@),
    decreases a,
{
    broadcast use lemma_arr_views, lemma_obj_views;

    match (a, b) {
        (Value::Null, Value::Null) => {
            proof {
                assert(spec_val_eq(a@, b@));
            }
            true
        },
        (Value::Boolean(x), Value::Boolean(y)) => {
            proof {
                assert(spec_val_eq(a@, b@) == (*x == *y));
            }
            *x == *y
        },
        (Value::Number(x), Value::Number(y)) => {
            proof {
                assert(spec_val_eq(a@, b@) == spec_num_eq(*x, *y));
            }
            num_eq_bits(*x, *y)
        },
        (Value::String(x), Value::String(y)) => {
            proof {
                assert(spec_val_eq(a@, b@) == (x@ == y@));
            }
            *x == *y
        },
        (Value::Array(x), Value::Array(y)) => {
            proof {
                lemma_arr_views(x@);
                lemma_arr_views(y@);
            }
            if x.len() != y.len() {
                return false;
            }
            let ghost xv = arr_view(x);
            let ghost yv = arr_view(y);
            let mut i: usize = 0;
            while i < x.len()
                invariant
                    0 <= i <= x.len(),
                    x.len() == y.len(),
                    xv == arr_view(x),
                    yv == arr_view(y),
                    xv.len() == x.len(),
                    yv.len() == y.len(),
                    a == Value::Array(*x),
                    b == Value::Array(*y),
                    forall|j: int| 0 <= j < i ==> spec_val_eq(#[trigger] xv[j], yv[j]),
                decreases x.len() - i,
            {
                proof {
                    lemma_arr_views(x@);
                    lemma_arr_views(y@);
                    assert(xv[i as int] == x@[i as int]@);
                    assert(yv[i as int] == y@[i as int]@);
                }
                proof {
                    assert(decreases_to!(a => a->Array_0));
                    assert(a->Array_0 == *x);
                    assert(decreases_to!(*x => x@));
                    assert(decreases_to!(x@ => x@[i as int]));
                }
                if !value_eq(&x[i], &y[i]) {
                    assert(!spec_val_eq(xv[i as int], yv[i as int]));
                    return false;
                }
                i = i + 1;
            }
            proof {
                assert(a@ == ValueV::Arr(xv) && b@ == ValueV::Arr(yv));
                assert(spec_val_eq(a@, b@));
            }
            true
        },
        (Value::Object(x), Value::Object(y)) => {
            proof {
                lemma_obj_views(x@);
                lemma_obj_views(y@);
            }
            if x.len() != y.len() {
                return false;
            }
            let ghost xv = obj_view(x);
            let ghost yv = obj_view(y);
            let mut i: usize = 0;
            while i < x.len()
                invariant
                    0 <= i <= x.len(),
                    x.len() == y.len(),
                    xv == obj_view(x),
                    yv == obj_view(y),
                    xv.len() == x.len(),
                    yv.len() == y.len(),
                    a == Value::Object(*x),
                    b == Value::Object(*y),
                    forall|j: int|
                        0 <= j < i ==> match spec_obj_get(yv, (#[trigger] xv[j]).0) {
                            Some(v) => spec_val_eq(xv[j].1, v),
                            None => false,
                        },
                decreases x.len() - i,
            {
                proof {
                    lemma_obj_views(x@);
                    lemma_obj_views(y@);
                    assert(xv[i as int] == (x@[i as int].0@, x@[i as int].1@));
                }
                proof {
                    assert(decreases_to!(a => a->Object_0));
                    assert(a->Object_0 == *x);
                    assert(decreases_to!(*x => x@));
                    assert(decreases_to!(x@ => x@[i as int]));
                    assert(decreases_to!(x@[i as int] => x@[i as int].1));
                }
                match obj_lookup(y, &x[i].0) {
                    Some(v) => {
                        if !value_eq(&x[i].1, v) {
                            return false;
                        }
                    },
                    None => {
                        return false;
                    },
                }
                i = i + 1;
            }
            proof {
                assert(a@ == ValueV::Obj(xv) && b@ == ValueV::Obj(yv));
                assert(spec_val_eq(a@, b@));
            }
            true
        },
        _ => {
            proof {
                assert(!spec_val_eq(a@, b@));
            }
            false
        },
    }
}

impl Value {
    /// Whether this value is the absence value.
    pub fn is_null(&self) -> (r: bool)
        ensures
            r == (self@ == ValueV::Null),
    {
        match self {
            Value::Null => true,
            _ => false,
        }
    }

    /// The truthiness of this value.
    pub fn is_truthy(&self) -> (r: bool)
        ensures
            r == spec_truthy(self@),
    {
        match self {
            Value::Null => false,
            Value::Boolean(b) => *b,
            Value::Number(bits) => num_truthy_bits(*bits),
            Value::String(s) => s.as_str().unicode_len() > 0,
            Value::Array(a) => {
                proof {
                    lemma_arr_views(a@);
                }
                a.len() > 0
            },
            Value::Object(o) => {
                proof {
                    lemma_obj_views(o@);
                }
                o.len() > 0
            },
        }
    }

    /// The string inside, if this is a string value.
    pub fn as_string(&self) -> (r: Option<&str>)
        ensures
            match r {
                Some(s) => self@ matches ValueV::Str(t) && s@ == t,
                None => !(self@ matches ValueV::Str(_)),
            },
    {
        match self {
            Value::String(s) => Some(s.as_str()),
            _ => None,
        }
    }

    /// The number inside, as its IEEE-754 bit pattern, if this is a number.
    pub fn as_number(&self) -> (r: Option<u64>)
        ensures
            match r {
                Some(bits) => self@ == ValueV::Num(bits),
                None => !(self@ matches ValueV::Num(_)),
            },
    {
        match self {
            Value::Number(bits) => Some(*bits),
            _ => None,
        }
    }

    /// A copy of this value whose view is the same.
    pub fn duplicate(&self) -> (r: Value)
        ensures
            r@ == self@,
        decreases self,
    {
        broadcast use lemma_arr_views, lemma_obj_views;

        match self {
            Value::String(s) => Value::String(s.clone()),
            Value::Number(b) => Value::Number(*b),
            Value::Boolean(b) => Value::Boolean(*b),
            Value::Null => Value::Null,
            Value::Array(vs) => {
                let mut out: Vec<Value> = Vec::new();
                let mut i: usize = 0;
                while i < vs.len()
                    invariant
                        self == Value::Array(*vs),
                        0 <= i <= vs.len(),
                        out@.len() == i,
                        forall|j: int| 0 <= j < i ==> (#[trigger] out@[j])@ == vs@[j]@,
                    decreases vs.len() - i,
                {
                    proof {
                        assert(decreases_to!(self => self->Array_0));
                        assert(self->Array_0 == *vs);
                        assert(decreases_to!(*vs => vs@));
                        assert(decreases_to!(vs@ => vs@[i as int]));
                    }
                    out.push(vs[i].duplicate());
                    i = i + 1;
                }
                let r = Value::Array(out);
                proof {
                    lemma_arr_views(out@);
                    lemma_arr_views(vs@);
                    assert(arr_view(&out) =~= arr_view(vs));
                }
                r
            },
            Value::Object(es) => {
                let mut out: Vec<(String, Value)> = Vec::new();
                let mut i: usize = 0;
                while i < es.len()
                    invariant
                        self == Value::Object(*es),
                        0 <= i <= es.len(),
                        out@.len() == i,
                        forall|j: int|
                            0 <= j < i ==> (#[trigger] out@[j]).0@ == es@[j].0@ && out@[j].1@
                                == es@[j].1@,
                    decreases es.len() - i,
                {
                    proof {
                        assert(decreases_to!(self => self->Object_0));
                        assert(self->Object_0 == *es);
                        assert(decreases_to!(*es => es@));
                        assert(decreases_to!(es@ => es@[i as int]));
                        assert(decreases_to!(es@[i as int] => es@[i as int].1));
                    }
                    let k = es[i].0.clone();
                    let v = es[i].1.duplicate();
                    out.push((k, v));
                    i = i + 1;
                }
                let r = Value::Object(out);
                proof {
                    lemma_obj_views(out@);
                    lemma_obj_views(es@);
                    assert forall|j: int|
                        0 <= j < out@.len() implies spec_obj_views(out@)[j] == spec_obj_views(
                        es@,
                    )[j] by {
                        assert(spec_obj_views(out@)[j] == (out@[j].0@, out@[j].1@));
                        assert(spec_obj_views(es@)[j] == (es@[j].0@, es@[j].1@));
                    }
                    assert(obj_view(&out) =~= obj_view(es));
                }
                r
            },
        }
    }
}

/// The flat text rendering of a value, used by the hashing instruction,
/// halt messages, and the stub markers of domain instructions. Compound
/// values render as fixed markers.
pub open spec fn spec_value_text(v: ValueV) -> Seq<char> {
    match v {
        ValueV::Null => "null"@,
        ValueV::Bool(b) => if b {
            "true"@
        } else {
            "false"@
        },
        ValueV::Num(bits) => crate::numeric::num_text(bits),
        ValueV::Str(s) => s,
        ValueV::Arr(_) => "[array]"@,
        ValueV::Obj(_) => "{object}"@,
    }
}

impl Value {
    /// The flat text rendering of this value.
    pub fn to_text(&self) -> (r: String)
        ensures
            r@ == spec_value_text(self@),
    {
        match self {
            Value::Null => String::from_str("null"),
            Value::Boolean(b) => {
                if *b {
                    String::from_str("true")
                } else {
                    String::from_str("false")
                }
            },
            Value::Number(bits) => crate::numeric::num_to_text(*bits),
            Value::String(s) => s.clone(),
            Value::Array(_) => String::from_str("[array]"),
            Value::Object(_) => String::from_str("{object}"),
        }
    }
}

/// Bind `key` to `value` among the entries: replace the first entry with
/// that key, or append a new one.
pub open spec fn spec_obj_insert(
    es: Seq<(Seq<char>, ValueV)>,
    key: Seq<char>,
    value: ValueV,
) -> Seq<(Seq<char>, ValueV)>
    decreases es.len(),
{
    if es.len() == 0 {
        seq![(key, value)]
    } else if es[0].0 == key {
        seq![(key, value)] + es.drop_first()
    } else {
        seq![es[0]] + spec_obj_insert(es.drop_first(), key, value)
    }
}

/// Bind `key` to `value` in the entry vector.
pub fn obj_insert(es: &mut Vec<(String, Value)>, key: String, value: Value)
    ensures
        obj_view(final(es)) == spec_obj_insert(obj_view(old(es)), key@, value@),
{
    broadcast use lemma_obj_views;

    let ghost ev = obj_view(es);
    let mut i: usize = 0;
    while i < es.len()
        invariant
            0 <= i <= es.len(),
            es@ == old(es)@,
            ev == obj_view(es),
            ev.len() == es.len(),
            forall|j: int| 0 <= j < i ==> (#[trigger] ev[j]).0 != key@,
        decreases es.len() - i,
    {
        proof {
            lemma_obj_views(es@);
            assert(ev[i as int] == (es@[i as int].0@, es@[i as int].1@));
        }
        if es[i].0 == key {
            es[i] = (key, value);
            proof {
                lemma_obj_views(es@);
                lemma_obj_insert_found(ev, key@, value@, i as int);
                assert forall|j: int| 0 <= j < es@.len() implies obj_view(es)[j] == ev.update(
                    i as int,
                    (key@, value@),
                )[j] by {
                    assert(obj_view(es)[j] == (es@[j].0@, es@[j].1@));
                }
                assert(obj_view(es) =~= ev.update(i as int, (key@, value@)));
                assert(obj_view(es) =~= spec_obj_insert(ev, key@, value@));
            }
            return ;
        }
        i = i + 1;
    }
    es.push((key, value));
    proof {
        lemma_obj_views(es@);
        lemma_obj_insert_missing(ev, key@, value@);
        assert forall|j: int| 0 <= j < es@.len() implies obj_view(es)[j] == ev.push(
            (key@, value@),
        )[j] by {
            assert(obj_view(es)[j] == (es@[j].0@, es@[j].1@));
        }
        assert(obj_view(es) =~= ev.push((key@, value@)));
        assert(obj_view(es) =~= spec_obj_insert(ev, key@, value@));
    }
}

proof fn lemma_obj_insert_found(
    es: Seq<(Seq<char>, ValueV)>,
    key: Seq<char>,
    value: ValueV,
    i: int,
)
    requires
        0 <= i < es.len(),
        es[i].0 == key,
        forall|j: int| 0 <= j < i ==> (#[trigger] es[j]).0 != key,
    ensures
        spec_obj_insert(es, key, value) =~= es.update(i, (key, value)),
    decreases es.len(),
{
    if i > 0 {
        assert(forall|j: int| 0 <= j < i - 1 ==> es.drop_first()[j] == es[j + 1]);
        lemma_obj_insert_found(es.drop_first(), key, value, i - 1);
        assert(spec_obj_insert(es, key, value) =~= seq![es[0]] + es.drop_first().update(
            i - 1,
            (key, value),
        ));
    }
}

proof fn lemma_obj_insert_missing(es: Seq<(Seq<char>, ValueV)>, key: Seq<char>, value: ValueV)
    requires
        forall|j: int| 0 <= j < es.len() ==> (#[trigger] es[j]).0 != key,
    ensures
        spec_obj_insert(es, key, value) =~= es.push((key, value)),
    decreases es.len(),
{
    if es.len() > 0 {
        lemma_obj_insert_missing(es.drop_first(), key, value);
        assert(spec_obj_insert(es, key, value) =~= seq![es[0]] + es.drop_first().push(
            (key, value),
        ));
    }
}


/// Pushing onto a vector pushes its element view.
pub proof fn lemma_arr_views_push(s: Seq<Value>, v: Value)
    ensures
        spec_arr_views(s.push(v)) == spec_arr_views(s).push(v@),
{
    lemma_arr_views(s);
    lemma_arr_views(s.push(v));
    assert(spec_arr_views(s.push(v)) =~= spec_arr_views(s).push(v@));
}

/// Dropping the last element drops the last element view.
pub proof fn lemma_arr_views_drop_last(s: Seq<Value>)
    requires
        s.len() > 0,
    ensures
        spec_arr_views(s.drop_last()) == spec_arr_views(s).drop_last(),
        spec_arr_views(s).last() == s.last()@,
        spec_arr_views(s).len() == s.len(),
{
    lemma_arr_views(s);
    lemma_arr_views(s.drop_last());
    assert(spec_arr_views(s.drop_last()) =~= spec_arr_views(s).drop_last());
}

/// Inserting into an entry vector inserts into its entry view.
pub proof fn lemma_obj_views_push(s: Seq<(String, Value)>, k: String, v: Value)
    ensures
        spec_obj_views(s.push((k, v))) == spec_obj_views(s).push((k@, v@)),
{
    lemma_obj_views(s);
    lemma_obj_views(s.push((k, v)));
    assert forall|i: int| 0 <= i < s.len() + 1 implies spec_obj_views(s.push((k, v)))[i]
        == spec_obj_views(s).push((k@, v@))[i] by {
        assert(spec_obj_views(s.push((k, v)))[i] == (s.push((k, v))[i].0@, s.push(
            (k, v),
        )[i].1@));
        if i < s.len() {
            assert(s.push((k, v))[i] == s[i]);
        } else {
            assert(s.push((k, v))[i] == (k, v));
        }
    }
    assert(spec_obj_views(s.push((k, v))) =~= spec_obj_views(s).push((k@, v@)));
}

} // verus!
