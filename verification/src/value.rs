use vstd::prelude::*;
use vstd::utf8::encode_utf8;
use crate::text::{push_char, push_str, push_int, int_chars};

verus! {

/// A runtime value of the virtual machine.
#[derive(Debug, PartialEq)]
pub enum Value {
    Int(i64),
    /// A 64-bit float, held as its IEEE 754 bit pattern.
    Float(u64),
    Bool(bool),
    Obj(Obj),
    Nil,
}

/// A heap object.
#[allow(inconsistent_fields)]
#[derive(Clone, Debug, PartialEq)]
pub enum Obj {
    StringObj { value: Box<String> },
    ArrayObj { value: Vec<Box<Value>> },
    OptionObj { value: Option<Box<Value>> },
}

/// The mathematical model of a [`Value`].
pub enum ValueV {
    Int(i64),
    Float(u64),
    Bool(bool),
    Str(Seq<char>),
    Arr(Seq<ValueV>),
    Opt(Option<Box<ValueV>>),
    Nil,
}

pub open spec fn value_view(v: Value) -> ValueV
    decreases v,
{
    match v {
        Value::Int(i) => ValueV::Int(i),
        Value::Float(f) => ValueV::Float(f),
        Value::Bool(b) => ValueV::Bool(b),
        Value::Obj(o) => match o {
            Obj::StringObj { value } => ValueV::Str(value@),
            Obj::ArrayObj { value } => ValueV::Arr(items_view(value@)),
            Obj::OptionObj { value } => match value {
                Some(b) => ValueV::Opt(Some(Box::new(value_view(*b)))),
                None => ValueV::Opt(None),
            },
        },
        Value::Nil => ValueV::Nil,
    }
}

/// The models of the items of an array, in order.
pub open spec fn items_view(items: Seq<Box<Value>>) -> Seq<ValueV>
    decreases items,
{
    if items.len() == 0 {
        Seq::empty()
    } else {
        items_view(items.subrange(0, items.len() - 1)).push(value_view(*items[items.len() - 1]))
    }
}

impl View for Value {
    type V = ValueV;

    open spec fn view(&self) -> ValueV {
        value_view(*self)
    }
}

} // verus!

verus! {

pub proof fn lemma_items_view(items: Seq<Box<Value>>)
    ensures
        items_view(items).len() == items.len(),
        forall|i: int| 0 <= i < items.len() ==> #[trigger] items_view(items)[i] == value_view(*items[i]),
    decreases items.len(),
{
    if items.len() > 0 {
        lemma_items_view(items.subrange(0, items.len() - 1));
    }
}

pub proof fn lemma_items_view_push(items: Seq<Box<Value>>, x: Box<Value>)
    ensures
        items_view(items.push(x)) == items_view(items).push(value_view(*x)),
{
    assert(items.push(x).subrange(0, items.len() as int) =~= items);
}

/// Copies a value, item by item.
pub fn copy_value(v: &Value) -> (r: Value)
    ensures
        r@ == v@,
    decreases v,
{
    match v {
        Value::Int(i) => Value::Int(*i),
        Value::Float(f) => Value::Float(*f),
        Value::Bool(b) => Value::Bool(*b),
        Value::Nil => Value::Nil,
        Value::Obj(Obj::StringObj { value }) => {
            let s: String = (**value).clone();
            Value::Obj(Obj::StringObj { value: Box::new(s) })
        },
        Value::Obj(Obj::OptionObj { value }) => match value {
            Some(b) => {
                let inner = copy_value(&**b);
                Value::Obj(Obj::OptionObj { value: Some(Box::new(inner)) })
            },
            None => Value::Obj(Obj::OptionObj { value: None }),
        },
        Value::Obj(Obj::ArrayObj { value }) => {
            let mut out: Vec<Box<Value>> = Vec::new();
            let n = value.len();
            let mut i: usize = 0;
            while i < n
                invariant
                    *v == Value::Obj(Obj::ArrayObj { value: *value }),
                    n == value@.len(),
                    i <= n,
                    items_view(out@) == items_view(value@.subrange(0, i as int)),
                decreases n - i,
            {
                proof {
                    let ghost o = v->Obj_0;
                    assert(decreases_to!(*v => o));
                    let ghost w = o->ArrayObj_value;
                    assert(decreases_to!(o => w));
                    assert(w == *value);
                    assert(decreases_to!(*value => value@));
                    assert(decreases_to!(value@ => value@[i as int]));
                }
                let item = copy_value(&*value[i]);
                proof {
                    lemma_items_view_push(out@, Box::new(item));
                    lemma_items_view_push(value@.subrange(0, i as int), value@[i as int]);
                    assert(value@.subrange(0, i as int).push(value@[i as int]) =~= value@.subrange(0, i + 1));
                }
                out.push(Box::new(item));
                i = i + 1;
            }
            proof {
                assert(value@.subrange(0, n as int) =~= value@);
            }
            Value::Obj(Obj::ArrayObj { value: out })
        },
    }
}

impl Clone for Value {
    fn clone(&self) -> (r: Self)
        ensures
            r@ == self@,
    {
        copy_value(self)
    }
}

} // verus!

verus! {

/// Whether a float occurs anywhere in a value, nested items included.
pub open spec fn has_float(v: ValueV) -> bool
    decreases v,
{
    match v {
        ValueV::Float(_) => true,
        ValueV::Arr(items) => items_have_float(items),
        ValueV::Opt(Some(b)) => has_float(*b),
        _ => false,
    }
}

pub open spec fn items_have_float(items: Seq<ValueV>) -> bool
    decreases items,
{
    if items.len() == 0 {
        false
    } else {
        items_have_float(items.subrange(0, items.len() - 1)) || has_float(items[items.len() - 1])
    }
}

/// Whether a float occurs anywhere in the value.
pub fn contains_float(v: &Value) -> (r: bool)
    ensures
        r == has_float(v@),
    decreases v,
{
    match v {
        Value::Float(_) => true,
        Value::Obj(Obj::OptionObj { value: Some(b) }) => contains_float(&**b),
        Value::Obj(Obj::ArrayObj { value }) => {
            let n = value.len();
            let mut i: usize = 0;
            let mut found = false;
            proof {
                lemma_items_view(value@);
            }
            while i < n
                invariant
                    *v == Value::Obj(Obj::ArrayObj { value: *value }),
                    n == value@.len(),
                    i <= n,
                    items_view(value@).len() == n,
                    forall|j: int| 0 <= j < n ==> #[trigger] items_view(value@)[j] == value_view(*value@[j]),
                    found == items_have_float(items_view(value@).subrange(0, i as int)),
                decreases n - i,
            {
                proof {
                    let ghost o = v->Obj_0;
                    assert(decreases_to!(*v => o));
                    let ghost w = o->ArrayObj_value;
                    assert(decreases_to!(o => w));
                    assert(decreases_to!(*value => value@));
                    assert(decreases_to!(value@ => value@[i as int]));
                }
                let here = contains_float(&*value[i]);
                proof {
                    let vs = items_view(value@);
                    assert(vs.subrange(0, i + 1).subrange(0, i as int) =~= vs.subrange(0, i as int));
                }
                found = found || here;
                i = i + 1;
            }
            proof {
                assert(items_view(value@).subrange(0, n as int) =~= items_view(value@));
            }
            found
        },
        _ => false,
    }
}

} // verus!

verus! {

/// The text of a value, as string concatenation shows it: integers in
/// decimal, booleans as `true` / `false`, strings as they are, arrays as
/// their items' texts between `[` and `]` separated by `, `, an option that
/// holds a value as that value's text, and the absent option and `Nil` as
/// `None`. (The text of a float is not given here.)
pub open spec fn display(v: ValueV) -> Seq<char>
    decreases v,
{
    match v {
        ValueV::Int(i) => int_chars(i as int),
        ValueV::Float(_) => Seq::empty(),
        ValueV::Bool(b) => if b { seq!['t', 'r', 'u', 'e'] } else { seq!['f', 'a', 'l', 's', 'e'] },
        ValueV::Str(s) => s,
        ValueV::Arr(items) => seq!['['] + display_items(items) + seq![']'],
        ValueV::Opt(Some(b)) => display(*b),
        ValueV::Opt(None) => none_chars(),
        ValueV::Nil => none_chars(),
    }
}

pub open spec fn none_chars() -> Seq<char> {
    seq!['N', 'o', 'n', 'e']
}

/// The texts of the items, separated by `, `.
pub open spec fn display_items(items: Seq<ValueV>) -> Seq<char>
    decreases items,
{
    if items.len() == 0 {
        Seq::empty()
    } else if items.len() == 1 {
        display(items[0])
    } else {
        display_items(items.subrange(0, items.len() - 1)) + seq![',', ' '] + display(
            items[items.len() - 1],
        )
    }
}

fn push_none(s: &mut String)
    ensures
        final(s)@ == old(s)@ + none_chars(),
{
    push_char(s, 'N');
    push_char(s, 'o');
    push_char(s, 'n');
    push_char(s, 'e');
    assert(s@ =~= old(s)@ + none_chars());
}

/// Appends the text of a float-free value to `s`.
pub(crate) fn push_display(s: &mut String, v: &Value)
    requires
        !has_float(v@),
    ensures
        final(s)@ == old(s)@ + display(v@),
    decreases v,
{
    match v {
        Value::Int(i) => push_int(s, *i),
        Value::Float(_) => {},
        Value::Bool(b) => {
            if *b {
                push_char(s, 't');
                push_char(s, 'r');
                push_char(s, 'u');
                push_char(s, 'e');
            } else {
                push_char(s, 'f');
                push_char(s, 'a');
                push_char(s, 'l');
                push_char(s, 's');
                push_char(s, 'e');
            }
            assert(s@ =~= old(s)@ + display(v@));
        },
        Value::Nil => push_none(s),
        Value::Obj(Obj::StringObj { value }) => push_str(s, &**value),
        Value::Obj(Obj::OptionObj { value: Some(b) }) => push_display(s, &**b),
        Value::Obj(Obj::OptionObj { value: None }) => push_none(s),
        Value::Obj(Obj::ArrayObj { value }) => {
            push_char(s, '[');
            let n = value.len();
            let mut i: usize = 0;
            let ghost start = s@;
            proof {
                lemma_items_view(value@);
            }
            while i < n
                invariant
                    *v == Value::Obj(Obj::ArrayObj { value: *value }),
                    !has_float(v@),
                    n == value@.len(),
                    i <= n,
                    items_view(value@).len() == n,
                    forall|j: int| 0 <= j < n ==> #[trigger] items_view(value@)[j] == value_view(*value@[j]),
                    s@ == start + display_items(items_view(value@).subrange(0, i as int)),
                decreases n - i,
            {
                let ghost vs = items_view(value@);
                proof {
                    let ghost o = v->Obj_0;
                    assert(decreases_to!(*v => o));
                    let ghost w = o->ArrayObj_value;
                    assert(decreases_to!(o => w));
                    assert(decreases_to!(*value => value@));
                    assert(decreases_to!(value@ => value@[i as int]));
                    lemma_items_no_float(vs, i as int);
                }
                if i > 0 {
                    push_char(s, ',');
                    push_char(s, ' ');
                }
                push_display(s, &*value[i]);
                proof {
                    assert(vs.subrange(0, i + 1).subrange(0, i as int) =~= vs.subrange(0, i as int));
                    assert(s@ =~= start + display_items(vs.subrange(0, i + 1)));
                }
                i = i + 1;
            }
            proof {
                assert(items_view(value@).subrange(0, n as int) =~= items_view(value@));
            }
            push_char(s, ']');
            assert(s@ =~= old(s)@ + display(v@));
        },
    }
}

proof fn lemma_items_no_float(items: Seq<ValueV>, i: int)
    requires
        !items_have_float(items),
        0 <= i < items.len(),
    ensures
        !has_float(items[i]),
    decreases items.len(),
{
    if i < items.len() - 1 {
        let p = items.subrange(0, items.len() - 1);
        lemma_items_no_float(p, i);
        assert(p[i] == items[i]);
    }
}

} // verus!

verus! {

/// The result of comparing two values.
#[derive(Clone, Copy, Debug, PartialEq, Eq, Structural)]
pub enum Order {
    Less,
    Equal,
    Greater,
    /// The order rests on comparing two floats, which is not decided here.
    Deferred,
}

/// The position of a value's kind in the order of kinds:
/// integers, floats, booleans, strings, arrays, options, `Nil`.
pub open spec fn kind_rank(v: ValueV) -> int {
    match v {
        ValueV::Int(_) => 0,
        ValueV::Float(_) => 1,
        ValueV::Bool(_) => 2,
        ValueV::Str(_) => 3,
        ValueV::Arr(_) => 4,
        ValueV::Opt(_) => 5,
        ValueV::Nil => 6,
    }
}

pub open spec fn order_int(a: int, b: int) -> Order {
    if a < b { Order::Less } else if a == b { Order::Equal } else { Order::Greater }
}

/// Lexicographic order on byte sequences (a proper prefix comes first).
pub open spec fn order_bytes(a: Seq<u8>, b: Seq<u8>) -> Order
    decreases a.len(),
{
    if a.len() == 0 {
        if b.len() == 0 { Order::Equal } else { Order::Less }
    } else if b.len() == 0 {
        Order::Greater
    } else if a[0] != b[0] {
        order_int(a[0] as int, b[0] as int)
    } else {
        order_bytes(a.subrange(1, a.len() as int), b.subrange(1, b.len() as int))
    }
}

/// The order of values: first by kind (see [`kind_rank`]), then within a kind
/// integers by value, `false` before `true`, strings by their UTF-8 bytes,
/// arrays lexicographically by items, the absent option before a present one
/// and present ones by what they hold. Two floats are not ordered here.
pub open spec fn order_values(a: ValueV, b: ValueV) -> Order
    decreases a,
{
    if kind_rank(a) < kind_rank(b) {
        Order::Less
    } else if kind_rank(a) > kind_rank(b) {
        Order::Greater
    } else {
        match (a, b) {
            (ValueV::Int(x), ValueV::Int(y)) => order_int(x as int, y as int),
            (ValueV::Float(_), ValueV::Float(_)) => Order::Deferred,
            (ValueV::Bool(x), ValueV::Bool(y)) => order_int(
                if x { 1int } else { 0int },
                if y { 1int } else { 0int },
            ),
            (ValueV::Str(x), ValueV::Str(y)) => order_bytes(encode_utf8(x), encode_utf8(y)),
            (ValueV::Arr(x), ValueV::Arr(y)) => order_items(x, y),
            (ValueV::Opt(x), ValueV::Opt(y)) => match (x, y) {
                (None, None) => Order::Equal,
                (None, Some(_)) => Order::Less,
                (Some(_), None) => Order::Greater,
                (Some(p), Some(q)) => order_values(*p, *q),
            },
            _ => Order::Equal,
        }
    }
}

/// Lexicographic order on item sequences: the first pair of items that is
/// not equal decides; otherwise the shorter sequence comes first.
pub open spec fn order_items(a: Seq<ValueV>, b: Seq<ValueV>) -> Order
    decreases a,
{
    if a.len() == 0 {
        if b.len() == 0 { Order::Equal } else { Order::Less }
    } else if b.len() == 0 {
        Order::Greater
    } else if order_values(a[0], b[0]) != Order::Equal {
        order_values(a[0], b[0])
    } else {
        order_items(a.subrange(1, a.len() as int), b.subrange(1, b.len() as int))
    }
}

fn rank(v: &Value) -> (r: u8)
    ensures
        r as int == kind_rank(v@),
{
    match v {
        Value::Int(_) => 0,
        Value::Float(_) => 1,
        Value::Bool(_) => 2,
        Value::Obj(Obj::StringObj { .. }) => 3,
        Value::Obj(Obj::ArrayObj { .. }) => 4,
        Value::Obj(Obj::OptionObj { .. }) => 5,
        Value::Nil => 6,
    }
}

fn compare_i64(a: i64, b: i64) -> (c: Order)
    ensures
        c == order_int(a as int, b as int),
{
    if a < b { Order::Less } else if a == b { Order::Equal } else { Order::Greater }
}

fn compare_bytes(a: &[u8], b: &[u8]) -> (c: Order)
    ensures
        c == order_bytes(a@, b@),
{
    let n = a.len();
    let m = b.len();
    let mut i: usize = 0;
    proof {
        assert(a@.subrange(0, n as int) =~= a@);
        assert(b@.subrange(0, m as int) =~= b@);
    }
    while i < n && i < m
        invariant
            n == a@.len(),
            m == b@.len(),
            i <= n,
            i <= m,
            a@.subrange(0, i as int) == b@.subrange(0, i as int),
            order_bytes(a@, b@) == order_bytes(a@.subrange(i as int, n as int), b@.subrange(i as int, m as int)),
        decreases n - i,
    {
        if a[i] != b[i] {
            return compare_i64(a[i] as i64, b[i] as i64);
        }
        proof {
            assert(a@.subrange(i as int, n as int).subrange(1, n - i) =~= a@.subrange(i + 1, n as int));
            assert(b@.subrange(i as int, m as int).subrange(1, m - i) =~= b@.subrange(i + 1, m as int));
            assert(a@.subrange(0, i + 1) =~= a@.subrange(0, i as int).push(a@[i as int]));
            assert(b@.subrange(0, i + 1) =~= b@.subrange(0, i as int).push(b@[i as int]));
        }
        i = i + 1;
    }
    if i < n {
        Order::Greater
    } else if i < m {
        Order::Less
    } else {
        Order::Equal
    }
}

/// Compares two values in the order of [`order_values`].
pub fn compare_values(a: &Value, b: &Value) -> (c: Order)
    ensures
        c == order_values(a@, b@),
    decreases a,
{
    let ra = rank(a);
    let rb = rank(b);
    if ra < rb {
        return Order::Less;
    } else if ra > rb {
        return Order::Greater;
    }
    match (a, b) {
        (Value::Int(x), Value::Int(y)) => compare_i64(*x, *y),
        (Value::Float(_), Value::Float(_)) => Order::Deferred,
        (Value::Bool(x), Value::Bool(y)) => {
            let xi: i64 = if *x { 1 } else { 0 };
            let yi: i64 = if *y { 1 } else { 0 };
            compare_i64(xi, yi)
        },
        (Value::Obj(Obj::StringObj { value: x }), Value::Obj(Obj::StringObj { value: y })) => {
            compare_bytes(x.as_str().as_bytes(), y.as_str().as_bytes())
        },
        (Value::Obj(Obj::OptionObj { value: x }), Value::Obj(Obj::OptionObj { value: y })) => {
            match (x, y) {
                (None, None) => Order::Equal,
                (None, Some(_)) => Order::Less,
                (Some(_), None) => Order::Greater,
                (Some(p), Some(q)) => compare_values(&**p, &**q),
            }
        },
        (Value::Obj(Obj::ArrayObj { value: x }), Value::Obj(Obj::ArrayObj { value: y })) => {
            let n = x.len();
            let m = y.len();
            let mut i: usize = 0;
            let ghost xs = items_view(x@);
            let ghost ys = items_view(y@);
            proof {
                lemma_items_view(x@);
                lemma_items_view(y@);
                assert(xs.subrange(0, n as int) =~= xs);
                assert(ys.subrange(0, m as int) =~= ys);
                assert(a@ == ValueV::Arr(xs));
                assert(b@ == ValueV::Arr(ys));
                assert(order_values(a@, b@) == order_items(xs, ys));
            }
            while i < n && i < m
                invariant
                    *a == Value::Obj(Obj::ArrayObj { value: *x }),
                    order_values(a@, b@) == order_items(xs, ys),
                    n == x@.len(),
                    m == y@.len(),
                    xs == items_view(x@),
                    ys == items_view(y@),
                    xs.len() == n,
                    ys.len() == m,
                    forall|j: int| 0 <= j < n ==> #[trigger] xs[j] == value_view(*x@[j]),
                    forall|j: int| 0 <= j < m ==> #[trigger] ys[j] == value_view(*y@[j]),
                    i <= n,
                    i <= m,
                    order_items(xs, ys) == order_items(xs.subrange(i as int, n as int), ys.subrange(i as int, m as int)),
                decreases n - i,
            {
                proof {
                    let ghost o = a->Obj_0;
                    assert(decreases_to!(*a => o));
                    let ghost w = o->ArrayObj_value;
                    assert(decreases_to!(o => w));
                    assert(decreases_to!(*x => x@));
                    assert(decreases_to!(x@ => x@[i as int]));
                }
                let c = compare_values(&*x[i], &*y[i]);
                proof {
                    let xr = xs.subrange(i as int, n as int);
                    let yr = ys.subrange(i as int, m as int);
                    assert(xr[0] == xs[i as int]);
                    assert(yr[0] == ys[i as int]);
                    assert(xr.subrange(1, xr.len() as int) =~= xs.subrange(i + 1, n as int));
                    assert(yr.subrange(1, yr.len() as int) =~= ys.subrange(i + 1, m as int));
                }
                if c != Order::Equal {
                    return c;
                }
                i = i + 1;
            }
            if i < n {
                Order::Greater
            } else if i < m {
                Order::Less
            } else {
                Order::Equal
            }
        },
        _ => Order::Equal,
    }
}

} // verus!
