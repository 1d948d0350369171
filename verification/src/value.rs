//! Runtime values and the stores that hold them.

use vstd::prelude::*;
use crate::ast::BinOp;

verus! {

/// A named value: a field of a record.
#[derive(Debug)]
pub struct Slot {
    pub name: String,
    pub value: Value,
}

/// A runtime value. Records are structural: two records with the same fields,
/// in name, value and order, are the same value.
#[derive(Debug)]
pub enum Value {
    Int(i64),
    Bool(bool),
    Unit,
    Record(Vec<Slot>),
}

/// The mathematical content of a value.
pub ghost enum Val {
    Int(i64),
    Bool(bool),
    Unit,
    Record(Seq<(Seq<char>, Val)>),
}

/// The fields of a record, in order.
pub type Store = Seq<(Seq<char>, Val)>;

/// The content of a value, field by field.
pub open spec fn content(v: Value) -> Val
    decreases v,
{
    match v {
        Value::Int(n) => Val::Int(n),
        Value::Bool(b) => Val::Bool(b),
        Value::Unit => Val::Unit,
        Value::Record(slots) => Val::Record(
            Seq::new(
                slots.len() as nat,
                |i: int|
                    if 0 <= i < slots.len() {
                        (slots[i].name@, content(slots[i].value))
                    } else {
                        (Seq::empty(), Val::Unit)
                    },
            ),
        ),
    }
}

impl View for Value {
    type V = Val;

    open spec fn view(&self) -> Val {
        content(*self)
    }
}

/// The content of a sequence of slots.
pub open spec fn store_of(slots: Seq<Slot>) -> Store {
    Seq::new(slots.len(), |i: int| (slots[i].name@, slots[i].value@))
}

/// The content of a record is the content of its slots.
pub proof fn lemma_record_view(slots: Vec<Slot>)
    ensures
        Value::Record(slots)@ == Val::Record(store_of(slots@)),
{
    let fields = Value::Record(slots)@->Record_0;
    assert(fields.len() == slots@.len());
    assert forall|i: int| 0 <= i < fields.len() implies fields[i] == store_of(slots@)[i] by {
        assert(slots[i] == slots@[i]);
    }
    assert(fields =~= store_of(slots@));
}

/// The index of the last entry called `name`, if there is one.
pub open spec fn find(store: Store, name: Seq<char>) -> Option<int>
    decreases store.len(),
{
    if store.len() == 0 {
        None
    } else if store.last().0 == name {
        Some(store.len() - 1)
    } else {
        find(store.drop_last(), name)
    }
}

/// The index of the last slot called `name`.
pub fn find_slot(slots: &Vec<Slot>, name: &String) -> (r: Option<usize>)
    ensures
        match r {
            Some(i) => find(store_of(slots@), name@) == Some(i as int) && i < slots.len(),
            None => find(store_of(slots@), name@) is None,
        },
{
    let ghost all = store_of(slots@);
    let mut i: usize = slots.len();
    assert(all.take(i as int) =~= all);
    while i > 0
        invariant
            i <= slots.len(),
            all == store_of(slots@),
            find(all, name@) == find(all.take(i as int), name@),
        decreases i,
    {
        i -= 1;
        assert(all.take(i + 1).drop_last() =~= all.take(i as int));
        assert(all.take(i + 1).last() == all[i as int]);
        if slots[i].name == *name {
            return Some(i);
        }
    }
    None
}

/// The content of an optional value.
pub open spec fn opt_content(v: Option<Value>) -> Option<Val> {
    match v {
        Some(x) => Some(x@),
        None => None,
    }
}

/// A structural copy of the slots.
pub fn clone_slots(slots: &Vec<Slot>) -> (out: Vec<Slot>)
    ensures
        store_of(out@) == store_of(slots@),
        out@.len() == slots@.len(),
    decreases slots,
{
    let mut out: Vec<Slot> = Vec::new();
    let mut i: usize = 0;
    while i < slots.len()
        invariant
            i <= slots.len(),
            out@.len() == i,
            forall|k: int|
                0 <= k < i ==> out@[k].name@ == slots@[k].name@ && out@[k].value@
                    == slots@[k].value@,
        decreases slots.len() - i,
    {
        let copy = clone_value(&slots[i].value);
        out.push(Slot { name: slots[i].name.clone(), value: copy });
        i += 1;
    }
    assert(store_of(out@) =~= store_of(slots@));
    out
}

/// A structural copy of the value.
pub fn clone_value(v: &Value) -> (r: Value)
    ensures
        r@ == v@,
    decreases v,
{
    match v {
        Value::Int(n) => Value::Int(*n),
        Value::Bool(b) => Value::Bool(*b),
        Value::Unit => Value::Unit,
        Value::Record(slots) => {
            let out = clone_slots(slots);
            proof {
                lemma_record_view(out);
                lemma_record_view(*slots);
            }
            Value::Record(out)
        },
    }
}

/// Structural equality: integers and booleans by value, records field by
/// field, name and value, in order.
pub fn values_equal(a: &Value, b: &Value) -> (r: bool)
    ensures
        r == (a@ == b@),
    decreases a,
{
    match (a, b) {
        (Value::Int(x), Value::Int(y)) => *x == *y,
        (Value::Bool(x), Value::Bool(y)) => *x == *y,
        (Value::Unit, Value::Unit) => true,
        (Value::Record(xs), Value::Record(ys)) => {
            proof {
                lemma_record_view(*xs);
                lemma_record_view(*ys);
            }
            if xs.len() != ys.len() {
                assert(store_of(xs@).len() != store_of(ys@).len());
                return false;
            }
            let mut i: usize = 0;
            while i < xs.len()
                invariant
                    i <= xs.len(),
                    xs.len() == ys.len(),
                    *a == Value::Record(*xs),
                    a@ == Val::Record(store_of(xs@)),
                    b@ == Val::Record(store_of(ys@)),
                    forall|k: int| 0 <= k < i ==> store_of(xs@)[k] == store_of(ys@)[k],
                decreases xs.len() - i,
            {
                let same = xs[i].name == ys[i].name && values_equal(&xs[i].value, &ys[i].value);
                if !same {
                    assert(store_of(xs@)[i as int] != store_of(ys@)[i as int]);
                    return false;
                }
                i += 1;
            }
            assert(store_of(xs@) =~= store_of(ys@));
            true
        },
        _ => false,
    }
}

/// The field `name` of a record; nothing for another value or a missing field.
pub open spec fn field_of(v: Val, name: Seq<char>) -> Option<Val> {
    match v {
        Val::Record(fields) => match find(fields, name) {
            Some(i) => Some(fields[i].1),
            None => None,
        },
        _ => None,
    }
}

/// A copy of the field `name` of a record.
pub fn get_field(v: &Value, name: &String) -> (r: Option<Value>)
    ensures
        opt_content(r) == field_of(v@, name@),
{
    match v {
        Value::Record(slots) => {
            proof {
                lemma_record_view(*slots);
            }
            match find_slot(slots, name) {
                Some(i) => Some(clone_value(&slots[i].value)),
                None => None,
            }
        },
        _ => None,
    }
}

/// Arithmetic wraps around; comparisons order the integers.
pub open spec fn int_op(op: BinOp, x: i64, y: i64) -> Val {
    match op {
        BinOp::Add => Val::Int(x.wrapping_add(y)),
        BinOp::Sub => Val::Int(x.wrapping_sub(y)),
        BinOp::Mul => Val::Int(x.wrapping_mul(y)),
        BinOp::Eq => Val::Bool(x == y),
        BinOp::Ne => Val::Bool(x != y),
        BinOp::Lt => Val::Bool(x < y),
        BinOp::Le => Val::Bool(x <= y),
        BinOp::Gt => Val::Bool(x > y),
        BinOp::Ge => Val::Bool(x >= y),
    }
}

/// The result of a binary operator. `Eq` and `Ne` compare any two values
/// structurally; every other operator is defined on two integers only.
pub open spec fn binary(op: BinOp, a: Val, b: Val) -> Option<Val> {
    match op {
        BinOp::Eq => Some(Val::Bool(a == b)),
        BinOp::Ne => Some(Val::Bool(a != b)),
        _ => match (a, b) {
            (Val::Int(x), Val::Int(y)) => Some(int_op(op, x, y)),
            _ => None,
        },
    }
}

/// Applies a binary operator to two values.
pub fn apply_binary(op: BinOp, a: &Value, b: &Value) -> (r: Option<Value>)
    ensures
        opt_content(r) == binary(op, a@, b@),
{
    match op {
        BinOp::Eq => Some(Value::Bool(values_equal(a, b))),
        BinOp::Ne => Some(Value::Bool(!values_equal(a, b))),
        _ => match (a, b) {
            (Value::Int(x), Value::Int(y)) => Some(
                match op {
                    BinOp::Add => Value::Int(x.wrapping_add(*y)),
                    BinOp::Sub => Value::Int(x.wrapping_sub(*y)),
                    BinOp::Mul => Value::Int(x.wrapping_mul(*y)),
                    BinOp::Lt => Value::Bool(*x < *y),
                    BinOp::Le => Value::Bool(*x <= *y),
                    BinOp::Gt => Value::Bool(*x > *y),
                    BinOp::Ge => Value::Bool(*x >= *y),
                    BinOp::Eq => Value::Bool(*x == *y),
                    BinOp::Ne => Value::Bool(*x != *y),
                },
            ),
            _ => None,
        },
    }
}

/// The value `v` with `new` stored at the end of the field path
/// `path[from..]`; nothing where the path leaves the records or names a
/// missing field. The empty path replaces the whole value.
pub open spec fn assign_path(v: Val, path: Seq<String>, from: int, new: Val) -> Option<Val>
    decreases path.len() - from,
{
    if from < 0 || from >= path.len() {
        Some(new)
    } else {
        match v {
            Val::Record(fields) => match find(fields, path[from]@) {
                Some(i) => match assign_path(fields[i].1, path, from + 1, new) {
                    Some(inner) => Some(Val::Record(fields.update(i, (fields[i].0, inner)))),
                    None => None,
                },
                None => None,
            },
            _ => None,
        }
    }
}

/// A copy of `v` with `new` stored at the end of `path[from..]`.
pub fn assign_at(v: &Value, path: &Vec<String>, from: usize, new: Value) -> (r: Option<Value>)
    ensures
        opt_content(r) == assign_path(v@, path@, from as int, new@),
    decreases path.len() - from,
{
    if from >= path.len() {
        return Some(new);
    }
    match v {
        Value::Record(slots) => {
            proof {
                lemma_record_view(*slots);
            }
            match find_slot(slots, &path[from]) {
                Some(i) => match assign_at(&slots[i].value, path, from + 1, new) {
                    Some(inner) => {
                        let mut out = clone_slots(slots);
                        out.set(i, Slot { name: slots[i].name.clone(), value: inner });
                        proof {
                            lemma_record_view(out);
                            assert(store_of(out@) =~= store_of(slots@).update(
                                i as int,
                                (slots@[i as int].name@, inner@),
                            ));
                        }
                        Some(Value::Record(out))
                    },
                    None => None,
                },
                None => None,
            }
        },
        _ => None,
    }
}

/// The value at the end of the field path `path[from..]` inside `v`; nothing
/// where the path leaves the records or names a missing field.
pub open spec fn field_path(v: Val, path: Seq<String>, from: int) -> Option<Val>
    decreases path.len() - from,
{
    if from < 0 || from >= path.len() {
        Some(v)
    } else {
        match field_of(v, path[from]@) {
            Some(x) => field_path(x, path, from + 1),
            None => None,
        }
    }
}

/// A copy of the value at the end of `path[from..]` inside `v`.
pub fn read_at(v: &Value, path: &Vec<String>, from: usize) -> (r: Option<Value>)
    ensures
        opt_content(r) == field_path(v@, path@, from as int),
    decreases path.len() - from,
{
    if from >= path.len() {
        return Some(clone_value(v));
    }
    match get_field(v, &path[from]) {
        Some(x) => read_at(&x, path, from + 1),
        None => None,
    }
}

} // verus!
