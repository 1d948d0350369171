//! The stack of frames: one sequence of named cells, the frames one after
//! another. A cell holds a value, or names storage further down that a
//! reference parameter stands for.

use vstd::prelude::*;
use crate::value::{assign_at, assign_path, field_path, opt_content, read_at, Val, Value};

verus! {

/// What a binding holds.
#[derive(Debug)]
pub enum Cell {
    /// The binding owns this value.
    Value(Value),
    /// The binding is an alias: of the cell at this index, which owns a
    /// value, and of what lies at the end of this field path inside it.
    Ref(usize, Vec<String>),
}

/// A binding on the stack.
#[derive(Debug)]
pub struct Entry {
    pub name: String,
    pub cell: Cell,
}

/// The content of a `Cell`.
pub ghost enum CellView {
    Value(Val),
    Ref(int, Seq<String>),
}

impl View for Cell {
    type V = CellView;

    open spec fn view(&self) -> CellView {
        match self {
            Cell::Value(v) => CellView::Value(v@),
            Cell::Ref(i, path) => CellView::Ref(*i as int, path@),
        }
    }
}

/// Names and cells in order, the innermost binding last.
pub type Stack = Seq<(Seq<char>, CellView)>;

/// The content of a sequence of entries.
pub open spec fn stack_of(entries: Seq<Entry>) -> Stack {
    Seq::new(entries.len(), |i: int| (entries[i].name@, entries[i].cell@))
}

/// The index of the innermost binding called `name` in the frame that
/// starts at `base`.
pub open spec fn find_in(stack: Stack, base: int, name: Seq<char>) -> Option<int>
    decreases stack.len(),
{
    if stack.len() <= base || stack.len() == 0 {
        None
    } else if stack.last().0 == name {
        Some(stack.len() - 1)
    } else {
        find_in(stack.drop_last(), base, name)
    }
}

/// The storage that `root` followed by `path` names in the frame at `base`:
/// the index of the cell that owns the value, and the field path inside it.
/// An alias is followed to what it stands for.
pub open spec fn locate(stack: Stack, base: int, root: Seq<char>, path: Seq<String>) -> Option<
    (int, Seq<String>),
> {
    match find_in(stack, base, root) {
        Some(j) => match stack[j].1 {
            CellView::Value(_) => Some((j, path)),
            CellView::Ref(i, prefix) => Some((i, prefix + path)),
        },
        None => None,
    }
}

/// The value that the cell at `i` owns, if it owns one.
pub open spec fn held(stack: Stack, i: int) -> Option<Val> {
    if 0 <= i < stack.len() {
        match stack[i].1 {
            CellView::Value(v) => Some(v),
            CellView::Ref(_, _) => None,
        }
    } else {
        None
    }
}

/// What is stored at `path` inside the cell at `i`.
pub open spec fn read_place(stack: Stack, i: int, path: Seq<String>) -> Option<Val> {
    match held(stack, i) {
        Some(v) => field_path(v, path, 0),
        None => None,
    }
}

/// The stack with `new` stored at `path` inside the cell at `i`; nothing
/// where there is no such storage.
pub open spec fn write_place(stack: Stack, i: int, path: Seq<String>, new: Val) -> Option<Stack> {
    match held(stack, i) {
        Some(v) => match assign_path(v, path, 0, new) {
            Some(updated) => Some(stack.update(i, (stack[i].0, CellView::Value(updated)))),
            None => None,
        },
        None => None,
    }
}

/// A stack cut back to its first `len` entries.
pub open spec fn cut(stack: Stack, len: int) -> Stack {
    if 0 <= len <= stack.len() {
        stack.take(len)
    } else {
        stack
    }
}

/// A stack with nothing on it.
pub fn empty_stack() -> (stack: Vec<Entry>)
    ensures
        stack_of(stack@) == Seq::<(Seq<char>, CellView)>::empty(),
{
    let stack: Vec<Entry> = Vec::new();
    assert(stack_of(stack@) =~= Seq::<(Seq<char>, CellView)>::empty());
    stack
}

/// The index of the innermost entry called `name` at or above `base`.
pub fn find_entry(stack: &Vec<Entry>, base: usize, name: &String) -> (r: Option<usize>)
    ensures
        match r {
            Some(i) => find_in(stack_of(stack@), base as int, name@) == Some(i as int) && base
                <= i < stack.len(),
            None => find_in(stack_of(stack@), base as int, name@) is None,
        },
{
    let ghost all = stack_of(stack@);
    let mut i: usize = stack.len();
    assert(all.take(i as int) =~= all);
    while i > base
        invariant
            i <= stack.len(),
            all == stack_of(stack@),
            find_in(all, base as int, name@) == find_in(all.take(i as int), base as int, name@),
        decreases i,
    {
        i -= 1;
        assert(all.take(i + 1).drop_last() =~= all.take(i as int));
        assert(all.take(i + 1).last() == all[i as int]);
        if stack[i].name == *name {
            return Some(i);
        }
    }
    None
}

/// The names of `first` followed by those of `second`, as copies.
pub fn join(first: &Vec<String>, second: &Vec<String>) -> (out: Vec<String>)
    ensures
        out@ == first@ + second@,
{
    let mut out: Vec<String> = Vec::new();
    let mut i: usize = 0;
    while i < first.len()
        invariant
            i <= first.len(),
            out@ == first@.take(i as int),
        decreases first.len() - i,
    {
        out.push(first[i].clone());
        assert(out@ =~= first@.take(i + 1));
        i += 1;
    }
    assert(first@.take(first.len() as int) =~= first@);
    let mut k: usize = 0;
    while k < second.len()
        invariant
            k <= second.len(),
            out@ == first@ + second@.take(k as int),
        decreases second.len() - k,
    {
        out.push(second[k].clone());
        assert(out@ =~= first@ + second@.take(k + 1));
        k += 1;
    }
    assert(second@.take(second.len() as int) =~= second@);
    out
}

/// Resolves `root` followed by `path` to the cell that owns the storage and
/// the path inside it.
pub fn locate_in(stack: &Vec<Entry>, base: usize, root: &String, path: &Vec<String>) -> (r: Option<
    (usize, Vec<String>),
>)
    ensures
        match r {
            Some((i, full)) => locate(stack_of(stack@), base as int, root@, path@) == Some(
                (i as int, full@),
            ),
            None => locate(stack_of(stack@), base as int, root@, path@) is None,
        },
{
    match find_entry(stack, base, root) {
        Some(j) => match &stack[j].cell {
            Cell::Value(_) => {
                let none: Vec<String> = Vec::new();
                let full = join(&none, path);
                assert(full@ =~= path@);
                Some((j, full))
            },
            Cell::Ref(i, prefix) => Some((*i, join(prefix, path))),
        },
        None => None,
    }
}

/// A copy of what is stored at `path` inside the cell at `i`.
pub fn read_place_in(stack: &Vec<Entry>, i: usize, path: &Vec<String>) -> (r: Option<Value>)
    ensures
        opt_content(r) == read_place(stack_of(stack@), i as int, path@),
{
    if i >= stack.len() {
        return None;
    }
    match &stack[i].cell {
        Cell::Value(v) => read_at(v, path, 0),
        Cell::Ref(_, _) => None,
    }
}

/// Stores `new` at `path` inside the cell at `i`. Returns whether there was
/// such storage; where there was none the stack is left as it was.
pub fn write_place_in(stack: &mut Vec<Entry>, i: usize, path: &Vec<String>, new: Value) -> (done:
    bool)
    ensures
        match write_place(stack_of(old(stack)@), i as int, path@, new@) {
            Some(after) => done && stack_of(final(stack)@) == after,
            None => !done && final(stack)@ == old(stack)@,
        },
{
    if i >= stack.len() {
        return false;
    }
    let updated = match &stack[i].cell {
        Cell::Value(v) => assign_at(v, path, 0, new),
        Cell::Ref(_, _) => None,
    };
    match updated {
        Some(u) => {
            let name = stack[i].name.clone();
            stack.set(i, Entry { name, cell: Cell::Value(u) });
            assert(stack_of(stack@) =~= stack_of(old(stack)@).update(
                i as int,
                (stack_of(old(stack)@)[i as int].0, CellView::Value(u@)),
            ));
            true
        },
        None => false,
    }
}

} // verus!
