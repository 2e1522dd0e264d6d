//! Laws of the buffer's behaviour, stated over the abstract view.
//!
//! The contracts of `get` and `put` describe each operation by what it does
//! to the held contents: `put` appends the value unless the buffer is full,
//! in which case it changes nothing, and `get` removes and returns the
//! oldest element.  `model_put` and `model_gets` write those steps down as
//! spec functions, and the lemmas here prove the ordering laws that follow
//! for whole sequences of operations.

use vstd::prelude::*;

verus! {

/// What one `put` does to contents `s` under capacity `cap`: the value is
/// appended unless the buffer is full, in which case it is dropped.
pub open spec fn model_put<T>(s: Seq<T>, cap: int, v: T) -> Seq<T> {
    if s.len() >= cap {
        s
    } else {
        s.push(v)
    }
}

/// `model_put` folded over a sequence of values, oldest first.
pub open spec fn model_puts<T>(s: Seq<T>, cap: int, vals: Seq<T>) -> Seq<T>
    decreases vals.len(),
{
    if vals.len() == 0 {
        s
    } else {
        model_puts(model_put(s, cap, vals.first()), cap, vals.drop_first())
    }
}

/// The values that `n` successive `get` calls return from contents `s`:
/// each returns the oldest element and removes it.
pub open spec fn model_gets<T>(s: Seq<T>, n: int) -> Seq<T>
    decreases n,
{
    if n <= 0 || s.len() == 0 {
        Seq::empty()
    } else {
        seq![s.first()] + model_gets(s.drop_first(), n - 1)
    }
}

/// One buffer operation: a put of a value, or a get.
pub enum ModelOp<T> {
    Put(T),
    Get,
}

/// What one operation does to contents `s` under capacity `cap`: a put
/// appends unless the buffer is full, a get removes the oldest element
/// unless the buffer is empty.
pub open spec fn model_step<T>(s: Seq<T>, cap: int, op: ModelOp<T>) -> Seq<T> {
    match op {
        ModelOp::Put(v) => model_put(s, cap, v),
        ModelOp::Get => if s.len() == 0 {
            s
        } else {
            s.drop_first()
        },
    }
}

/// `model_step` folded over a sequence of operations, earliest first.
pub open spec fn model_run<T>(s: Seq<T>, cap: int, ops: Seq<ModelOp<T>>) -> Seq<T>
    decreases ops.len(),
{
    if ops.len() == 0 {
        s
    } else {
        model_run(model_step(s, cap, ops.first()), cap, ops.drop_first())
    }
}

/// How many puts in `ops` take effect (are not dropped against a full
/// buffer) when run from contents `s`.
pub open spec fn effective_puts<T>(s: Seq<T>, cap: int, ops: Seq<ModelOp<T>>) -> int
    decreases ops.len(),
{
    if ops.len() == 0 {
        0
    } else {
        (match ops.first() {
            ModelOp::Put(_) => if s.len() < cap {
                1int
            } else {
                0int
            },
            ModelOp::Get => 0int,
        }) + effective_puts(model_step(s, cap, ops.first()), cap, ops.drop_first())
    }
}

/// How many gets in `ops` take effect (find an element to remove) when
/// run from contents `s`.
pub open spec fn effective_gets<T>(s: Seq<T>, cap: int, ops: Seq<ModelOp<T>>) -> int
    decreases ops.len(),
{
    if ops.len() == 0 {
        0
    } else {
        (match ops.first() {
            ModelOp::Put(_) => 0int,
            ModelOp::Get => if s.len() > 0 {
                1int
            } else {
                0int
            },
        }) + effective_gets(model_step(s, cap, ops.first()), cap, ops.drop_first())
    }
}

/// The element count tracks the operations: after any sequence of puts
/// and gets, the buffer holds its starting count plus the puts that took
/// effect minus the gets that took effect.  Run from an empty state, the
/// buffer is empty again exactly when those balance, and full exactly
/// when `cap` more puts than gets have taken effect.
pub proof fn lemma_count_tracks_operations<T>(s: Seq<T>, cap: int, ops: Seq<ModelOp<T>>)
    requires
        s.len() <= cap,
    ensures
        model_run(s, cap, ops).len() == s.len() + effective_puts(s, cap, ops) - effective_gets(
            s,
            cap,
            ops,
        ),
        model_run(s, cap, ops).len() <= cap,
    decreases ops.len(),
{
    if ops.len() > 0 {
        lemma_count_tracks_operations(model_step(s, cap, ops.first()), cap, ops.drop_first());
    }
}

/// While there is room for them all, puts append in order: nothing is
/// dropped and nothing is reordered.
pub proof fn lemma_puts_append<T>(s: Seq<T>, cap: int, vals: Seq<T>)
    requires
        s.len() + vals.len() <= cap,
    ensures
        model_puts(s, cap, vals) == s + vals,
    decreases vals.len(),
{
    if vals.len() == 0 {
        assert(s + vals =~= s);
    } else {
        lemma_puts_append(s.push(vals.first()), cap, vals.drop_first());
        assert(s.push(vals.first()) + vals.drop_first() =~= s + vals);
    }
}

/// Getting as many times as there are elements returns them all, in order.
pub proof fn lemma_gets_all<T>(s: Seq<T>)
    ensures
        model_gets(s, s.len() as int) == s,
    decreases s.len(),
{
    if s.len() == 0 {
        assert(model_gets(s, 0) =~= s);
    } else {
        lemma_gets_all(s.drop_first());
        assert(seq![s.first()] + s.drop_first() =~= s);
    }
}

/// FIFO ordering: at most `cap` puts of `vals` into an empty buffer store
/// exactly `vals`, and that many gets then return `vals` in order.
pub proof fn lemma_fifo_order<T>(vals: Seq<T>, cap: int)
    requires
        vals.len() <= cap,
    ensures
        model_puts(Seq::empty(), cap, vals) == vals,
        model_gets(model_puts(Seq::empty(), cap, vals), vals.len() as int) == vals,
{
    lemma_puts_append(Seq::empty(), cap, vals);
    assert(Seq::empty() + vals =~= vals);
    lemma_gets_all(vals);
}

/// Full capacity is usable: putting exactly `cap` values into an empty
/// buffer keeps every one of them, so the buffer then holds `cap`
/// elements, not `cap - 1`.
pub proof fn lemma_holds_full_capacity<T>(vals: Seq<T>, cap: int)
    requires
        vals.len() == cap,
    ensures
        model_puts(Seq::empty(), cap, vals) == vals,
        model_puts(Seq::empty(), cap, vals).len() == cap,
{
    lemma_fifo_order(vals, cap);
}

/// Round trip: a put on an empty buffer with any capacity stores exactly
/// that value, so the next get returns it and leaves the buffer empty.
pub proof fn lemma_round_trip<T>(v: T, cap: int)
    requires
        1 <= cap,
    ensures
        model_put(Seq::<T>::empty(), cap, v) == seq![v],
        model_put(Seq::<T>::empty(), cap, v).first() == v,
        model_put(Seq::<T>::empty(), cap, v).drop_first() == Seq::<T>::empty(),
{
    assert(Seq::<T>::empty().push(v) =~= seq![v]);
    assert(seq![v].drop_first() =~= Seq::<T>::empty());
}

} // verus!
