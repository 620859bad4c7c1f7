use vstd::prelude::*;

verus! {

/// Which end of a bounded container its removals take from.
pub enum Order {
    /// Removal takes the oldest element: a queue.
    Fifo,
    /// Removal takes the newest element: a stack.
    Lifo,
}

/// One call made on a bounded container.
pub enum Step<T> {
    Insert(T),
    Remove,
}

/// Whether a container holding `s` with capacity `cap` has room for one more element.
pub open spec fn has_room<T>(s: Seq<T>, cap: nat) -> bool {
    s.len() < cap
}

/// The contents after an insertion attempt: the element joins at the tail when
/// there is room, and nothing changes otherwise.
pub open spec fn after_insert<T>(s: Seq<T>, cap: nat, x: T) -> Seq<T> {
    if has_room(s, cap) {
        s.push(x)
    } else {
        s
    }
}

/// The element a removal hands out, if any.
pub open spec fn taken<T>(order: Order, s: Seq<T>) -> Option<T> {
    if s.len() == 0 {
        None
    } else {
        match order {
            Order::Fifo => Some(s.first()),
            Order::Lifo => Some(s.last()),
        }
    }
}

/// The contents after a removal attempt.
pub open spec fn after_remove<T>(order: Order, s: Seq<T>) -> Seq<T> {
    if s.len() == 0 {
        s
    } else {
        match order {
            Order::Fifo => s.drop_first(),
            Order::Lifo => s.drop_last(),
        }
    }
}

/// Whether a step is refused: an insertion into a full container, or a
/// removal from an empty one.
pub open spec fn refused<T>(s: Seq<T>, cap: nat, op: Step<T>) -> bool {
    match op {
        Step::Insert(_) => !has_room(s, cap),
        Step::Remove => s.len() == 0,
    }
}

/// The contents after one step.
pub open spec fn next<T>(order: Order, s: Seq<T>, cap: nat, op: Step<T>) -> Seq<T> {
    match op {
        Step::Insert(x) => after_insert(s, cap, x),
        Step::Remove => after_remove(order, s),
    }
}

/// The element that one step hands out: only a successful removal hands one out.
pub open spec fn reply<T>(order: Order, s: Seq<T>, op: Step<T>) -> Option<T> {
    match op {
        Step::Insert(_) => None,
        Step::Remove => taken(order, s),
    }
}

/// The contents after a sequence of steps.
pub open spec fn run<T>(order: Order, s: Seq<T>, cap: nat, ops: Seq<Step<T>>) -> Seq<T>
    decreases ops.len(),
{
    if ops.len() == 0 {
        s
    } else {
        run(order, next(order, s, cap, ops.first()), cap, ops.drop_first())
    }
}

/// What each of a sequence of steps hands out, in order.
pub open spec fn replies<T>(order: Order, s: Seq<T>, cap: nat, ops: Seq<Step<T>>) -> Seq<
    Option<T>,
>
    decreases ops.len(),
{
    if ops.len() == 0 {
        Seq::empty()
    } else {
        seq![reply(order, s, ops.first())] + replies(
            order,
            next(order, s, cap, ops.first()),
            cap,
            ops.drop_first(),
        )
    }
}

/// One insertion step for each element, in order.
pub open spec fn inserts<T>(es: Seq<T>) -> Seq<Step<T>> {
    es.map_values(|x: T| Step::Insert(x))
}

/// `n` removal steps.
pub open spec fn removes<T>(n: nat) -> Seq<Step<T>> {
    Seq::new(n, |i: int| Step::Remove)
}

/// Each element, as handed out by a removal.
pub open spec fn handed_out<T>(es: Seq<T>) -> Seq<Option<T>> {
    es.map_values(|x: T| Some(x))
}

/// `n` replies that hand nothing out.
pub open spec fn nothing<T>(n: nat) -> Seq<Option<T>> {
    Seq::new(n, |i: int| None)
}

/// Whatever steps are taken, a container never holds more than its capacity.
pub proof fn lemma_capacity_kept<T>(order: Order, s: Seq<T>, cap: nat, ops: Seq<Step<T>>)
    requires
        s.len() <= cap,
    ensures
        run(order, s, cap, ops).len() <= cap,
    decreases ops.len(),
{
    if ops.len() > 0 {
        lemma_capacity_kept(order, next(order, s, cap, ops.first()), cap, ops.drop_first());
    }
}

/// Inserting elements that all fit appends them at the tail, in order.
pub proof fn lemma_inserts_append<T>(order: Order, s: Seq<T>, cap: nat, es: Seq<T>)
    requires
        s.len() + es.len() <= cap,
    ensures
        run(order, s, cap, inserts(es)) == s + es,
        replies(order, s, cap, inserts(es)) == nothing::<T>(es.len()),
    decreases es.len(),
{
    if es.len() == 0 {
        assert(s + es =~= s);
        assert(nothing::<T>(0) =~= Seq::<Option<T>>::empty());
    } else {
        assert(inserts(es).first() == Step::Insert(es.first()));
        assert(inserts(es).drop_first() =~= inserts(es.drop_first()));
        lemma_inserts_append(order, s.push(es.first()), cap, es.drop_first());
        assert(s.push(es.first()) + es.drop_first() =~= s + es);
        assert(seq![None] + nothing::<T>((es.len() - 1) as nat) =~= nothing::<T>(es.len()));
    }
}

/// Removing from a queue as many times as it holds elements hands them all out,
/// oldest first, and leaves it empty.
proof fn lemma_fifo_drain<T>(t: Seq<T>, cap: nat)
    ensures
        replies(Order::Fifo, t, cap, removes(t.len())) == handed_out(t),
        run(Order::Fifo, t, cap, removes(t.len())) == Seq::<T>::empty(),
    decreases t.len(),
{
    if t.len() == 0 {
        assert(handed_out(t) =~= Seq::<Option<T>>::empty());
        assert(t =~= Seq::<T>::empty());
    } else {
        let n = (t.len() - 1) as nat;
        assert(removes::<T>(t.len()).drop_first() =~= removes::<T>(n));
        lemma_fifo_drain(t.drop_first(), cap);
        assert(seq![Some(t.first())] + handed_out(t.drop_first()) =~= handed_out(t));
    }
}

/// Elements inserted into a queue without removals in between come out in the
/// order they went in, after the elements it already held.
pub proof fn lemma_fifo_order<T>(s: Seq<T>, cap: nat, es: Seq<T>)
    requires
        s.len() + es.len() <= cap,
    ensures
        run(Order::Fifo, s, cap, inserts(es)) == s + es,
        replies(Order::Fifo, s + es, cap, removes((s + es).len())) == handed_out(s + es),
        run(Order::Fifo, s + es, cap, removes((s + es).len())) == Seq::<T>::empty(),
{
    lemma_inserts_append(Order::Fifo, s, cap, es);
    lemma_fifo_drain(s + es, cap);
}

/// Removing from a stack once for each of its top elements `es` hands them out
/// newest first and leaves what lay beneath.
proof fn lemma_lifo_unstack<T>(s: Seq<T>, cap: nat, es: Seq<T>)
    ensures
        replies(Order::Lifo, s + es, cap, removes(es.len())) == handed_out(es.reverse()),
        run(Order::Lifo, s + es, cap, removes(es.len())) == s,
    decreases es.len(),
{
    if es.len() == 0 {
        assert(s + es =~= s);
        assert(handed_out(es.reverse()) =~= Seq::<Option<T>>::empty());
    } else {
        let n = (es.len() - 1) as nat;
        assert(removes::<T>(es.len()).drop_first() =~= removes::<T>(n));
        assert((s + es).drop_last() =~= s + es.drop_last());
        assert((s + es).last() == es.last());
        lemma_lifo_unstack(s, cap, es.drop_last());
        assert(seq![Some(es.last())] + handed_out(es.drop_last().reverse()) =~= handed_out(
            es.reverse(),
        ));
    }
}

/// Elements pushed onto a stack without removals in between come out in the
/// reverse of the order they went in, and the stack is left as it was.
pub proof fn lemma_lifo_order<T>(s: Seq<T>, cap: nat, es: Seq<T>)
    requires
        s.len() + es.len() <= cap,
    ensures
        run(Order::Lifo, s, cap, inserts(es)) == s + es,
        replies(Order::Lifo, s + es, cap, removes(es.len())) == handed_out(es.reverse()),
        run(Order::Lifo, s + es, cap, removes(es.len())) == s,
{
    lemma_inserts_append(Order::Lifo, s, cap, es);
    lemma_lifo_unstack(s, cap, es);
}

/// A container of capacity zero stays empty and hands nothing out, whatever
/// steps are taken on it.
pub proof fn lemma_zero_capacity<T>(order: Order, ops: Seq<Step<T>>)
    ensures
        run(order, Seq::<T>::empty(), 0, ops) == Seq::<T>::empty(),
        replies(order, Seq::<T>::empty(), 0, ops) == nothing::<T>(ops.len()),
    decreases ops.len(),
{
    if ops.len() == 0 {
        assert(nothing::<T>(0) =~= Seq::<Option<T>>::empty());
    } else {
        lemma_zero_capacity(order, ops.drop_first());
        assert(seq![None] + nothing::<T>((ops.len() - 1) as nat) =~= nothing::<T>(ops.len()));
    }
}

/// Refused steps leave no trace: after any number of them, every later step
/// behaves as it would have without them.
pub proof fn lemma_refusals_leave_no_trace<T>(
    order: Order,
    s: Seq<T>,
    cap: nat,
    fails: Seq<Step<T>>,
    ops: Seq<Step<T>>,
)
    requires
        forall|i: int| 0 <= i < fails.len() ==> refused(s, cap, #[trigger] fails[i]),
    ensures
        run(order, s, cap, fails + ops) == run(order, s, cap, ops),
        replies(order, s, cap, fails + ops) == nothing::<T>(fails.len()) + replies(
            order,
            s,
            cap,
            ops,
        ),
    decreases fails.len(),
{
    if fails.len() == 0 {
        assert(fails + ops =~= ops);
        assert(nothing::<T>(0) + replies(order, s, cap, ops) =~= replies(order, s, cap, ops));
    } else {
        let rest = fails.drop_first();
        assert(refused(s, cap, fails[0]));
        assert((fails + ops).first() == fails.first());
        assert((fails + ops).drop_first() =~= rest + ops);
        assert(next(order, s, cap, fails.first()) == s);
        lemma_refusals_leave_no_trace(order, s, cap, rest, ops);
        assert(seq![None] + (nothing::<T>(rest.len()) + replies(order, s, cap, ops)) =~= nothing::<
            T,
        >(fails.len()) + replies(order, s, cap, ops));
    }
}

} // verus!
