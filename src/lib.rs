use vstd::prelude::*;

verus! {

/// Item count from which a batch is handed to one execution unit per item.
pub const THRESHOLD: usize = 10;

/// How a batch of items is executed.
#[derive(PartialEq, Eq, Structural, Clone, Copy, Debug)]
pub enum Strategy {
    /// Every item is transformed in order on the caller's thread.
    Sequential,
    /// Every item is transformed by an execution unit of its own.
    Parallel,
}

/// The strategy that a batch of `len` items runs under.
pub open spec fn strategy_of(len: nat) -> Strategy {
    if len < THRESHOLD {
        Strategy::Sequential
    } else {
        Strategy::Parallel
    }
}

/// Decides the strategy for a batch of `len` items.
pub fn choose_strategy(len: usize) -> (s: Strategy)
    ensures
        s == strategy_of(len as nat),
        s == Strategy::Sequential <==> len < THRESHOLD,
{
    if len < THRESHOLD {
        Strategy::Sequential
    } else {
        Strategy::Parallel
    }
}

/// `f` may be applied to every item of `items`.
pub open spec fn applicable<T, R, F: Fn(&T) -> R>(f: F, items: Seq<T>) -> bool {
    forall|i: int| 0 <= i < items.len() ==> #[trigger] f.requires((&items[i],))
}

/// `out` holds, at each index, a result of `f` on the item at that index.
pub open spec fn maps_to<T, R, F: Fn(&T) -> R>(f: F, items: Seq<T>, out: Seq<R>) -> bool {
    &&& out.len() == items.len()
    &&& forall|i: int|
        #![trigger out[i]]
        #![trigger f.ensures((&items[i],), out[i])]
        0 <= i < items.len() ==> f.ensures((&items[i],), out[i])
}

/// `f` gives one result for each argument.
pub open spec fn is_pure<T, R, F: Fn(&T) -> R>(f: F) -> bool {
    forall|x: &T, r1: R, r2: R|
        #[trigger] f.ensures((x,), r1) && #[trigger] f.ensures((x,), r2) ==> r1 == r2
}

/// Applies `f` to every item, in input order and on the caller's thread, and
/// returns the results in that order: the result at index `i` is `f` applied
/// to the item at index `i`. This is the sequential strategy; the parallel one
/// hands each item to a unit of its own and collects with `join_in_order`.
pub fn transform<T, R, F: Fn(&T) -> R>(objects: Vec<T>, f: F) -> (r: Vec<R>)
    requires
        applicable(f, objects@),
    ensures
        maps_to(f, objects@, r@),
{
    let n = objects.len();
    let mut result: Vec<R> = Vec::with_capacity(n);
    let mut i: usize = 0;
    while i < n
        invariant
            n == objects.len(),
            i <= n,
            applicable(f, objects@),
            result.len() == i,
            forall|j: int| 0 <= j < i ==> #[trigger] f.ensures((&objects@[j],), result@[j]),
        decreases n - i,
    {
        let item = &objects[i];
        let value = f(item);
        result.push(value);
        i = i + 1;
    }
    result
}

/// The first `k` units of `units` were joined, each giving `Ok` with the value
/// at its index in `done`.
pub open spec fn joined_ok<U, R, E, J: Fn(U) -> Result<R, E>>(
    join: J,
    units: Seq<U>,
    done: Seq<R>,
    k: int,
) -> bool {
    &&& 0 <= k <= units.len()
    &&& done.len() == k
    &&& forall|i: int|
        #![trigger done[i]]
        0 <= i < k ==> join.ensures((units[i],), Ok::<R, E>(done[i]))
}

/// Waits for each unit in `units`, first to last. When every unit yields a
/// value, returns those values, each at its unit's index. The first unit that
/// fails stops the batch: its error is returned, the values already collected
/// are dropped and the later units are not waited for.
pub fn join_in_order<U, R, E, J: Fn(U) -> Result<R, E>>(units: Vec<U>, join: J) -> (r: Result<
    Vec<R>,
    E,
>)
    requires
        forall|i: int| 0 <= i < units.len() ==> #[trigger] join.requires((units@[i],)),
    ensures
        match r {
            Ok(values) => joined_ok(join, units@, values@, units@.len() as int),
            Err(e) => exists|done: Seq<R>, k: int|
                #![trigger joined_ok(join, units@, done, k)]
                k < units@.len() && joined_ok(join, units@, done, k) && join.ensures(
                    (units@[k],),
                    Err::<R, E>(e),
                ),
        },
{
    let ghost orig = units@;
    let n = units.len();
    let mut rest = units;
    let mut reversed: Vec<U> = Vec::with_capacity(n);
    while rest.len() > 0
        invariant
            rest.len() + reversed.len() == n,
            n == orig.len(),
            orig == units@,
            forall|k: int| 0 <= k < rest.len() ==> #[trigger] rest@[k] == orig[k],
            forall|k: int|
                0 <= k < reversed.len() ==> #[trigger] reversed@[k] == orig[n - 1 - k],
        decreases rest.len(),
    {
        let unit = rest.pop().unwrap();
        reversed.push(unit);
    }
    let mut result: Vec<R> = Vec::with_capacity(n);
    while reversed.len() > 0
        invariant
            reversed.len() + result.len() == n,
            n == orig.len(),
            orig == units@,
            forall|i: int| 0 <= i < n ==> #[trigger] join.requires((orig[i],)),
            forall|k: int|
                0 <= k < reversed.len() ==> #[trigger] reversed@[k] == orig[n - 1 - k],
            joined_ok(join, orig, result@, result.len() as int),
        decreases reversed.len(),
    {
        let unit = reversed.pop().unwrap();
        let outcome = join(unit);
        match outcome {
            Ok(value) => {
                result.push(value);
            },
            Err(e) => {
                return Err(e);
            },
        }
    }
    Ok(result)
}

/// A batch one item short of the threshold runs on the caller's thread, and a
/// batch of exactly the threshold runs one execution unit per item.
pub proof fn lemma_strategy_boundary()
    ensures
        strategy_of((THRESHOLD - 1) as nat) == Strategy::Sequential,
        strategy_of(THRESHOLD as nat) == Strategy::Parallel,
{
}

/// An empty batch runs on the caller's thread, so no execution unit is started.
pub proof fn lemma_empty_is_sequential()
    ensures
        strategy_of(0) == Strategy::Sequential,
{
}

/// With a pure `f`, two results of `transform` on the same items are equal:
/// the mapping is the same however often it is run.
pub proof fn lemma_transform_repeatable<T, R, F: Fn(&T) -> R>(
    f: F,
    items: Seq<T>,
    first: Seq<R>,
    second: Seq<R>,
)
    requires
        is_pure(f),
        maps_to(f, items, first),
        maps_to(f, items, second),
    ensures
        first == second,
{
    assert forall|i: int| 0 <= i < first.len() implies first[i] == second[i] by {
        assert(f.ensures((&items[i],), first[i]));
        assert(f.ensures((&items[i],), second[i]));
    }
    assert(first =~= second);
}

} // verus!
