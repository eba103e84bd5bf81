use vstd::prelude::*;
use vstd::seq_lib::lemma_flatten_concat;
use crate::common::error::Error;

verus! {

/// A list read so far, `used` bytes long on the wire, in front of what the
/// rest of the input reads as.
pub open spec fn prepend<T>(items: Seq<T>, used: nat, rest: Result<(Seq<T>, nat), Error>) -> Result<
    (Seq<T>, nat),
    Error,
> {
    match rest {
        Ok((more, n)) => Ok((items + more, used + n)),
        Err(e) => Err(e),
    }
}

/// Nothing read so far changes nothing.
pub proof fn lemma_prepend_nothing<T>(rest: Result<(Seq<T>, nat), Error>)
    ensures
        prepend(Seq::<T>::empty(), 0, rest) == rest,
{
    match rest {
        Ok((more, n)) => {
            assert(Seq::<T>::empty() + more =~= more);
        },
        Err(_) => {},
    }
}

/// One more item read moves from the rest to the list.
pub proof fn lemma_prepend_next<T>(
    items: Seq<T>,
    used: nat,
    item: T,
    n: nat,
    rest: Result<(Seq<T>, nat), Error>,
)
    ensures
        prepend(items, used, prepend(seq![item], n, rest)) == prepend(
            items.push(item),
            used + n,
            rest,
        ),
{
    match rest {
        Ok((more, k)) => {
            assert(items + (seq![item] + more) =~= items.push(item) + more);
        },
        Err(_) => {},
    }
}

/// A list with nothing behind it is the list.
pub proof fn lemma_prepend_end<T>(items: Seq<T>, used: nat, n: nat)
    ensures
        prepend(items, used, Ok((Seq::<T>::empty(), n))) == Ok::<(Seq<T>, nat), Error>(
            (items, used + n),
        ),
{
    assert(items + Seq::<T>::empty() =~= items);
}

/// The first `i + 1` parts in a row are the first `i` and then part `i`.
pub proof fn lemma_flatten_take_next(parts: Seq<Seq<u8>>, i: int)
    requires
        0 <= i < parts.len(),
    ensures
        parts.take(i + 1).flatten() == parts.take(i).flatten() + parts[i],
{
    assert(parts.take(i + 1) =~= parts.take(i).push(parts[i]));
    parts.take(i).lemma_flatten_push(parts[i]);
}

/// The first parts in a row are no longer than all of them.
pub proof fn lemma_flatten_take_len(parts: Seq<Seq<u8>>, i: int)
    requires
        0 <= i <= parts.len(),
    ensures
        parts.take(i).flatten().len() <= parts.flatten().len(),
{
    assert(parts =~= parts.take(i) + parts.skip(i));
    lemma_flatten_concat(parts.take(i), parts.skip(i));
}

/// Parts in a row are the first part and then the others.
pub proof fn lemma_flatten_front(parts: Seq<Seq<u8>>)
    requires
        parts.len() > 0,
    ensures
        parts.flatten() == parts[0] + parts.skip(1).flatten(),
{
    assert(parts.drop_first() =~= parts.skip(1));
}

/// Whether a value has a wire form, and if not, why not.
pub open spec fn status(wire: Result<Seq<u8>, Error>) -> Result<(), Error> {
    match wire {
        Ok(_) => Ok(()),
        Err(e) => Err(e),
    }
}

/// Two parts in a row, where both have a wire form; else the error of the
/// first that has none.
pub open spec fn both(a: Result<Seq<u8>, Error>, b: Result<Seq<u8>, Error>) -> Result<
    Seq<u8>,
    Error,
> {
    match a {
        Err(e) => Err(e),
        Ok(x) => match b {
            Err(e) => Err(e),
            Ok(y) => Ok(x + y),
        },
    }
}

/// The parts in a row, where all of them have a wire form; else the error of
/// the first that has none.
pub open spec fn join(parts: Seq<Result<Seq<u8>, Error>>) -> Result<Seq<u8>, Error>
    decreases parts.len(),
{
    if parts.len() == 0 {
        Ok(Seq::empty())
    } else {
        both(join(parts.drop_last()), parts.last())
    }
}

/// The first `i + 1` parts joined are the first `i` joined and then part `i`.
pub proof fn lemma_join_take_next(parts: Seq<Result<Seq<u8>, Error>>, i: int)
    requires
        0 <= i < parts.len(),
    ensures
        join(parts.take(i + 1)) == both(join(parts.take(i)), parts[i]),
{
    assert(parts.take(i + 1).drop_last() =~= parts.take(i));
}

/// An error among the first parts is the error of all of them.
pub proof fn lemma_join_error_stays(parts: Seq<Result<Seq<u8>, Error>>, i: int)
    requires
        0 <= i <= parts.len(),
        join(parts.take(i)).is_err(),
    ensures
        join(parts) == join(parts.take(i)),
    decreases parts.len() - i,
{
    if i == parts.len() {
        assert(parts.take(i) =~= parts);
    } else {
        lemma_join_take_next(parts, i);
        lemma_join_error_stays(parts, i + 1);
    }
}

/// Where all parts join, so do the first of them, to no more bytes.
pub proof fn lemma_join_take_len(parts: Seq<Result<Seq<u8>, Error>>, i: int)
    requires
        0 <= i <= parts.len(),
        join(parts).is_ok(),
    ensures
        join(parts.take(i)).is_ok(),
        join(parts.take(i)).unwrap().len() <= join(parts).unwrap().len(),
    decreases parts.len() - i,
{
    if i == parts.len() {
        assert(parts.take(i) =~= parts);
    } else {
        lemma_join_take_len(parts, i + 1);
        lemma_join_take_next(parts, i);
    }
}

/// Parts that join are the first part and then the others, joined.
pub proof fn lemma_join_front(parts: Seq<Result<Seq<u8>, Error>>)
    requires
        parts.len() > 0,
        join(parts).is_ok(),
    ensures
        parts[0].is_ok(),
        join(parts.skip(1)).is_ok(),
        join(parts).unwrap() == parts[0].unwrap() + join(parts.skip(1)).unwrap(),
    decreases parts.len(),
{
    if parts.len() == 1 {
        assert(join(parts.drop_last()) == Ok::<Seq<u8>, Error>(Seq::empty()));
        assert(join(parts.skip(1)) == Ok::<Seq<u8>, Error>(Seq::empty()));
        assert(Seq::<u8>::empty() + parts[0].unwrap() =~= parts[0].unwrap() + Seq::<u8>::empty());
    } else {
        let init = parts.drop_last();
        lemma_join_front(init);
        assert(init.skip(1) =~= parts.skip(1).drop_last());
        assert(init[0] == parts[0]);
        assert(parts.skip(1).last() == parts.last());
        let a = parts[0].unwrap();
        let b = join(init.skip(1)).unwrap();
        let c = parts.last().unwrap();
        assert(a + b + c =~= a + (b + c));
    }
}

} // verus!
