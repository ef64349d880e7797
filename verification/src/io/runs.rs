//! Runs of items on the wire: one item after the other, with nothing
//! between them, most often after a count.

use crate::errors::Error;
use crate::io::reader::ReadRoseExt;
use crate::io::wire::{fixed, i32_at, overwrite, read_yields, run, wrote};
use vstd::prelude::*;

verus! {

/// The bytes of the items of `xs`, one item after the other.
pub open spec fn joined<T>(xs: Seq<T>, item: spec_fn(T) -> Seq<u8>) -> Seq<u8>
    decreases xs.len(),
{
    if xs.len() == 0 {
        Seq::<u8>::empty()
    } else {
        joined(xs.drop_last(), item) + item(xs.last())
    }
}

/// Runs of bytes can be put together in any grouping.
pub proof fn lemma_concat_assoc(a: Seq<u8>, b: Seq<u8>, c: Seq<u8>)
    ensures
        (a + b) + c == a + (b + c),
{
    assert((a + b) + c =~= a + (b + c));
}

/// The bytes of the first `k + 1` items are those of the first `k` and then
/// those of item `k`.
pub proof fn lemma_joined_take<T>(xs: Seq<T>, k: int, item: spec_fn(T) -> Seq<u8>)
    requires
        0 <= k < xs.len(),
    ensures
        joined(xs.take(k + 1), item) == joined(xs.take(k), item) + item(xs[k]),
{
    assert(xs.take(k + 1).drop_last() =~= xs.take(k));
}

/// Where every item takes `w` bytes, `n` items take `w * n`, and item `k`
/// stands at offset `w * k`.
pub proof fn lemma_joined_fixed<T>(xs: Seq<T>, item: spec_fn(T) -> Seq<u8>, w: nat)
    requires
        forall|x: T| #[trigger] item(x).len() == w,
    ensures
        joined(xs, item).len() == w * xs.len(),
        forall|k: int|
            0 <= k < xs.len() ==> #[trigger] joined(xs, item).subrange(w * k, w * k + w) == item(
                xs[k],
            ),
    decreases xs.len(),
{
    if xs.len() > 0 {
        let front = xs.drop_last();
        lemma_joined_fixed(front, item, w);
        let all = joined(xs, item);
        assert(w * xs.len() == w * front.len() + w) by (nonlinear_arith)
            requires
                xs.len() == front.len() + 1,
        ;
        assert forall|k: int| 0 <= k < xs.len() implies #[trigger] all.subrange(w * k, w * k + w)
            == item(xs[k]) by {
            if k < front.len() {
                assert(w * k + w <= w * front.len()) by (nonlinear_arith)
                    requires
                        0 <= k < front.len(),
                ;
                assert(0 <= w * k) by (nonlinear_arith)
                    requires
                        0 <= k,
                ;
                assert(all.subrange(w * k, w * k + w) =~= joined(front, item).subrange(
                    w * k,
                    w * k + w,
                ));
            } else {
                assert(w * k == w * front.len());
                assert(all.subrange(w * k, w * k + w) =~= item(xs.last()));
            }
        }
    } else {
        assert(w * xs.len() == 0) by (nonlinear_arith)
            requires
                xs.len() == 0,
        ;
    }
}

/// `n` items read one after the other from `pos` on, with the position
/// after the last of them; nothing where one of them cannot be read.
pub open spec fn repeated<T>(
    s: Seq<u8>,
    pos: nat,
    n: nat,
    item: spec_fn(Seq<u8>, nat) -> Option<(T, nat)>,
) -> Option<(Seq<T>, nat)>
    decreases n,
{
    if n == 0 {
        Some((Seq::<T>::empty(), pos))
    } else {
        match repeated(s, pos, (n - 1) as nat, item) {
            None => None,
            Some((front, p)) => match item(s, p) {
                None => None,
                Some((x, q)) => Some((front.push(x), q)),
            },
        }
    }
}

/// Where the first `i` items cannot be read, no more of them can.
pub proof fn lemma_repeated_fails<T>(
    s: Seq<u8>,
    pos: nat,
    i: nat,
    n: nat,
    item: spec_fn(Seq<u8>, nat) -> Option<(T, nat)>,
)
    requires
        i <= n,
        repeated(s, pos, i, item) is None,
    ensures
        repeated(s, pos, n, item) is None,
    decreases n,
{
    if i < n {
        lemma_repeated_fails(s, pos, i, (n - 1) as nat, item);
    }
}

/// A count of 32 bits: a negative value counts as none.
pub open spec fn count32(c: i32) -> nat {
    if c > 0 {
        c as nat
    } else {
        0
    }
}

/// A count can be written as a signed 32-bit integer.
pub open spec fn countable32(n: nat) -> bool {
    n <= 0x7fff_ffff
}

/// Nothing of the stream before `start` has changed, and the stream has not
/// become shorter than `start`.
pub open spec fn kept(before: Seq<u8>, start: nat, after: Seq<u8>) -> bool {
    start <= after.len() && after.take(start as int) == before.take(start as int)
}

/// A write leaves what stands before it as it is.
pub proof fn lemma_wrote_kept(s0: Seq<u8>, p0: nat, data: Seq<u8>, s1: Seq<u8>, p1: nat)
    requires
        wrote(s0, p0, data, s1, p1),
        p0 <= s0.len(),
    ensures
        kept(s0, p0, s1),
        p1 <= s1.len(),
{
    reveal(overwrite);
    assert(s1.take(p0 as int) =~= s0.take(p0 as int));
}

/// What was kept over one step and over the next was kept over both.
pub proof fn lemma_kept_twice(s0: Seq<u8>, p0: nat, s1: Seq<u8>, p1: nat, s2: Seq<u8>)
    requires
        kept(s0, p0, s1),
        kept(s1, p1, s2),
        p0 <= p1 <= s1.len(),
    ensures
        kept(s0, p0, s2),
{
    assert(s2.take(p0 as int) =~= s2.take(p1 as int).take(p0 as int));
    assert(s1.take(p0 as int) =~= s1.take(p1 as int).take(p0 as int));
}

/// What a write of a record has done: where the format can hold the record
/// (`ok`), its bytes `data` were written at the cursor; where it cannot, the
/// write was given up with `Error::TooLarge`, and nothing before the place
/// where it started has changed.
pub open spec fn written_or_refused(
    r: Result<(), Error>,
    ok: bool,
    before: Seq<u8>,
    started: nat,
    data: Seq<u8>,
    after: Seq<u8>,
    stopped: nat,
) -> bool {
    if ok {
        r is Ok && wrote(before, started, data, after, stopped)
    } else {
        r == Err::<(), Error>(Error::TooLarge) && kept(before, started, after)
    }
}

/// Item `k` of a run stands in the bytes of the run after the bytes of the
/// items before it.
pub proof fn lemma_joined_item<T>(xs: Seq<T>, item: spec_fn(T) -> Seq<u8>, k: int)
    requires
        0 <= k < xs.len(),
    ensures
        joined(xs.take(k), item).len() + item(xs[k]).len() <= joined(xs, item).len(),
        run(joined(xs, item), joined(xs.take(k), item).len(), item(xs[k]).len()) == item(xs[k]),
    decreases xs.len(),
{
    let front = xs.drop_last();
    let all = joined(xs, item);
    if k == xs.len() - 1 {
        assert(xs.take(k) =~= front);
        assert(run(all, joined(front, item).len(), item(xs[k]).len()) =~= item(xs[k]));
    } else {
        lemma_joined_item(front, item, k);
        assert(front.take(k) =~= xs.take(k));
        let o = joined(xs.take(k), item).len();
        let n = item(xs[k]).len();
        assert(run(all, o, n) =~= run(joined(front, item), o, n));
    }
}

/// A run of items reads back item by item, where every item of it reads
/// back wherever its bytes stand.
pub proof fn lemma_repeated_joined<T>(
    e: Seq<u8>,
    o: nat,
    xs: Seq<T>,
    parse: spec_fn(Seq<u8>, nat) -> Option<(T, nat)>,
    item: spec_fn(T) -> Seq<u8>,
)
    requires
        o + joined(xs, item).len() <= e.len(),
        run(e, o, joined(xs, item).len()) == joined(xs, item),
        forall|q: nat, k: int|
            #![trigger parse(e, q), xs[k]]
            0 <= k < xs.len() && q + item(xs[k]).len() <= e.len() && run(
                e,
                q,
                item(xs[k]).len(),
            ) == item(xs[k]) ==> parse(e, q) == Some((xs[k], (q + item(xs[k]).len()) as nat)),
    ensures
        repeated(e, o, xs.len(), parse) == Some((xs, (o + joined(xs, item).len()) as nat)),
    decreases xs.len(),
{
    if xs.len() == 0 {
        assert(xs =~= Seq::<T>::empty());
    } else {
        let front = xs.drop_last();
        let last = xs.last();
        let k = xs.len() - 1;
        let all = joined(xs, item);
        let head = joined(front, item);
        assert(run(e, o, head.len()) =~= run(all, 0, head.len()));
        assert(run(all, 0, head.len()) =~= head);
        assert forall|q: nat, j: int|
            #![trigger parse(e, q), front[j]]
            0 <= j < front.len() && q + item(front[j]).len() <= e.len() && run(
                e,
                q,
                item(front[j]).len(),
            ) == item(front[j]) implies parse(e, q) == Some(
            (front[j], (q + item(front[j]).len()) as nat),
        ) by {
            assert(front[j] == xs[j]);
        }
        lemma_repeated_joined(e, o, front, parse, item);
        let q = (o + head.len()) as nat;
        assert(run(e, q, item(last).len()) =~= run(all, head.len(), item(last).len()));
        assert(run(all, head.len(), item(last).len()) =~= item(last));
        assert(xs[k] == last);
        assert(parse(e, q) == Some((xs[k], (q + item(xs[k]).len()) as nat)));
        assert(front.push(last) =~= xs);
    }
}

/// What holds of every item that can be read holds of every item of a run
/// that was read, and the run is as long as was asked for.
pub proof fn lemma_repeated_all<T>(
    s: Seq<u8>,
    pos: nat,
    n: nat,
    item: spec_fn(Seq<u8>, nat) -> Option<(T, nat)>,
    good: spec_fn(T) -> bool,
)
    requires
        repeated(s, pos, n, item) is Some,
        forall|p: nat|
            match #[trigger] item(s, p) {
                Some((x, _)) => good(x),
                None => true,
            },
    ensures
        match repeated(s, pos, n, item) {
            Some((xs, _)) => xs.len() == n && forall|k: int| 0 <= k < n ==> good(#[trigger] xs[k]),
            None => false,
        },
    decreases n,
{
    if n > 0 {
        lemma_repeated_all(s, pos, (n - 1) as nat, item, good);
        match repeated(s, pos, (n - 1) as nat, item) {
            Some((front, p)) => {
                assert(item(s, p) is Some);
            },
            None => {},
        }
    }
}

/// Reads a count of 32 bits, of which a negative value counts as none.
pub(crate) fn read_count32<R: ReadRoseExt>(reader: &mut R) -> (r: Result<usize, Error>)
    ensures
        final(reader).stream() == old(reader).stream(),
        read_yields(
            r,
            final(reader).offset(),
            fixed(
                old(reader).stream(),
                old(reader).offset(),
                4,
                count32(i32_at(old(reader).stream(), old(reader).offset())) as usize,
            ),
            old(reader).stream().len(),
        ),
{
    let count = reader.read_i32()?;
    if count > 0 {
        Ok(count as usize)
    } else {
        Ok(0)
    }
}

/// What a read of one record or of a whole table has done.
pub open spec fn record_yields<T: View>(
    r: Result<T, Error>,
    stopped: nat,
    want: Option<(T::V, nat)>,
    len: nat,
) -> bool {
    match want {
        Some((v, next)) => r is Ok && r->Ok_0@ == v && stopped == next,
        None => r is Err && r->Err_0 == Error::UnexpectedEof && stopped == len,
    }
}

} // verus!
