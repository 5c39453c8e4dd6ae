use vstd::prelude::*;

verus! {

/// `s` with `x` appended, the oldest entry dropped when that makes it longer than `cap`.
pub open spec fn bounded_push<T>(s: Seq<T>, x: T, cap: nat) -> Seq<T> {
    if s.len() + 1 > cap {
        s.push(x).drop_first()
    } else {
        s.push(x)
    }
}

/// The newest `limit` entries of `s`, newest first (`iter().rev().take(limit)`).
pub open spec fn newest_first<T>(s: Seq<T>, limit: nat) -> Seq<T> {
    let n = if limit < s.len() {
        limit
    } else {
        s.len()
    };
    Seq::new(n, |i: int| s[s.len() - 1 - i])
}

/// The entries kept after pushing each of `xs` in turn onto an empty history of
/// capacity `cap`.
pub open spec fn replayed<T>(xs: Seq<T>, cap: nat) -> Seq<T>
    decreases xs.len(),
{
    if xs.len() == 0 {
        seq![]
    } else {
        bounded_push(replayed(xs.drop_last(), cap), xs.last(), cap)
    }
}

/// The latest `cap` entries of `xs`, oldest first.
pub open spec fn latest<T>(xs: Seq<T>, cap: nat) -> Seq<T> {
    if xs.len() <= cap {
        xs
    } else {
        xs.skip(xs.len() - cap)
    }
}

/// A bounded history holds exactly the latest `cap` entries pushed onto it, in the
/// order they came.
pub proof fn law_bounded_history_keeps_latest<T>(xs: Seq<T>, cap: nat)
    requires
        cap > 0,
    ensures
        replayed(xs, cap) == latest(xs, cap),
    decreases xs.len(),
{
    if xs.len() > 0 {
        law_bounded_history_keeps_latest(xs.drop_last(), cap);
        let prev = xs.drop_last();
        if prev.len() + 1 > cap {
            if prev.len() <= cap {
                assert(latest(prev, cap).push(xs.last()).drop_first() =~= xs.skip(xs.len() - cap));
            } else {
                assert(latest(prev, cap).push(xs.last()).drop_first() =~= xs.skip(xs.len() - cap));
            }
        } else {
            assert(latest(prev, cap).push(xs.last()) =~= xs);
        }
    }
}

/// The newest entry comes first: after a push, the newest entry listed is the one pushed.
pub proof fn law_newest_first_after_push<T>(s: Seq<T>, x: T, cap: nat)
    requires
        cap > 0,
    ensures
        newest_first(bounded_push(s, x, cap), 1) == seq![x],
{
    assert(newest_first(bounded_push(s, x, cap), 1) =~= seq![x]);
}

/// Pushing onto a history of at most `cap` entries keeps the latest `cap` of its
/// entries followed by the new one: `min(cap, n + 1)` of them, the new one last.
pub proof fn law_bounded_push_keeps_latest<T>(s: Seq<T>, x: T, cap: nat)
    requires
        cap > 0,
        s.len() <= cap,
    ensures
        bounded_push(s, x, cap) == latest(s.push(x), cap),
        bounded_push(s, x, cap).len() == (if s.len() + 1 < cap { s.len() + 1 } else { cap }),
        bounded_push(s, x, cap).last() == x,
{
    if s.len() + 1 > cap {
        assert(s.push(x).drop_first() =~= s.push(x).skip(s.push(x).len() - cap));
    }
}

} // verus!
