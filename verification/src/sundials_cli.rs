use vstd::prelude::*;
use vstd::utf8::{encode_utf8, is_char_boundary};
use crate::sundials_errors::SUN_SUCCESS;
use crate::sundials_types::{SUNFALSE, SUNTRUE, sunbooleantype};
use crate::sundials_utils::{atoi, atol, spec_atoi, spec_atol};

verus! {

/// The argument, with its first `offset` bytes stripped, is the key.
pub open spec fn key_matches(arg: Seq<char>, offset: int, key: Seq<char>) -> bool {
    let b = encode_utf8(arg);
    offset <= b.len() && b.subrange(offset, b.len() as int) == encode_utf8(key)
}

/// An argument matches a key only as a whole: its bytes after the offset
/// are exactly the key's bytes, no more and no fewer, so a key that is only
/// a prefix (or an extension) of the argument's rest never matches.
pub proof fn law_key_matches_whole(arg: Seq<char>, offset: int, key: Seq<char>)
    requires
        0 <= offset,
    ensures
        key_matches(arg, offset, key) <==> (encode_utf8(arg).len() == offset + encode_utf8(key).len()
            && forall|j: int|
            0 <= j < encode_utf8(key).len() ==> #[trigger] encode_utf8(arg)[offset + j] == encode_utf8(key)[j]),
        encode_utf8(arg).len() != offset + encode_utf8(key).len() ==> !key_matches(arg, offset, key),
{
    let b = encode_utf8(arg);
    let k = encode_utf8(key);
    if key_matches(arg, offset, key) {
        let sub = b.subrange(offset, b.len() as int);
        assert(offset <= b.len() && sub == k);
        assert(sub.len() == b.len() - offset);
        assert forall|j: int| 0 <= j < k.len() implies #[trigger] b[offset + j] == k[j] by {
            assert(sub[j] == b[offset + j]);
        }
    }
    if b.len() == offset + k.len() && forall|j: int| 0 <= j < k.len() ==> #[trigger] b[offset + j] == k[j] {
        let sub = b.subrange(offset, b.len() as int);
        assert forall|j: int| 0 <= j < k.len() implies sub[j] == k[j] by {
            assert(b[offset + j] == k[j]);
        }
        assert(sub =~= k);
    }
}

/// The first of the first `n` keys that the argument matches, or `n`.
pub open spec fn first_match(keys: Seq<Seq<char>>, n: int, arg: Seq<char>, offset: int) -> int
    decreases n,
{
    if n <= 0 {
        0
    } else if first_match(keys, n - 1, arg, offset) < n - 1 {
        first_match(keys, n - 1, arg, offset)
    } else if key_matches(arg, offset, keys[n - 1]) {
        n - 1
    } else {
        n
    }
}

pub proof fn lemma_first_match(keys: Seq<Seq<char>>, n: int, arg: Seq<char>, offset: int)
    requires
        0 <= n,
    ensures
        0 <= first_match(keys, n, arg, offset) <= n,
        first_match(keys, n, arg, offset) < n ==> key_matches(
            arg,
            offset,
            keys[first_match(keys, n, arg, offset)],
        ),
        forall|j: int| 0 <= j < first_match(keys, n, arg, offset) ==> !key_matches(arg, offset, #[trigger] keys[j]),
    decreases n,
{
    if n > 0 {
        lemma_first_match(keys, n - 1, arg, offset);
    }
}

/// The option at `argidx` is followed by `nvals` value arguments, all
/// indexable with an `i32`.
pub open spec fn has_values(argidx: i32, argc: int, nvals: int) -> bool {
    argidx + nvals < argc && argidx + nvals <= i32::MAX
}

/// What every matcher needs: the pairs it scans exist, the option it
/// compares can be cut after `offset` bytes, and a matched option is
/// followed by its `nvals` values.
pub open spec fn cli_requires(
    keys: Seq<Seq<char>>,
    numpairs: i32,
    argidx: i32,
    argv: Seq<String>,
    offset: usize,
    nvals: int,
) -> bool {
    &&& numpairs <= keys.len()
    &&& numpairs > 0 ==> 0 <= argidx < argv.len() && cuttable(argv[argidx as int]@, offset as int)
    &&& numpairs > 0 && first_match(keys, numpairs as int, argv[argidx as int]@, offset as int)
        < numpairs ==> has_values(argidx, argv.len() as int, nvals)
}

/// The index of the pair the option matches (`numpairs` when none does).
pub open spec fn cli_match(
    keys: Seq<Seq<char>>,
    numpairs: i32,
    argidx: i32,
    argv: Seq<String>,
    offset: usize,
) -> int {
    first_match(keys, numpairs as int, argv[argidx as int]@, offset as int)
}

/// The argument may be cut after `offset` bytes, as the matchers do.
pub open spec fn cuttable(arg: Seq<char>, offset: int) -> bool {
    is_char_boundary(encode_utf8(arg), offset)
}

/// Compare the argument, less its first `offset` bytes, with the key.
fn suffix_is(arg: &str, offset: usize, key: &str) -> (r: bool)
    ensures
        r == key_matches(arg@, offset as int, key@),
{
    let a = arg.as_bytes();
    let k = key.as_bytes();
    assert(a@ == encode_utf8(arg@));
    assert(k@ == encode_utf8(key@));
    if offset > a.len() || a.len() - offset != k.len() {
        proof {
            if offset <= a@.len() {
                assert(a@.subrange(offset as int, a@.len() as int).len() != k@.len());
            }
        }
        return false;
    }
    let mut i: usize = 0;
    while i < k.len()
        invariant
            a@ == encode_utf8(arg@),
            k@ == encode_utf8(key@),
            offset + k@.len() == a@.len(),
            a@.len() == a.len(),
            k@.len() == k.len(),
            0 <= i <= k@.len(),
            forall|j: int| 0 <= j < i ==> a@[offset + j] == k@[j],
        decreases k@.len() - i,
    {
        assert(offset + i < a@.len());
        if a[offset + i] != k[i] {
            assert(a@.subrange(offset as int, a@.len() as int)[i as int] != k@[i as int]);
            return false;
        }
        i = i + 1;
    }
    assert(a@.subrange(offset as int, a@.len() as int) =~= k@);
    true
}

/// A key and the setter that takes one `int` value.
#[derive(Clone, Copy)]
pub struct sunKeyIntPair<F> {
    pub key: &'static str,
    pub set: F,
}

pub open spec fn int_keys<F>(p: Seq<sunKeyIntPair<F>>) -> Seq<Seq<char>> {
    p.map_values(|q: sunKeyIntPair<F>| q.key@)
}

/// How a matched option ends: a failing setter's return is passed back
/// with the pair's index and the option marked unused; a succeeding one
/// marks the option used and leaves `failedarg` alone.
pub open spec fn cli_result(retval: i32, j: int, failed_before: i32, failed_after: i32, used: bool) -> bool {
    if retval != SUN_SUCCESS {
        failed_after == j && used == SUNFALSE
    } else {
        failed_after == failed_before && used == SUNTRUE
    }
}

/// Where `argv[*argidx]`, less its `offset`-byte prefix, equals the key of
/// one of the first `numpairs` pairs (the first such), consume the value
/// argument after it, read it as C `atoi` does and hand it to that pair's
/// setter. A setter's nonzero return is passed back, with the pair's index
/// in `failedarg`; `arg_used` tells whether an option was applied. With no
/// match the index stays and `arg_used` is cleared; with no pairs at all
/// nothing changes.
pub fn sunCheckAndSetIntArgs<M, F: Fn(&mut M, i32) -> i32>(
    mem: &mut M,
    argidx: &mut i32,
    argv: &[String],
    offset: usize,
    testpairs: &[sunKeyIntPair<F>],
    numpairs: i32,
    arg_used: &mut sunbooleantype,
    failedarg: &mut i32,
) -> (retval: i32)
    requires
        cli_requires(int_keys(testpairs@), numpairs, *old(argidx), argv@, offset, 1),
        forall|j: int, m: &mut M, a: i32|
            0 <= j < numpairs ==> #[trigger] testpairs@[j].set.requires((m, a)),
    ensures
        numpairs <= 0 ==> retval == SUN_SUCCESS,
        numpairs <= 0 ==> *final(argidx) == *old(argidx),
        numpairs <= 0 ==> *final(arg_used) == *old(arg_used),
        numpairs <= 0 ==> *final(failedarg) == *old(failedarg),
        numpairs <= 0 ==> *final(mem) == *old(mem),
        numpairs > 0 && cli_match(int_keys(testpairs@), numpairs, *old(argidx), argv@, offset)
            == numpairs ==> retval == SUN_SUCCESS && *final(argidx) == *old(argidx)
            && *final(arg_used) == SUNFALSE && *final(failedarg) == *old(failedarg)
            && *final(mem) == *old(mem),
        numpairs > 0 && cli_match(int_keys(testpairs@), numpairs, *old(argidx), argv@, offset)
            < numpairs ==> ({
            let j = cli_match(int_keys(testpairs@), numpairs, *old(argidx), argv@, offset);
            &&& *final(argidx) == *old(argidx) + 1
            &&& exists|m: &mut M|
                *m == *old(mem) && *final(m) == *final(mem) && testpairs@[j].set.ensures(
                    (m, spec_atoi(argv@[*old(argidx) + 1]@)),
                    retval,
                )
            &&& cli_result(retval, j, *old(failedarg), *final(failedarg), *final(arg_used))
        }),
{
    let ghost keys = int_keys(testpairs@);
    let ghost arg = argv@[*argidx as int]@;
    let mut j: i32 = 0;
    proof {
        if numpairs > 0 {
            lemma_first_match(keys, numpairs as int, arg, offset as int);
        }
    }
    while j < numpairs
        invariant
            0 <= j,
            numpairs > 0 ==> j <= numpairs,
            numpairs <= 0 ==> j == 0,
            keys == int_keys(testpairs@),
            cli_requires(keys, numpairs, *argidx, argv@, offset, 1),
            numpairs > 0 ==> arg == argv@[*argidx as int]@,
            numpairs > 0 ==> 0 <= first_match(keys, numpairs as int, arg, offset as int) <= numpairs,
            numpairs > 0 && first_match(keys, numpairs as int, arg, offset as int) < numpairs ==> key_matches(
                arg,
                offset as int,
                keys[first_match(keys, numpairs as int, arg, offset as int)],
            ),
            numpairs > 0 ==> forall|q: int|
                0 <= q < first_match(keys, numpairs as int, arg, offset as int) ==> !key_matches(
                    arg,
                    offset as int,
                    #[trigger] keys[q],
                ),
            *argidx == *old(argidx),
            *mem == *old(mem),
            *failedarg == *old(failedarg),
            j == 0 ==> *arg_used == *old(arg_used),
            j > 0 ==> *arg_used == SUNFALSE,
            forall|q: int| 0 <= q < j ==> !key_matches(arg, offset as int, #[trigger] keys[q]),
            forall|q: int, m: &mut M, a: i32|
                0 <= q < numpairs ==> #[trigger] testpairs@[q].set.requires((m, a)),
        decreases numpairs - j,
    {
        *arg_used = SUNFALSE;
        let hit = suffix_is(argv[*argidx as usize].as_str(), offset, testpairs[j as usize].key);
        assert(keys[j as int] == testpairs@[j as int].key@);
        if hit {
            assert(first_match(keys, numpairs as int, arg, offset as int) == j);
            *argidx += 1;
            let iarg: i32 = atoi(argv[*argidx as usize].as_str());
            let retval = (testpairs[j as usize].set)(mem, iarg);
            if retval != SUN_SUCCESS {
                *failedarg = j;
                return retval;
            }
            *arg_used = SUNTRUE;
            return SUN_SUCCESS;
        }
        j += 1;
    }
    proof {
        if numpairs > 0 {
            let f = first_match(keys, numpairs as int, arg, offset as int);
            if f < numpairs {
                assert(!key_matches(arg, offset as int, keys[f]));
            }
        }
    }
    SUN_SUCCESS
}

/// A key and the setter that takes two `int` values.
#[derive(Clone, Copy)]
pub struct sunKeyTwoIntPair<F> {
    pub key: &'static str,
    pub set: F,
}

pub open spec fn two_int_keys<F>(p: Seq<sunKeyTwoIntPair<F>>) -> Seq<Seq<char>> {
    p.map_values(|q: sunKeyTwoIntPair<F>| q.key@)
}

/// Where `argv[*argidx]`, less its `offset`-byte prefix, equals the key of
/// one of the first `numpairs` pairs (the first such), consume the two
/// value arguments after it, read each as C `atoi` does and hand them to
/// that pair's setter; otherwise as `sunCheckAndSetTwoIntArgs`.
pub fn sunCheckAndSetTwoIntArgs<M, F: Fn(&mut M, i32, i32) -> i32>(
    mem: &mut M,
    argidx: &mut i32,
    argv: &[String],
    offset: usize,
    testpairs: &[sunKeyTwoIntPair<F>],
    numpairs: i32,
    arg_used: &mut sunbooleantype,
    failedarg: &mut i32,
) -> (retval: i32)
    requires
        cli_requires(two_int_keys(testpairs@), numpairs, *old(argidx), argv@, offset, 2),
        forall|j: int, m: &mut M, a: i32, b: i32|
            0 <= j < numpairs ==> #[trigger] testpairs@[j].set.requires((m, a, b)),
    ensures
        numpairs <= 0 ==> retval == SUN_SUCCESS,
        numpairs <= 0 ==> *final(argidx) == *old(argidx),
        numpairs <= 0 ==> *final(arg_used) == *old(arg_used),
        numpairs <= 0 ==> *final(failedarg) == *old(failedarg),
        numpairs <= 0 ==> *final(mem) == *old(mem),
        numpairs > 0 && cli_match(two_int_keys(testpairs@), numpairs, *old(argidx), argv@, offset)
            == numpairs ==> retval == SUN_SUCCESS && *final(argidx) == *old(argidx)
            && *final(arg_used) == SUNFALSE && *final(failedarg) == *old(failedarg)
            && *final(mem) == *old(mem),
        numpairs > 0 && cli_match(two_int_keys(testpairs@), numpairs, *old(argidx), argv@, offset)
            < numpairs ==> ({
            let j = cli_match(two_int_keys(testpairs@), numpairs, *old(argidx), argv@, offset);
            &&& *final(argidx) == *old(argidx) + 2
            &&& exists|m: &mut M|
                *m == *old(mem) && *final(m) == *final(mem) && testpairs@[j].set.ensures(
                    (m, spec_atoi(argv@[*old(argidx) + 1]@), spec_atoi(argv@[*old(argidx) + 2]@)),
                    retval,
                )
            &&& cli_result(retval, j, *old(failedarg), *final(failedarg), *final(arg_used))
        }),
{
    let ghost keys = two_int_keys(testpairs@);
    let ghost arg = argv@[*argidx as int]@;
    let mut j: i32 = 0;
    proof {
        if numpairs > 0 {
            lemma_first_match(keys, numpairs as int, arg, offset as int);
        }
    }
    while j < numpairs
        invariant
            0 <= j,
            numpairs > 0 ==> j <= numpairs,
            numpairs <= 0 ==> j == 0,
            keys == two_int_keys(testpairs@),
            cli_requires(keys, numpairs, *argidx, argv@, offset, 2),
            numpairs > 0 ==> arg == argv@[*argidx as int]@,
            numpairs > 0 ==> 0 <= first_match(keys, numpairs as int, arg, offset as int) <= numpairs,
            numpairs > 0 && first_match(keys, numpairs as int, arg, offset as int) < numpairs ==> key_matches(
                arg,
                offset as int,
                keys[first_match(keys, numpairs as int, arg, offset as int)],
            ),
            numpairs > 0 ==> forall|q: int|
                0 <= q < first_match(keys, numpairs as int, arg, offset as int) ==> !key_matches(
                    arg,
                    offset as int,
                    #[trigger] keys[q],
                ),
            *argidx == *old(argidx),
            *mem == *old(mem),
            *failedarg == *old(failedarg),
            j == 0 ==> *arg_used == *old(arg_used),
            j > 0 ==> *arg_used == SUNFALSE,
            forall|q: int| 0 <= q < j ==> !key_matches(arg, offset as int, #[trigger] keys[q]),
            forall|q: int, m: &mut M, a: i32, b: i32|
                0 <= q < numpairs ==> #[trigger] testpairs@[q].set.requires((m, a, b)),
        decreases numpairs - j,
    {
        *arg_used = SUNFALSE;
        let hit = suffix_is(argv[*argidx as usize].as_str(), offset, testpairs[j as usize].key);
        assert(keys[j as int] == testpairs@[j as int].key@);
        if hit {
            assert(first_match(keys, numpairs as int, arg, offset as int) == j);
            *argidx += 1;
            let iarg1: i32 = atoi(argv[*argidx as usize].as_str());
            *argidx += 1;
            let iarg2: i32 = atoi(argv[*argidx as usize].as_str());
            let retval = (testpairs[j as usize].set)(mem, iarg1, iarg2);
            if retval != SUN_SUCCESS {
                *failedarg = j;
                return retval;
            }
            *arg_used = SUNTRUE;
            return SUN_SUCCESS;
        }
        j += 1;
    }
    proof {
        if numpairs > 0 {
            let f = first_match(keys, numpairs as int, arg, offset as int);
            if f < numpairs {
                assert(!key_matches(arg, offset as int, keys[f]));
            }
        }
    }
    SUN_SUCCESS
}

/// A key and the setter that takes one `long int` value.
#[derive(Clone, Copy)]
pub struct sunKeyLongPair<F> {
    pub key: &'static str,
    pub set: F,
}

pub open spec fn long_keys<F>(p: Seq<sunKeyLongPair<F>>) -> Seq<Seq<char>> {
    p.map_values(|q: sunKeyLongPair<F>| q.key@)
}

/// As `sunCheckAndSetLongArgs`, with the value read as C `atol` does.
pub fn sunCheckAndSetLongArgs<M, F: Fn(&mut M, i64) -> i32>(
    mem: &mut M,
    argidx: &mut i32,
    argv: &[String],
    offset: usize,
    testpairs: &[sunKeyLongPair<F>],
    numpairs: i32,
    arg_used: &mut sunbooleantype,
    failedarg: &mut i32,
) -> (retval: i32)
    requires
        cli_requires(long_keys(testpairs@), numpairs, *old(argidx), argv@, offset, 1),
        forall|j: int, m: &mut M, a: i64|
            0 <= j < numpairs ==> #[trigger] testpairs@[j].set.requires((m, a)),
    ensures
        numpairs <= 0 ==> retval == SUN_SUCCESS,
        numpairs <= 0 ==> *final(argidx) == *old(argidx),
        numpairs <= 0 ==> *final(arg_used) == *old(arg_used),
        numpairs <= 0 ==> *final(failedarg) == *old(failedarg),
        numpairs <= 0 ==> *final(mem) == *old(mem),
        numpairs > 0 && cli_match(long_keys(testpairs@), numpairs, *old(argidx), argv@, offset)
            == numpairs ==> retval == SUN_SUCCESS && *final(argidx) == *old(argidx)
            && *final(arg_used) == SUNFALSE && *final(failedarg) == *old(failedarg)
            && *final(mem) == *old(mem),
        numpairs > 0 && cli_match(long_keys(testpairs@), numpairs, *old(argidx), argv@, offset)
            < numpairs ==> ({
            let j = cli_match(long_keys(testpairs@), numpairs, *old(argidx), argv@, offset);
            &&& *final(argidx) == *old(argidx) + 1
            &&& exists|m: &mut M|
                *m == *old(mem) && *final(m) == *final(mem) && testpairs@[j].set.ensures(
                    (m, spec_atol(argv@[*old(argidx) + 1]@)),
                    retval,
                )
            &&& cli_result(retval, j, *old(failedarg), *final(failedarg), *final(arg_used))
        }),
{
    let ghost keys = long_keys(testpairs@);
    let ghost arg = argv@[*argidx as int]@;
    let mut j: i32 = 0;
    proof {
        if numpairs > 0 {
            lemma_first_match(keys, numpairs as int, arg, offset as int);
        }
    }
    while j < numpairs
        invariant
            0 <= j,
            numpairs > 0 ==> j <= numpairs,
            numpairs <= 0 ==> j == 0,
            keys == long_keys(testpairs@),
            cli_requires(keys, numpairs, *argidx, argv@, offset, 1),
            numpairs > 0 ==> arg == argv@[*argidx as int]@,
            numpairs > 0 ==> 0 <= first_match(keys, numpairs as int, arg, offset as int) <= numpairs,
            numpairs > 0 && first_match(keys, numpairs as int, arg, offset as int) < numpairs ==> key_matches(
                arg,
                offset as int,
                keys[first_match(keys, numpairs as int, arg, offset as int)],
            ),
            numpairs > 0 ==> forall|q: int|
                0 <= q < first_match(keys, numpairs as int, arg, offset as int) ==> !key_matches(
                    arg,
                    offset as int,
                    #[trigger] keys[q],
                ),
            *argidx == *old(argidx),
            *mem == *old(mem),
            *failedarg == *old(failedarg),
            j == 0 ==> *arg_used == *old(arg_used),
            j > 0 ==> *arg_used == SUNFALSE,
            forall|q: int| 0 <= q < j ==> !key_matches(arg, offset as int, #[trigger] keys[q]),
            forall|q: int, m: &mut M, a: i64|
                0 <= q < numpairs ==> #[trigger] testpairs@[q].set.requires((m, a)),
        decreases numpairs - j,
    {
        *arg_used = SUNFALSE;
        let hit = suffix_is(argv[*argidx as usize].as_str(), offset, testpairs[j as usize].key);
        assert(keys[j as int] == testpairs@[j as int].key@);
        if hit {
            assert(first_match(keys, numpairs as int, arg, offset as int) == j);
            *argidx += 1;
            let iarg: i64 = atol(argv[*argidx as usize].as_str());
            let retval = (testpairs[j as usize].set)(mem, iarg);
            if retval != SUN_SUCCESS {
                *failedarg = j;
                return retval;
            }
            *arg_used = SUNTRUE;
            return SUN_SUCCESS;
        }
        j += 1;
    }
    proof {
        if numpairs > 0 {
            let f = first_match(keys, numpairs as int, arg, offset as int);
            if f < numpairs {
                assert(!key_matches(arg, offset as int, keys[f]));
            }
        }
    }
    SUN_SUCCESS
}

/// A key and the setter that takes an `int` and a `long int` value.
#[derive(Clone, Copy)]
pub struct sunKeyIntLongPair<F> {
    pub key: &'static str,
    pub set: F,
}

pub open spec fn int_long_keys<F>(p: Seq<sunKeyIntLongPair<F>>) -> Seq<Seq<char>> {
    p.map_values(|q: sunKeyIntLongPair<F>| q.key@)
}

/// As `sunCheckAndSetTwoIntArgs`, with the second value read as C `atol`
/// does.
pub fn sunCheckAndSetIntLongArgs<M, F: Fn(&mut M, i32, i64) -> i32>(
    mem: &mut M,
    argidx: &mut i32,
    argv: &[String],
    offset: usize,
    testpairs: &[sunKeyIntLongPair<F>],
    numpairs: i32,
    arg_used: &mut sunbooleantype,
    failedarg: &mut i32,
) -> (retval: i32)
    requires
        cli_requires(int_long_keys(testpairs@), numpairs, *old(argidx), argv@, offset, 2),
        forall|j: int, m: &mut M, a: i32, b: i64|
            0 <= j < numpairs ==> #[trigger] testpairs@[j].set.requires((m, a, b)),
    ensures
        numpairs <= 0 ==> retval == SUN_SUCCESS,
        numpairs <= 0 ==> *final(argidx) == *old(argidx),
        numpairs <= 0 ==> *final(arg_used) == *old(arg_used),
        numpairs <= 0 ==> *final(failedarg) == *old(failedarg),
        numpairs <= 0 ==> *final(mem) == *old(mem),
        numpairs > 0 && cli_match(int_long_keys(testpairs@), numpairs, *old(argidx), argv@, offset)
            == numpairs ==> retval == SUN_SUCCESS && *final(argidx) == *old(argidx)
            && *final(arg_used) == SUNFALSE && *final(failedarg) == *old(failedarg)
            && *final(mem) == *old(mem),
        numpairs > 0 && cli_match(int_long_keys(testpairs@), numpairs, *old(argidx), argv@, offset)
            < numpairs ==> ({
            let j = cli_match(int_long_keys(testpairs@), numpairs, *old(argidx), argv@, offset);
            &&& *final(argidx) == *old(argidx) + 2
            &&& exists|m: &mut M|
                *m == *old(mem) && *final(m) == *final(mem) && testpairs@[j].set.ensures(
                    (m, spec_atoi(argv@[*old(argidx) + 1]@), spec_atol(argv@[*old(argidx) + 2]@)),
                    retval,
                )
            &&& cli_result(retval, j, *old(failedarg), *final(failedarg), *final(arg_used))
        }),
{
    let ghost keys = int_long_keys(testpairs@);
    let ghost arg = argv@[*argidx as int]@;
    let mut j: i32 = 0;
    proof {
        if numpairs > 0 {
            lemma_first_match(keys, numpairs as int, arg, offset as int);
        }
    }
    while j < numpairs
        invariant
            0 <= j,
            numpairs > 0 ==> j <= numpairs,
            numpairs <= 0 ==> j == 0,
            keys == int_long_keys(testpairs@),
            cli_requires(keys, numpairs, *argidx, argv@, offset, 2),
            numpairs > 0 ==> arg == argv@[*argidx as int]@,
            numpairs > 0 ==> 0 <= first_match(keys, numpairs as int, arg, offset as int) <= numpairs,
            numpairs > 0 && first_match(keys, numpairs as int, arg, offset as int) < numpairs ==> key_matches(
                arg,
                offset as int,
                keys[first_match(keys, numpairs as int, arg, offset as int)],
            ),
            numpairs > 0 ==> forall|q: int|
                0 <= q < first_match(keys, numpairs as int, arg, offset as int) ==> !key_matches(
                    arg,
                    offset as int,
                    #[trigger] keys[q],
                ),
            *argidx == *old(argidx),
            *mem == *old(mem),
            *failedarg == *old(failedarg),
            j == 0 ==> *arg_used == *old(arg_used),
            j > 0 ==> *arg_used == SUNFALSE,
            forall|q: int| 0 <= q < j ==> !key_matches(arg, offset as int, #[trigger] keys[q]),
            forall|q: int, m: &mut M, a: i32, b: i64|
                0 <= q < numpairs ==> #[trigger] testpairs@[q].set.requires((m, a, b)),
        decreases numpairs - j,
    {
        *arg_used = SUNFALSE;
        let hit = suffix_is(argv[*argidx as usize].as_str(), offset, testpairs[j as usize].key);
        assert(keys[j as int] == testpairs@[j as int].key@);
        if hit {
            assert(first_match(keys, numpairs as int, arg, offset as int) == j);
            *argidx += 1;
            let iarg: i32 = atoi(argv[*argidx as usize].as_str());
            *argidx += 1;
            let large: i64 = atol(argv[*argidx as usize].as_str());
            let retval = (testpairs[j as usize].set)(mem, iarg, large);
            if retval != SUN_SUCCESS {
                *failedarg = j;
                return retval;
            }
            *arg_used = SUNTRUE;
            return SUN_SUCCESS;
        }
        j += 1;
    }
    proof {
        if numpairs > 0 {
            let f = first_match(keys, numpairs as int, arg, offset as int);
            if f < numpairs {
                assert(!key_matches(arg, offset as int, keys[f]));
            }
        }
    }
    SUN_SUCCESS
}

/// A key and the setter that takes one text value.
#[derive(Clone, Copy)]
pub struct sunKeyCharPair<F> {
    pub key: &'static str,
    pub set: F,
}

pub open spec fn char_keys<F>(p: Seq<sunKeyCharPair<F>>) -> Seq<Seq<char>> {
    p.map_values(|q: sunKeyCharPair<F>| q.key@)
}

/// As `sunCheckAndSetCharArgs`, with the value argument handed to the
/// setter as text.
pub fn sunCheckAndSetCharArgs<M, F: Fn(&mut M, &str) -> i32>(
    mem: &mut M,
    argidx: &mut i32,
    argv: &[String],
    offset: usize,
    testpairs: &[sunKeyCharPair<F>],
    numpairs: i32,
    arg_used: &mut sunbooleantype,
    failedarg: &mut i32,
) -> (retval: i32)
    requires
        cli_requires(char_keys(testpairs@), numpairs, *old(argidx), argv@, offset, 1),
        forall|j: int, m: &mut M, a: &str|
            0 <= j < numpairs ==> #[trigger] testpairs@[j].set.requires((m, a)),
    ensures
        numpairs <= 0 ==> retval == SUN_SUCCESS,
        numpairs <= 0 ==> *final(argidx) == *old(argidx),
        numpairs <= 0 ==> *final(arg_used) == *old(arg_used),
        numpairs <= 0 ==> *final(failedarg) == *old(failedarg),
        numpairs <= 0 ==> *final(mem) == *old(mem),
        numpairs > 0 && cli_match(char_keys(testpairs@), numpairs, *old(argidx), argv@, offset)
            == numpairs ==> retval == SUN_SUCCESS && *final(argidx) == *old(argidx)
            && *final(arg_used) == SUNFALSE && *final(failedarg) == *old(failedarg)
            && *final(mem) == *old(mem),
        numpairs > 0 && cli_match(char_keys(testpairs@), numpairs, *old(argidx), argv@, offset)
            < numpairs ==> ({
            let j = cli_match(char_keys(testpairs@), numpairs, *old(argidx), argv@, offset);
            &&& *final(argidx) == *old(argidx) + 1
            &&& exists|m: &mut M|
                *m == *old(mem) && *final(m) == *final(mem) && exists|t: &str|
                    t@ == argv@[*old(argidx) + 1]@ && testpairs@[j].set.ensures((m, t), retval)
            &&& cli_result(retval, j, *old(failedarg), *final(failedarg), *final(arg_used))
        }),
{
    let ghost keys = char_keys(testpairs@);
    let ghost arg = argv@[*argidx as int]@;
    let mut j: i32 = 0;
    proof {
        if numpairs > 0 {
            lemma_first_match(keys, numpairs as int, arg, offset as int);
        }
    }
    while j < numpairs
        invariant
            0 <= j,
            numpairs > 0 ==> j <= numpairs,
            numpairs <= 0 ==> j == 0,
            keys == char_keys(testpairs@),
            cli_requires(keys, numpairs, *argidx, argv@, offset, 1),
            numpairs > 0 ==> arg == argv@[*argidx as int]@,
            numpairs > 0 ==> 0 <= first_match(keys, numpairs as int, arg, offset as int) <= numpairs,
            numpairs > 0 && first_match(keys, numpairs as int, arg, offset as int) < numpairs ==> key_matches(
                arg,
                offset as int,
                keys[first_match(keys, numpairs as int, arg, offset as int)],
            ),
            numpairs > 0 ==> forall|q: int|
                0 <= q < first_match(keys, numpairs as int, arg, offset as int) ==> !key_matches(
                    arg,
                    offset as int,
                    #[trigger] keys[q],
                ),
            *argidx == *old(argidx),
            *mem == *old(mem),
            *failedarg == *old(failedarg),
            j == 0 ==> *arg_used == *old(arg_used),
            j > 0 ==> *arg_used == SUNFALSE,
            forall|q: int| 0 <= q < j ==> !key_matches(arg, offset as int, #[trigger] keys[q]),
            forall|q: int, m: &mut M, a: &str|
                0 <= q < numpairs ==> #[trigger] testpairs@[q].set.requires((m, a)),
        decreases numpairs - j,
    {
        *arg_used = SUNFALSE;
        let hit = suffix_is(argv[*argidx as usize].as_str(), offset, testpairs[j as usize].key);
        assert(keys[j as int] == testpairs@[j as int].key@);
        if hit {
            assert(first_match(keys, numpairs as int, arg, offset as int) == j);
            *argidx += 1;
            let retval = (testpairs[j as usize].set)(mem, argv[*argidx as usize].as_str());
            if retval != SUN_SUCCESS {
                *failedarg = j;
                return retval;
            }
            *arg_used = SUNTRUE;
            return SUN_SUCCESS;
        }
        j += 1;
    }
    proof {
        if numpairs > 0 {
            let f = first_match(keys, numpairs as int, arg, offset as int);
            if f < numpairs {
                assert(!key_matches(arg, offset as int, keys[f]));
            }
        }
    }
    SUN_SUCCESS
}

/// A key and the setter that takes two text values.
#[derive(Clone, Copy)]
pub struct sunKeyTwoCharPair<F> {
    pub key: &'static str,
    pub set: F,
}

pub open spec fn two_char_keys<F>(p: Seq<sunKeyTwoCharPair<F>>) -> Seq<Seq<char>> {
    p.map_values(|q: sunKeyTwoCharPair<F>| q.key@)
}

/// As `sunCheckAndSetTwoIntArgs`, with both value arguments handed to the
/// setter as text; both are read before the index advances past them.
pub fn sunCheckAndSetTwoCharArgs<M, F: Fn(&mut M, &str, &str) -> i32>(
    mem: &mut M,
    argidx: &mut i32,
    argv: &[String],
    offset: usize,
    testpairs: &[sunKeyTwoCharPair<F>],
    numpairs: i32,
    arg_used: &mut sunbooleantype,
    failedarg: &mut i32,
) -> (retval: i32)
    requires
        cli_requires(two_char_keys(testpairs@), numpairs, *old(argidx), argv@, offset, 2),
        forall|j: int, m: &mut M, a: &str, b: &str|
            0 <= j < numpairs ==> #[trigger] testpairs@[j].set.requires((m, a, b)),
    ensures
        numpairs <= 0 ==> retval == SUN_SUCCESS,
        numpairs <= 0 ==> *final(argidx) == *old(argidx),
        numpairs <= 0 ==> *final(arg_used) == *old(arg_used),
        numpairs <= 0 ==> *final(failedarg) == *old(failedarg),
        numpairs <= 0 ==> *final(mem) == *old(mem),
        numpairs > 0 && cli_match(two_char_keys(testpairs@), numpairs, *old(argidx), argv@, offset)
            == numpairs ==> retval == SUN_SUCCESS && *final(argidx) == *old(argidx)
            && *final(arg_used) == SUNFALSE && *final(failedarg) == *old(failedarg)
            && *final(mem) == *old(mem),
        numpairs > 0 && cli_match(two_char_keys(testpairs@), numpairs, *old(argidx), argv@, offset)
            < numpairs ==> ({
            let j = cli_match(two_char_keys(testpairs@), numpairs, *old(argidx), argv@, offset);
            &&& *final(argidx) == *old(argidx) + 2
            &&& exists|m: &mut M|
                *m == *old(mem) && *final(m) == *final(mem) && exists|t1: &str, t2: &str|
                    t1@ == argv@[*old(argidx) + 1]@ && t2@ == argv@[*old(argidx) + 2]@
                        && testpairs@[j].set.ensures((m, t1, t2), retval)
            &&& cli_result(retval, j, *old(failedarg), *final(failedarg), *final(arg_used))
        }),
{
    let ghost keys = two_char_keys(testpairs@);
    let ghost arg = argv@[*argidx as int]@;
    let mut j: i32 = 0;
    proof {
        if numpairs > 0 {
            lemma_first_match(keys, numpairs as int, arg, offset as int);
        }
    }
    while j < numpairs
        invariant
            0 <= j,
            numpairs > 0 ==> j <= numpairs,
            numpairs <= 0 ==> j == 0,
            keys == two_char_keys(testpairs@),
            cli_requires(keys, numpairs, *argidx, argv@, offset, 2),
            numpairs > 0 ==> arg == argv@[*argidx as int]@,
            numpairs > 0 ==> 0 <= first_match(keys, numpairs as int, arg, offset as int) <= numpairs,
            numpairs > 0 && first_match(keys, numpairs as int, arg, offset as int) < numpairs ==> key_matches(
                arg,
                offset as int,
                keys[first_match(keys, numpairs as int, arg, offset as int)],
            ),
            numpairs > 0 ==> forall|q: int|
                0 <= q < first_match(keys, numpairs as int, arg, offset as int) ==> !key_matches(
                    arg,
                    offset as int,
                    #[trigger] keys[q],
                ),
            *argidx == *old(argidx),
            *mem == *old(mem),
            *failedarg == *old(failedarg),
            j == 0 ==> *arg_used == *old(arg_used),
            j > 0 ==> *arg_used == SUNFALSE,
            forall|q: int| 0 <= q < j ==> !key_matches(arg, offset as int, #[trigger] keys[q]),
            forall|q: int, m: &mut M, a: &str, b: &str|
                0 <= q < numpairs ==> #[trigger] testpairs@[q].set.requires((m, a, b)),
        decreases numpairs - j,
    {
        *arg_used = SUNFALSE;
        let hit = suffix_is(argv[*argidx as usize].as_str(), offset, testpairs[j as usize].key);
        assert(keys[j as int] == testpairs@[j as int].key@);
        if hit {
            assert(first_match(keys, numpairs as int, arg, offset as int) == j);
            let retval = (testpairs[j as usize].set)(
                mem,
                argv[(*argidx + 1) as usize].as_str(),
                argv[(*argidx + 2) as usize].as_str(),
            );
            *argidx += 2;
            if retval != SUN_SUCCESS {
                *failedarg = j;
                return retval;
            }
            *arg_used = SUNTRUE;
            return SUN_SUCCESS;
        }
        j += 1;
    }
    proof {
        if numpairs > 0 {
            let f = first_match(keys, numpairs as int, arg, offset as int);
            if f < numpairs {
                assert(!key_matches(arg, offset as int, keys[f]));
            }
        }
    }
    SUN_SUCCESS
}

/// A key and the setter that takes no value.
#[derive(Clone, Copy)]
pub struct sunKeyActionPair<F> {
    pub key: &'static str,
    pub set: F,
}

pub open spec fn action_keys<F>(p: Seq<sunKeyActionPair<F>>) -> Seq<Seq<char>> {
    p.map_values(|q: sunKeyActionPair<F>| q.key@)
}

/// Where `argv[*argidx]`, less its `offset`-byte prefix, equals the key of
/// one of the first `numpairs` pairs (the first such), call that pair's
/// setter, which takes no value; the index does not move. Return codes,
/// `failedarg` and `arg_used` as in `sunCheckAndSetActionArgs`.
pub fn sunCheckAndSetActionArgs<M, F: Fn(&mut M) -> i32>(
    mem: &mut M,
    argidx: &mut i32,
    argv: &[String],
    offset: usize,
    testpairs: &[sunKeyActionPair<F>],
    numpairs: i32,
    arg_used: &mut sunbooleantype,
    failedarg: &mut i32,
) -> (retval: i32)
    requires
        cli_requires(action_keys(testpairs@), numpairs, *old(argidx), argv@, offset, 0),
        forall|j: int, m: &mut M|
            0 <= j < numpairs ==> #[trigger] testpairs@[j].set.requires((m,)),
    ensures
        numpairs <= 0 ==> retval == SUN_SUCCESS,
        numpairs <= 0 ==> *final(argidx) == *old(argidx),
        numpairs <= 0 ==> *final(arg_used) == *old(arg_used),
        numpairs <= 0 ==> *final(failedarg) == *old(failedarg),
        numpairs <= 0 ==> *final(mem) == *old(mem),
        numpairs > 0 && cli_match(action_keys(testpairs@), numpairs, *old(argidx), argv@, offset)
            == numpairs ==> retval == SUN_SUCCESS && *final(argidx) == *old(argidx)
            && *final(arg_used) == SUNFALSE && *final(failedarg) == *old(failedarg)
            && *final(mem) == *old(mem),
        numpairs > 0 && cli_match(action_keys(testpairs@), numpairs, *old(argidx), argv@, offset)
            < numpairs ==> ({
            let j = cli_match(action_keys(testpairs@), numpairs, *old(argidx), argv@, offset);
            &&& *final(argidx) == *old(argidx) + 0
            &&& exists|m: &mut M|
                *m == *old(mem) && *final(m) == *final(mem) && testpairs@[j].set.ensures((m,), retval)
            &&& cli_result(retval, j, *old(failedarg), *final(failedarg), *final(arg_used))
        }),
{
    let ghost keys = action_keys(testpairs@);
    let ghost arg = argv@[*argidx as int]@;
    let mut j: i32 = 0;
    proof {
        if numpairs > 0 {
            lemma_first_match(keys, numpairs as int, arg, offset as int);
        }
    }
    while j < numpairs
        invariant
            0 <= j,
            numpairs > 0 ==> j <= numpairs,
            numpairs <= 0 ==> j == 0,
            keys == action_keys(testpairs@),
            cli_requires(keys, numpairs, *argidx, argv@, offset, 0),
            numpairs > 0 ==> arg == argv@[*argidx as int]@,
            numpairs > 0 ==> 0 <= first_match(keys, numpairs as int, arg, offset as int) <= numpairs,
            numpairs > 0 && first_match(keys, numpairs as int, arg, offset as int) < numpairs ==> key_matches(
                arg,
                offset as int,
                keys[first_match(keys, numpairs as int, arg, offset as int)],
            ),
            numpairs > 0 ==> forall|q: int|
                0 <= q < first_match(keys, numpairs as int, arg, offset as int) ==> !key_matches(
                    arg,
                    offset as int,
                    #[trigger] keys[q],
                ),
            *argidx == *old(argidx),
            *mem == *old(mem),
            *failedarg == *old(failedarg),
            j == 0 ==> *arg_used == *old(arg_used),
            j > 0 ==> *arg_used == SUNFALSE,
            forall|q: int| 0 <= q < j ==> !key_matches(arg, offset as int, #[trigger] keys[q]),
            forall|q: int, m: &mut M|
                0 <= q < numpairs ==> #[trigger] testpairs@[q].set.requires((m,)),
        decreases numpairs - j,
    {
        *arg_used = SUNFALSE;
        let hit = suffix_is(argv[*argidx as usize].as_str(), offset, testpairs[j as usize].key);
        assert(keys[j as int] == testpairs@[j as int].key@);
        if hit {
            assert(first_match(keys, numpairs as int, arg, offset as int) == j);
            let retval = (testpairs[j as usize].set)(mem);
            if retval != SUN_SUCCESS {
                *failedarg = j;
                return retval;
            }
            *arg_used = SUNTRUE;
            return SUN_SUCCESS;
        }
        j += 1;
    }
    proof {
        if numpairs > 0 {
            let f = first_match(keys, numpairs as int, arg, offset as int);
            if f < numpairs {
                assert(!key_matches(arg, offset as int, keys[f]));
            }
        }
    }
    SUN_SUCCESS
}

pub open spec fn str_keys(keys: Seq<&str>) -> Seq<Seq<char>> {
    keys.map_values(|k: &str| k@)
}

/// The number of the first of the first `numpairs` keys that
/// `argv[argidx]`, less its `offset`-byte prefix, equals, or `numpairs`
/// when none does.
pub fn sunFindKey(argidx: i32, argv: &[String], offset: usize, keys: &[&str], numpairs: i32) -> (j: i32)
    requires
        0 < numpairs <= keys@.len(),
        0 <= argidx < argv@.len(),
        cuttable(argv@[argidx as int]@, offset as int),
    ensures
        j == cli_match(str_keys(keys@), numpairs, argidx, argv@, offset),
{
    let ghost keysv = str_keys(keys@);
    let ghost arg = argv@[argidx as int]@;
    proof {
        lemma_first_match(keysv, numpairs as int, arg, offset as int);
    }
    let mut j: i32 = 0;
    while j < numpairs
        invariant
            0 <= j <= numpairs,
            numpairs <= keys@.len(),
            0 <= argidx < argv@.len(),
            keysv == str_keys(keys@),
            arg == argv@[argidx as int]@,
            0 <= first_match(keysv, numpairs as int, arg, offset as int) <= numpairs,
            first_match(keysv, numpairs as int, arg, offset as int) < numpairs ==> key_matches(
                arg,
                offset as int,
                keysv[first_match(keysv, numpairs as int, arg, offset as int)],
            ),
            forall|q: int|
                0 <= q < first_match(keysv, numpairs as int, arg, offset as int) ==> !key_matches(
                    arg,
                    offset as int,
                    #[trigger] keysv[q],
                ),
            forall|q: int| 0 <= q < j ==> !key_matches(arg, offset as int, #[trigger] keysv[q]),
        decreases numpairs - j,
    {
        assert(keysv[j as int] == keys@[j as int]@);
        if suffix_is(argv[argidx as usize].as_str(), offset, keys[j as usize]) {
            return j;
        }
        j += 1;
    }
    proof {
        let f = first_match(keysv, numpairs as int, arg, offset as int);
        if f < numpairs {
            assert(!key_matches(arg, offset as int, keysv[f]));
        }
    }
    numpairs
}

/// Where `argv[*argidx]`, less its `offset`-byte prefix, equals one of the
/// first `numpairs` keys (the first such, `j`), consume the `nvals` value
/// arguments after it and hand the option's number `j` and the index of
/// its first value to `apply`, which reads the values and runs the option's
/// setter. Return codes, `failedarg` and `arg_used` as in
/// `sunCheckAndSetIntArgs`. This is the matching shared by options whose
/// values the library does not read itself.
pub fn sunCheckAndSetValueArgs<M, A: Fn(&mut M, usize, usize) -> i32>(
    mem: &mut M,
    argidx: &mut i32,
    argv: &[String],
    offset: usize,
    keys: &[&str],
    numpairs: i32,
    nvals: i32,
    arg_used: &mut sunbooleantype,
    failedarg: &mut i32,
    apply: A,
) -> (retval: i32)
    requires
        0 <= nvals,
        cli_requires(str_keys(keys@), numpairs, *old(argidx), argv@, offset, nvals as int),
        forall|m: &mut M, j: usize, i: usize| j < numpairs ==> #[trigger] apply.requires((m, j, i)),
    ensures
        numpairs <= 0 ==> retval == SUN_SUCCESS,
        numpairs <= 0 ==> *final(argidx) == *old(argidx),
        numpairs <= 0 ==> *final(arg_used) == *old(arg_used),
        numpairs <= 0 ==> *final(failedarg) == *old(failedarg),
        numpairs <= 0 ==> *final(mem) == *old(mem),
        numpairs > 0 && cli_match(str_keys(keys@), numpairs, *old(argidx), argv@, offset) == numpairs
            ==> retval == SUN_SUCCESS && *final(argidx) == *old(argidx) && *final(arg_used) == SUNFALSE
            && *final(failedarg) == *old(failedarg) && *final(mem) == *old(mem),
        numpairs > 0 && cli_match(str_keys(keys@), numpairs, *old(argidx), argv@, offset) < numpairs
            ==> ({
            let j = cli_match(str_keys(keys@), numpairs, *old(argidx), argv@, offset);
            &&& *final(argidx) == *old(argidx) + nvals
            &&& exists|m: &mut M|
                *m == *old(mem) && *final(m) == *final(mem) && apply.ensures(
                    (m, j as usize, (*old(argidx) + 1) as usize),
                    retval,
                )
            &&& cli_result(retval, j, *old(failedarg), *final(failedarg), *final(arg_used))
        }),
{
    let ghost keysv = str_keys(keys@);
    let ghost arg = argv@[*argidx as int]@;
    let mut j: i32 = 0;
    proof {
        if numpairs > 0 {
            lemma_first_match(keysv, numpairs as int, arg, offset as int);
        }
    }
    while j < numpairs
        invariant
            0 <= j,
            0 <= nvals,
            numpairs > 0 ==> j <= numpairs,
            numpairs <= 0 ==> j == 0,
            keysv == str_keys(keys@),
            cli_requires(keysv, numpairs, *argidx, argv@, offset, nvals as int),
            numpairs > 0 ==> arg == argv@[*argidx as int]@,
            numpairs > 0 ==> 0 <= first_match(keysv, numpairs as int, arg, offset as int) <= numpairs,
            numpairs > 0 && first_match(keysv, numpairs as int, arg, offset as int) < numpairs ==> key_matches(
                arg,
                offset as int,
                keysv[first_match(keysv, numpairs as int, arg, offset as int)],
            ),
            numpairs > 0 ==> forall|q: int|
                0 <= q < first_match(keysv, numpairs as int, arg, offset as int) ==> !key_matches(
                    arg,
                    offset as int,
                    #[trigger] keysv[q],
                ),
            *argidx == *old(argidx),
            *mem == *old(mem),
            *failedarg == *old(failedarg),
            j == 0 ==> *arg_used == *old(arg_used),
            j > 0 ==> *arg_used == SUNFALSE,
            forall|q: int| 0 <= q < j ==> !key_matches(arg, offset as int, #[trigger] keysv[q]),
            forall|m: &mut M, q: usize, i: usize| q < numpairs ==> #[trigger] apply.requires((m, q, i)),
        decreases numpairs - j,
    {
        *arg_used = SUNFALSE;
        let hit = suffix_is(argv[*argidx as usize].as_str(), offset, keys[j as usize]);
        assert(keysv[j as int] == keys@[j as int]@);
        if hit {
            assert(first_match(keysv, numpairs as int, arg, offset as int) == j);
            let first: usize = *argidx as usize + 1;
            *argidx += nvals;
            let retval = apply(mem, j as usize, first);
            if retval != SUN_SUCCESS {
                *failedarg = j;
                return retval;
            }
            *arg_used = SUNTRUE;
            return SUN_SUCCESS;
        }
        j += 1;
    }
    proof {
        if numpairs > 0 {
            let f = first_match(keysv, numpairs as int, arg, offset as int);
            if f < numpairs {
                assert(!key_matches(arg, offset as int, keysv[f]));
            }
        }
    }
    SUN_SUCCESS
}

/// An option that a set-from-command-line routine reads: its key, and how
/// many value arguments follow it.
#[derive(Clone, Copy)]
pub struct sunOptionSpec {
    pub key: &'static str,
    pub nvals: usize,
}

/// An option found on the command line: which of the options it is, and
/// the index of its first value argument.
#[derive(Clone, Copy, PartialEq, Eq, Structural, Debug)]
pub struct sunOptionHit {
    pub which: usize,
    pub first: usize,
}

/// The options as key texts and value counts.
pub open spec fn option_table(specs: Seq<sunOptionSpec>) -> Seq<(Seq<char>, usize)> {
    specs.map_values(|o: sunOptionSpec| (o.key@, o.nvals))
}

pub open spec fn table_keys(table: Seq<(Seq<char>, usize)>) -> Seq<Seq<char>> {
    table.map_values(|e: (Seq<char>, usize)| e.0)
}

pub open spec fn opt_text(s: Option<&str>) -> Option<Seq<char>> {
    match s {
        Some(t) => Some(t@),
        None => None,
    }
}

/// The bytes that select a routine's options: `<id>.`, with the given id
/// when it is set and not empty, else the default one.
pub open spec fn option_prefix(cid: Option<Seq<char>>, default_id: Seq<char>) -> Seq<u8> {
    let id = match cid {
        Some(t) => if t.len() > 0 {
            t
        } else {
            default_id
        },
        None => default_id,
    };
    encode_utf8(id) + seq![46u8]
}

pub open spec fn starts_with_bytes(a: Seq<u8>, p: Seq<u8>) -> bool {
    p.len() <= a.len() && a.subrange(0, p.len() as int) == p
}

/// The options found from argument `idx` on, in order, and whether every
/// option found is followed by all of its values. An argument that does
/// not start with the prefix, or whose rest names no option, is skipped;
/// an option takes its values with it; the scan stops at an option whose
/// values run past the last argument.
pub open spec fn scan_options(argv: Seq<String>, prefix: Seq<u8>, table: Seq<(Seq<char>, usize)>, idx: int) -> (
    Seq<sunOptionHit>,
    bool,
)
    decreases argv.len() - idx,
{
    if idx < 0 || idx >= argv.len() {
        (Seq::empty(), true)
    } else if !starts_with_bytes(encode_utf8(argv[idx]@), prefix) {
        scan_options(argv, prefix, table, idx + 1)
    } else {
        let k = first_match(table_keys(table), table.len() as int, argv[idx]@, prefix.len() as int);
        if k >= table.len() {
            scan_options(argv, prefix, table, idx + 1)
        } else if idx + table[k].1 >= argv.len() {
            (Seq::empty(), false)
        } else {
            let rest = scan_options(argv, prefix, table, idx + table[k].1 + 1);
            (seq![sunOptionHit { which: k as usize, first: (idx + 1) as usize }] + rest.0, rest.1)
        }
    }
}

fn prefix_is(arg: &str, p: &Vec<u8>) -> (r: bool)
    ensures
        r == starts_with_bytes(encode_utf8(arg@), p@),
{
    let a = arg.as_bytes();
    assert(a@ == encode_utf8(arg@));
    if p.len() > a.len() {
        return false;
    }
    let mut i: usize = 0;
    while i < p.len()
        invariant
            a@ == encode_utf8(arg@),
            p@.len() <= a@.len(),
            0 <= i <= p@.len(),
            forall|j: int| 0 <= j < i ==> a@[j] == p@[j],
        decreases p@.len() - i,
    {
        if a[i] != p[i] {
            assert(a@.subrange(0, p@.len() as int)[i as int] != p@[i as int]);
            return false;
        }
        i = i + 1;
    }
    assert(a@.subrange(0, p@.len() as int) =~= p@);
    true
}

/// Scan `argv`, from its second argument on, for the options `specs`
/// prefixed by `<id>.` (see `scan_options`): the options found, in order,
/// and whether every one of them is followed by all of its values.
pub fn sunScanPrefixedOptions(
    cid: Option<&str>,
    default_id: &str,
    argv: &[String],
    specs: &[sunOptionSpec],
) -> (r: (Vec<sunOptionHit>, bool))
    ensures
        (r.0@, r.1) == scan_options(argv@, option_prefix(opt_text(cid), default_id@), option_table(specs@), 1),
{
    let id: &str = match cid {
        Some(t) => if t.is_empty() {
            default_id
        } else {
            t
        },
        None => default_id,
    };
    let b = id.as_bytes();
    let mut prefix: Vec<u8> = Vec::new();
    let mut i: usize = 0;
    while i < b.len()
        invariant
            0 <= i <= b@.len(),
            prefix@ == b@.subrange(0, i as int),
        decreases b@.len() - i,
    {
        prefix.push(b[i]);
        i = i + 1;
    }
    prefix.push(46u8);
    let ghost pre = option_prefix(opt_text(cid), default_id@);
    assert(b@ == encode_utf8(id@));
    assert(prefix@ =~= pre);
    let ghost table = option_table(specs@);
    let ghost keys = table_keys(table);
    let ghost total = scan_options(argv@, pre, table, 1);
    let mut hits: Vec<sunOptionHit> = Vec::new();
    let n = argv.len();
    let mut idx: usize = 1;
    if n == 0 {
        return (hits, true);
    }
    while idx < n
        invariant
            n == argv@.len(),
            1 <= idx <= n,
            prefix@ == pre,
            pre == option_prefix(opt_text(cid), default_id@),
            table == option_table(specs@),
            keys == table_keys(table),
            total == scan_options(argv@, pre, table, 1),
            total.0 == hits@ + scan_options(argv@, pre, table, idx as int).0,
            total.1 == scan_options(argv@, pre, table, idx as int).1,
        decreases n - idx,
    {
        let arg = argv[idx].as_str();
        if !prefix_is(arg, &prefix) {
            idx = idx + 1;
            continue;
        }
        let plen = prefix.len();
        let ghost a = argv@[idx as int]@;
        proof {
            lemma_first_match(keys, table.len() as int, a, plen as int);
        }
        let mut j: usize = 0;
        let mut found: bool = false;
        while j < specs.len()
            invariant_except_break
                !found,
            invariant
                0 <= j <= specs@.len(),
                n == argv@.len(),
                idx < n,
                table == option_table(specs@),
                keys == table_keys(table),
                a == argv@[idx as int]@,
                arg@ == a,
                0 <= first_match(keys, table.len() as int, a, plen as int) <= table.len(),
                first_match(keys, table.len() as int, a, plen as int) < table.len() ==> key_matches(
                    a,
                    plen as int,
                    keys[first_match(keys, table.len() as int, a, plen as int)],
                ),
                forall|q: int| 0 <= q < first_match(keys, table.len() as int, a, plen as int)
                    ==> !key_matches(a, plen as int, #[trigger] keys[q]),
                forall|q: int| 0 <= q < j ==> !key_matches(a, plen as int, #[trigger] keys[q]),
            ensures
                found ==> j < specs@.len() && key_matches(a, plen as int, keys[j as int]),
                !found ==> j == specs@.len(),
            decreases specs@.len() - j,
        {
            assert(keys[j as int] == specs@[j as int].key@);
            if suffix_is(arg, plen, specs[j].key) {
                found = true;
                break;
            }
            j = j + 1;
        }
        proof {
            let f = first_match(keys, table.len() as int, a, plen as int);
            if found {
                assert(f == j);
            } else if f < table.len() {
                assert(!key_matches(a, plen as int, keys[f]));
            }
        }
        if !found {
            idx = idx + 1;
            continue;
        }
        let nv = specs[j].nvals;
        assert(table[j as int].1 == nv);
        if nv >= n - idx {
            proof {
                let f = first_match(keys, table.len() as int, a, plen as int);
                assert(f == j);
                assert(scan_options(argv@, pre, table, idx as int) == (Seq::<sunOptionHit>::empty(), false));
                assert(hits@ + Seq::<sunOptionHit>::empty() =~= hits@);
            }
            return (hits, false);
        }
        let ghost before = hits@;
        hits.push(sunOptionHit { which: j, first: idx + 1 });
        proof {
            let rest = scan_options(argv@, pre, table, idx + nv + 1);
            assert(scan_options(argv@, pre, table, idx as int).0 == seq![sunOptionHit { which: j, first: (idx + 1) as usize }] + rest.0);
            assert(hits@ + rest.0 =~= before + (seq![sunOptionHit { which: j, first: (idx + 1) as usize }] + rest.0));
        }
        idx = idx + nv + 1;
    }
    assert(hits@ + Seq::<sunOptionHit>::empty() =~= hits@);
    (hits, true)
}

/// A scan from `idx` over arguments none of which starts with the prefix
/// finds nothing and is complete.
proof fn lemma_scan_no_options(argv: Seq<String>, prefix: Seq<u8>, table: Seq<(Seq<char>, usize)>, idx: int)
    requires
        0 <= idx,
        forall|i: int| idx <= i < argv.len() ==> !starts_with_bytes(#[trigger] encode_utf8(argv[i]@), prefix),
    ensures
        scan_options(argv, prefix, table, idx) == (Seq::<sunOptionHit>::empty(), true),
    decreases argv.len() - idx,
{
    if idx < argv.len() {
        assert(!starts_with_bytes(encode_utf8(argv[idx]@), prefix));
        lemma_scan_no_options(argv, prefix, table, idx + 1);
    }
}

/// A command line made of the program, one option and arguments that are
/// not options: the scan finds that option with its first value at index
/// two when all its values are there, and reports it incomplete when they
/// are not.
pub proof fn lemma_scan_one_option(
    argv: Seq<String>,
    prefix: Seq<u8>,
    table: Seq<(Seq<char>, usize)>,
    j: int,
    key: Seq<char>,
)
    requires
        0 <= j < table.len(),
        table[j].0 == key,
        forall|q: int| 0 <= q < j ==> (#[trigger] table[q]).0 != key,
        argv.len() >= 2,
        encode_utf8(argv[1]@) == prefix + encode_utf8(key),
        forall|i: int| 2 <= i < argv.len() ==> !starts_with_bytes(#[trigger] encode_utf8(argv[i]@), prefix),
    ensures
        argv.len() >= 2 + table[j].1 ==> scan_options(argv, prefix, table, 1) == (
            seq![sunOptionHit { which: j as usize, first: 2 }],
            true,
        ),
        argv.len() < 2 + table[j].1 ==> scan_options(argv, prefix, table, 1) == (Seq::<sunOptionHit>::empty(), false),
{
    let keys = table_keys(table);
    let arg = argv[1]@;
    let b = encode_utf8(arg);
    let off = prefix.len() as int;
    assert(b.subrange(0, off) =~= prefix);
    assert(starts_with_bytes(b, prefix));
    assert(b.subrange(off, b.len() as int) =~= encode_utf8(key));
    assert forall|q: int| 0 <= q < table.len() implies key_matches(arg, off, #[trigger] keys[q]) <==> keys[q] == key by {
        assert(keys[q] == table[q].0);
        if key_matches(arg, off, keys[q]) {
            assert(encode_utf8(keys[q]) == encode_utf8(key));
            vstd::utf8::encode_utf8_decode_utf8(keys[q]);
            vstd::utf8::encode_utf8_decode_utf8(key);
        }
    }
    lemma_first_match(keys, table.len() as int, arg, off);
    let f = first_match(keys, table.len() as int, arg, off);
    assert(keys[j] == key);
    if f < j {
        assert(keys[f] == table[f].0);
        assert(key_matches(arg, off, keys[f]));
    }
    if f > j {
        assert(!key_matches(arg, off, keys[j]));
    }
    assert(f == j);
    lemma_scan_no_options(argv, prefix, table, 2 + table[j].1);
}

} // verus!
