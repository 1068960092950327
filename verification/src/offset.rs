use vstd::prelude::*;

use crate::errors::StepError;
use crate::step::{mode_index, mode_at, LegacyMode, Split, StepData, StepFile, MODE_COUNT};

verus! {

/// A value clamped to the `i32` range.
pub open spec fn sat_i32(v: int) -> int {
    if v > i32::MAX as int {
        i32::MAX as int
    } else if v < i32::MIN as int {
        i32::MIN as int
    } else {
        v
    }
}

/// One block delay after the patch: the offset scaled by the fixed
/// multiplier of ten is added over the mathematical integers, and the sum
/// is clamped to the `i32` range — saturating, never wrapping.
pub open spec fn patched_delay(d: int, o: int) -> int {
    sat_i32(d + 10 * o)
}

/// Step data after one patch pass: every delay of the first split is
/// patched; every later split is left as it was.
pub open spec fn patched_data(d: Seq<Seq<int>>, o: int) -> Seq<Seq<int>>
    recommends
        d.len() > 0,
{
    d.update(0, d[0].map(|i: int, v: int| patched_delay(v, o)))
}

/// Why one chart's step data cannot be patched, if it cannot be.
pub open spec fn data_error(d: Seq<Seq<int>>) -> Option<StepError> {
    if d.len() == 0 {
        Some(StepError::NoSplitsFound)
    } else if d[0].len() == 0 {
        Some(StepError::NoBlocksInFirstSplit)
    } else {
        None
    }
}

/// One patched delay, computed exactly: the scale and the sum are taken
/// in a wider type, so the only clamp is the final one to the `i32`
/// bounds.
pub fn patch_delay_value(d: i32, offset: i32) -> (r: i32)
    ensures
        r as int == patched_delay(d as int, offset as int),
{
    let sum: i64 = d as i64 + (offset as i64) * 10;
    if sum > i32::MAX as i64 {
        i32::MAX
    } else if sum < i32::MIN as i64 {
        i32::MIN
    } else {
        sum as i32
    }
}

/// Patches one chart's step data in place: requires at least one split and
/// at least one block in the first split, then adds ten times the offset
/// to every delay of the first split, saturating rather than wrapping. On
/// failure the data is left exactly as it was.
pub fn patch_first_split(data: &mut StepData, offset: i32) -> (r: Result<(), StepError>)
    ensures
        match r {
            Ok(()) => data_error(old(data)@) is None && final(data)@ == patched_data(
                old(data)@,
                offset as int,
            ),
            Err(e) => final(data)@ == old(data)@ && data_error(old(data)@) == Some(e),
        },
{
    if data.splits.len() == 0 {
        return Err(StepError::NoSplitsFound);
    }
    if data.splits[0].blocks.len() == 0 {
        return Err(StepError::NoBlocksInFirstSplit);
    }
    let n = data.splits[0].blocks.len();
    let mut blocks: Vec<crate::step::Block> = Vec::new();
    let mut i: usize = 0;
    while i < n
        invariant
            n == old(data)@[0].len(),
            data == old(data),
            data@.len() > 0,
            i <= n,
            blocks@.len() == i,
            forall|j: int| 0 <= j < i ==> blocks@[j].delay_ms as int == patched_delay(
                old(data)@[0][j],
                offset as int,
            ),
        decreases n - i,
    {
        let d0 = data.splits[0].blocks[i].delay_ms;
        blocks.push(crate::step::Block { delay_ms: patch_delay_value(d0, offset) });
        i = i + 1;
    }
    data.splits[0] = Split { blocks };
    proof {
        assert(data@ =~~= patched_data(old(data)@, offset as int));
    }
    Ok(())
}

/// The patch stated block by block: after one pass the first split's
/// delays are exactly the old delays with ten times the offset added and
/// the sum clamped to the `i32` range, and the delays of every split
/// other than the first are unchanged.
pub proof fn lemma_patched_data_blocks(d: Seq<Seq<int>>, o: int)
    requires
        d.len() > 0,
    ensures
        patched_data(d, o).len() == d.len(),
        patched_data(d, o)[0].len() == d[0].len(),
        forall|i: int| 0 <= i < d[0].len() ==> patched_data(d, o)[0][i] == sat_i32(d[0][i] + 10 * o),
        forall|s: int| 1 <= s < d.len() ==> patched_data(d, o)[s] == d[s],
{
}

/// Patching one chart with offset `o` and then with offset `-o` restores
/// every delay, provided no patched delay saturated: each first-split sum
/// stays within the `i32` range. (Where saturation clamps a value, the
/// patch is not invertible.)
pub proof fn lemma_offset_round_trip(d: Seq<Seq<int>>, o: int)
    requires
        d.len() > 0,
        forall|i: int| 0 <= i < d[0].len() ==> i32::MIN as int <= #[trigger] d[0][i] <= i32::MAX as int,
        forall|i: int|
            0 <= i < d[0].len() ==> i32::MIN as int <= #[trigger] d[0][i] + 10 * o <= i32::MAX as int,
    ensures
        patched_data(patched_data(d, o), -o) == d,
{
    let p1 = patched_data(d, o);
    let p2 = patched_data(p1, -o);
    assert forall|i: int| 0 <= i < d[0].len() implies p2[0][i] == d[0][i] by {
        assert(p1[0][i] == d[0][i] + 10 * o);
    }
    assert(p2 =~~= d);
}

/// The result of running the per-mode patch passes `n` modes deep: pass
/// `m` reads mode `m`'s chart as it stood before the whole run, exactly
/// once, patches its first split, and commits the result as mode `m`'s
/// chart; the first chart that cannot be patched stops the run with its
/// error, committing nothing of that mode or any later one.
pub open spec fn apply_spec(cs: Seq<Seq<Seq<int>>>, o: int, n: nat) -> (
    Seq<Seq<Seq<int>>>,
    Option<StepError>,
)
    decreases n,
{
    if n == 0 {
        (cs, None)
    } else {
        let prev = apply_spec(cs, o, (n - 1) as nat);
        if prev.1 is Some {
            prev
        } else {
            match data_error(cs[n - 1]) {
                Some(err) => (prev.0, Some(err)),
                None => (prev.0.update(n - 1, patched_data(cs[n - 1], o)), None),
            }
        }
    }
}

/// Once a pass has failed, running further passes changes nothing: the run
/// is stopped at the first failure.
pub proof fn lemma_apply_spec_stable(cs: Seq<Seq<Seq<int>>>, o: int, n: nat, m: nat)
    requires
        n <= m,
        apply_spec(cs, o, n).1 is Some,
    ensures
        apply_spec(cs, o, m) == apply_spec(cs, o, n),
    decreases m,
{
    if m > n {
        lemma_apply_spec_stable(cs, o, n, (m - 1) as nat);
    }
}

/// When every chart can be patched, the run succeeds and each mode's
/// chart is exactly its pre-call data with the first split patched:
/// every other split, and nothing else of the file, changes.
pub proof fn lemma_apply_spec_success(cs: Seq<Seq<Seq<int>>>, o: int, n: nat)
    requires
        n <= cs.len(),
        forall|m: int| 0 <= m < n ==> data_error(#[trigger] cs[m]) is None,
    ensures
        apply_spec(cs, o, n).1 is None,
        apply_spec(cs, o, n).0.len() == cs.len(),
        forall|m: int| 0 <= m < n ==> apply_spec(cs, o, n).0[m] == patched_data(cs[m], o),
        forall|j: int| n <= j < cs.len() ==> apply_spec(cs, o, n).0[j] == cs[j],
    decreases n,
{
    if n > 0 {
        lemma_apply_spec_success(cs, o, (n - 1) as nat);
    }
}

/// The first chart that cannot be patched decides a failing run: its
/// error comes back, the modes before it keep their committed patch, and
/// it and every mode after it keep their pre-call data — the no-partial-
/// commit scope is exactly one mode's mutation, with no cross-mode
/// rollback.
pub proof fn lemma_apply_spec_failure(cs: Seq<Seq<Seq<int>>>, o: int, n: nat, f: int)
    requires
        0 <= f < n,
        n <= cs.len(),
        data_error(cs[f]) is Some,
        forall|m: int| 0 <= m < f ==> data_error(#[trigger] cs[m]) is None,
    ensures
        apply_spec(cs, o, n).1 == data_error(cs[f]),
        apply_spec(cs, o, n).0.len() == cs.len(),
        forall|m: int| 0 <= m < f ==> apply_spec(cs, o, n).0[m] == patched_data(cs[m], o),
        forall|j: int| f <= j < cs.len() ==> apply_spec(cs, o, n).0[j] == cs[j],
    decreases n,
{
    if n - 1 > f {
        lemma_apply_spec_failure(cs, o, (n - 1) as nat, f);
    } else {
        lemma_apply_spec_success(cs, o, f as nat);
    }
}

/// Zero is the neutral offset: applying it changes nothing, for any file
/// whose charts hold `i32` delays and can be patched at all.
pub proof fn lemma_zero_offset_neutral(cs: Seq<Seq<Seq<int>>>, n: nat)
    requires
        n <= cs.len(),
        forall|m: int| 0 <= m < n ==> data_error(#[trigger] cs[m]) is None,
        forall|m: int, i: int|
            0 <= m < n && 0 <= i < cs[m][0].len() ==> i32::MIN as int <= #[trigger] cs[m][0][i]
                <= i32::MAX as int,
    ensures
        apply_spec(cs, 0, n) == (cs, None::<StepError>),
{
    lemma_apply_spec_success(cs, 0, n);
    assert forall|m: int| 0 <= m < n implies apply_spec(cs, 0, n).0[m] == cs[m] by {
        assert forall|i: int| 0 <= i < cs[m][0].len() implies patched_data(cs[m], 0)[0][i]
            == cs[m][0][i] by {
            assert(i32::MIN as int <= cs[m][0][i] <= i32::MAX as int);
        }
        assert(patched_data(cs[m], 0) =~~= cs[m]);
    }
    assert(apply_spec(cs, 0, n).0 =~~= cs);
}

/// Applying offset `o` and then offset `-o` to the same file restores
/// every chart exactly, provided every chart can be patched and no
/// first-split delay saturates: each sum stays within the `i32` range.
/// (Where saturation occurred, a clamped delay is not invertible.)
pub proof fn lemma_apply_round_trip(cs: Seq<Seq<Seq<int>>>, o: int, n: nat)
    requires
        n <= cs.len(),
        forall|m: int| 0 <= m < n ==> data_error(#[trigger] cs[m]) is None,
        forall|m: int, i: int|
            0 <= m < n && 0 <= i < cs[m][0].len() ==> i32::MIN as int <= #[trigger] cs[m][0][i]
                <= i32::MAX as int,
        forall|m: int, i: int|
            0 <= m < n && 0 <= i < cs[m][0].len() ==> i32::MIN as int <= #[trigger] cs[m][0][i] + 10
                * o <= i32::MAX as int,
    ensures
        apply_spec(cs, o, n).1 is None,
        apply_spec(apply_spec(cs, o, n).0, -o, n) == (cs, None::<StepError>),
{
    lemma_apply_spec_success(cs, o, n);
    let p = apply_spec(cs, o, n).0;
    assert forall|m: int| 0 <= m < n implies data_error(#[trigger] p[m]) is None by {
        lemma_patched_data_blocks(cs[m], o);
    }
    lemma_apply_spec_success(p, -o, n);
    assert forall|m: int| 0 <= m < n implies apply_spec(p, -o, n).0[m] == cs[m] by {
        lemma_offset_round_trip(cs[m], o);
    }
    assert(apply_spec(p, -o, n).0 =~~= cs);
}

/// Runs one legacy mode's patch pass on a step file: reads that mode's
/// chart, patches its first split, and commits the result back as that
/// mode's chart, touching no other mode. On failure the file is left
/// exactly as it was when the pass began.
pub fn apply_one_mode(file: &mut StepFile, mode: LegacyMode, offset: i32) -> (r: Result<
    (),
    StepError,
>)
    ensures
        final(file).version == old(file).version,
        match r {
            Ok(()) => data_error(old(file).spec_chart(mode)) is None && final(file).charts()
                == old(file).charts().update(
                mode_index(mode),
                patched_data(old(file).spec_chart(mode), offset as int),
            ),
            Err(e) => *final(file) == *old(file) && data_error(old(file).spec_chart(mode)) == Some(
                e,
            ),
        },
{
    let mut data = file.read_step_data(mode);
    match patch_first_split(&mut data, offset) {
        Ok(()) => {}
        Err(e) => {
            return Err(e);
        }
    }
    file.set_step_data(mode, data);
    Ok(())
}

/// Applies the offset to a step file: every legacy mode is visited exactly
/// once, in canonical order, each pass independently fallible. Each pass
/// patches the first split of its own mode's chart, from the data that
/// chart held before the call, so all modes are mutated consistently and
/// a delay is never patched twice. The first failing pass aborts the call
/// with its error; the passes already committed stay committed.
pub fn apply_offset(file: &mut StepFile, offset: i32) -> (r: Result<(), StepError>)
    ensures
        final(file).version == old(file).version,
        ({
            let outcome = apply_spec(old(file).charts(), offset as int, MODE_COUNT as nat);
            final(file).charts() == outcome.0 && match outcome.1 {
                Some(err) => r == Err::<(), StepError>(err),
                None => r == Ok::<(), StepError>(()),
            }
        }),
{
    let ghost cs0 = file.charts();
    let ghost o = offset as int;
    let mut i: usize = 0;
    while i < MODE_COUNT
        invariant
            i <= MODE_COUNT,
            file.version == old(file).version,
            cs0 == old(file).charts(),
            o == offset as int,
            apply_spec(cs0, o, i as nat) == (file.charts(), None::<StepError>),
            forall|j: int| i <= j < MODE_COUNT ==> file.charts()[j] == cs0[j],
        decreases MODE_COUNT - i,
    {
        let mode = mode_at(i);
        let ghost chart_m = file.spec_chart(mode);
        proof {
            assert(chart_m == file.charts()[mode_index(mode)]);
            assert(chart_m == cs0[i as int]);
        }
        match apply_one_mode(file, mode, offset) {
            Ok(()) => {
                proof {
                    assert(apply_spec(cs0, o, (i + 1) as nat) == (
                        file.charts(),
                        None::<StepError>,
                    ));
                }
            }
            Err(e) => {
                proof {
                    assert(apply_spec(cs0, o, (i + 1) as nat) == (
                        file.charts(),
                        Some(e),
                    ));
                    lemma_apply_spec_stable(cs0, o, (i + 1) as nat, MODE_COUNT as nat);
                }
                return Err(e);
            }
        }
        i = i + 1;
    }
    Ok(())
}

} // verus!
