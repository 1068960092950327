use vstd::prelude::*;

verus! {

/// The position right after the last `.` of a name, or `0` when the name
/// holds no `.` at all.
pub open spec fn last_dot_end(name: Seq<char>) -> int
    decreases name.len(),
{
    if name.len() == 0 {
        0
    } else if name.last() == '.' {
        name.len() as int
    } else {
        last_dot_end(name.drop_last())
    }
}

/// The position after the last dot always lies within the name.
pub proof fn lemma_last_dot_end_bounds(name: Seq<char>)
    ensures
        0 <= last_dot_end(name) <= name.len(),
    decreases name.len(),
{
    if name.len() > 0 && name.last() != '.' {
        lemma_last_dot_end_bounds(name.drop_last());
    }
}

/// A name's extension: everything after the last `.`, or the whole name
/// when it holds no `.`.
pub open spec fn spec_extension(name: Seq<char>) -> Seq<char> {
    name.subrange(last_dot_end(name), name.len() as int)
}

/// Whether a name's extension spells the step-file extension, compared
/// letter by letter without regard to case. A name without any `.` has no
/// extension and never matches.
pub open spec fn spec_is_step_name(name: Seq<char>) -> bool {
    let e = spec_extension(name);
    &&& last_dot_end(name) > 0
    &&& e.len() == 3
    &&& (e[0] == 's' || e[0] == 'S')
    &&& (e[1] == 't' || e[1] == 'T')
    &&& (e[2] == 'x' || e[2] == 'X')
}

/// Whether a directory entry or container member of this name is a step
/// file and is to be patched: its extension (the part after the last `.`)
/// must match the step-file extension, case-insensitively. A name holding
/// no `.` has no extension and is skipped.
pub fn is_step_file_name(name: &str) -> (r: bool)
    ensures
        r == spec_is_step_name(name@),
{
    proof {
        lemma_last_dot_end_bounds(name@);
    }
    let n = name.unicode_len();
    let mut start: usize = 0;
    let mut idx: usize = 0;
    while idx < n
        invariant
            idx <= n,
            n == name@.len(),
            start <= idx,
            start as int == last_dot_end(name@.subrange(0, idx as int)),
        decreases n - idx,
    {
        let c = name.get_char(idx);
        proof {
            assert(name@.subrange(0, idx + 1).drop_last() =~= name@.subrange(0, idx as int));
            assert(name@.subrange(0, idx + 1).last() == name@[idx as int]);
        }
        if c == '.' {
            start = idx + 1;
        }
        idx = idx + 1;
    }
    proof {
        assert(name@.subrange(0, n as int) =~= name@);
    }
    if start == 0 || n < start || n - start != 3 {
        return false;
    }
    let c0 = name.get_char(start);
    let c1 = name.get_char(start + 1);
    let c2 = name.get_char(start + 2);
    proof {
        assert(spec_extension(name@)[0] == name@[start as int]);
        assert(spec_extension(name@)[1] == name@[start as int + 1]);
        assert(spec_extension(name@)[2] == name@[start as int + 2]);
    }
    (c0 == 's' || c0 == 'S') && (c1 == 't' || c1 == 'T') && (c2 == 'x' || c2 == 'X')
}

} // verus!
