use vstd::prelude::*;

verus! {

/// The fixed, well-known name of the container file. The name is a
/// compatibility contract with the host game's install layout.
pub const STEP_DAT_FILE: &'static str = "STEP.DAT";

/// The fixed, well-known name of the loose-files step directory.
pub const STEP_DIR: &'static str = "STEP";

/// Decides where the step data lives. The caller checks the working
/// directory and hands in two plain facts: whether the container file
/// exists as a regular file, and whether the step directory exists as a
/// directory.
///
/// The checks run in fixed priority order: a present container file wins
/// (`Some(true)`), else a present step directory (`Some(false)`), else
/// neither (`None`). When both exist, the container takes priority and the
/// directory is never considered.
pub fn is_step_dat(step_dat_is_file: bool, step_dir_is_dir: bool) -> (r: Option<bool>)
    ensures
        r == (if step_dat_is_file {
            Some(true)
        } else if step_dir_is_dir {
            Some(false)
        } else {
            None::<bool>
        }),
        step_dat_is_file ==> r == Some(true),
{
    if step_dat_is_file {
        Some(true)
    } else if step_dir_is_dir {
        Some(false)
    } else {
        None
    }
}

} // verus!
