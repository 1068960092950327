use vstd::prelude::*;

verus! {

/// The smallest timing unit of a step file: one block with a delay in
/// milliseconds.
#[derive(Clone, Copy, Debug, PartialEq, Eq, Structural)]
pub struct Block {
    pub delay_ms: i32,
}

/// An ordered timing segment of a step file. Only the first split of a
/// chart is ever patched; the order of splits is significant.
#[derive(Debug)]
pub struct Split {
    pub blocks: Vec<Block>,
}

impl View for Split {
    type V = Seq<int>;

    /// A split is modelled by the sequence of its block delays.
    open spec fn view(&self) -> Seq<int> {
        self.blocks@.map(|i: int, b: Block| b.delay_ms as int)
    }
}

/// The step-timing data one legacy mode exposes: an ordered sequence of
/// splits.
#[derive(Debug)]
pub struct StepData {
    pub splits: Vec<Split>,
}

impl View for StepData {
    type V = Seq<Seq<int>>;

    /// Step data is modelled by its splits, each a sequence of delays.
    open spec fn view(&self) -> Seq<Seq<int>> {
        self.splits@.map(|i: int, s: Split| s@)
    }
}

/// The historical format variants a step file exposes simultaneously. The
/// canonical enumeration order is `V1`, `V2`, `V3`; every patch run visits
/// each variant exactly once in that order.
#[derive(Clone, Copy, Debug, PartialEq, Eq, Structural)]
pub enum LegacyMode {
    V1,
    V2,
    V3,
}

/// How many legacy modes exist.
pub const MODE_COUNT: usize = 3;

/// The position of a mode in the canonical enumeration order.
pub open spec fn mode_index(m: LegacyMode) -> int {
    match m {
        LegacyMode::V1 => 0,
        LegacyMode::V2 => 1,
        LegacyMode::V3 => 2,
    }
}

/// The mode at a position of the canonical enumeration order.
pub fn mode_at(i: usize) -> (m: LegacyMode)
    requires
        i < MODE_COUNT,
    ensures
        mode_index(m) == i as int,
{
    if i == 0 {
        LegacyMode::V1
    } else if i == 1 {
        LegacyMode::V2
    } else {
        LegacyMode::V3
    }
}

/// Every legacy mode, in the canonical enumeration order.
pub fn all_modes() -> (v: Vec<LegacyMode>)
    ensures
        v@ == seq![LegacyMode::V1, LegacyMode::V2, LegacyMode::V3],
{
    let mut v: Vec<LegacyMode> = Vec::new();
    v.push(LegacyMode::V1);
    v.push(LegacyMode::V2);
    v.push(LegacyMode::V3);
    proof {
        assert(v@ =~= seq![LegacyMode::V1, LegacyMode::V2, LegacyMode::V3]);
    }
    v
}

/// One decoded step file: the chart each legacy mode exposes — the same
/// logical timing data under several historical encodings — plus the
/// file's own (native) format version.
#[derive(Debug)]
pub struct StepFile {
    pub version: LegacyMode,
    pub chart_v1: StepData,
    pub chart_v2: StepData,
    pub chart_v3: StepData,
}

impl StepFile {
    /// The chart a given legacy mode exposes.
    pub open spec fn spec_chart(&self, m: LegacyMode) -> Seq<Seq<int>> {
        match m {
            LegacyMode::V1 => self.chart_v1@,
            LegacyMode::V2 => self.chart_v2@,
            LegacyMode::V3 => self.chart_v3@,
        }
    }

    /// All charts, indexed by the canonical mode order.
    pub open spec fn charts(&self) -> Seq<Seq<Seq<int>>> {
        seq![self.chart_v1@, self.chart_v2@, self.chart_v3@]
    }

    /// The file's native format version.
    pub fn get_version(&self) -> (v: LegacyMode)
        ensures
            v == self.version,
    {
        self.version
    }

    /// An owned copy of the chart the given legacy mode exposes, as the
    /// codec would hand it out on demand.
    pub fn read_step_data(&self, mode: LegacyMode) -> (d: StepData)
        ensures
            d@ == self.spec_chart(mode),
    {
        match mode {
            LegacyMode::V1 => copy_step_data(&self.chart_v1),
            LegacyMode::V2 => copy_step_data(&self.chart_v2),
            LegacyMode::V3 => copy_step_data(&self.chart_v3),
        }
    }

    /// Stores step data under the given format version or mode, replacing
    /// that chart and touching nothing else.
    pub fn set_step_data(&mut self, version: LegacyMode, data: StepData)
        ensures
            final(self).version == old(self).version,
            final(self).charts() == old(self).charts().update(mode_index(version), data@),
    {
        match version {
            LegacyMode::V1 => self.chart_v1 = data,
            LegacyMode::V2 => self.chart_v2 = data,
            LegacyMode::V3 => self.chart_v3 = data,
        }
        proof {
            assert(self.charts() =~= old(self).charts().update(mode_index(version), data@));
        }
    }
}

/// An owned, element-for-element copy of a split.
pub fn copy_split(s: &Split) -> (r: Split)
    ensures
        r@ == s@,
{
    let mut blocks: Vec<Block> = Vec::new();
    let mut i: usize = 0;
    while i < s.blocks.len()
        invariant
            i <= s.blocks.len(),
            blocks@ == s.blocks@.subrange(0, i as int),
        decreases s.blocks.len() - i,
    {
        blocks.push(s.blocks[i]);
        proof {
            assert(blocks@ =~= s.blocks@.subrange(0, i + 1));
        }
        i = i + 1;
    }
    proof {
        assert(blocks@ =~= s.blocks@);
    }
    Split { blocks }
}

/// An owned, split-for-split copy of step data.
pub fn copy_step_data(d: &StepData) -> (r: StepData)
    ensures
        r@ == d@,
{
    let mut splits: Vec<Split> = Vec::new();
    let mut i: usize = 0;
    while i < d.splits.len()
        invariant
            i <= d.splits.len(),
            splits@.len() == i,
            forall|j: int| 0 <= j < i ==> splits@[j]@ == d.splits@[j]@,
        decreases d.splits.len() - i,
    {
        splits.push(copy_split(&d.splits[i]));
        i = i + 1;
    }
    let r = StepData { splits };
    proof {
        assert(r@ =~= d@);
    }
    r
}

} // verus!
