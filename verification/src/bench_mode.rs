//! The benchmark driver's command line: which mode a list of arguments
//! selects, its name, and the agent counts it sweeps.
use vstd::prelude::*;
use crate::text::{push_text, str_eq};
use crate::golden::FixtureConfig;

verus! {

/// What the benchmark driver runs.
#[derive(Clone, Debug, PartialEq, Eq)]
pub enum BenchMode {
    Smoke,
    Stress,
    Profile,
    BatchProfile,
    ProdProfile,
    LayoutProfile,
    CandidatePrefilterProfile,
    WriteGolden { path: String },
    WriteCudaGolden { path: String },
    GoldenParity { path: String },
    CudaParity { path: String },
    CudaTiming { path: String },
    CudaScale,
    CudaPlan { path: String },
    Invalid(String),
}

/// A benchmark mode with its texts as character sequences.
pub enum BenchModeView {
    Smoke,
    Stress,
    Profile,
    BatchProfile,
    ProdProfile,
    LayoutProfile,
    CandidatePrefilterProfile,
    WriteGolden(Seq<char>),
    WriteCudaGolden(Seq<char>),
    GoldenParity(Seq<char>),
    CudaParity(Seq<char>),
    CudaTiming(Seq<char>),
    CudaScale,
    CudaPlan(Seq<char>),
    Invalid(Seq<char>),
}

impl View for BenchMode {
    type V = BenchModeView;

    open spec fn view(&self) -> BenchModeView {
        match self {
            BenchMode::Smoke => BenchModeView::Smoke,
            BenchMode::Stress => BenchModeView::Stress,
            BenchMode::Profile => BenchModeView::Profile,
            BenchMode::BatchProfile => BenchModeView::BatchProfile,
            BenchMode::ProdProfile => BenchModeView::ProdProfile,
            BenchMode::LayoutProfile => BenchModeView::LayoutProfile,
            BenchMode::CandidatePrefilterProfile => BenchModeView::CandidatePrefilterProfile,
            BenchMode::WriteGolden { path } => BenchModeView::WriteGolden(path@),
            BenchMode::WriteCudaGolden { path } => BenchModeView::WriteCudaGolden(path@),
            BenchMode::GoldenParity { path } => BenchModeView::GoldenParity(path@),
            BenchMode::CudaParity { path } => BenchModeView::CudaParity(path@),
            BenchMode::CudaTiming { path } => BenchModeView::CudaTiming(path@),
            BenchMode::CudaScale => BenchModeView::CudaScale,
            BenchMode::CudaPlan { path } => BenchModeView::CudaPlan(path@),
            BenchMode::Invalid(message) => BenchModeView::Invalid(message@),
        }
    }
}

/// The mode a flag without a value selects, if `arg` is such a flag.
pub open spec fn plain_flag_mode(arg: Seq<char>) -> Option<BenchModeView> {
    if arg == "--stress"@ {
        Some(BenchModeView::Stress)
    } else if arg == "--profile"@ {
        Some(BenchModeView::Profile)
    } else if arg == "--batch-profile"@ {
        Some(BenchModeView::BatchProfile)
    } else if arg == "--prod-profile"@ {
        Some(BenchModeView::ProdProfile)
    } else if arg == "--layout-profile"@ {
        Some(BenchModeView::LayoutProfile)
    } else if arg == "--candidate-prefilter-profile"@ {
        Some(BenchModeView::CandidatePrefilterProfile)
    } else if arg == "--cuda-scale"@ {
        Some(BenchModeView::CudaScale)
    } else {
        None
    }
}

/// The mode a flag that takes a path selects with `path`, if `arg` is such a flag.
pub open spec fn path_flag_mode(arg: Seq<char>, path: Seq<char>) -> Option<BenchModeView> {
    if arg == "--write-golden"@ {
        Some(BenchModeView::WriteGolden(path))
    } else if arg == "--write-cuda-golden"@ {
        Some(BenchModeView::WriteCudaGolden(path))
    } else if arg == "--golden-parity"@ {
        Some(BenchModeView::GoldenParity(path))
    } else if arg == "--cuda-parity"@ {
        Some(BenchModeView::CudaParity(path))
    } else if arg == "--cuda-timing"@ {
        Some(BenchModeView::CudaTiming(path))
    } else if arg == "--cuda-plan"@ {
        Some(BenchModeView::CudaPlan(path))
    } else {
        None
    }
}

/// The mode the arguments from position `i` on select, when the earlier ones
/// selected `mode`: a later flag overrides an earlier one, a flag that takes
/// a path consumes the next argument, a missing path makes the arguments
/// invalid at once, and unknown arguments are skipped.
pub open spec fn mode_from(args: Seq<Seq<char>>, i: nat, mode: BenchModeView) -> BenchModeView
    decreases args.len() - i,
{
    if i >= args.len() {
        mode
    } else if plain_flag_mode(args[i as int]) is Some {
        mode_from(args, i + 1, plain_flag_mode(args[i as int])->0)
    } else if path_flag_mode(args[i as int], Seq::empty()) is Some {
        if i + 1 < args.len() {
            mode_from(args, i + 2, path_flag_mode(args[i as int], args[i + 1 as int])->0)
        } else {
            BenchModeView::Invalid(args[i as int] + " requires a path"@)
        }
    } else {
        mode_from(args, i + 1, mode)
    }
}

/// The texts of a list of arguments.
pub open spec fn arg_views(args: Seq<String>) -> Seq<Seq<char>> {
    args.map_values(|a: String| a@)
}

fn plain_flag(arg: &str) -> (r: Option<BenchMode>)
    ensures
        match plain_flag_mode(arg@) {
            Some(m) => r matches Some(b) && b@ == m,
            None => r is None,
        },
{
    if str_eq(arg, "--stress") {
        Some(BenchMode::Stress)
    } else if str_eq(arg, "--profile") {
        Some(BenchMode::Profile)
    } else if str_eq(arg, "--batch-profile") {
        Some(BenchMode::BatchProfile)
    } else if str_eq(arg, "--prod-profile") {
        Some(BenchMode::ProdProfile)
    } else if str_eq(arg, "--layout-profile") {
        Some(BenchMode::LayoutProfile)
    } else if str_eq(arg, "--candidate-prefilter-profile") {
        Some(BenchMode::CandidatePrefilterProfile)
    } else if str_eq(arg, "--cuda-scale") {
        Some(BenchMode::CudaScale)
    } else {
        None
    }
}

fn path_flag(arg: &str, path: &str) -> (r: Option<BenchMode>)
    ensures
        match path_flag_mode(arg@, path@) {
            Some(m) => r matches Some(b) && b@ == m,
            None => r is None,
        },
{
    let owned = String::from_str(path);
    if str_eq(arg, "--write-golden") {
        Some(BenchMode::WriteGolden { path: owned })
    } else if str_eq(arg, "--write-cuda-golden") {
        Some(BenchMode::WriteCudaGolden { path: owned })
    } else if str_eq(arg, "--golden-parity") {
        Some(BenchMode::GoldenParity { path: owned })
    } else if str_eq(arg, "--cuda-parity") {
        Some(BenchMode::CudaParity { path: owned })
    } else if str_eq(arg, "--cuda-timing") {
        Some(BenchMode::CudaTiming { path: owned })
    } else if str_eq(arg, "--cuda-plan") {
        Some(BenchMode::CudaPlan { path: owned })
    } else {
        None
    }
}

impl BenchMode {
    /// The mode the command-line arguments (the program name left out) select.
    pub fn from_args(args: Vec<String>) -> (r: BenchMode)
        ensures
            r@ == mode_from(arg_views(args@), 0, BenchModeView::Smoke),
    {
        let n = args.len();
        let mut mode = BenchMode::Smoke;
        let mut i: usize = 0;
        while i < n
            invariant
                n == args@.len(),
                i <= n,
                mode_from(arg_views(args@), 0, BenchModeView::Smoke) == mode_from(
                    arg_views(args@),
                    i as nat,
                    mode@,
                ),
            decreases n - i,
        {
            let arg = args[i].as_str();
            assert(arg_views(args@)[i as int] == arg@);
            match plain_flag(arg) {
                Some(selected) => {
                    mode = selected;
                    i = i + 1;
                },
                None => {
                    match path_flag(arg, "") {
                        Some(_) => {
                            if i + 1 < n {
                                let path = args[i + 1].as_str();
                                assert(arg_views(args@)[i + 1] == path@);
                                match path_flag(arg, path) {
                                    Some(selected) => {
                                        mode = selected;
                                    },
                                    None => {},
                                }
                                i = i + 2;
                            } else {
                                let mut message = String::from_str(arg);
                                push_text(&mut message, " requires a path");
                                return BenchMode::Invalid(message);
                            }
                        },
                        None => {
                            i = i + 1;
                        },
                    }
                },
            }
        }
        mode
    }

    /// The mode's name.
    pub fn as_str(&self) -> (r: &'static str)
        ensures
            r == mode_name(self@),
    {
        match self {
            BenchMode::Smoke => "smoke",
            BenchMode::Stress => "stress",
            BenchMode::Profile => "profile",
            BenchMode::BatchProfile => "batch-profile",
            BenchMode::ProdProfile => "prod-profile",
            BenchMode::LayoutProfile => "layout-profile",
            BenchMode::CandidatePrefilterProfile => "candidate-prefilter-profile",
            BenchMode::WriteGolden { .. } => "write-golden",
            BenchMode::WriteCudaGolden { .. } => "write-cuda-golden",
            BenchMode::GoldenParity { .. } => "golden-parity",
            BenchMode::CudaParity { .. } => "cuda-parity",
            BenchMode::CudaTiming { .. } => "cuda-timing",
            BenchMode::CudaScale => "cuda-scale",
            BenchMode::CudaPlan { .. } => "cuda-plan",
            BenchMode::Invalid(_) => "invalid",
        }
    }

    /// The agent counts the mode's routing sweep runs over.
    pub fn agent_counts(&self) -> (r: Vec<usize>)
        ensures
            r@ == mode_agent_counts(self@),
    {
        match self {
            BenchMode::Smoke => vec![128, 1024, 8192],
            BenchMode::Stress => vec![65536],
            BenchMode::Profile => vec![8192, 65536, 131072, 262144],
            BenchMode::BatchProfile => vec![8192, 65536, 262144],
            BenchMode::ProdProfile => vec![8192, 65536, 262144],
            BenchMode::LayoutProfile => vec![8192, 65536, 131072, 262144],
            _ => Vec::new(),
        }
    }
}

/// The name of a mode.
pub open spec fn mode_name(m: BenchModeView) -> &'static str {
    match m {
        BenchModeView::Smoke => "smoke",
        BenchModeView::Stress => "stress",
        BenchModeView::Profile => "profile",
        BenchModeView::BatchProfile => "batch-profile",
        BenchModeView::ProdProfile => "prod-profile",
        BenchModeView::LayoutProfile => "layout-profile",
        BenchModeView::CandidatePrefilterProfile => "candidate-prefilter-profile",
        BenchModeView::WriteGolden(_) => "write-golden",
        BenchModeView::WriteCudaGolden(_) => "write-cuda-golden",
        BenchModeView::GoldenParity(_) => "golden-parity",
        BenchModeView::CudaParity(_) => "cuda-parity",
        BenchModeView::CudaTiming(_) => "cuda-timing",
        BenchModeView::CudaScale => "cuda-scale",
        BenchModeView::CudaPlan(_) => "cuda-plan",
        BenchModeView::Invalid(_) => "invalid",
    }
}

/// The agent counts a mode's routing sweep runs over: the routing matrix
/// modes sweep their own counts, the others none.
pub open spec fn mode_agent_counts(m: BenchModeView) -> Seq<usize> {
    match m {
        BenchModeView::Smoke => seq![128, 1024, 8192],
        BenchModeView::Stress => seq![65536],
        BenchModeView::Profile => seq![8192, 65536, 131072, 262144],
        BenchModeView::BatchProfile => seq![8192, 65536, 262144],
        BenchModeView::ProdProfile => seq![8192, 65536, 262144],
        BenchModeView::LayoutProfile => seq![8192, 65536, 131072, 262144],
        _ => Seq::empty(),
    }
}

proof fn lemma_trailing_plain_flag(args: Seq<Seq<char>>, f: Seq<char>, i: nat, mode: BenchModeView)
    requires
        plain_flag_mode(f) is Some,
        i <= args.len(),
        !(mode_from(args, i, mode) is Invalid),
    ensures
        mode_from(args.push(f), i, mode) == plain_flag_mode(f)->0,
    decreases args.len() - i,
{
    let pushed = args.push(f);
    if i == args.len() {
        assert(pushed[i as int] == f);
        assert(mode_from(pushed, i + 1, plain_flag_mode(f)->0) == plain_flag_mode(f)->0);
    } else {
        let a = args[i as int];
        assert(pushed[i as int] == a);
        if plain_flag_mode(a) is Some {
            lemma_trailing_plain_flag(args, f, i + 1, plain_flag_mode(a)->0);
        } else if path_flag_mode(a, Seq::empty()) is Some {
            assert(i + 1 < args.len());
            assert(pushed[i + 1 as int] == args[i + 1 as int]);
            lemma_trailing_plain_flag(args, f, i + 2, path_flag_mode(a, args[i + 1 as int])->0);
        } else {
            lemma_trailing_plain_flag(args, f, i + 1, mode);
        }
    }
}

/// A later flag overrides an earlier one: unless the arguments are already
/// invalid for a missing path, appending a flag that takes no value selects
/// that flag's mode.
pub proof fn law_later_flag_overrides(args: Seq<Seq<char>>, f: Seq<char>)
    requires
        plain_flag_mode(f) is Some,
        !(mode_from(args, 0, BenchModeView::Smoke) is Invalid),
    ensures
        mode_from(args.push(f), 0, BenchModeView::Smoke) == plain_flag_mode(f)->0,
{
    lemma_trailing_plain_flag(args, f, 0, BenchModeView::Smoke);
}

/// The number of tasks the routing sweep routes against `agent_count` agents.
pub open spec fn sweep_task_count(agent_count: usize) -> usize {
    if agent_count == 128 {
        128
    } else if agent_count == 1024 || agent_count == 65536 {
        512
    } else {
        2048
    }
}

/// The number of tasks the profile sweep routes against `agent_count` agents.
pub open spec fn profile_sweep_task_count(agent_count: usize) -> usize {
    if agent_count == 8192 {
        512
    } else if agent_count == 65536 {
        256
    } else if agent_count == 131072 {
        128
    } else {
        64
    }
}

/// The number of tasks the routing sweep routes against `agent_count` agents.
pub fn task_count_for(agent_count: usize) -> (r: usize)
    ensures
        r == sweep_task_count(agent_count),
{
    match agent_count {
        128 => 128,
        1024 => 512,
        65536 => 512,
        _ => 2048,
    }
}

/// The number of tasks the profile sweep routes against `agent_count` agents.
pub fn profile_task_count_for(agent_count: usize) -> (r: usize)
    ensures
        r == profile_sweep_task_count(agent_count),
{
    match agent_count {
        8192 => 512,
        65536 => 256,
        131072 => 128,
        _ => 64,
    }
}

/// A worker count brought into `1..=max(task_count, 1)`.
pub open spec fn clamp_workers(count: int, task_count: int) -> int {
    let at_least_one = if count < 1 {
        1
    } else {
        count
    };
    let cap = if task_count < 1 {
        1
    } else {
        task_count
    };
    if at_least_one < cap {
        at_least_one
    } else {
        cap
    }
}

/// The worker counts a batch sweep tries with `available` hardware threads:
/// one, two, half and all of them, each brought into `1..=max(task_count, 1)`.
pub open spec fn worker_count_candidates(available: usize, task_count: usize) -> Set<int> {
    set![
        clamp_workers(1, task_count as int),
        clamp_workers(2, task_count as int),
        clamp_workers(available as int / 2, task_count as int),
        clamp_workers(available as int, task_count as int),
    ]
}

fn clamp_workers_exec(count: usize, task_count: usize) -> (r: usize)
    ensures
        r == clamp_workers(count as int, task_count as int),
{
    let at_least_one = if count < 1 {
        1
    } else {
        count
    };
    let cap = if task_count < 1 {
        1
    } else {
        task_count
    };
    if at_least_one < cap {
        at_least_one
    } else {
        cap
    }
}

/// Inserts `x` into the strictly increasing `v`, keeping it strictly
/// increasing and adding `x` to its elements.
fn insert_sorted_distinct(v: &mut Vec<usize>, x: usize)
    requires
        forall|i: int, j: int| 0 <= i < j < old(v)@.len() ==> old(v)@[i] < old(v)@[j],
    ensures
        forall|i: int, j: int| 0 <= i < j < final(v)@.len() ==> final(v)@[i] < final(v)@[j],
        forall|y: usize| final(v)@.contains(y) <==> (old(v)@.contains(y) || y == x),
{
    let n = v.len();
    let mut pos: usize = 0;
    while pos < n && v[pos] < x
        invariant
            n == v@.len(),
            pos <= n,
            forall|i: int| 0 <= i < pos ==> v@[i] < x,
        decreases n - pos,
    {
        pos = pos + 1;
    }
    if pos < n && v[pos] == x {
        assert(v@[pos as int] == x);
        return ;
    }
    let ghost before = v@;
    v.insert(pos, x);
    proof {
        assert forall|i: int, j: int| 0 <= i < j < v@.len() implies v@[i] < v@[j] by {
            if j < pos {
                assert(v@[i] == before[i] && v@[j] == before[j]);
            } else if j == pos {
                assert(v@[i] == before[i]);
            } else if i < pos {
                assert(v@[i] == before[i] && v@[j] == before[j - 1]);
                assert(before[j - 1] > x || before[j - 1] >= before[pos as int]);
            } else if i == pos {
                assert(v@[j] == before[j - 1]);
                assert(before[pos as int] > x);
                if j - 1 > pos {
                    assert(before[pos as int] < before[j - 1]);
                }
            } else {
                assert(v@[i] == before[i - 1] && v@[j] == before[j - 1]);
            }
        }
        assert forall|y: usize| v@.contains(y) <==> (before.contains(y) || y == x) by {
            if v@.contains(y) {
                let k = choose|k: int| 0 <= k < v@.len() && v@[k] == y;
                if k < pos {
                    assert(before[k] == y);
                } else if k > pos {
                    assert(before[k - 1] == y);
                }
            }
            if before.contains(y) {
                let k = choose|k: int| 0 <= k < before.len() && before[k] == y;
                if k < pos {
                    assert(v@[k] == y);
                } else {
                    assert(v@[k + 1] == y);
                }
            }
            if y == x {
                assert(v@[pos as int] == x);
            }
        }
        assert(before == old(v)@);
        assert(forall|y: usize| v@.contains(y) <==> (old(v)@.contains(y) || y == x));
    }
}

/// The worker counts a batch sweep tries with `available` hardware threads
/// and `task_count` tasks: one, two, half and all of the threads, each kept
/// between one and the task count, in increasing order without repeats.
pub fn batch_worker_counts(available: usize, task_count: usize) -> (r: Vec<usize>)
    ensures
        forall|i: int, j: int| 0 <= i < j < r@.len() ==> r@[i] < r@[j],
        forall|c: int| (exists|i: int| 0 <= i < r@.len() && r@[i] == c) <==> worker_count_candidates(
            available,
            task_count,
        ).contains(c),
{
    let mut counts: Vec<usize> = Vec::new();
    let a = clamp_workers_exec(1, task_count);
    let b = clamp_workers_exec(2, task_count);
    let c = clamp_workers_exec(available / 2, task_count);
    let d = clamp_workers_exec(available, task_count);
    insert_sorted_distinct(&mut counts, a);
    insert_sorted_distinct(&mut counts, b);
    insert_sorted_distinct(&mut counts, c);
    insert_sorted_distinct(&mut counts, d);
    proof {
        assert forall|x: int| (exists|i: int| 0 <= i < counts@.len() && counts@[i] == x) <==> worker_count_candidates(
            available,
            task_count,
        ).contains(x) by {
            if exists|i: int| 0 <= i < counts@.len() && counts@[i] == x {
                let i = choose|i: int| 0 <= i < counts@.len() && counts@[i] == x;
                assert(counts@.contains(counts@[i]));
            }
            if worker_count_candidates(available, task_count).contains(x) {
                let y = x as usize;
                assert(counts@.contains(y));
                let i = choose|i: int| 0 <= i < counts@.len() && counts@[i] == y;
                assert(counts@[i] == x);
            }
        }
    }
    counts
}

/// The seed of a benchmark scenario: the base seed mixed with the agent
/// count (shifted up a byte, wrapping) and `k`.
pub open spec fn scenario_seed_of(agent_count: usize, k: usize) -> u64 {
    0x5154_4f4du64 ^ ((agent_count as u64) << 8u64) ^ (k as u64)
}

/// The seed of the benchmark scenario over `agent_count` agents and `k`.
pub fn scenario_seed(agent_count: usize, k: usize) -> (r: u64)
    ensures
        r == scenario_seed_of(agent_count, k),
{
    0x5154_4f4du64 ^ ((agent_count as u64) << 8u64) ^ (k as u64)
}

/// The fixture of the golden routing run: 8192 agents, 2048 tasks, 16
/// dimensions, k of 8.
pub fn golden_fixture_config() -> (r: FixtureConfig)
    ensures
        r == (FixtureConfig {
            agent_count: 8192,
            task_count: 2048,
            dimensions: 16,
            k: 8,
            seed: scenario_seed_of(8192, 8),
        }),
{
    FixtureConfig { agent_count: 8192, task_count: 2048, dimensions: 16, k: 8, seed: scenario_seed(8192, 8) }
}

/// The fixture of the CUDA parity run: as the golden run, with k of 1.
pub fn cuda_golden_fixture_config() -> (r: FixtureConfig)
    ensures
        r == (FixtureConfig {
            agent_count: 8192,
            task_count: 2048,
            dimensions: 16,
            k: 1,
            seed: scenario_seed_of(8192, 1),
        }),
{
    FixtureConfig { agent_count: 8192, task_count: 2048, dimensions: 16, k: 1, seed: scenario_seed(8192, 1) }
}

} // verus!

