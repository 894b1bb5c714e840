//! The aligners that can be benchmarked, their parameters, and the rules
//! that say which cost models and outputs each of them supports.

use vstd::prelude::*;
use vstd::std_specs::cmp::PartialEqSpecImpl;
use crate::cost::CostModel;

verus! {

/// Range of block sizes that the block aligner may use.
#[derive(Clone, Copy, Debug, PartialEq, Eq, Structural)]
pub enum BlockAlignerSize {
    /// Smallest and largest block size, in characters.
    Size(usize, usize),
    /// Smallest and largest block size as a share of the sequence length,
    /// each held as the bit pattern of a single-precision number.
    Percent(u32, u32),
}

#[derive(Clone, Copy, Debug, PartialEq, Eq, Structural)]
pub struct BlockAlignerParams {
    pub size: BlockAlignerSize,
}

#[derive(Clone, Copy, Debug, PartialEq, Eq, Structural)]
pub struct ParasailStripedParams;

impl Default for ParasailStripedParams {
    fn default() -> (p: ParasailStripedParams)
        ensures
            p == ParasailStripedParams,
    {
        ParasailStripedParams
    }
}

#[derive(Clone, Copy, Debug, PartialEq, Eq, Structural)]
pub struct EdlibParams;

impl Default for EdlibParams {
    fn default() -> (p: EdlibParams)
        ensures
            p == EdlibParams,
    {
        EdlibParams
    }
}

#[derive(Clone, Copy, Debug, PartialEq, Eq, Structural)]
pub struct TripleAccelParams;

impl Default for TripleAccelParams {
    fn default() -> (p: TripleAccelParams)
        ensures
            p == TripleAccelParams,
    {
        TripleAccelParams
    }
}

/// How much memory the wavefront aligner may trade for speed.
#[derive(Clone, Copy, Debug, PartialEq, Eq, Structural)]
pub enum MemoryModel {
    MemoryHigh,
    MemoryMed,
    MemoryLow,
    MemoryUltraLow,
}

/// The heuristic by which the wavefront aligner drops diagonals. With any
/// heuristic enabled the reported cost may exceed the optimum.
#[derive(Clone, Copy, Debug, PartialEq, Eq, Structural)]
pub enum Heuristic {
    Disabled,
    WFadaptive(i32, i32, i32),
    WFmash(i32, i32, i32),
    XDrop(i32, i32),
    ZDrop(i32, i32),
    BandedStatic(i32, i32),
    BandedAdaptive(i32, i32, i32),
}

#[derive(Clone, Copy, Debug, PartialEq, Eq, Structural)]
pub struct WfaParams {
    pub memory_model: MemoryModel,
    pub heuristic: Heuristic,
}

/// The memory model of the wavefront aligner when none is given.
pub fn default_memory_model() -> (m: MemoryModel)
    ensures
        m == MemoryModel::MemoryUltraLow,
{
    MemoryModel::MemoryUltraLow
}

/// The heuristic of the wavefront aligner when none is given.
pub fn default_heuristic() -> (h: Heuristic)
    ensures
        h == Heuristic::Disabled,
{
    Heuristic::Disabled
}

impl Default for WfaParams {
    fn default() -> (p: WfaParams)
        ensures
            p == (WfaParams {
                memory_model: MemoryModel::MemoryUltraLow,
                heuristic: Heuristic::Disabled,
            }),
    {
        WfaParams { memory_model: default_memory_model(), heuristic: default_heuristic() }
    }
}

/// The variant of the `ksw2` aligner to run.
#[derive(Clone, Copy, Debug, PartialEq, Eq, Structural)]
pub enum Ksw2Method {
    GlobalGreen,
    GlobalSuzuki,
    GlobalSuzukiSse,
    ExtensionGreen,
    ExtensionSuzukiSse,
    DualAffineExtensionGreen,
    DualAffineExtensionSuzukiSse,
}

impl Default for Ksw2Method {
    fn default() -> (m: Ksw2Method)
        ensures
            m == Ksw2Method::GlobalSuzukiSse,
    {
        Ksw2Method::GlobalSuzukiSse
    }
}

#[derive(Clone, Copy, Debug, PartialEq, Eq, Structural)]
pub struct Ksw2Params {
    pub method: Ksw2Method,
    pub band_doubling: bool,
}

/// Whether `ksw2` doubles its band when no value is given: it does.
pub fn band_doubling_enabled() -> (b: bool)
    ensures
        b,
{
    true
}

impl Default for Ksw2Params {
    fn default() -> (p: Ksw2Params)
        ensures
            p == (Ksw2Params { method: Ksw2Method::GlobalSuzukiSse, band_doubling: true }),
    {
        Ksw2Params { method: Ksw2Method::GlobalSuzukiSse, band_doubling: band_doubling_enabled() }
    }
}

/// Parameters of the A* aligner with seed heuristics.
#[derive(Debug)]
pub struct AstarPaParams {
    pub diagonal_transition: bool,
    /// The settings of the heuristic, in their written form. They are
    /// handed to the aligner as they are and only compared here.
    pub heuristic: String,
}

/// The mathematical value of an [`AstarPaParams`].
pub struct AstarPaParamsView {
    pub diagonal_transition: bool,
    pub heuristic: Seq<char>,
}

impl View for AstarPaParams {
    type V = AstarPaParamsView;

    open spec fn view(&self) -> AstarPaParamsView {
        AstarPaParamsView {
            diagonal_transition: self.diagonal_transition,
            heuristic: self.heuristic@,
        }
    }
}

impl Clone for AstarPaParams {
    fn clone(&self) -> (r: AstarPaParams)
        ensures
            r@ == self@,
    {
        AstarPaParams {
            diagonal_transition: self.diagonal_transition,
            heuristic: self.heuristic.clone(),
        }
    }
}

impl PartialEq for AstarPaParams {
    fn eq(&self, other: &AstarPaParams) -> (r: bool) {
        self.diagonal_transition == other.diagonal_transition && self.heuristic.eq(
            &other.heuristic,
        )
    }
}

impl PartialEqSpecImpl for AstarPaParams {
    open spec fn obeys_eq_spec() -> bool {
        true
    }

    open spec fn eq_spec(&self, other: &AstarPaParams) -> bool {
        self@ == other@
    }
}

/// An aligner together with its parameters.
#[derive(Debug)]
pub enum AlgorithmParams {
    /// A* over the whole alignment graph; the settings are held in their
    /// written form and only compared here.
    AstarNW(String),
    AstarPA(AstarPaParams),
    BlockAligner(BlockAlignerParams),
    Edlib(EdlibParams),
    Ksw2(Ksw2Params),
    ParasailStriped(ParasailStripedParams),
    TripleAccel(TripleAccelParams),
    Wfa(WfaParams),
}

/// The mathematical value of an [`AlgorithmParams`].
pub enum AlgorithmParamsView {
    AstarNW(Seq<char>),
    AstarPA(AstarPaParamsView),
    BlockAligner(BlockAlignerParams),
    Edlib(EdlibParams),
    Ksw2(Ksw2Params),
    ParasailStriped(ParasailStripedParams),
    TripleAccel(TripleAccelParams),
    Wfa(WfaParams),
}

impl View for AlgorithmParams {
    type V = AlgorithmParamsView;

    open spec fn view(&self) -> AlgorithmParamsView {
        match self {
            AlgorithmParams::AstarNW(s) => AlgorithmParamsView::AstarNW(s@),
            AlgorithmParams::AstarPA(p) => AlgorithmParamsView::AstarPA(p@),
            AlgorithmParams::BlockAligner(p) => AlgorithmParamsView::BlockAligner(*p),
            AlgorithmParams::Edlib(p) => AlgorithmParamsView::Edlib(*p),
            AlgorithmParams::Ksw2(p) => AlgorithmParamsView::Ksw2(*p),
            AlgorithmParams::ParasailStriped(p) => AlgorithmParamsView::ParasailStriped(*p),
            AlgorithmParams::TripleAccel(p) => AlgorithmParamsView::TripleAccel(*p),
            AlgorithmParams::Wfa(p) => AlgorithmParamsView::Wfa(*p),
        }
    }
}

impl Clone for AlgorithmParams {
    fn clone(&self) -> (r: AlgorithmParams)
        ensures
            r@ == self@,
    {
        match self {
            AlgorithmParams::AstarNW(s) => AlgorithmParams::AstarNW(s.clone()),
            AlgorithmParams::AstarPA(p) => AlgorithmParams::AstarPA(p.clone()),
            AlgorithmParams::BlockAligner(p) => AlgorithmParams::BlockAligner(*p),
            AlgorithmParams::Edlib(p) => AlgorithmParams::Edlib(*p),
            AlgorithmParams::Ksw2(p) => AlgorithmParams::Ksw2(*p),
            AlgorithmParams::ParasailStriped(p) => AlgorithmParams::ParasailStriped(*p),
            AlgorithmParams::TripleAccel(p) => AlgorithmParams::TripleAccel(*p),
            AlgorithmParams::Wfa(p) => AlgorithmParams::Wfa(*p),
        }
    }
}

impl PartialEq for AlgorithmParams {
    fn eq(&self, other: &AlgorithmParams) -> (r: bool) {
        match (self, other) {
            (AlgorithmParams::AstarNW(a), AlgorithmParams::AstarNW(b)) => a.eq(b),
            (AlgorithmParams::AstarPA(a), AlgorithmParams::AstarPA(b)) => a.eq(b),
            (AlgorithmParams::BlockAligner(a), AlgorithmParams::BlockAligner(b)) => *a == *b,
            (AlgorithmParams::Edlib(a), AlgorithmParams::Edlib(b)) => *a == *b,
            (AlgorithmParams::Ksw2(a), AlgorithmParams::Ksw2(b)) => *a == *b,
            (AlgorithmParams::ParasailStriped(a), AlgorithmParams::ParasailStriped(b)) => *a == *b,
            (AlgorithmParams::TripleAccel(a), AlgorithmParams::TripleAccel(b)) => *a == *b,
            (AlgorithmParams::Wfa(a), AlgorithmParams::Wfa(b)) => *a == *b,
            _ => false,
        }
    }
}

impl PartialEqSpecImpl for AlgorithmParams {
    open spec fn obeys_eq_spec() -> bool {
        true
    }

    open spec fn eq_spec(&self, other: &AlgorithmParams) -> bool {
        self@ == other@
    }
}

/// Why an aligner cannot run with a cost model and an output.
#[derive(Clone, Copy, Debug, PartialEq, Eq, Structural)]
pub enum Refusal {
    /// A* over the whole graph works with unit costs only.
    AstarNwCosts,
    /// A* with seed heuristics always returns the alignment.
    AstarPaTrace,
    /// A* with seed heuristics works with unit costs only.
    AstarPaCosts,
    /// The block aligner works with affine costs only.
    BlockAlignerCosts,
    /// Edlib works with unit costs only.
    EdlibCosts,
    /// Parasail does not return the alignment.
    ParasailTrace,
    /// Triple-accel does not return the alignment with affine costs.
    TripleAccelAffineTrace,
    /// The wavefront aligner uses its smallest memory model when it
    /// returns the cost alone.
    WfaMemoryModel,
    /// The wavefront aligner has no cost model with a negative gap-open cost.
    WfaCosts,
}

impl AlgorithmParamsView {
    /// Whether the aligner reports the optimal cost.
    pub open spec fn is_exact(self) -> bool {
        match self {
            AlgorithmParamsView::AstarNW(_) => true,
            AlgorithmParamsView::AstarPA(_) => true,
            AlgorithmParamsView::BlockAligner(_) => false,
            AlgorithmParamsView::Edlib(_) => true,
            AlgorithmParamsView::Ksw2(_) => true,
            AlgorithmParamsView::ParasailStriped(_) => false,
            AlgorithmParamsView::TripleAccel(_) => true,
            AlgorithmParamsView::Wfa(p) => p.heuristic == Heuristic::Disabled,
        }
    }

    /// The first rule that the aligner breaks when it is asked for the cost
    /// under `cm`, and for the alignment too if `trace` holds; `None` if it
    /// breaks none.
    pub open spec fn refusal(self, cm: CostModel, trace: bool) -> Option<Refusal> {
        match self {
            AlgorithmParamsView::AstarNW(_) => if !cm.spec_is_unit() {
                Some(Refusal::AstarNwCosts)
            } else {
                None
            },
            AlgorithmParamsView::AstarPA(_) => if !trace {
                Some(Refusal::AstarPaTrace)
            } else if !cm.spec_is_unit() {
                Some(Refusal::AstarPaCosts)
            } else {
                None
            },
            AlgorithmParamsView::BlockAligner(_) => if !cm.spec_is_affine() {
                Some(Refusal::BlockAlignerCosts)
            } else {
                None
            },
            AlgorithmParamsView::Edlib(_) => if !cm.spec_is_unit() {
                Some(Refusal::EdlibCosts)
            } else {
                None
            },
            AlgorithmParamsView::Ksw2(_) => None,
            AlgorithmParamsView::ParasailStriped(_) => if trace {
                Some(Refusal::ParasailTrace)
            } else {
                None
            },
            AlgorithmParamsView::TripleAccel(_) => if cm.spec_is_affine() && trace {
                Some(Refusal::TripleAccelAffineTrace)
            } else {
                None
            },
            AlgorithmParamsView::Wfa(p) => if !trace && p.memory_model
                != MemoryModel::MemoryUltraLow {
                Some(Refusal::WfaMemoryModel)
            } else if cm.open < 0 {
                Some(Refusal::WfaCosts)
            } else {
                None
            },
        }
    }
}

impl AlgorithmParams {
    /// Whether the aligner reports the optimal cost.
    pub fn is_exact(&self) -> (r: bool)
        ensures
            r == self@.is_exact(),
    {
        match self {
            AlgorithmParams::AstarNW(_) => true,
            AlgorithmParams::AstarPA(_) => true,
            AlgorithmParams::BlockAligner(_) => false,
            AlgorithmParams::Edlib(_) => true,
            AlgorithmParams::Ksw2(_) => true,
            AlgorithmParams::ParasailStriped(_) => false,
            AlgorithmParams::TripleAccel(_) => true,
            AlgorithmParams::Wfa(p) => match p.heuristic {
                Heuristic::Disabled => true,
                _ => false,
            },
        }
    }

    /// Checks the aligner against a cost model and an output. The error is
    /// the first rule that is broken.
    pub fn check(&self, cm: CostModel, trace: bool) -> (r: Result<(), Refusal>)
        ensures
            match self@.refusal(cm, trace) {
                Some(why) => r == Err::<(), Refusal>(why),
                None => r is Ok,
            },
    {
        match self {
            AlgorithmParams::AstarNW(_) => {
                if !cm.is_unit() {
                    return Err(Refusal::AstarNwCosts);
                }
            },
            AlgorithmParams::AstarPA(_) => {
                if !trace {
                    return Err(Refusal::AstarPaTrace);
                }
                if !cm.is_unit() {
                    return Err(Refusal::AstarPaCosts);
                }
            },
            AlgorithmParams::BlockAligner(_) => {
                if !cm.is_affine() {
                    return Err(Refusal::BlockAlignerCosts);
                }
            },
            AlgorithmParams::Edlib(_) => {
                if !cm.is_unit() {
                    return Err(Refusal::EdlibCosts);
                }
            },
            AlgorithmParams::Ksw2(_) => {},
            AlgorithmParams::ParasailStriped(_) => {
                if trace {
                    return Err(Refusal::ParasailTrace);
                }
            },
            AlgorithmParams::TripleAccel(_) => {
                if cm.is_affine() && trace {
                    return Err(Refusal::TripleAccelAffineTrace);
                }
            },
            AlgorithmParams::Wfa(p) => {
                let ultra_low = match p.memory_model {
                    MemoryModel::MemoryUltraLow => true,
                    _ => false,
                };
                if !trace && !ultra_low {
                    return Err(Refusal::WfaMemoryModel);
                }
                if cm.open < 0 {
                    return Err(Refusal::WfaCosts);
                }
            },
        }
        Ok(())
    }
}

} // verus!
