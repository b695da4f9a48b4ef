//! Choice between baked probe data and real-time ray tracing.
//!
//! The hybrid sampler holds an optional baked probe grid, an optional
//! real-time backend and a strategy. Resolving a query first decides, from
//! the strategy and what is configured, which sources the query draws on;
//! that decision is [`HybridProbeSampler::resolve_plan`].

use vstd::prelude::*;

use crate::error::SpatialAudioError;

verus! {

/// Strategy for resolving spatial audio queries.
#[derive(Clone, Copy, Debug, PartialEq, Eq, Hash, Structural)]
pub enum HybridSamplingStrategy {
    /// Only use pre-baked probe grids. Fastest; for static environments.
    BakedOnly,
    /// Only use real-time ray tracing. Highest fidelity; for dynamic scenes.
    RealTimeOnly,
    /// Baked data for late reverb, real-time for early reflections and the direct path.
    HybridBlend,
}

/// What resolving a query must do.
#[derive(Clone, Copy, Debug, PartialEq, Eq, Structural)]
pub enum ResolvePlan {
    /// Sample the probe grid at the listener (direct path from distance).
    SampleGrid,
    /// Ask the real-time backend.
    QueryBackend,
    /// Ask the real-time backend, then overlay the grid's late reverb.
    QueryBackendThenGrid,
}

/// The plan for `strategy` given whether a grid and a backend are
/// configured, or the error resolving reports: a missing backend is reported
/// before a missing grid.
pub open spec fn plan_for(strategy: HybridSamplingStrategy, has_grid: bool, has_backend: bool) -> Result<ResolvePlan, ()> {
    match strategy {
        HybridSamplingStrategy::BakedOnly => if has_grid { Ok(ResolvePlan::SampleGrid) } else { Err(()) },
        HybridSamplingStrategy::RealTimeOnly => if has_backend { Ok(ResolvePlan::QueryBackend) } else { Err(()) },
        HybridSamplingStrategy::HybridBlend => if has_backend && has_grid {
            Ok(ResolvePlan::QueryBackendThenGrid)
        } else {
            Err(())
        },
    }
}

/// Decides which data source to use for spatial audio queries; holds a baked
/// grid of type `G` and a real-time backend of type `B`, either optional.
pub struct HybridProbeSampler<G, B> {
    strategy: HybridSamplingStrategy,
    probe_grid: Option<G>,
    realtime_backend: Option<B>,
}

impl<G, B> HybridProbeSampler<G, B> {
    /// The configured strategy.
    pub closed spec fn strategy_of(&self) -> HybridSamplingStrategy {
        self.strategy
    }

    /// The configured grid.
    pub closed spec fn grid_of(&self) -> Option<G> {
        self.probe_grid
    }

    /// The configured backend.
    pub closed spec fn backend_of(&self) -> Option<B> {
        self.realtime_backend
    }

    /// Create a sampler with the given strategy and no data source.
    pub fn new(strategy: HybridSamplingStrategy) -> (r: Self)
        ensures
            r.strategy_of() == strategy,
            r.grid_of() is None,
            r.backend_of() is None,
    {
        HybridProbeSampler { strategy, probe_grid: None, realtime_backend: None }
    }

    /// Set the baked probe grid.
    pub fn set_probe_grid(&mut self, grid: G)
        ensures
            final(self).grid_of() == Some(grid),
            final(self).backend_of() == old(self).backend_of(),
            final(self).strategy_of() == old(self).strategy_of(),
    {
        self.probe_grid = Some(grid);
    }

    /// Set the real-time backend.
    pub fn set_realtime_backend(&mut self, backend: B)
        ensures
            final(self).backend_of() == Some(backend),
            final(self).grid_of() == old(self).grid_of(),
            final(self).strategy_of() == old(self).strategy_of(),
    {
        self.realtime_backend = Some(backend);
    }

    /// The probe grid, if set.
    pub fn probe_grid(&self) -> (r: Option<&G>)
        ensures
            match self.grid_of() {
                Some(g) => r matches Some(x) && *x == g,
                None => r is None,
            },
    {
        self.probe_grid.as_ref()
    }

    /// The real-time backend, if set.
    pub fn realtime_backend(&self) -> (r: Option<&B>)
        ensures
            match self.backend_of() {
                Some(b) => r matches Some(x) && *x == b,
                None => r is None,
            },
    {
        self.realtime_backend.as_ref()
    }

    /// The real-time backend for updating it, if set.
    pub fn realtime_backend_mut(&mut self) -> (r: Option<&mut B>)
        ensures
            final(self).grid_of() == old(self).grid_of(),
            final(self).strategy_of() == old(self).strategy_of(),
            match old(self).backend_of() {
                Some(b) => r.is_some() && *r.unwrap() == b && final(self).backend_of() == Some(*final(r.unwrap())),
                None => r.is_none() && final(self).backend_of() is None,
            },
    {
        self.realtime_backend.as_mut()
    }

    /// Set the sampling strategy.
    pub fn set_strategy(&mut self, strategy: HybridSamplingStrategy)
        ensures
            final(self).strategy_of() == strategy,
            final(self).grid_of() == old(self).grid_of(),
            final(self).backend_of() == old(self).backend_of(),
    {
        self.strategy = strategy;
    }

    /// The current strategy.
    pub fn strategy(&self) -> (r: HybridSamplingStrategy)
        ensures
            r == self.strategy_of(),
    {
        self.strategy
    }

    /// Decide how to resolve a query. `BakedOnly` needs the grid,
    /// `RealTimeOnly` the backend, `HybridBlend` both; a missing backend is
    /// a `Backend` error, a missing grid a `ProbeGrid` error (the backend is
    /// checked first).
    pub fn resolve_plan(&self) -> (r: Result<ResolvePlan, SpatialAudioError>)
        ensures
            ({
                let p = plan_for(self.strategy_of(), self.grid_of() is Some, self.backend_of() is Some);
                &&& p matches Ok(plan) ==> r == Ok::<ResolvePlan, SpatialAudioError>(plan)
                &&& p is Err ==> r is Err
            }),
            self.strategy_of() == HybridSamplingStrategy::RealTimeOnly && self.backend_of() is Some ==> r == Ok::<
                ResolvePlan,
                SpatialAudioError,
            >(ResolvePlan::QueryBackend),
            self.strategy_of() == HybridSamplingStrategy::BakedOnly && self.grid_of() is Some ==> r == Ok::<
                ResolvePlan,
                SpatialAudioError,
            >(ResolvePlan::SampleGrid),
            self.strategy_of() == HybridSamplingStrategy::HybridBlend && self.grid_of() is Some && self.backend_of() is Some
                ==> r == Ok::<ResolvePlan, SpatialAudioError>(ResolvePlan::QueryBackendThenGrid),
            (r matches Err(SpatialAudioError::Backend(_))) <==> (self.backend_of() is None && self.strategy_of()
                != HybridSamplingStrategy::BakedOnly),
            (r matches Err(SpatialAudioError::ProbeGrid(_))) <==> (self.grid_of() is None && (self.strategy_of()
                == HybridSamplingStrategy::BakedOnly || (self.strategy_of() == HybridSamplingStrategy::HybridBlend
                && self.backend_of() is Some))),
    {
        match self.strategy {
            HybridSamplingStrategy::BakedOnly => {
                if self.probe_grid.is_none() {
                    return Err(SpatialAudioError::ProbeGrid("no probe grid configured for BakedOnly strategy".to_owned()));
                }
                Ok(ResolvePlan::SampleGrid)
            },
            HybridSamplingStrategy::RealTimeOnly => {
                if self.realtime_backend.is_none() {
                    return Err(SpatialAudioError::Backend("no real-time backend configured for RealTimeOnly strategy".to_owned()));
                }
                Ok(ResolvePlan::QueryBackend)
            },
            HybridSamplingStrategy::HybridBlend => {
                if self.realtime_backend.is_none() {
                    return Err(SpatialAudioError::Backend("no real-time backend configured for HybridBlend strategy".to_owned()));
                }
                if self.probe_grid.is_none() {
                    return Err(SpatialAudioError::ProbeGrid("no probe grid configured for HybridBlend strategy".to_owned()));
                }
                Ok(ResolvePlan::QueryBackendThenGrid)
            },
        }
    }
}

} // verus!

verus! {

/// What each strategy draws on: `RealTimeOnly` asks the backend alone,
/// whether or not a grid is configured; `BakedOnly` samples the grid alone,
/// whether or not a backend is configured; `HybridBlend` asks the backend and
/// overlays the grid. A plan fails exactly when a source the strategy needs
/// is missing.
pub proof fn lemma_plan_by_strategy(has_grid: bool, has_backend: bool)
    ensures
        has_backend ==> plan_for(HybridSamplingStrategy::RealTimeOnly, has_grid, has_backend) == Ok::<ResolvePlan, ()>(
            ResolvePlan::QueryBackend,
        ),
        has_grid ==> plan_for(HybridSamplingStrategy::BakedOnly, has_grid, has_backend) == Ok::<ResolvePlan, ()>(
            ResolvePlan::SampleGrid,
        ),
        has_grid && has_backend ==> plan_for(HybridSamplingStrategy::HybridBlend, has_grid, has_backend) == Ok::<
            ResolvePlan,
            (),
        >(ResolvePlan::QueryBackendThenGrid),
        plan_for(HybridSamplingStrategy::RealTimeOnly, has_grid, has_backend) is Err <==> !has_backend,
        plan_for(HybridSamplingStrategy::BakedOnly, has_grid, has_backend) is Err <==> !has_grid,
        plan_for(HybridSamplingStrategy::HybridBlend, has_grid, has_backend) is Err <==> !(has_grid && has_backend),
{
}

} // verus!
