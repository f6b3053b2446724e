//! Verified core of the Q-TOM task loom: the append-only event log and its
//! replay validation, the task, plan and topology-governance model, the
//! offline mock agents and runtime, the replay projections, the project
//! settings, the CUDA backend surface with its buffer planning, routing
//! errors with the batch checks and worker split, the integer core of task
//! route requests, the golden fixture text format, and the benchmark
//! driver's command line.
pub mod text;
pub mod loom;
pub mod replay;
pub mod loom_model;
pub mod topology;
pub mod loom_mock;
pub mod loom_runtime;
pub mod loom_projection;
pub mod types;
pub mod backend;
pub mod batch;
pub mod loom_route;
pub mod cuda;
pub mod config;
pub mod bench_mode;
pub mod golden;
pub mod golden_laws;

pub use backend::{BackendMismatch, BackendParityError};
pub use bench_mode::BenchMode;
pub use config::ProjectConfig;
pub use cuda::{
    CudaBackendStatus, CudaBufferPlan, CudaDeviceBuffer, CudaDeviceElement, CudaFunction,
    CudaKernelLaunchConfig, CudaModule, CudaRuntime, CudaRuntimeError, CudaRuntimeStatus,
    CudaStream, RouteAgentsKernel, RouteAgentsKernelArgs, detect_cuda_runtime,
};
pub use golden::{
    FixtureConfig, GoldenAgent, GoldenFixtureError, GoldenRecords, GoldenRequest, GoldenState,
    decode_golden_fixture, encode_golden_fixture,
};
pub use loom::{
    InMemoryEventLog, LoomEvent, LoomEventError, LoomEventType, ReplayCursor,
};
pub use loom_mock::{
    ConstructorOutput, CuratorOutput, DirectorOutput, IntegrationOutput, MockConstructor,
    MockConstructorConfig, MockCurator, MockCuratorConfig, MockDirector, MockDirectorConfig,
    MockIntegration, MockIntegrationConfig,
};
pub use loom_model::{
    AgentDecommissionPacket, ArtifactRef, DependencyEdge, DependencyKind, IntegrationGroup,
    IntegrationReport, IntegrationStatus, JoinPolicy, LoomModelError, MemoryNode, MemoryNodeKind,
    PlanNode, TaskEnvelope,
};
pub use loom_projection::{
    LoomProjectionBundle, LoomReplayReport, artifact_provenance_projection,
    integration_group_projection, loom_projection_bundle, loom_replay_report,
    memory_lineage_projection, route_trace_projection, task_dependency_projection,
    topology_governance_projection,
};
pub use loom_runtime::{
    AgentExecutionResult, AgentRuntime, HydratedContext, MockConstructorRuntime,
    MockConstructorRuntimeConfig,
};
pub use replay::{ReplayValidationReport, validate_events};
pub use topology::{
    RollbackRecord, TopologyGovernanceStore, TopologyProposal, TopologyProposalKind,
    TopologyProposalStatus, TopologySnapshot, TopologySnapshotStatus,
    validate_topology_governance_records, validate_unique_rollback_ids,
    validate_unique_topology_proposal_ids, validate_unique_topology_snapshot_ids,
};
pub use types::{AgentLabels, RouteError};
