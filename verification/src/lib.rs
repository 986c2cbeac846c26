//! Core of a remote job execution service: resource limits and cgroup
//! interface writes, job statuses, the append-only job log, the supervisor's
//! job table with its lifecycle transitions, and the binding between a peer's
//! certificate and job ownership.

pub mod error;
pub mod ids;
pub mod limits;
pub mod logbuf;
pub mod status;
pub mod supervisor;
pub mod tls;
pub mod grpc;
