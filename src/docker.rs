//! The container engine's status, and the actions a container accepts.
use vstd::prelude::*;
use crate::text::{same_text, chars_of, string_of, text_view, trim, trim_of};

verus! {

/// What `systemctl is-active docker` prints while the engine runs.
pub const ACTIVE_STATE: &'static str = "active";

pub const START_ACTION: &'static str = "start";

pub const STOP_ACTION: &'static str = "stop";

pub const RESTART_ACTION: &'static str = "restart";

#[derive(Clone, Debug, PartialEq, Eq)]
pub struct DockerStatus {
    pub installed: bool,
    pub running: bool,
    pub version: String,
}

#[derive(Clone, Debug, PartialEq, Eq)]
pub struct ContainerAction {
    pub action: String,
}

#[derive(PartialEq, Eq, Structural, Clone, Copy, Debug)]
pub enum ContainerOp {
    Start,
    Stop,
    Restart,
}

impl DockerStatus {
    /// The status from three probes: whether the `docker` binary exists,
    /// what `systemctl is-active docker` printed and what `docker --version`
    /// printed (`None` where the command could not run). The service and the
    /// version are only consulted when the binary exists.
    pub fn from_probe(installed: bool, service_state: Option<&str>, version_output: Option<&str>) -> (r: DockerStatus)
        ensures
            r.installed == installed,
            r.running == (installed && text_view(service_state) is Some && trim(
                text_view(service_state).unwrap(),
            ) == ACTIVE_STATE@),
            r.version@ == (if installed && text_view(version_output) is Some {
                trim(text_view(version_output).unwrap())
            } else {
                Seq::<char>::empty()
            }),
    {
        let mut running = false;
        if installed {
            if let Some(state) = service_state {
                let t = string_of(&trim_of(&chars_of(state)));
                running = same_text(t.as_str(), ACTIVE_STATE);
            }
        }
        let mut version = String::new();
        if installed {
            if let Some(v) = version_output {
                version = string_of(&trim_of(&chars_of(v)));
            }
        }
        DockerStatus { installed, running, version }
    }
}

impl ContainerAction {
    /// The operation the request names; `None` for anything else, which is
    /// refused.
    pub fn op(&self) -> (r: Option<ContainerOp>)
        ensures
            r == (if self.action@ == START_ACTION@ {
                Some(ContainerOp::Start)
            } else if self.action@ == STOP_ACTION@ {
                Some(ContainerOp::Stop)
            } else if self.action@ == RESTART_ACTION@ {
                Some(ContainerOp::Restart)
            } else {
                None
            }),
    {
        let a = self.action.as_str();
        if same_text(a, START_ACTION) {
            Some(ContainerOp::Start)
        } else if same_text(a, STOP_ACTION) {
            Some(ContainerOp::Stop)
        } else if same_text(a, RESTART_ACTION) {
            Some(ContainerOp::Restart)
        } else {
            None
        }
    }
}

} // verus!
