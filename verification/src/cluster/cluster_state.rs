use vstd::prelude::*;

verus! {

/// The phase a cluster is in.
#[derive(Debug, Clone, Copy, PartialEq, Eq, Structural)]
pub enum ClusterState {
    /// A server is booting.
    Booting,
    /// The cluster runs normally.
    Normal,
    /// Servers are being added and buckets move.
    ScalingUp,
    /// Servers are being removed and buckets move.
    SclaingDown,
    /// A server was added; its files move next.
    ScaledUp,
    /// A server was removed; its files move next.
    ScaledDown,
    /// A server was added and bucket files are moving.
    ScalingUpMoving,
    /// A server was removed and bucket files are moving.
    SclaingDownMoving,
    /// A server was added and the files have moved.
    ScaledUpMoved,
    /// A server was removed and the files have moved.
    ScaledDownMoved,
    /// A server loads its local files.
    ServerProcessingFiles,
    /// A server works off the requests queued while scaling or loading.
    ServerProcessingQueue,
    ServerScalingStarted,
}

impl ClusterState {
    /// The byte that stands for the state.
    pub open spec fn code(self) -> u8 {
        match self {
            ClusterState::Booting => 1,
            ClusterState::Normal => 2,
            ClusterState::ScalingUp => 3,
            ClusterState::SclaingDown => 4,
            ClusterState::ScaledUp => 5,
            ClusterState::ScaledDown => 6,
            ClusterState::ScalingUpMoving => 7,
            ClusterState::SclaingDownMoving => 8,
            ClusterState::ScaledUpMoved => 9,
            ClusterState::ScaledDownMoved => 10,
            ClusterState::ServerProcessingFiles => 11,
            ClusterState::ServerProcessingQueue => 12,
            ClusterState::ServerScalingStarted => 13,
        }
    }

    /// The state that a byte stands for, if any: bytes 1 to 13.
    pub open spec fn from_code(v: u8) -> Result<ClusterState, InvalidClusterState> {
        match v {
            1 => Ok(ClusterState::Booting),
            2 => Ok(ClusterState::Normal),
            3 => Ok(ClusterState::ScalingUp),
            4 => Ok(ClusterState::SclaingDown),
            5 => Ok(ClusterState::ScaledUp),
            6 => Ok(ClusterState::ScaledDown),
            7 => Ok(ClusterState::ScalingUpMoving),
            8 => Ok(ClusterState::SclaingDownMoving),
            9 => Ok(ClusterState::ScaledUpMoved),
            10 => Ok(ClusterState::ScaledDownMoved),
            11 => Ok(ClusterState::ServerProcessingFiles),
            12 => Ok(ClusterState::ServerProcessingQueue),
            13 => Ok(ClusterState::ServerScalingStarted),
            _ => Err(InvalidClusterState { value: v }),
        }
    }

    fn to_code(status: &ClusterState) -> (r: u8)
        ensures
            r == status.code(),
    {
        match status {
            ClusterState::Booting => 1,
            ClusterState::Normal => 2,
            ClusterState::ScalingUp => 3,
            ClusterState::SclaingDown => 4,
            ClusterState::ScaledUp => 5,
            ClusterState::ScaledDown => 6,
            ClusterState::ScalingUpMoving => 7,
            ClusterState::SclaingDownMoving => 8,
            ClusterState::ScaledUpMoved => 9,
            ClusterState::ScaledDownMoved => 10,
            ClusterState::ServerProcessingFiles => 11,
            ClusterState::ServerProcessingQueue => 12,
            ClusterState::ServerScalingStarted => 13,
        }
    }

    fn of_code(val: u8) -> (r: Result<ClusterState, InvalidClusterState>)
        ensures
            r == ClusterState::from_code(val),
    {
        match val {
            1 => Ok(ClusterState::Booting),
            2 => Ok(ClusterState::Normal),
            3 => Ok(ClusterState::ScalingUp),
            4 => Ok(ClusterState::SclaingDown),
            5 => Ok(ClusterState::ScaledUp),
            6 => Ok(ClusterState::ScaledDown),
            7 => Ok(ClusterState::ScalingUpMoving),
            8 => Ok(ClusterState::SclaingDownMoving),
            9 => Ok(ClusterState::ScaledUpMoved),
            10 => Ok(ClusterState::ScaledDownMoved),
            11 => Ok(ClusterState::ServerProcessingFiles),
            12 => Ok(ClusterState::ServerProcessingQueue),
            13 => Ok(ClusterState::ServerScalingStarted),
            _ => Err(InvalidClusterState { value: val }),
        }
    }
}

/// A byte that stands for no cluster state.
#[derive(Debug, Clone, Copy, PartialEq, Eq, Structural)]
pub struct InvalidClusterState {
    pub value: u8,
}

impl From<ClusterState> for u8 {
    fn from(status: ClusterState) -> (r: u8) {
        ClusterState::to_code(&status)
    }
}

impl vstd::std_specs::convert::FromSpecImpl<ClusterState> for u8 {
    open spec fn obeys_from_spec() -> bool {
        true
    }

    open spec fn from_spec(v: ClusterState) -> u8 {
        v.code()
    }
}

impl From<&ClusterState> for u8 {
    fn from(status: &ClusterState) -> (r: u8) {
        ClusterState::to_code(status)
    }
}

impl vstd::std_specs::convert::FromSpecImpl<&ClusterState> for u8 {
    open spec fn obeys_from_spec() -> bool {
        true
    }

    open spec fn from_spec(v: &ClusterState) -> u8 {
        v.code()
    }
}

impl TryFrom<u8> for ClusterState {
    type Error = InvalidClusterState;

    fn try_from(val: u8) -> (r: Result<ClusterState, InvalidClusterState>) {
        ClusterState::of_code(val)
    }
}

impl vstd::std_specs::convert::TryFromSpecImpl<u8> for ClusterState {
    open spec fn obeys_try_from_spec() -> bool {
        true
    }

    open spec fn try_from_spec(v: u8) -> Result<ClusterState, InvalidClusterState> {
        ClusterState::from_code(v)
    }
}

/// Every cluster state survives a trip through its byte, and exactly the
/// bytes 1 to 13 stand for a state.
pub proof fn law_cluster_state_roundtrip(s: ClusterState, v: u8)
    ensures
        ClusterState::from_code(s.code()) == Ok::<ClusterState, InvalidClusterState>(s),
        ClusterState::from_code(v) is Ok <==> 1 <= v <= 13,
        ClusterState::from_code(v) matches Ok(t) ==> t.code() == v,
{
}

} // verus!
