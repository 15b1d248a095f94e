use vstd::prelude::*;

verus! {

/// Outcome of a command as reported by a server.
#[derive(Debug, Clone, Copy, PartialEq, Eq, Structural)]
pub enum CommandStatus {
    Inserted,
    Deleted,
    RateLimited,
    Okay,
    NotFound,
    Found,
    ConfigNotFound,
    KeyMoved,
    Booting,
    Queued,
    Error,
}

impl CommandStatus {
    /// The status that a byte stands for; bytes without a meaning stand for
    /// `Error`.
    pub open spec fn from_code(value: u8) -> CommandStatus {
        match value {
            1 => CommandStatus::Inserted,
            2 => CommandStatus::Deleted,
            3 => CommandStatus::RateLimited,
            4 => CommandStatus::Okay,
            5 => CommandStatus::NotFound,
            6 => CommandStatus::Found,
            7 => CommandStatus::ConfigNotFound,
            8 => CommandStatus::KeyMoved,
            9 => CommandStatus::Booting,
            10 => CommandStatus::Queued,
            _ => CommandStatus::Error,
        }
    }

    /// The byte that stands for the status.
    pub open spec fn code(self) -> u8 {
        match self {
            CommandStatus::Inserted => 1,
            CommandStatus::Deleted => 2,
            CommandStatus::RateLimited => 3,
            CommandStatus::Okay => 4,
            CommandStatus::NotFound => 5,
            CommandStatus::Found => 6,
            CommandStatus::ConfigNotFound => 7,
            CommandStatus::KeyMoved => 8,
            CommandStatus::Booting => 9,
            CommandStatus::Queued => 10,
            CommandStatus::Error => 255,
        }
    }
}

impl CommandStatus {
    /// The status that a byte stands for.
    pub fn of_code(value: u8) -> (r: CommandStatus)
        ensures
            r == CommandStatus::from_code(value),
    {
        match value {
            1 => CommandStatus::Inserted,
            2 => CommandStatus::Deleted,
            3 => CommandStatus::RateLimited,
            4 => CommandStatus::Okay,
            5 => CommandStatus::NotFound,
            6 => CommandStatus::Found,
            7 => CommandStatus::ConfigNotFound,
            8 => CommandStatus::KeyMoved,
            9 => CommandStatus::Booting,
            10 => CommandStatus::Queued,
            _ => CommandStatus::Error,
        }
    }
}

impl From<u8> for CommandStatus {
    fn from(value: u8) -> (r: CommandStatus) {
        match value {
            1 => CommandStatus::Inserted,
            2 => CommandStatus::Deleted,
            3 => CommandStatus::RateLimited,
            4 => CommandStatus::Okay,
            5 => CommandStatus::NotFound,
            6 => CommandStatus::Found,
            7 => CommandStatus::ConfigNotFound,
            8 => CommandStatus::KeyMoved,
            9 => CommandStatus::Booting,
            10 => CommandStatus::Queued,
            _ => CommandStatus::Error,
        }
    }
}

impl vstd::std_specs::convert::FromSpecImpl<u8> for CommandStatus {
    open spec fn obeys_from_spec() -> bool {
        true
    }

    open spec fn from_spec(v: u8) -> CommandStatus {
        CommandStatus::from_code(v)
    }
}

impl DeepView for CommandStatus {
    type V = CommandStatus;

    open spec fn deep_view(&self) -> CommandStatus {
        *self
    }
}

impl From<&CommandStatus> for u8 {
    fn from(value: &CommandStatus) -> (r: u8) {
        match value {
            CommandStatus::Inserted => 1,
            CommandStatus::Deleted => 2,
            CommandStatus::RateLimited => 3,
            CommandStatus::Okay => 4,
            CommandStatus::NotFound => 5,
            CommandStatus::Found => 6,
            CommandStatus::ConfigNotFound => 7,
            CommandStatus::KeyMoved => 8,
            CommandStatus::Booting => 9,
            CommandStatus::Queued => 10,
            CommandStatus::Error => 255,
        }
    }
}

impl vstd::std_specs::convert::FromSpecImpl<&CommandStatus> for u8 {
    open spec fn obeys_from_spec() -> bool {
        true
    }

    open spec fn from_spec(v: &CommandStatus) -> u8 {
        v.code()
    }
}

/// Every status survives a trip through its byte.
pub proof fn law_command_status_roundtrip(s: CommandStatus)
    ensures
        CommandStatus::from_code(s.code()) == s,
{
}

/// A byte means a status of its own exactly when it is 1 to 10 or 255; every
/// other byte means `Error`.
pub proof fn law_command_status_codes(v: u8)
    ensures
        (1 <= v <= 10 || v == 255) <==> CommandStatus::from_code(v).code() == v,
        !(1 <= v <= 10) ==> CommandStatus::from_code(v) == CommandStatus::Error,
{
}

/// What a text entry asks to be written to storage.
pub enum TextPersistType {
    Nothing,
    Cfg { data: Box<[u8]> },
    Add { data: Box<[u8]> },
    Del { data: Box<[u8]> },
}

/// What a bloom filter asks to be written to storage.
pub enum BloomFilterPersistType {
    Nothing,
    Cfg { data: Box<[u8]> },
    Data { data: Box<[u8]> },
}

/// What a counter asks to be written to storage.
pub enum CounterPersistType {
    Nothing,
    Cfg { data: Box<[u8]> },
    Data { data: Box<[u8]> },
}

/// What a rate limiter asks to be written to storage.
pub enum RateLimiterPersistType {
    Nothing,
    Cfg { data: Box<[u8]> },
}

} // verus!
