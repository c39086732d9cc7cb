use vstd::prelude::*;

verus! {

/// Why an untrusted identifier was refused.
#[derive(Debug, Clone, Copy, PartialEq, Eq, Structural)]
pub enum NameFault {
    Empty,
    TooLong,
    DotDot,
    BadChar(char),
}

/// Which required artifact or setting a configuration lacks.
#[derive(Debug, Clone, Copy, PartialEq, Eq, Structural)]
pub enum ConfigFault {
    /// A foreign-architecture guest needs a firmware image that is not there.
    MissingFirmware,
    /// The console port lies outside the platform's range.
    ConsolePortOutOfRange,
    /// The CPU topology asks for more vCPUs than fit in 32 bits.
    TooManyVcpus,
    /// A disk size is not a number followed by `G` or `M`.
    BadDiskSize,
    /// A new root password is shorter than 6 bytes.
    ShortPassword,
    /// The local clock gives a year that a backup name cannot hold.
    ClockOutOfRange,
}

/// The failures that the orchestration core can report.
#[derive(Debug)]
pub enum VmError {
    /// An untrusted string failed sanitization.
    InvalidName(NameFault),
    /// A port string is not a number in range, or names a reserved port.
    InvalidPort,
    /// An address string is not a dotted-quad IPv4 address.
    InvalidAddress,
    /// The configuration references a missing or unusable artifact.
    ConfigurationError(ConfigFault),
    /// No free console port or guest address is left.
    ResourceExhausted,
    /// The hypervisor binary could not be launched.
    SpawnError(String),
    /// The hypervisor exited during the liveness grace window.
    ProcessCrashed { exit_code: Option<i32>, log_tail: String, log_path: String },
    /// The control socket could not be reached.
    MonitorUnreachable(String),
    /// The control socket accepted the command but gave no answer in time.
    MonitorTimeout,
    /// No VM or disk of that name exists.
    NotFound,
    /// The resource is already taken or the VM is in the wrong state.
    Conflict,
    /// The request names no operation that this engine knows.
    UnknownOperation,
    /// The request lacks an argument that its operation needs.
    MissingArgument,
}

} // verus!
