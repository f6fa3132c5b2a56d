//! What a scan runs against: an IP address and a worker count, and how a
//! command line resolves to that configuration or to a configuration error.

use vstd::prelude::*;

verus! {

/// How many seconds one TCP connection attempt may take before the port is
/// treated as closed. A worker therefore blocks at most this long per port.
pub const CONNECT_TIMEOUT_SECS: u64 = 2;

/// An IP address held as plain numbers: the four octets of an IPv4 address
/// or the eight 16-bit segments of an IPv6 address. The caller that performs
/// the probes converts this to its socket address type.
#[derive(Clone, Copy, PartialEq, Eq, Structural, Debug)]
pub enum IpAddress {
    V4(u8, u8, u8, u8),
    V6(u16, u16, u16, u16, u16, u16, u16, u16),
}

/// The immutable configuration of one scan: the address to probe and the
/// number of concurrent workers. A count of zero is a valid degenerate run:
/// no worker is spawned and the result is empty.
#[derive(Clone, Copy, PartialEq, Eq, Structural, Debug)]
pub struct ScanTarget {
    pub ip_address: IpAddress,
    pub worker_count: u16,
}

impl ScanTarget {
    /// Builds the configuration. Every `u16` worker count is within the
    /// allowed range `0..=65535`, so construction cannot fail.
    pub fn new(ip_address: IpAddress, worker_count: u16) -> (t: ScanTarget)
        ensures
            t.ip_address == ip_address,
            t.worker_count == worker_count,
    {
        ScanTarget { ip_address, worker_count }
    }
}

/// Why a command line yields no scan. Each variant carries the exact
/// description the caller surfaces; `HelpRequested` is not a fault, only a
/// request to stop after the usage text.
#[derive(Clone, Copy, PartialEq, Eq, Structural, Debug)]
pub enum ConfigError {
    /// Fewer than two arguments in all.
    TooFewArguments,
    /// More than four arguments in all.
    TooManyArguments,
    /// The first argument asks for the usage text.
    HelpRequested,
    /// The thread flag stands alone, with no count after it.
    MissingThreadCount,
    /// What follows the thread flag is not an unsigned 16-bit count.
    InvalidThreadCount,
    /// A thread count was given but no address after it.
    MissingTargetAddress,
    /// What should be the address is neither an IPv4 nor an IPv6 literal.
    InvalidTargetAddress,
    /// The first argument is no address and no known flag.
    UnrecognizedArgument,
}

impl ConfigError {
    /// The description surfaced to the caller, one per variant.
    pub fn message(&self) -> (r: &'static str)
        ensures
            r@ == self.spec_message(),
    {
        match self {
            ConfigError::TooFewArguments => "Too few arguments",
            ConfigError::TooManyArguments => "Too many arguments",
            ConfigError::HelpRequested => "help",
            ConfigError::MissingThreadCount => "Too few arguments",
            ConfigError::InvalidThreadCount => "invalid thread number",
            ConfigError::MissingTargetAddress => "Too few arguments, missing ipaddr",
            ConfigError::InvalidTargetAddress => "ipaddr invalid, ipv4 or ipv6",
            ConfigError::UnrecognizedArgument => "coucou",
        }
    }

    /// What `message` returns, as a sequence of characters.
    pub open spec fn spec_message(self) -> Seq<char> {
        match self {
            ConfigError::TooFewArguments => "Too few arguments"@,
            ConfigError::TooManyArguments => "Too many arguments"@,
            ConfigError::HelpRequested => "help"@,
            ConfigError::MissingThreadCount => "Too few arguments"@,
            ConfigError::InvalidThreadCount => "invalid thread number"@,
            ConfigError::MissingTargetAddress => "Too few arguments, missing ipaddr"@,
            ConfigError::InvalidTargetAddress => "ipaddr invalid, ipv4 or ipv6"@,
            ConfigError::UnrecognizedArgument => "coucou"@,
        }
    }
}

/// The decision a command line resolves to, from the parse outcomes of its
/// pieces. The first argument takes priority as an address literal, then as
/// a request for help, then as the thread flag; a bare address scans with
/// zero workers. See `resolve_arguments`.
pub open spec fn spec_resolve_arguments(
    arg_count: int,
    first_ip: Option<IpAddress>,
    first_mentions_help: bool,
    first_mentions_threads: bool,
    thread_arg: Option<u16>,
    ip_arg: Option<IpAddress>,
) -> Result<ScanTarget, ConfigError> {
    if arg_count < 2 {
        Err(ConfigError::TooFewArguments)
    } else if arg_count > 4 {
        Err(ConfigError::TooManyArguments)
    } else if first_ip is Some {
        Ok(ScanTarget { ip_address: first_ip->Some_0, worker_count: 0 })
    } else if first_mentions_help {
        Err(ConfigError::HelpRequested)
    } else if first_mentions_threads {
        if arg_count < 3 {
            Err(ConfigError::MissingThreadCount)
        } else if thread_arg is None {
            Err(ConfigError::InvalidThreadCount)
        } else if arg_count < 4 {
            Err(ConfigError::MissingTargetAddress)
        } else if ip_arg is None {
            Err(ConfigError::InvalidTargetAddress)
        } else {
            Ok(ScanTarget { ip_address: ip_arg->Some_0, worker_count: thread_arg->Some_0 })
        }
    } else {
        Err(ConfigError::UnrecognizedArgument)
    }
}

/// Turns a command line into a validated configuration or a configuration
/// error, deciding exactly as `spec_resolve_arguments` says.
///
/// The caller hands in plain parse outcomes: how many arguments there are,
/// whether the first one is an address literal (and which), whether it
/// mentions the help or the thread flag, and the parses of the thread count
/// and of the trailing address where those arguments exist.
pub fn resolve_arguments(
    arg_count: usize,
    first_ip: Option<IpAddress>,
    first_mentions_help: bool,
    first_mentions_threads: bool,
    thread_arg: Option<u16>,
    ip_arg: Option<IpAddress>,
) -> (r: Result<ScanTarget, ConfigError>)
    ensures
        r == spec_resolve_arguments(
            arg_count as int,
            first_ip,
            first_mentions_help,
            first_mentions_threads,
            thread_arg,
            ip_arg,
        ),
{
    if arg_count < 2 {
        Err(ConfigError::TooFewArguments)
    } else if arg_count > 4 {
        Err(ConfigError::TooManyArguments)
    } else if let Some(ip) = first_ip {
        Ok(ScanTarget::new(ip, 0))
    } else if first_mentions_help {
        Err(ConfigError::HelpRequested)
    } else if first_mentions_threads {
        if arg_count < 3 {
            Err(ConfigError::MissingThreadCount)
        } else if let Some(threads) = thread_arg {
            if arg_count < 4 {
                Err(ConfigError::MissingTargetAddress)
            } else if let Some(ip) = ip_arg {
                Ok(ScanTarget::new(ip, threads))
            } else {
                Err(ConfigError::InvalidTargetAddress)
            }
        } else {
            Err(ConfigError::InvalidThreadCount)
        }
    } else {
        Err(ConfigError::UnrecognizedArgument)
    }
}

} // verus!
