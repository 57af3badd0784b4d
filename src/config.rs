//! The settings of the process: the broker's address, which must be given, and
//! the tick period and connect timeout, in whole seconds, which may be.
use vstd::prelude::*;
use crate::decimal::{number_at, parse_number};

verus! {

pub const DEFAULT_TICK_PERIOD_SECS: u64 = 3;

pub const DEFAULT_CONNECT_TIMEOUT_SECS: u64 = 10;

pub struct Config {
    /// The broker's connection URI, credentials included.
    pub amqp_addr: String,
    pub tick_period_secs: u64,
    pub connect_timeout_secs: u64,
}

#[derive(Clone, Copy, Debug, PartialEq, Eq, Structural)]
pub enum ConfigError {
    MissingAddress,
    InvalidTickPeriod,
    InvalidConnectTimeout,
}

/// A positive number of seconds written in decimal digits and nothing else.
pub open spec fn seconds_value(text: Seq<u8>) -> Option<u64> {
    match number_at(text, 0) {
        Some((v, e)) => if e == text.len() && v > 0 {
            Some(v)
        } else {
            None
        },
        None => None,
    }
}

/// An optional setting in seconds: the default where it is absent.
pub open spec fn setting_value(text: Option<Seq<u8>>, default: u64) -> Option<u64> {
    match text {
        None => Some(default),
        Some(t) => seconds_value(t),
    }
}

pub open spec fn view_of(text: Option<&[u8]>) -> Option<Seq<u8>> {
    match text {
        None => None,
        Some(t) => Some(t@),
    }
}

pub fn parse_seconds(text: &[u8]) -> (r: Option<u64>)
    ensures
        r == seconds_value(text@),
{
    match parse_number(text, 0) {
        Some((v, e)) => if e == text.len() && v > 0 {
            Some(v)
        } else {
            None
        },
        None => None,
    }
}

fn setting(text: Option<&[u8]>, default: u64) -> (r: Option<u64>)
    ensures
        r == setting_value(view_of(text), default),
{
    match text {
        None => Some(default),
        Some(t) => parse_seconds(t),
    }
}

/// The settings from their raw values: the address must be there; a period or
/// timeout that is absent takes its default, one that is there must be a
/// positive whole number of seconds.
pub fn load_config(
    amqp_addr: Option<String>,
    tick_period: Option<&[u8]>,
    connect_timeout: Option<&[u8]>,
) -> (r: Result<Config, ConfigError>)
    ensures
        match r {
            Ok(c) => amqp_addr matches Some(a) && c.amqp_addr@ == a@ && setting_value(
                view_of(tick_period),
                DEFAULT_TICK_PERIOD_SECS,
            ) == Some(c.tick_period_secs) && setting_value(
                view_of(connect_timeout),
                DEFAULT_CONNECT_TIMEOUT_SECS,
            ) == Some(c.connect_timeout_secs),
            Err(ConfigError::MissingAddress) => amqp_addr is None,
            Err(ConfigError::InvalidTickPeriod) => amqp_addr is Some && setting_value(
                view_of(tick_period),
                DEFAULT_TICK_PERIOD_SECS,
            ) is None,
            Err(ConfigError::InvalidConnectTimeout) => amqp_addr is Some && setting_value(
                view_of(tick_period),
                DEFAULT_TICK_PERIOD_SECS,
            ) is Some && setting_value(view_of(connect_timeout), DEFAULT_CONNECT_TIMEOUT_SECS)
                is None,
        },
{
    let addr = match amqp_addr {
        Some(a) => a,
        None => return Err(ConfigError::MissingAddress),
    };
    let period = match setting(tick_period, DEFAULT_TICK_PERIOD_SECS) {
        Some(p) => p,
        None => return Err(ConfigError::InvalidTickPeriod),
    };
    let timeout = match setting(connect_timeout, DEFAULT_CONNECT_TIMEOUT_SECS) {
        Some(t) => t,
        None => return Err(ConfigError::InvalidConnectTimeout),
    };
    Ok(Config { amqp_addr: addr, tick_period_secs: period, connect_timeout_secs: timeout })
}

} // verus!
