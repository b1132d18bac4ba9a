//! What the configuration interface answers: the observed state, the
//! configuration on request, and a uniform envelope for errors.

use vstd::prelude::*;
use crate::config::{Config, State};
use crate::reading::{Reading, Temperature};

verus! {

/// The status code of every error response.
pub const INTERNAL_SERVER_ERROR: u16 = 500;

/// The kinds of failure that a request can end in.
#[derive(Clone, Copy, Debug, PartialEq, Eq, Structural)]
pub enum AHError {
    /// A probe, the exporter or the plug failed.
    AnyError,
    /// A document could not be read or written as JSON.
    SerdeError,
    /// The configuration file could not be read or written.
    IOError,
}

/// What the sensors and the plug show.
#[derive(Clone, Copy, Debug, PartialEq, Eq)]
pub struct ResponseStateData {
    pub temperature: Temperature,
    pub co2: i32,
    pub is_heating: bool,
}

/// The payload of a successful response.
#[derive(Clone, Copy, Debug, PartialEq, Eq)]
pub struct ResponseData {
    pub config: Option<Config>,
    pub available: bool,
    pub state: ResponseStateData,
}

/// The envelope of every response.
#[derive(Clone, Debug, PartialEq, Eq)]
pub struct Response {
    pub success: bool,
    pub data: Option<ResponseData>,
    pub error: Option<String>,
}

/// The text that stands for an error in a response. It names the kind of
/// failure and nothing of its cause.
pub open spec fn message_of(error: AHError) -> Seq<char> {
    match error {
        AHError::AnyError => "an unknown error occurred"@,
        AHError::SerdeError => "an unknown error occurred during (de)serialization"@,
        AHError::IOError => "an unknown IO error occurred"@,
    }
}

/// The payload that describes `state` together with what was observed. A
/// plug that is not available counts as not heating, whatever was seen of
/// it.
pub open spec fn data_of(
    state: State,
    include_config: bool,
    reading: Reading,
    heater_on: Option<bool>,
) -> ResponseData {
    ResponseData {
        config: if include_config { Some(state.config) } else { None },
        available: state.available,
        state: ResponseStateData {
            temperature: reading.temperature,
            co2: reading.co2,
            is_heating: state.available && heater_on == Some(true),
        },
    }
}

impl AHError {
    /// The status code of the response to a failed request: always 500.
    pub fn status_code(&self) -> (code: u16)
        ensures
            code == INTERNAL_SERVER_ERROR,
    {
        INTERNAL_SERVER_ERROR
    }

    /// The text that stands for this error in a response.
    pub fn message(&self) -> (text: &'static str)
        ensures
            text@ == message_of(*self),
    {
        match self {
            AHError::AnyError => "an unknown error occurred",
            AHError::SerdeError => "an unknown error occurred during (de)serialization",
            AHError::IOError => "an unknown IO error occurred",
        }
    }

    /// The response to a failed request: no data, and the error's text.
    pub fn error_response(&self) -> (response: Response)
        ensures
            !response.success,
            response.data is None,
            response.error is Some,
            response.error->0@ == message_of(*self),
    {
        Response { success: false, data: None, error: Some(self.message().to_owned()) }
    }
}

/// Whether a request asks for the configuration: only where it says so.
pub fn wants_config(include_config: Option<bool>) -> (wanted: bool)
    ensures
        wanted == (include_config == Some(true)),
{
    match include_config {
        Some(wanted) => wanted,
        None => false,
    }
}

/// Whether the plug is to be asked for its state before a response is made:
/// only while it counts as available.
pub fn heater_query_needed(state: &State) -> (needed: bool)
    ensures
        needed == state.available,
{
    state.available
}

/// The response that describes the current state. `heater_on` is what the
/// plug answered, or `None` where it was not asked.
pub fn send_config_and_state(
    state: &State,
    include_config: bool,
    reading: Reading,
    heater_on: Option<bool>,
) -> (response: Response)
    ensures
        response.success,
        response.error is None,
        response.data == Some(data_of(*state, include_config, reading, heater_on)),
{
    let is_heating: bool = state.available && match heater_on {
        Some(on) => on,
        None => false,
    };
    Response {
        success: true,
        data: Some(
            ResponseData {
                config: if include_config { Some(state.config) } else { None },
                available: state.available,
                state: ResponseStateData {
                    temperature: reading.temperature,
                    co2: reading.co2,
                    is_heating,
                },
            },
        ),
        error: None,
    }
}

} // verus!
