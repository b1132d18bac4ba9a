use auto_heater::api::{
    heater_query_needed, send_config_and_state, wants_config, AHError, Response, ResponseData,
    ResponseStateData, INTERNAL_SERVER_ERROR,
};
use auto_heater::config::{Config, State};
use auto_heater::reading::{Reading, Temperature};

fn api_reading() -> Reading {
    Reading { temperature: Temperature::from_bits(19.5f32.to_bits()), co2: 640 }
}

#[test]
fn response_without_configuration() {
    let state = State::new(Config::default());
    let response = send_config_and_state(&state, false, api_reading(), Some(true));
    assert_eq!(
        response,
        Response {
            success: true,
            data: Some(ResponseData {
                config: None,
                available: true,
                state: ResponseStateData {
                    temperature: Temperature::from_bits(19.5f32.to_bits()),
                    co2: 640,
                    is_heating: true,
                },
            }),
            error: None,
        }
    );
}

#[test]
fn response_with_configuration() {
    let state = State::new(Config::default());
    let response = send_config_and_state(&state, true, api_reading(), Some(false));
    let data = response.data.unwrap();
    assert_eq!(data.config, Some(Config::default()));
    assert!(data.available);
    assert!(!data.state.is_heating);
    assert!(response.success);
    assert_eq!(response.error, None);
}

#[test]
fn unavailable_plug_counts_as_not_heating() {
    let mut state = State::new(Config::default());
    state.record(false);
    assert!(!heater_query_needed(&state));
    let data = send_config_and_state(&state, false, api_reading(), None).data.unwrap();
    assert!(!data.available);
    assert!(!data.state.is_heating);
    let seen = send_config_and_state(&state, false, api_reading(), Some(true)).data.unwrap();
    assert!(!seen.state.is_heating);
}

#[test]
fn available_plug_is_queried() {
    let state = State::new(Config::default());
    assert!(heater_query_needed(&state));
    let data = send_config_and_state(&state, false, api_reading(), None).data.unwrap();
    assert!(!data.state.is_heating);
}

#[test]
fn every_error_answers_with_500() {
    assert_eq!(INTERNAL_SERVER_ERROR, 500);
    for error in [AHError::AnyError, AHError::SerdeError, AHError::IOError] {
        assert_eq!(error.status_code(), 500);
    }
}

#[test]
fn error_messages_are_generic() {
    assert_eq!(AHError::AnyError.message(), "an unknown error occurred");
    assert_eq!(
        AHError::SerdeError.message(),
        "an unknown error occurred during (de)serialization"
    );
    assert_eq!(AHError::IOError.message(), "an unknown IO error occurred");
}

#[test]
fn error_response_has_no_data() {
    for error in [AHError::AnyError, AHError::SerdeError, AHError::IOError] {
        assert_eq!(
            error.error_response(),
            Response { success: false, data: None, error: Some(error.message().to_string()) }
        );
    }
}

#[test]
fn configuration_is_included_only_on_request() {
    assert!(wants_config(Some(true)));
    assert!(!wants_config(Some(false)));
    assert!(!wants_config(None));
}
