use endpoint_validator::config::{extract_param_defaults, EndpointData, ParamValue};
use endpoint_validator::json::JsonValue;
use endpoint_validator::schema::{
    find_endpoint, EndpointSchema, EndpointsType, Registry, Services,
};
use endpoint_validator::state::{
    stream_continues, AppBlock, AppState, CallError, EndpointField, EnterAction, JsonViewMode,
    KeyInput, KeyOutcome, SettingsField,
};
use endpoint_validator::types::{Field, Type};

fn s(x: &str) -> String {
    x.to_string()
}

fn accounts_schema() -> Services {
    Services {
        enums: vec![],
        services: vec![EndpointsType {
            endpoints: vec![EndpointSchema {
                name: s("GetBalance"),
                code: 10,
                parameters: vec![Field::new(s("userId"), Type::Int)],
                returns: vec![],
                stream_response: None,
                description: s("Balance of one account"),
                json_schema: JsonValue::Null,
            }],
            id: 1,
            name: s("Accounts"),
        }],
    }
}

fn connected_session() -> AppState {
    let services = accounts_schema();
    let (names, table) = services.extract_endpoints();
    let registry = Registry::from_services(&services);
    let mut st = AppState::new(names, table, registry);
    st.apply_connect_success(JsonValue::Null);
    // Settings -> EndpointList -> EndpointsReq; entering the endpoint
    // screens loads the selected endpoint's metadata.
    st.switch_block();
    st.switch_block();
    st
}

#[test]
fn extraction_lists_endpoints_and_their_metadata() {
    let services = accounts_schema();
    let (names, table) = services.extract_endpoints();
    assert_eq!(names.len(), 1);
    assert_eq!(names[0], "GetBalance");
    let meta = match find_endpoint(&table, "GetBalance") {
        Some(m) => m,
        None => panic!("endpoint should be in the table"),
    };
    assert_eq!(meta.service_name, "Accounts");
    assert_eq!(meta.method_id, 10);
    assert_eq!(meta.params.len(), 1);
    assert_eq!(meta.params[0].name, "userId");
    assert!(!meta.is_stream);
    assert!(find_endpoint(&table, "Missing").is_none());
}

#[test]
fn selecting_an_endpoint_loads_its_parameters() {
    let st = connected_session();
    assert_eq!(st.current_block, AppBlock::EndpointsReq);
    assert_eq!(st.method_id, Some(10));
    assert_eq!(st.service_name, Some(s("Accounts")));
    assert_eq!(st.params.len(), 1);
    assert_eq!(st.param_values, vec![s("")]);
    assert!(!st.is_stream);
}

#[test]
fn bad_parameter_aborts_the_call_before_any_send() {
    let mut st = connected_session();
    st.update_input('a');
    st.update_input('b');
    st.update_input('c');
    match st.prepare_call() {
        Err(CallError::Param { name, .. }) => assert_eq!(name, "userId"),
        _ => panic!("expected the call to fail on the parameter"),
    }
    // No send was attempted: the sequence counter is untouched.
    assert_eq!(st.transport.seq, 0);
    assert_eq!(st.param_values[0], "abc");
}

#[test]
fn good_parameter_sends_one_well_formed_request() {
    let mut st = connected_session();
    st.update_input('4');
    st.update_input('2');
    let text = match st.prepare_call() {
        Ok(t) => t,
        Err(_) => panic!("the call should go out"),
    };
    assert_eq!(text, "{\"method\":10,\"seq\":1,\"params\":42}");
    assert_eq!(st.transport.seq, 1);
    // Whatever single response arrives is rendered in the selected mode.
    let response = JsonValue::Object(vec![endpoint_validator::json::JsonMember {
        key: s("balance"),
        value: JsonValue::Int(7),
    }]);
    st.apply_call_response(Ok(response));
    assert_eq!(st.json_data, Some(s("{\n  \"balance\": 7\n}")));
    assert!(st.endpoint_connected);
}

#[test]
fn counter_reads_three_after_three_sends_despite_receive_failures() {
    let mut st = connected_session();
    st.update_input('1');
    assert!(st.prepare_call().is_ok());
    st.apply_call_response(Err(s("receive failed")));
    assert!(st.prepare_call().is_ok());
    st.apply_call_response(Err(s("receive failed again")));
    assert!(st.prepare_call().is_ok());
    assert_eq!(st.transport.seq, 3);
}

#[test]
fn calls_require_a_connection_and_a_method() {
    let services = accounts_schema();
    let (names, table) = services.extract_endpoints();
    let registry = Registry::from_services(&services);
    let mut st = AppState::new(names, table, registry);
    assert!(matches!(st.prepare_call(), Err(CallError::NoMethod)));
    st.method_id = Some(10);
    assert!(matches!(st.prepare_call(), Err(CallError::NotConnected)));
    assert_eq!(st.transport.seq, 0);
}

#[test]
fn settings_focus_cycles_forward_and_backward() {
    let services = accounts_schema();
    let (names, table) = services.extract_endpoints();
    let mut st = AppState::new(names, table, Registry::from_services(&services));
    assert_eq!(st.focused_settings_field, Some(SettingsField::Url));
    st.next_field();
    assert_eq!(st.focused_settings_field, Some(SettingsField::Username));
    st.next_field();
    st.next_field();
    st.next_field();
    assert_eq!(st.focused_settings_field, Some(SettingsField::DisconnectButton));
    st.next_field();
    assert_eq!(st.focused_settings_field, Some(SettingsField::Url));
    st.previous_field();
    assert_eq!(st.focused_settings_field, Some(SettingsField::DisconnectButton));
}

#[test]
fn request_focus_cycles_through_params_and_buttons() {
    let mut st = connected_session();
    assert_eq!(st.focused_endpoint_field, Some(EndpointField::Param(0)));
    st.next_field();
    assert_eq!(st.focused_endpoint_field, Some(EndpointField::ConnectButton));
    st.next_field();
    assert_eq!(st.focused_endpoint_field, Some(EndpointField::DisconnectButton));
    st.next_field();
    assert_eq!(st.focused_endpoint_field, Some(EndpointField::JsonToggleButton));
    st.next_field();
    assert_eq!(st.focused_endpoint_field, Some(EndpointField::Param(0)));
}

#[test]
fn typing_and_backspace_edit_the_focused_buffer() {
    let services = accounts_schema();
    let (names, table) = services.extract_endpoints();
    let mut st = AppState::new(names, table, Registry::from_services(&services));
    // The URL field is focused at startup.
    st.delete_last_char();
    assert_eq!(st.url, "ws://localhost:844");
    st.update_input('9');
    assert_eq!(st.url, "ws://localhost:8449");
    // Keys route through the same transitions.
    assert_eq!(st.apply_key(KeyInput::Backspace), KeyOutcome::Handled);
    assert_eq!(st.url, "ws://localhost:844");
    st.next_field();
    st.update_input('m');
    st.update_input('e');
    assert_eq!(st.username, "me");
}

#[test]
fn screens_only_advance_while_connected() {
    let services = accounts_schema();
    let (names, table) = services.extract_endpoints();
    let mut st = AppState::new(names, table, Registry::from_services(&services));
    st.switch_block();
    assert_eq!(st.current_block, AppBlock::Settings);
    st.apply_connect_success(JsonValue::Null);
    st.switch_block();
    assert_eq!(st.current_block, AppBlock::EndpointList);
}

#[test]
fn enter_names_the_action_for_the_focused_button() {
    let mut st = connected_session();
    st.next_field();  // Param(0) -> ConnectButton
    assert_eq!(st.apply_key(KeyInput::Enter), KeyOutcome::Act(EnterAction::Call));
    st.next_field();
    assert_eq!(st.apply_key(KeyInput::Enter), KeyOutcome::Act(EnterAction::EndpointDisconnect));
    st.next_field();
    assert_eq!(st.apply_key(KeyInput::Enter), KeyOutcome::Act(EnterAction::ToggleView));
    assert_eq!(st.apply_key(KeyInput::Esc), KeyOutcome::Quit);
}

#[test]
fn toggling_re_renders_without_refetching() {
    let mut st = connected_session();
    st.apply_call_response(Ok(JsonValue::Array(vec![JsonValue::Int(1), JsonValue::Int(2)])));
    assert_eq!(st.json_data, Some(s("[\n  1,\n  2\n]")));
    st.toggle_json_view_mode();
    assert_eq!(st.json_view_mode, JsonViewMode::Raw);
    assert_eq!(st.json_data, Some(s("[1,2]")));
    st.toggle_json_view_mode();
    assert_eq!(st.json_view_mode, JsonViewMode::Pretty);
    assert_eq!(st.json_data, Some(s("[\n  1,\n  2\n]")));
}

#[test]
fn connect_header_carries_the_credentials() {
    let mut st = connected_session();
    st.username = s("alice");
    st.password = s("sesame");
    assert_eq!(
        st.connect_header(),
        "0login, 1alice, 2sesame, 3User, 424787297130491616, 5android"
    );
}

#[test]
fn disconnects_update_the_display_and_the_flags() {
    let mut st = connected_session();
    st.apply_disconnect();
    assert!(!st.connected);
    assert!(!st.transport.connected);
    assert_eq!(st.json_data, Some(s("Disconnected from ws://localhost:8443")));
    st.apply_endpoint_disconnect();
    assert!(!st.endpoint_connected);
    assert_eq!(st.json_data, None);
}

#[test]
fn connect_failure_lands_in_the_response_slot() {
    let services = accounts_schema();
    let (names, table) = services.extract_endpoints();
    let mut st = AppState::new(names, table, Registry::from_services(&services));
    st.apply_connect_failure(s("Failed to connect to WebSocket"));
    assert!(!st.connected);
    assert_eq!(st.json_data, Some(s("Failed to connect to WebSocket")));
}

#[test]
fn scrolling_moves_only_on_the_response_screen() {
    let mut st = connected_session();
    st.switch_block();  // -> EndpointsRes
    assert_eq!(st.current_block, AppBlock::EndpointsRes);
    st.scroll_response_down();
    st.scroll_response_down();
    st.scroll_response_right();
    assert_eq!(st.response_scroll, (2, 1));
    st.scroll_response_up();
    st.scroll_response_left();
    st.scroll_response_left();
    assert_eq!(st.response_scroll, (1, 0));
    st.switch_block();  // -> Settings: horizontal scrolling is inert there
    st.scroll_response_right();
    assert_eq!(st.response_scroll, (1, 0));
}

#[test]
fn param_defaults_render_every_shape_of_value() {
    let endpoints = vec![(
        s("GetBalance"),
        EndpointData {
            params: vec![
                (s("userId"), ParamValue::Number(42)),
                (s("note"), ParamValue::String(s("hi"))),
                (s("fast"), ParamValue::Bool(true)),
                (s("tags"), ParamValue::Array(vec![s("a"), s("b")])),
                (s("extra"), ParamValue::Object(vec![(s("k"), s("v"))])),
            ],
        },
    )];
    let out = extract_param_defaults(&endpoints);
    assert_eq!(out.len(), 1);
    assert_eq!(out[0].0, "GetBalance");
    let pairs = &out[0].1;
    assert_eq!(pairs[0], (s("userId"), s("42")));
    assert_eq!(pairs[1], (s("note"), s("hi")));
    assert_eq!(pairs[2], (s("fast"), s("true")));
    assert_eq!(pairs[3], (s("tags"), s("[a, b]")));
    assert_eq!(pairs[4], (s("extra"), s("{k: v}")));
}

#[test]
fn call_failures_render_their_full_cause() {
    let mut st = connected_session();
    st.update_input('a');
    let err = match st.prepare_call() {
        Err(e) => e,
        Ok(_) => panic!("the call should fail on the parameter"),
    };
    assert_eq!(
        err.message(),
        "Failed to convert value for parameter userId: Invalid value for integer: a"
    );
}

#[test]
fn toggling_acts_only_on_a_displayed_response() {
    // Nothing displayed at startup: the toggle changes nothing.
    let services = accounts_schema();
    let (names, table) = services.extract_endpoints();
    let mut st = AppState::new(names, table, Registry::from_services(&services));
    st.toggle_json_view_mode();
    assert_eq!(st.json_view_mode, JsonViewMode::Pretty);
    assert_eq!(st.json_data, None);
    // After the call view is torn down the display is empty again, and the
    // toggle must not resurrect the old response.
    let mut st = connected_session();
    st.apply_call_response(Ok(JsonValue::Int(5)));
    st.apply_endpoint_disconnect();
    st.toggle_json_view_mode();
    assert_eq!(st.json_view_mode, JsonViewMode::Pretty);
    assert_eq!(st.json_data, None);
    // A displayed failure text is never replaced by a stale rendering.
    let mut st = connected_session();
    st.apply_call_response(Ok(JsonValue::Int(5)));
    st.apply_call_response(Err(s("receive failed")));
    st.toggle_json_view_mode();
    assert_eq!(st.json_view_mode, JsonViewMode::Pretty);
    assert_eq!(st.json_data, Some(s("receive failed")));
}

#[test]
fn a_failed_call_drops_the_call_view_flag() {
    let mut st = connected_session();
    st.apply_call_response(Ok(JsonValue::Int(5)));
    assert!(st.endpoint_connected);
    st.apply_call_response(Err(s("connection lost")));
    assert!(!st.endpoint_connected);
    assert_eq!(st.json_data, Some(s("connection lost")));
}

#[test]
fn the_response_screen_returns_to_settings_even_when_disconnected() {
    let mut st = connected_session();
    st.switch_block();  // EndpointsReq -> EndpointsRes
    assert_eq!(st.current_block, AppBlock::EndpointsRes);
    st.apply_disconnect();
    st.switch_block();
    assert_eq!(st.current_block, AppBlock::Settings);
    // From settings, nothing advances while disconnected.
    st.switch_block();
    assert_eq!(st.current_block, AppBlock::Settings);
}

#[test]
fn streaming_decides_another_round_only_after_a_good_receive() {
    assert!(stream_continues(true, true));
    assert!(!stream_continues(true, false));
    assert!(!stream_continues(false, true));
    assert!(!stream_continues(false, false));
}
