use vstd::prelude::*;

verus! {

use crate::json::{JsonValue, JsonV, json_text, json_pretty};
use crate::schema::{EndpointMetadata, ParameterMetadata, Registry, RegV, table_lookup};
use crate::text::{strs_view, push_char, pop_char};
use crate::transport::{Transport, spec_connected, spec_send};
use crate::types::FieldV;

/// The editable slots and buttons of the settings screen, in focus order.
#[derive(Clone, Copy, Debug, PartialEq, Eq, Structural)]
pub enum SettingsField {
    Url,
    Username,
    Password,
    ConnectButton,
    DisconnectButton,
}

/// The editable slots and buttons of the request screen, in focus order.
#[derive(Clone, Copy, Debug, PartialEq, Eq, Structural)]
pub enum EndpointField {
    Param(usize),
    ConnectButton,
    DisconnectButton,
    JsonToggleButton,
}

/// The screen the session is on.
#[derive(Clone, Copy, Debug, PartialEq, Eq, Structural)]
pub enum AppBlock {
    Settings,
    EndpointList,
    EndpointsReq,
    EndpointsRes,
}

/// How the last response is rendered: indented or compact.
#[derive(Clone, Copy, Debug, PartialEq, Eq, Structural)]
pub enum JsonViewMode {
    Pretty,
    Raw,
}

/// One keyboard event, as the session interprets it.
#[derive(Clone, Copy, Debug, PartialEq, Eq, Structural)]
pub enum KeyInput {
    Char(char),
    Backspace,
    Tab,
    Left,
    Right,
    Down,
    Up,
    Enter,
    Esc,
    Other,
}

/// What pressing enter asks for, given where the focus stands.
#[derive(Clone, Copy, Debug, PartialEq, Eq, Structural)]
pub enum EnterAction {
    Nothing,
    Connect,
    Disconnect,
    Call,
    EndpointDisconnect,
    ToggleView,
}

/// What the caller must do after a key is applied.
#[derive(Clone, Copy, Debug, PartialEq, Eq, Structural)]
pub enum KeyOutcome {
    /// The state absorbed the key.
    Handled,
    /// Perform this action, then fold its outcome back in.
    Act(EnterAction),
    /// Leave the session.
    Quit,
}

/// All mutable session state: connection, focus, text buffers, the selected
/// endpoint and its parameters, and the last decoded response.
pub struct AppState {
    pub transport: Transport,
    pub current_block: AppBlock,
    pub focused_settings_field: Option<SettingsField>,
    pub focused_endpoint_field: Option<EndpointField>,
    pub connected: bool,
    pub endpoint_connected: bool,
    pub url: String,
    pub username: String,
    pub password: String,
    pub method_id: Option<u32>,
    pub service_name: Option<String>,
    pub params: Vec<ParameterMetadata>,
    pub param_values: Vec<String>,
    pub json_view_mode: JsonViewMode,
    pub json_data: Option<String>,
    pub last_json: Option<JsonValue>,
    pub endpoints: Vec<String>,
    pub selected_endpoint: usize,
    pub endpoint_data: Vec<(String, EndpointMetadata)>,
    pub response_scroll: (u16, u16),
    pub is_stream: bool,
    pub registry: Registry,
}

/// The mathematical shape of the session state.
#[verifier::ext_equal]
pub struct StateV {
    pub transport: Transport,
    pub current_block: AppBlock,
    pub focused_settings_field: Option<SettingsField>,
    pub focused_endpoint_field: Option<EndpointField>,
    pub connected: bool,
    pub endpoint_connected: bool,
    pub url: Seq<char>,
    pub username: Seq<char>,
    pub password: Seq<char>,
    pub method_id: Option<u32>,
    pub service_name: Option<Seq<char>>,
    pub params: Seq<FieldV>,
    pub param_values: Seq<Seq<char>>,
    pub json_view_mode: JsonViewMode,
    pub json_data: Option<Seq<char>>,
    pub last_json: Option<JsonV>,
    pub endpoints: Seq<String>,
    pub selected_endpoint: int,
    pub endpoint_data: Seq<(String, EndpointMetadata)>,
    pub response_scroll: (u16, u16),
    pub is_stream: bool,
    pub registry: RegV,
}

impl View for ParameterMetadata {
    type V = FieldV;

    open spec fn view(&self) -> FieldV {
        FieldV { name: self.name@, ty: self.ty@ }
    }
}

/// The views of a parameter list, element by element.
pub open spec fn params_view(ps: Seq<ParameterMetadata>) -> Seq<FieldV>
    decreases ps,
{
    if ps.len() == 0 {
        Seq::empty()
    } else {
        seq![ps[0]@] + params_view(ps.subrange(1, ps.len() as int))
    }
}

pub proof fn lemma_params_view_len(ps: Seq<ParameterMetadata>)
    ensures
        params_view(ps).len() == ps.len(),
        forall|j: int|
            #![trigger params_view(ps)[j]]
            #![trigger ps[j]@]
            0 <= j < ps.len() ==> params_view(ps)[j] == ps[j]@,
    decreases ps,
{
    if ps.len() > 0 {
        let sub = ps.subrange(1, ps.len() as int);
        lemma_params_view_len(sub);
        assert(params_view(ps) == seq![ps[0]@] + params_view(sub));
        assert forall|j: int| 0 <= j < ps.len() implies #[trigger] params_view(ps)[j] == ps[j]@ by {
            if j > 0 {
                assert(sub[j - 1] == ps[j]);
                assert(params_view(ps)[j] == params_view(sub)[j - 1]);
            }
        }
    }
}

impl View for AppState {
    type V = StateV;

    open spec fn view(&self) -> StateV {
        StateV {
            transport: self.transport,
            current_block: self.current_block,
            focused_settings_field: self.focused_settings_field,
            focused_endpoint_field: self.focused_endpoint_field,
            connected: self.connected,
            endpoint_connected: self.endpoint_connected,
            url: self.url@,
            username: self.username@,
            password: self.password@,
            method_id: self.method_id,
            service_name: match self.service_name {
                Some(s) => Some(s@),
                None => None,
            },
            params: params_view(self.params@),
            param_values: strs_view(self.param_values@),
            json_view_mode: self.json_view_mode,
            json_data: match self.json_data {
                Some(s) => Some(s@),
                None => None,
            },
            last_json: match self.last_json {
                Some(j) => Some(j@),
                None => None,
            },
            endpoints: self.endpoints@,
            selected_endpoint: self.selected_endpoint as int,
            endpoint_data: self.endpoint_data@,
            response_scroll: self.response_scroll,
            is_stream: self.is_stream,
            registry: self.registry@,
        }
    }
}

impl StateV {
    /// The state is internally consistent: one text buffer per parameter.
    pub open spec fn wf(self) -> bool {
        self.param_values.len() == self.params.len()
    }
}

// ---------------------------------------------------------------------------
// Focus cycles
// ---------------------------------------------------------------------------

/// The settings focus after moving forward: URL, username, password,
/// connect, disconnect, and around again.
pub open spec fn spec_next_settings(f: Option<SettingsField>) -> Option<SettingsField> {
    match f {
        Some(SettingsField::Url) => Some(SettingsField::Username),
        Some(SettingsField::Username) => Some(SettingsField::Password),
        Some(SettingsField::Password) => Some(SettingsField::ConnectButton),
        Some(SettingsField::ConnectButton) => Some(SettingsField::DisconnectButton),
        Some(SettingsField::DisconnectButton) => Some(SettingsField::Url),
        None => Some(SettingsField::Url),
    }
}

/// The settings focus after moving backward.
pub open spec fn spec_prev_settings(f: Option<SettingsField>) -> Option<SettingsField> {
    match f {
        Some(SettingsField::Url) => Some(SettingsField::DisconnectButton),
        Some(SettingsField::Username) => Some(SettingsField::Url),
        Some(SettingsField::Password) => Some(SettingsField::Username),
        Some(SettingsField::ConnectButton) => Some(SettingsField::Password),
        Some(SettingsField::DisconnectButton) => Some(SettingsField::ConnectButton),
        None => Some(SettingsField::Url),
    }
}

/// The request-screen focus after moving forward: each parameter in order,
/// then connect, disconnect, the view toggle, and back to the first
/// parameter — or straight to connect when there are no parameters.
pub open spec fn spec_next_endpoint_field(f: Option<EndpointField>, nparams: int) -> Option<
    EndpointField,
> {
    match f {
        Some(EndpointField::Param(i)) => if i + 1 < nparams {
            Some(EndpointField::Param((i + 1) as usize))
        } else {
            Some(EndpointField::ConnectButton)
        },
        Some(EndpointField::ConnectButton) => Some(EndpointField::DisconnectButton),
        Some(EndpointField::DisconnectButton) => Some(EndpointField::JsonToggleButton),
        _ => if nparams == 0 {
            Some(EndpointField::ConnectButton)
        } else {
            Some(EndpointField::Param(0))
        },
    }
}

/// The request-screen focus after moving backward.
pub open spec fn spec_prev_endpoint_field(f: Option<EndpointField>, nparams: int) -> Option<
    EndpointField,
> {
    match f {
        Some(EndpointField::Param(i)) => if i > 0 {
            Some(EndpointField::Param((i - 1) as usize))
        } else {
            Some(EndpointField::JsonToggleButton)
        },
        Some(EndpointField::JsonToggleButton) => Some(EndpointField::DisconnectButton),
        Some(EndpointField::DisconnectButton) => Some(EndpointField::ConnectButton),
        _ => if nparams == 0 {
            Some(EndpointField::JsonToggleButton)
        } else {
            Some(EndpointField::Param((nparams - 1) as usize))
        },
    }
}

// ---------------------------------------------------------------------------
// Transitions on the state shape
// ---------------------------------------------------------------------------

/// Scrolling down moves the vertical offset up by one, stopping at the
/// largest offset instead of wrapping.
pub open spec fn spec_scroll_down(sv: StateV) -> StateV {
    if sv.response_scroll.0 < 0xFFFF {
        StateV { response_scroll: ((sv.response_scroll.0 + 1) as u16, sv.response_scroll.1), ..sv }
    } else {
        sv
    }
}

/// Scrolling up moves the vertical offset down by one, stopping at zero.
pub open spec fn spec_scroll_up(sv: StateV) -> StateV {
    if sv.response_scroll.0 > 0 {
        StateV { response_scroll: ((sv.response_scroll.0 - 1) as u16, sv.response_scroll.1), ..sv }
    } else {
        sv
    }
}

/// Scrolling right acts only on the response screen.
pub open spec fn spec_scroll_right(sv: StateV) -> StateV {
    if sv.current_block == AppBlock::EndpointsRes && sv.response_scroll.1 < 0xFFFF {
        StateV { response_scroll: (sv.response_scroll.0, (sv.response_scroll.1 + 1) as u16), ..sv }
    } else {
        sv
    }
}

/// Scrolling left acts only on the response screen, stopping at zero.
pub open spec fn spec_scroll_left(sv: StateV) -> StateV {
    if sv.current_block == AppBlock::EndpointsRes && sv.response_scroll.1 > 0 {
        StateV { response_scroll: (sv.response_scroll.0, (sv.response_scroll.1 - 1) as u16), ..sv }
    } else {
        sv
    }
}

/// A typed character lands in the focused text buffer: one of the three
/// settings buffers on the settings screen, or the focused parameter buffer
/// on the request screen; anywhere else it is dropped.
pub open spec fn spec_update_input(sv: StateV, c: char) -> StateV {
    if sv.current_block == AppBlock::Settings {
        match sv.focused_settings_field {
            Some(SettingsField::Url) => StateV { url: sv.url.push(c), ..sv },
            Some(SettingsField::Username) => StateV { username: sv.username.push(c), ..sv },
            Some(SettingsField::Password) => StateV { password: sv.password.push(c), ..sv },
            _ => sv,
        }
    } else if sv.current_block == AppBlock::EndpointsReq {
        match sv.focused_endpoint_field {
            Some(EndpointField::Param(i)) => if i < sv.param_values.len() {
                StateV {
                    param_values: sv.param_values.update(
                        i as int,
                        sv.param_values[i as int].push(c),
                    ),
                    ..sv
                }
            } else {
                sv
            },
            _ => sv,
        }
    } else {
        sv
    }
}

/// Backspace removes the last character of the focused text buffer, if it
/// has one.
pub open spec fn spec_delete_last(sv: StateV) -> StateV {
    if sv.current_block == AppBlock::Settings {
        match sv.focused_settings_field {
            Some(SettingsField::Url) => StateV { url: pop_text(sv.url), ..sv },
            Some(SettingsField::Username) => StateV { username: pop_text(sv.username), ..sv },
            Some(SettingsField::Password) => StateV { password: pop_text(sv.password), ..sv },
            _ => sv,
        }
    } else if sv.current_block == AppBlock::EndpointsReq {
        match sv.focused_endpoint_field {
            Some(EndpointField::Param(i)) => if i < sv.param_values.len() {
                StateV {
                    param_values: sv.param_values.update(
                        i as int,
                        pop_text(sv.param_values[i as int]),
                    ),
                    ..sv
                }
            } else {
                sv
            },
            _ => sv,
        }
    } else {
        sv
    }
}

/// A text without its last character; an empty text stays empty.
pub open spec fn pop_text(s: Seq<char>) -> Seq<char> {
    if s.len() > 0 {
        s.drop_last()
    } else {
        s
    }
}

impl AppState {
    /// A fresh session over the given endpoint list, metadata table, and
    /// registry: on the settings screen, disconnected, with the default
    /// server address filled in.
    pub fn new(
        endpoint_names: Vec<String>,
        endpoint_data: Vec<(String, EndpointMetadata)>,
        registry: Registry,
    ) -> (r: AppState)
        ensures
            r@.wf(),
            r@.transport == (Transport { connected: false, seq: 0 }),
            r@.current_block == AppBlock::Settings,
            r@.focused_settings_field == Some(SettingsField::Url),
            r@.focused_endpoint_field == Some(EndpointField::Param(0usize)),
            !r@.connected,
            !r@.endpoint_connected,
            r@.url == "ws://localhost:8443"@,
            r@.username == Seq::<char>::empty(),
            r@.password == Seq::<char>::empty(),
            r@.method_id is None,
            r@.service_name is None,
            r@.params == Seq::<FieldV>::empty(),
            r@.param_values == Seq::<Seq<char>>::empty(),
            r@.json_view_mode == JsonViewMode::Pretty,
            r@.json_data is None,
            r@.last_json is None,
            r@.endpoints == endpoint_names@,
            r@.selected_endpoint == 0,
            r@.endpoint_data == endpoint_data@,
            r@.response_scroll == (0u16, 0u16),
            !r@.is_stream,
            r@.registry == registry@,
    {
        let r = AppState {
            transport: Transport::new(),
            current_block: AppBlock::Settings,
            focused_settings_field: Some(SettingsField::Url),
            focused_endpoint_field: Some(EndpointField::Param(0)),
            connected: false,
            endpoint_connected: false,
            url: String::from_str("ws://localhost:8443"),
            username: String::new(),
            password: String::new(),
            method_id: None,
            service_name: None,
            params: Vec::new(),
            param_values: Vec::new(),
            json_view_mode: JsonViewMode::Pretty,
            json_data: None,
            last_json: None,
            endpoints: endpoint_names,
            selected_endpoint: 0,
            endpoint_data,
            response_scroll: (0, 0),
            is_stream: false,
            registry,
        };
        proof {
            assert(r@.params =~= Seq::<FieldV>::empty());
            assert(r@.param_values =~= Seq::<Seq<char>>::empty());
        }
        r
    }

    /// Scrolls the response view down.
    pub fn scroll_response_down(&mut self)
        ensures
            final(self)@ == spec_scroll_down(old(self)@),
    {
        if self.response_scroll.0 < 0xFFFF {
            self.response_scroll.0 = self.response_scroll.0 + 1;
        }
        proof {
            assert(final(self)@ =~= spec_scroll_down(old(self)@));
        }
    }

    /// Scrolls the response view up.
    pub fn scroll_response_up(&mut self)
        ensures
            final(self)@ == spec_scroll_up(old(self)@),
    {
        if self.response_scroll.0 > 0 {
            self.response_scroll.0 = self.response_scroll.0 - 1;
        }
        proof {
            assert(final(self)@ =~= spec_scroll_up(old(self)@));
        }
    }

    /// Scrolls the response view right.
    pub fn scroll_response_right(&mut self)
        ensures
            final(self)@ == spec_scroll_right(old(self)@),
    {
        if matches!(self.current_block, AppBlock::EndpointsRes) {
            if self.response_scroll.1 < 0xFFFF {
                self.response_scroll.1 = self.response_scroll.1 + 1;
            }
        }
        proof {
            assert(final(self)@ =~= spec_scroll_right(old(self)@));
        }
    }

    /// Scrolls the response view left.
    pub fn scroll_response_left(&mut self)
        ensures
            final(self)@ == spec_scroll_left(old(self)@),
    {
        if matches!(self.current_block, AppBlock::EndpointsRes) {
            if self.response_scroll.1 > 0 {
                self.response_scroll.1 = self.response_scroll.1 - 1;
            }
        }
        proof {
            assert(final(self)@ =~= spec_scroll_left(old(self)@));
        }
    }

    /// Routes a typed character into the focused text buffer.
    pub fn update_input(&mut self, c: char)
        requires
            old(self)@.wf(),
        ensures
            final(self)@ == spec_update_input(old(self)@, c),
            final(self)@.wf(),
    {
        match self.current_block {
            AppBlock::Settings => {
                match self.focused_settings_field {
                    Some(SettingsField::Url) => push_char(&mut self.url, c),
                    Some(SettingsField::Username) => push_char(&mut self.username, c),
                    Some(SettingsField::Password) => push_char(&mut self.password, c),
                    _ => {},
                }
            },
            AppBlock::EndpointsReq => {
                if let Some(EndpointField::Param(i)) = self.focused_endpoint_field {
                    let i = i;
                    if i < self.param_values.len() {
                        let ghost vold = self.param_values@;
                        let mut s = self.param_values.remove(i);
                        push_char(&mut s, c);
                        self.param_values.insert(i, s);
                        proof {
                            assert(strs_view(self.param_values@) =~= strs_view(vold).update(
                                i as int,
                                strs_view(vold)[i as int].push(c),
                            ));
                        }
                    }
                }
            },
            _ => {},
        }
        proof {
            assert(final(self)@ =~= spec_update_input(old(self)@, c));
        }
    }

    /// Removes the last character of the focused text buffer.
    pub fn delete_last_char(&mut self)
        requires
            old(self)@.wf(),
        ensures
            final(self)@ == spec_delete_last(old(self)@),
            final(self)@.wf(),
    {
        match self.current_block {
            AppBlock::Settings => {
                match self.focused_settings_field {
                    Some(SettingsField::Url) => {
                        pop_char(&mut self.url);
                    },
                    Some(SettingsField::Username) => {
                        pop_char(&mut self.username);
                    },
                    Some(SettingsField::Password) => {
                        pop_char(&mut self.password);
                    },
                    _ => {},
                }
            },
            AppBlock::EndpointsReq => {
                if let Some(EndpointField::Param(i)) = self.focused_endpoint_field {
                    let i = i;
                    if i < self.param_values.len() {
                        let ghost vold = self.param_values@;
                        let mut s = self.param_values.remove(i);
                        pop_char(&mut s);
                        self.param_values.insert(i, s);
                        proof {
                            assert(strs_view(self.param_values@) =~= strs_view(vold).update(
                                i as int,
                                pop_text(strs_view(vold)[i as int]),
                            ));
                        }
                    }
                }
            },
            _ => {},
        }
        proof {
            assert(final(self)@ =~= spec_delete_last(old(self)@));
        }
    }
}

} // verus!

verus! {

use crate::convert::{ConvertError, CErrV, spec_convert, REF_DEPTH};
use crate::codec::spec_request_json;
use crate::json::{views_of, lemma_views_of_len};
use crate::schema::find_endpoint;
use crate::schema::clone_params;

// ---------------------------------------------------------------------------
// Selection and navigation
// ---------------------------------------------------------------------------

/// Selecting an endpoint refreshes the method code, service name, streaming
/// flag and parameter list from the metadata table, and resets the
/// parameter buffers to one empty buffer per parameter.  The last table
/// entry under the name wins.
pub open spec fn spec_update_selected(sv: StateV) -> StateV {
    if 0 <= sv.selected_endpoint < sv.endpoints.len() {
        match table_lookup(sv.endpoint_data, sv.endpoints[sv.selected_endpoint]@) {
            Some(m) => StateV {
                method_id: Some(m.method_id),
                service_name: Some(m.service_name@),
                params: params_view(m.params@),
                param_values: Seq::new(m.params@.len() as nat, |i: int| Seq::<char>::empty()),
                is_stream: m.is_stream,
                ..sv
            },
            None => sv,
        }
    } else {
        sv
    }
}

/// Moving down the endpoint list, while connected and not at the end.
pub open spec fn spec_select_next(sv: StateV) -> StateV {
    if sv.connected && sv.endpoints.len() > 0 && sv.selected_endpoint < sv.endpoints.len() - 1 {
        spec_update_selected(StateV { selected_endpoint: sv.selected_endpoint + 1, ..sv })
    } else {
        sv
    }
}

/// Moving up the endpoint list, while connected and not at the start.
pub open spec fn spec_select_prev(sv: StateV) -> StateV {
    if sv.connected && sv.selected_endpoint > 0 {
        spec_update_selected(StateV { selected_endpoint: sv.selected_endpoint - 1, ..sv })
    } else {
        sv
    }
}

/// The screens advance in a fixed cycle; entering the endpoint screens
/// refreshes the selected endpoint's data.  Transitions advance only while
/// connected, except the return from the response screen to the settings
/// screen, which is always open.
pub open spec fn spec_switch_block(sv: StateV) -> StateV {
    if sv.current_block == AppBlock::EndpointsRes {
        StateV { current_block: AppBlock::Settings, ..sv }
    } else if sv.connected {
        match sv.current_block {
            AppBlock::Settings => StateV {
                current_block: AppBlock::EndpointList,
                ..spec_update_selected(sv)
            },
            AppBlock::EndpointList => StateV {
                current_block: AppBlock::EndpointsReq,
                ..spec_update_selected(sv)
            },
            _ => StateV { current_block: AppBlock::EndpointsRes, ..sv },
        }
    } else {
        sv
    }
}

/// Moving focus forward: the settings cycle, the endpoint list, the
/// request-screen cycle, or scrolling the response.
pub open spec fn spec_next_field(sv: StateV) -> StateV {
    match sv.current_block {
        AppBlock::Settings => StateV {
            focused_settings_field: spec_next_settings(sv.focused_settings_field),
            ..sv
        },
        AppBlock::EndpointList => spec_select_next(sv),
        AppBlock::EndpointsReq => StateV {
            focused_endpoint_field: spec_next_endpoint_field(
                sv.focused_endpoint_field,
                sv.params.len() as int,
            ),
            ..sv
        },
        AppBlock::EndpointsRes => spec_scroll_down(sv),
    }
}

/// Moving focus backward.
pub open spec fn spec_prev_field(sv: StateV) -> StateV {
    match sv.current_block {
        AppBlock::Settings => StateV {
            focused_settings_field: spec_prev_settings(sv.focused_settings_field),
            ..sv
        },
        AppBlock::EndpointList => spec_select_prev(sv),
        AppBlock::EndpointsReq => StateV {
            focused_endpoint_field: spec_prev_endpoint_field(
                sv.focused_endpoint_field,
                sv.params.len() as int,
            ),
            ..sv
        },
        AppBlock::EndpointsRes => spec_scroll_up(sv),
    }
}

/// One rendering of a JSON value, per view mode.
pub open spec fn spec_render(mode: JsonViewMode, j: JsonV) -> Seq<char> {
    if mode == JsonViewMode::Pretty {
        json_pretty(j, Seq::empty())
    } else {
        json_text(j)
    }
}

/// Toggling the view mode re-serializes the currently displayed JSON in
/// the other mode; it fetches nothing.  It acts only while a decoded
/// response is displayed — `last_json` holds the decoded value exactly as
/// long as `json_data` shows a rendering of it, and is cleared wherever
/// the display is cleared or overwritten by a plain message — so a status
/// or failure text on screen is never replaced, and with nothing displayed
/// nothing changes.
pub open spec fn spec_toggle_view(sv: StateV) -> StateV {
    match (sv.json_data, sv.last_json) {
        (Some(_), Some(j)) => match sv.json_view_mode {
            JsonViewMode::Pretty => StateV {
                json_view_mode: JsonViewMode::Raw,
                json_data: Some(json_text(j)),
                ..sv
            },
            JsonViewMode::Raw => StateV {
                json_view_mode: JsonViewMode::Pretty,
                json_data: Some(json_pretty(j, Seq::empty())),
                ..sv
            },
        },
        _ => sv,
    }
}

/// What pressing enter asks for: on the settings screen the connect and
/// disconnect buttons; on the request screen the call, the call teardown,
/// and the view toggle.
pub open spec fn spec_enter_action(sv: StateV) -> EnterAction {
    if sv.current_block == AppBlock::Settings {
        match sv.focused_settings_field {
            Some(SettingsField::ConnectButton) => EnterAction::Connect,
            Some(SettingsField::DisconnectButton) => EnterAction::Disconnect,
            _ => EnterAction::Nothing,
        }
    } else if sv.current_block == AppBlock::EndpointsReq {
        match sv.focused_endpoint_field {
            Some(EndpointField::ConnectButton) => EnterAction::Call,
            Some(EndpointField::DisconnectButton) => EnterAction::EndpointDisconnect,
            Some(EndpointField::JsonToggleButton) => EnterAction::ToggleView,
            _ => EnterAction::Nothing,
        }
    } else {
        EnterAction::Nothing
    }
}

/// How one key event moves the state, and what the caller must then do.
/// Enter itself changes nothing: it names the action, which the caller
/// performs and folds back in.
pub open spec fn spec_apply_key(sv: StateV, k: KeyInput) -> (StateV, KeyOutcome) {
    match k {
        KeyInput::Char(c) => (spec_update_input(sv, c), KeyOutcome::Handled),
        KeyInput::Backspace => (spec_delete_last(sv), KeyOutcome::Handled),
        KeyInput::Tab => (spec_switch_block(sv), KeyOutcome::Handled),
        KeyInput::Left => (spec_scroll_left(sv), KeyOutcome::Handled),
        KeyInput::Right => (spec_scroll_right(sv), KeyOutcome::Handled),
        KeyInput::Down => (spec_next_field(sv), KeyOutcome::Handled),
        KeyInput::Up => (spec_prev_field(sv), KeyOutcome::Handled),
        KeyInput::Enter => (sv, KeyOutcome::Act(spec_enter_action(sv))),
        KeyInput::Esc => (sv, KeyOutcome::Quit),
        KeyInput::Other => (sv, KeyOutcome::Handled),
    }
}

impl AppState {
    /// Refreshes method code, service name, parameters and streaming flag
    /// from the metadata of the selected endpoint.
    pub fn update_selected_endpoint_data(&mut self)
        ensures
            final(self)@ == spec_update_selected(old(self)@),
            old(self)@.wf() ==> final(self)@.wf(),
    {
        if self.selected_endpoint < self.endpoints.len() {
            let name = &self.endpoints[self.selected_endpoint];
            match find_endpoint(&self.endpoint_data, name.as_str()) {
                Some(m) => {
                    let n = m.params.len();
                    let new_params = clone_params(&m.params);
                    self.method_id = Some(m.method_id);
                    self.service_name = Some(m.service_name.clone());
                    self.is_stream = m.is_stream;
                    self.params = new_params;
                    self.param_values = vec![String::new(); n];
                    proof {
                        lemma_params_view_len(self.params@);
                        let ghost mm = table_lookup(
                            old(self)@.endpoint_data,
                            old(self)@.endpoints[old(self)@.selected_endpoint]@,
                        )->Some_0;
                        lemma_params_view_len(mm.params@);
                        assert(params_view(self.params@) =~= params_view(mm.params@));
                        assert(strs_view(self.param_values@) =~= Seq::new(
                            mm.params@.len() as nat,
                            |i: int| Seq::<char>::empty(),
                        ));
                        assert(final(self)@ =~= spec_update_selected(old(self)@));
                    }
                },
                None => {
                    proof {
                        assert(final(self)@ =~= spec_update_selected(old(self)@));
                    }
                },
            }
        } else {
            proof {
                assert(final(self)@ =~= spec_update_selected(old(self)@));
            }
        }
    }

    /// Moves the endpoint selection down the list.
    pub fn select_next_endpoint(&mut self)
        ensures
            final(self)@ == spec_select_next(old(self)@),
            old(self)@.wf() ==> final(self)@.wf(),
    {
        let n = self.endpoints.len();
        if self.connected && n > 0 && self.selected_endpoint < n - 1 {
            self.selected_endpoint = self.selected_endpoint + 1;
            self.update_selected_endpoint_data();
        }
        proof {
            assert(final(self)@ =~= spec_select_next(old(self)@));
        }
    }

    /// Moves the endpoint selection up the list.
    pub fn select_previous_endpoint(&mut self)
        ensures
            final(self)@ == spec_select_prev(old(self)@),
            old(self)@.wf() ==> final(self)@.wf(),
    {
        if self.connected && self.selected_endpoint > 0 {
            self.selected_endpoint = self.selected_endpoint - 1;
            self.update_selected_endpoint_data();
        }
        proof {
            assert(final(self)@ =~= spec_select_prev(old(self)@));
        }
    }

    /// Advances to the next screen: while connected everywhere, and always
    /// back from the response screen to the settings screen.
    pub fn switch_block(&mut self)
        ensures
            final(self)@ == spec_switch_block(old(self)@),
            old(self)@.wf() ==> final(self)@.wf(),
    {
        if matches!(self.current_block, AppBlock::EndpointsRes) {
            self.current_block = AppBlock::Settings;
        } else if self.connected {
            match self.current_block {
                AppBlock::Settings => {
                    self.update_selected_endpoint_data();
                    self.current_block = AppBlock::EndpointList;
                },
                AppBlock::EndpointList => {
                    self.update_selected_endpoint_data();
                    self.current_block = AppBlock::EndpointsReq;
                },
                _ => {
                    self.current_block = AppBlock::EndpointsRes;
                },
            }
        }
        proof {
            assert(final(self)@ =~= spec_switch_block(old(self)@));
        }
    }

    /// Moves focus forward within the current screen.
    pub fn next_field(&mut self)
        requires
            old(self)@.wf(),
        ensures
            final(self)@ == spec_next_field(old(self)@),
            final(self)@.wf(),
    {
        match self.current_block {
            AppBlock::Settings => {
                self.focused_settings_field = self.next_settings_field();
            },
            AppBlock::EndpointList => self.select_next_endpoint(),
            AppBlock::EndpointsReq => {
                self.focused_endpoint_field = self.next_endpoint_field();
            },
            AppBlock::EndpointsRes => self.scroll_response_down(),
        }
        proof {
            assert(final(self)@ =~= spec_next_field(old(self)@));
        }
    }

    /// Moves focus backward within the current screen.
    pub fn previous_field(&mut self)
        requires
            old(self)@.wf(),
        ensures
            final(self)@ == spec_prev_field(old(self)@),
            final(self)@.wf(),
    {
        match self.current_block {
            AppBlock::Settings => {
                self.focused_settings_field = self.previous_settings_field();
            },
            AppBlock::EndpointList => self.select_previous_endpoint(),
            AppBlock::EndpointsReq => {
                self.focused_endpoint_field = self.previous_endpoint_field();
            },
            AppBlock::EndpointsRes => self.scroll_response_up(),
        }
        proof {
            assert(final(self)@ =~= spec_prev_field(old(self)@));
        }
    }

    fn next_settings_field(&self) -> (r: Option<SettingsField>)
        ensures
            r == spec_next_settings(self.focused_settings_field),
    {
        match self.focused_settings_field {
            Some(SettingsField::Url) => Some(SettingsField::Username),
            Some(SettingsField::Username) => Some(SettingsField::Password),
            Some(SettingsField::Password) => Some(SettingsField::ConnectButton),
            Some(SettingsField::ConnectButton) => Some(SettingsField::DisconnectButton),
            Some(SettingsField::DisconnectButton) => Some(SettingsField::Url),
            None => Some(SettingsField::Url),
        }
    }

    fn previous_settings_field(&self) -> (r: Option<SettingsField>)
        ensures
            r == spec_prev_settings(self.focused_settings_field),
    {
        match self.focused_settings_field {
            Some(SettingsField::Url) => Some(SettingsField::DisconnectButton),
            Some(SettingsField::Username) => Some(SettingsField::Url),
            Some(SettingsField::Password) => Some(SettingsField::Username),
            Some(SettingsField::ConnectButton) => Some(SettingsField::Password),
            Some(SettingsField::DisconnectButton) => Some(SettingsField::ConnectButton),
            None => Some(SettingsField::Url),
        }
    }

    fn next_endpoint_field(&self) -> (r: Option<EndpointField>)
        requires
            self@.wf(),
        ensures
            r == spec_next_endpoint_field(self.focused_endpoint_field, self@.params.len() as int),
    {
        proof {
            lemma_params_view_len(self.params@);
        }
        let n = self.params.len();
        match self.focused_endpoint_field {
            Some(EndpointField::Param(i)) => if i < usize::MAX && i + 1 < n {
                Some(EndpointField::Param(i + 1))
            } else {
                Some(EndpointField::ConnectButton)
            },
            Some(EndpointField::ConnectButton) => Some(EndpointField::DisconnectButton),
            Some(EndpointField::DisconnectButton) => Some(EndpointField::JsonToggleButton),
            _ => if n == 0 {
                Some(EndpointField::ConnectButton)
            } else {
                Some(EndpointField::Param(0))
            },
        }
    }

    fn previous_endpoint_field(&self) -> (r: Option<EndpointField>)
        requires
            self@.wf(),
        ensures
            r == spec_prev_endpoint_field(self.focused_endpoint_field, self@.params.len() as int),
    {
        proof {
            lemma_params_view_len(self.params@);
        }
        let n = self.params.len();
        match self.focused_endpoint_field {
            Some(EndpointField::Param(i)) => if i > 0 {
                Some(EndpointField::Param(i - 1))
            } else {
                Some(EndpointField::JsonToggleButton)
            },
            Some(EndpointField::JsonToggleButton) => Some(EndpointField::DisconnectButton),
            Some(EndpointField::DisconnectButton) => Some(EndpointField::ConnectButton),
            _ => if n == 0 {
                Some(EndpointField::JsonToggleButton)
            } else {
                Some(EndpointField::Param(n - 1))
            },
        }
    }

    /// Re-renders the last decoded response in the other view mode.
    pub fn toggle_json_view_mode(&mut self)
        ensures
            final(self)@ == spec_toggle_view(old(self)@),
            old(self)@.wf() ==> final(self)@.wf(),
    {
        if self.json_data.is_some() {
            match &self.last_json {
                Some(j) => {
                    match self.json_view_mode {
                        JsonViewMode::Pretty => {
                            self.json_data = Some(j.render_compact());
                            self.json_view_mode = JsonViewMode::Raw;
                        },
                        JsonViewMode::Raw => {
                            self.json_data = Some(j.render_pretty());
                            self.json_view_mode = JsonViewMode::Pretty;
                        },
                    }
                },
                None => {},
            }
        }
        proof {
            assert(final(self)@ =~= spec_toggle_view(old(self)@));
        }
    }

    /// Names the action the enter key asks for, given the current focus.
    pub fn enter_action(&self) -> (r: EnterAction)
        ensures
            r == spec_enter_action(self@),
    {
        if matches!(self.current_block, AppBlock::Settings) {
            match self.focused_settings_field {
                Some(SettingsField::ConnectButton) => EnterAction::Connect,
                Some(SettingsField::DisconnectButton) => EnterAction::Disconnect,
                _ => EnterAction::Nothing,
            }
        } else if matches!(self.current_block, AppBlock::EndpointsReq) {
            match self.focused_endpoint_field {
                Some(EndpointField::ConnectButton) => EnterAction::Call,
                Some(EndpointField::DisconnectButton) => EnterAction::EndpointDisconnect,
                Some(EndpointField::JsonToggleButton) => EnterAction::ToggleView,
                _ => EnterAction::Nothing,
            }
        } else {
            EnterAction::Nothing
        }
    }

    /// Applies one key event and says what the caller must do next.
    pub fn apply_key(&mut self, k: KeyInput) -> (r: KeyOutcome)
        requires
            old(self)@.wf(),
        ensures
            (final(self)@, r) == spec_apply_key(old(self)@, k),
            final(self)@.wf(),
    {
        match k {
            KeyInput::Char(c) => {
                self.update_input(c);
                KeyOutcome::Handled
            },
            KeyInput::Backspace => {
                self.delete_last_char();
                KeyOutcome::Handled
            },
            KeyInput::Tab => {
                self.switch_block();
                KeyOutcome::Handled
            },
            KeyInput::Left => {
                self.scroll_response_left();
                KeyOutcome::Handled
            },
            KeyInput::Right => {
                self.scroll_response_right();
                KeyOutcome::Handled
            },
            KeyInput::Down => {
                self.next_field();
                KeyOutcome::Handled
            },
            KeyInput::Up => {
                self.previous_field();
                KeyOutcome::Handled
            },
            KeyInput::Enter => KeyOutcome::Act(self.enter_action()),
            KeyInput::Esc => KeyOutcome::Quit,
            KeyInput::Other => KeyOutcome::Handled,
        }
    }
}

} // verus!

verus! {

// ---------------------------------------------------------------------------
// Connect, disconnect, call
// ---------------------------------------------------------------------------

/// Why a call could not even be prepared.
pub enum CallError {
    /// No endpoint is selected, so there is no method code to send.
    NoMethod,
    /// The transport is not connected.
    NotConnected,
    /// A parameter buffer does not convert under its declared type.
    Param { name: String, error: ConvertError },
}

/// The mathematical shape of a `CallError`.
pub enum CallErrV {
    NoMethod,
    NotConnected,
    Param { name: Seq<char>, error: CErrV },
}

impl View for CallError {
    type V = CallErrV;

    open spec fn view(&self) -> CallErrV {
        match self {
            CallError::NoMethod => CallErrV::NoMethod,
            CallError::NotConnected => CallErrV::NotConnected,
            CallError::Param { name, error } => CallErrV::Param { name: name@, error: error@ },
        }
    }
}

/// The sub-protocol header the connect action builds from the credential
/// buffers.
pub open spec fn spec_connect_header(sv: StateV) -> Seq<char> {
    "0login, 1"@ + sv.username + ", 2"@ + sv.password
        + ", 3User, 424787297130491616, 5android"@
}

/// A successful connect: the transport is fresh, and the greeting is shown
/// under a banner naming the server.  The display is a banner, not a bare
/// rendering, so no value is remembered for the view toggle.
pub open spec fn spec_apply_connect_success(sv: StateV, greeting: JsonV) -> StateV {
    StateV {
        transport: spec_connected(),
        connected: true,
        last_json: None,
        json_data: Some(
            "Connected to "@ + sv.url + "\n"@ + spec_render(sv.json_view_mode, greeting),
        ),
        ..sv
    }
}

/// A failed connect: disconnected, with the failure shown where the
/// response would be.
pub open spec fn spec_apply_connect_failure(sv: StateV, message: Seq<char>) -> StateV {
    StateV {
        transport: Transport { connected: false, seq: sv.transport.seq },
        connected: false,
        json_data: Some(message),
        last_json: None,
        ..sv
    }
}

/// A disconnect: the transport is gone and a banner says so.
pub open spec fn spec_apply_disconnect(sv: StateV) -> StateV {
    StateV {
        transport: Transport { connected: false, seq: sv.transport.seq },
        connected: false,
        json_data: Some("Disconnected from "@ + sv.url),
        last_json: None,
        ..sv
    }
}

/// Tearing down the call view: the flag is cleared and the display emptied.
pub open spec fn spec_apply_endpoint_disconnect(sv: StateV) -> StateV {
    StateV { endpoint_connected: false, json_data: None, last_json: None, ..sv }
}

/// Folding one call outcome back in.  A received value is rendered in the
/// current view mode and remembered; a failure message is shown as the
/// response, the call-view flag is dropped, and no stale value stays
/// behind for the view toggle.  The transport — and with it the sequence
/// counter — is not touched either way.
pub open spec fn spec_apply_call_response(sv: StateV, out: Result<JsonV, Seq<char>>) -> StateV {
    match out {
        Ok(j) => StateV {
            json_data: Some(spec_render(sv.json_view_mode, j)),
            last_json: Some(j),
            endpoint_connected: true,
            ..sv
        },
        Err(m) => StateV {
            json_data: Some(m),
            last_json: None,
            endpoint_connected: false,
            ..sv
        },
    }
}

/// Converts the parameter buffers in order against their declared types;
/// the first failure names its parameter.
pub open spec fn conv_params(
    params: Seq<FieldV>,
    vals: Seq<Seq<char>>,
    reg: RegV,
    i: int,
) -> Result<Seq<JsonV>, (Seq<char>, CErrV)>
    decreases params.len() - i,
{
    if i < 0 || i >= params.len() {
        Ok(Seq::empty())
    } else {
        match spec_convert(REF_DEPTH as nat, params[i].ty, vals[i], reg) {
            Ok(j) => match conv_params(params, vals, reg, i + 1) {
                Ok(rest) => Ok(seq![j] + rest),
                Err(e) => Err(e),
            },
            Err(e) => Err((params[i].name, e)),
        }
    }
}

/// What one call sends: a single converted parameter stands alone, any
/// other number of parameters goes as an array.
pub open spec fn spec_params_value(vs: Seq<JsonV>) -> JsonV {
    if vs.len() == 1 {
        vs[0]
    } else {
        JsonV::Array(vs)
    }
}

/// What preparing a call does: nothing at all without a selected method or
/// a connection, nothing at all when a parameter fails to convert — in
/// particular the sequence counter keeps its value — and otherwise one
/// bump of the counter and the text frame of the request.
pub open spec fn spec_prepare(sv: StateV) -> Result<(StateV, Seq<char>), CallErrV> {
    match sv.method_id {
        None => Err(CallErrV::NoMethod),
        Some(m) => if !sv.transport.connected {
            Err(CallErrV::NotConnected)
        } else {
            match conv_params(sv.params, sv.param_values, sv.registry, 0) {
                Err((name, error)) => Err(CallErrV::Param { name, error }),
                Ok(vs) => Ok(
                    (
                        StateV { transport: spec_send(sv.transport), ..sv },
                        json_text(
                            spec_request_json(
                                m,
                                (sv.transport.seq + 1) as u32,
                                spec_params_value(vs),
                            ),
                        ),
                    ),
                ),
            }
        },
    }
}

/// Converts the parameter buffers from position `k` on.
fn convert_params_exec(
    params: &Vec<ParameterMetadata>,
    values: &Vec<String>,
    k: usize,
    reg: &Registry,
) -> (r: Result<Vec<JsonValue>, CallError>)
    requires
        values@.len() == params@.len(),
    ensures
        match r {
            Ok(vs) => conv_params(params_view(params@), strs_view(values@), reg@, k as int) == Ok::<
                Seq<JsonV>,
                (Seq<char>, CErrV),
            >(views_of(vs@)),
            Err(e) => match e@ {
                CallErrV::Param { name, error } => conv_params(
                    params_view(params@),
                    strs_view(values@),
                    reg@,
                    k as int,
                ) == Err::<Seq<JsonV>, (Seq<char>, CErrV)>((name, error)),
                _ => false,
            },
        },
    decreases params@.len() - k,
{
    proof {
        lemma_params_view_len(params@);
    }
    if k >= params.len() {
        let r: Vec<JsonValue> = Vec::new();
        proof {
            assert(views_of(r@) =~= Seq::<JsonV>::empty());
        }
        Ok(r)
    } else {
        proof {
            assert(params_view(params@)[k as int] == params@[k as int]@);
            assert(strs_view(values@)[k as int] == values@[k as int]@);
        }
        let p = &params[k];
        match p.ty.convert_value(values[k].as_str(), reg) {
            Ok(j) => match convert_params_exec(params, values, k + 1, reg) {
                Ok(vs) => {
                    let mut vs = vs;
                    let ghost vold = vs@;
                    let ghost jv = j@;
                    vs.insert(0, j);
                    proof {
                        lemma_views_of_len(vs@);
                        lemma_views_of_len(vold);
                        assert(views_of(vs@) =~= seq![jv] + views_of(vold));
                    }
                    Ok(vs)
                },
                Err(e) => Err(e),
            },
            Err(error) => Err(CallError::Param { name: p.name.clone(), error }),
        }
    }
}

impl AppState {
    /// Builds the sub-protocol header that carries the credentials.
    pub fn connect_header(&self) -> (r: String)
        ensures
            r@ == spec_connect_header(self@),
    {
        let mut r = String::from_str("0login, 1");
        r.append(self.username.as_str());
        r.append(", 2");
        r.append(self.password.as_str());
        r.append(", 3User, 424787297130491616, 5android");
        r
    }

    /// Records a successful connect and shows the greeting.
    pub fn apply_connect_success(&mut self, greeting: JsonValue)
        ensures
            final(self)@ == spec_apply_connect_success(old(self)@, greeting@),
            old(self)@.wf() ==> final(self)@.wf(),
    {
        self.transport.mark_connected();
        self.connected = true;
        let rendered = match self.json_view_mode {
            JsonViewMode::Pretty => greeting.render_pretty(),
            JsonViewMode::Raw => greeting.render_compact(),
        };
        let mut msg = String::from_str("Connected to ");
        msg.append(self.url.as_str());
        msg.append("\n");
        msg.append(rendered.as_str());
        self.json_data = Some(msg);
        self.last_json = None;
        proof {
            assert(final(self)@ =~= spec_apply_connect_success(old(self)@, greeting@));
        }
    }

    /// Records a failed connect and shows the failure.
    pub fn apply_connect_failure(&mut self, message: String)
        ensures
            final(self)@ == spec_apply_connect_failure(old(self)@, message@),
            old(self)@.wf() ==> final(self)@.wf(),
    {
        self.transport.mark_disconnected();
        self.connected = false;
        self.json_data = Some(message);
        self.last_json = None;
        proof {
            assert(final(self)@ =~= spec_apply_connect_failure(old(self)@, message@));
        }
    }

    /// Records a disconnect.
    pub fn apply_disconnect(&mut self)
        ensures
            final(self)@ == spec_apply_disconnect(old(self)@),
            old(self)@.wf() ==> final(self)@.wf(),
    {
        self.transport.mark_disconnected();
        self.connected = false;
        let mut msg = String::from_str("Disconnected from ");
        msg.append(self.url.as_str());
        self.json_data = Some(msg);
        self.last_json = None;
        proof {
            assert(final(self)@ =~= spec_apply_disconnect(old(self)@));
        }
    }

    /// Tears down the call view.
    pub fn apply_endpoint_disconnect(&mut self)
        ensures
            final(self)@ == spec_apply_endpoint_disconnect(old(self)@),
            old(self)@.wf() ==> final(self)@.wf(),
    {
        self.endpoint_connected = false;
        self.json_data = None;
        self.last_json = None;
        proof {
            assert(final(self)@ =~= spec_apply_endpoint_disconnect(old(self)@));
        }
    }

    /// Folds one call outcome back into the display.
    pub fn apply_call_response(&mut self, outcome: Result<JsonValue, String>)
        ensures
            final(self)@ == spec_apply_call_response(
                old(self)@,
                match outcome {
                    Ok(j) => Ok(j@),
                    Err(m) => Err(m@),
                },
            ),
            old(self)@.wf() ==> final(self)@.wf(),
    {
        match outcome {
            Ok(j) => {
                let rendered = match self.json_view_mode {
                    JsonViewMode::Pretty => j.render_pretty(),
                    JsonViewMode::Raw => j.render_compact(),
                };
                self.json_data = Some(rendered);
                self.last_json = Some(j);
                self.endpoint_connected = true;
                proof {
                    assert(final(self)@ =~= spec_apply_call_response(
                        old(self)@,
                        Ok(outcome->Ok_0@),
                    ));
                }
            },
            Err(m) => {
                self.json_data = Some(m);
                self.last_json = None;
                self.endpoint_connected = false;
                proof {
                    assert(final(self)@ =~= spec_apply_call_response(
                        old(self)@,
                        Err(outcome->Err_0@),
                    ));
                }
            },
        }
    }

    /// Converts every parameter buffer, frames the request, and bumps the
    /// sequence counter — or reports why the call cannot go out, leaving
    /// the whole state, counter included, exactly as it was.
    pub fn prepare_call(&mut self) -> (r: Result<String, CallError>)
        requires
            old(self)@.wf(),
            old(self)@.transport.seq < u32::MAX,
        ensures
            match r {
                Ok(text) => spec_prepare(old(self)@) == Ok::<(StateV, Seq<char>), CallErrV>(
                    (final(self)@, text@),
                ),
                Err(e) => spec_prepare(old(self)@) == Err::<(StateV, Seq<char>), CallErrV>(e@)
                    && *final(self) == *old(self),
            },
            final(self)@.wf(),
    {
        let m = match self.method_id {
            Some(m) => m,
            None => {
                return Err(CallError::NoMethod);
            },
        };
        if !self.transport.connected {
            return Err(CallError::NotConnected);
        }
        proof {
            lemma_params_view_len(self.params@);
        }
        match convert_params_exec(&self.params, &self.param_values, 0, &self.registry) {
            Err(e) => Err(e),
            Ok(vs) => {
                let ghost vsv = views_of(vs@);
                proof {
                    lemma_views_of_len(vs@);
                }
                let params_json = if vs.len() == 1 {
                    let mut vs = vs;
                    vs.remove(0)
                } else {
                    JsonValue::Array(vs)
                };
                proof {
                    assert(params_json@ == spec_params_value(vsv));
                }
                let text = self.transport.make_request(m, params_json);
                proof {
                    assert(final(self)@ =~= (StateV {
                        transport: spec_send(old(self)@.transport),
                        ..old(self)@
                    }));
                }
                Ok(text)
            },
        }
    }
}

} // verus!

verus! {

use crate::convert::err_text;

/// What a call-preparation failure says when it is shown to the operator.
pub open spec fn call_err_text(e: CallErrV) -> Seq<char> {
    match e {
        CallErrV::NoMethod => "Method ID is missing"@,
        CallErrV::NotConnected => "WebSocket client is not connected"@,
        CallErrV::Param { name, error } => "Failed to convert value for parameter "@ + name
            + ": "@ + err_text(error),
    }
}

impl CallError {
    /// Writes this error as the operator sees it.
    pub fn message(&self) -> (r: String)
        ensures
            r@ == call_err_text(self@),
    {
        match self {
            CallError::NoMethod => String::from_str("Method ID is missing"),
            CallError::NotConnected => String::from_str("WebSocket client is not connected"),
            CallError::Param { name, error } => {
                let mut r = String::from_str("Failed to convert value for parameter ");
                r.append(name.as_str());
                r.append(": ");
                r.append(error.message().as_str());
                r
            },
        }
    }
}

} // verus!

verus! {

/// Whether the receive loop of a call goes another round: only a streaming
/// endpoint keeps listening, and only while receives keep succeeding.
pub open spec fn spec_stream_continues(is_stream: bool, received_ok: bool) -> bool {
    is_stream && received_ok
}

/// Decides whether the receive loop of a call goes another round.
pub fn stream_continues(is_stream: bool, received_ok: bool) -> (r: bool)
    ensures
        r == spec_stream_continues(is_stream, received_ok),
{
    is_stream && received_ok
}

} // verus!
