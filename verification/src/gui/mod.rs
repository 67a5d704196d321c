//! What the window shows of a session, and how it follows events and the mouse.

pub mod charts;
pub mod details;
pub mod labels;
pub mod selection;

use vstd::prelude::*;

use crate::aggregation::AggregatorEvent;
use crate::device::{AdbDetectedDevice, Detected, Device, DeviceDescriptor};
use crate::gui::selection::{DragSelection, SelectionRange};
use crate::runtime;
use crate::session::SessionState;
use crate::storage;
use crate::storage::{Channel, SessionStore, TimestampedBatch};
use crate::text;
use crate::types::ControlCommand;

verus! {

/// What the window shows.
#[derive(Debug)]
pub struct Dashboard {
    /// The frames of the session.
    pub session: SessionStore,
    /// The state of the session.
    pub state: SessionState,
    /// The connected device.
    pub device: Option<DeviceDescriptor>,
    /// The devices that can be connected.
    pub detected_devices: Vec<AdbDetectedDevice>,
    /// The latest message.
    pub status_line: String,
    /// Whether a device operation is in progress.
    pub is_busy: bool,
    /// What that operation is.
    pub busy_message: String,
    /// The sampling rate.
    pub selected_hz: u64,
    /// The package whose frame rate is read.
    pub package_name: String,
    /// What is selected on the timeline.
    pub selection: Option<SelectionRange>,
    /// The selection that the mouse is drawing.
    pub drag_selection: Option<DragSelection>,
    /// Whether the next left click only closes a menu.
    pub ignore_next_left_click: bool,
}

/// What the window shows, abstractly, but for the frames of the session.
#[verifier::ext_equal]
pub struct Shown {
    /// The state of the session.
    pub state: SessionState,
    /// The connected device.
    pub device: Option<Device>,
    /// The devices that can be connected.
    pub detected: Seq<Detected>,
    /// The latest message.
    pub status: Seq<char>,
    /// Whether a device operation is in progress.
    pub busy: bool,
    /// What that operation is.
    pub busy_message: Seq<char>,
    /// The sampling rate.
    pub hz: u64,
    /// The package whose frame rate is read.
    pub package: Seq<char>,
    /// What is selected on the timeline.
    pub selection: Option<SelectionRange>,
    /// The selection that the mouse is drawing.
    pub drag: Option<DragSelection>,
    /// Whether the next left click only closes a menu.
    pub ignore_click: bool,
}

impl View for Dashboard {
    type V = Shown;

    open spec fn view(&self) -> Shown {
        Shown {
            state: self.state,
            device: runtime::viewed(self.device),
            detected: text::views(self.detected_devices@),
            status: self.status_line@,
            busy: self.is_busy,
            busy_message: self.busy_message@,
            hz: self.selected_hz,
            package: self.package_name@,
            selection: self.selection,
            drag: self.drag_selection,
            ignore_click: self.ignore_next_left_click,
        }
    }
}

/// Whether a store is that of a new session.
pub open spec fn is_new_store(store: SessionStore) -> bool {
    &&& store.compaction() == 0
    &&& forall|c: Channel| #[trigger] store.frames(c) == Seq::<TimestampedBatch>::empty()
}

/// What an event changes in the window.
pub open spec fn shown_after(s: Shown, event: AggregatorEvent) -> Shown {
    match event {
        AggregatorEvent::BusyStateChanged(busy, message) => Shown {
            busy,
            busy_message: message@,
            ..s
        },
        AggregatorEvent::StateChanged(state) => {
            let message = "Session state => "@ + state.name()@;
            if state is Connected {
                Shown {
                    state,
                    status: message,
                    selection: None,
                    drag: None,
                    ignore_click: false,
                    ..s
                }
            } else {
                Shown { state, status: message, ..s }
            }
        },
        AggregatorEvent::DeviceUpdated(device) => Shown { device: Some(device@), ..s },
        AggregatorEvent::DeviceDiscoveryUpdated(devices) => Shown {
            detected: text::views(devices@),
            ..s
        },
        AggregatorEvent::MetadataRegistered(_) => s,
        AggregatorEvent::MetricBatch(_) => s,
        AggregatorEvent::PackageNameChanged(name) => Shown { package: name@, ..s },
        AggregatorEvent::SamplingRateChanged(hz) => Shown { hz, ..s },
        AggregatorEvent::Status(message) => Shown { status: message@, ..s },
    }
}

impl Dashboard {
    /// The window of a new session.
    pub fn new(package_name: String) -> (r: Dashboard)
        ensures
            is_new_store(r.session),
            r@ == (Shown {
                state: SessionState::Disconnected,
                device: None,
                detected: Seq::empty(),
                status: "Waiting for Connect."@,
                busy: false,
                busy_message: Seq::empty(),
                hz: 4,
                package: package_name@,
                selection: None,
                drag: None,
                ignore_click: false,
            }),
    {
        let r = Dashboard {
            session: SessionStore::default(),
            state: SessionState::Disconnected,
            device: None,
            detected_devices: Vec::new(),
            status_line: String::from_str("Waiting for Connect."),
            is_busy: false,
            busy_message: String::new(),
            selected_hz: 4,
            package_name,
            selection: None,
            drag_selection: None,
            ignore_next_left_click: false,
        };
        assert(r@.detected =~= Seq::empty());
        r
    }

    /// Takes up an event. A connection begins a new store of frames.
    pub fn apply_event(&mut self, event: AggregatorEvent)
        ensures
            final(self)@ == shown_after(old(self)@, event),
            match event {
                AggregatorEvent::StateChanged(SessionState::Connected) => is_new_store(
                    final(self).session,
                ),
                AggregatorEvent::MetricBatch(frame) => storage::has_pushed(
                    old(self).session,
                    final(self).session,
                    frame,
                ),
                _ => final(self).session == old(self).session,
            },
    {
        match event {
            AggregatorEvent::BusyStateChanged(is_busy, message) => {
                self.is_busy = is_busy;
                self.busy_message = message;
            },
            AggregatorEvent::StateChanged(state) => {
                self.state = state;
                if matches!(state, SessionState::Connected) {
                    self.session = SessionStore::default();
                    self.selection = None;
                    self.drag_selection = None;
                    self.ignore_next_left_click = false;
                }
                let mut message = String::from_str("Session state => ");
                message.append(state.as_str());
                self.status_line = message;
            },
            AggregatorEvent::DeviceUpdated(device) => {
                self.device = Some(device);
            },
            AggregatorEvent::DeviceDiscoveryUpdated(devices) => {
                self.detected_devices = devices;
            },
            AggregatorEvent::MetadataRegistered(_) => {},
            AggregatorEvent::MetricBatch(frame) => {
                self.session.push(frame);
            },
            AggregatorEvent::SamplingRateChanged(hz) => {
                self.selected_hz = hz;
            },
            AggregatorEvent::PackageNameChanged(package_name) => {
                self.package_name = package_name;
            },
            AggregatorEvent::Status(message) => {
                self.status_line = message;
            },
        }
    }

    /// Whether the button of a command can be pressed.
    pub fn is_enabled(&self, command: ControlCommand) -> (r: bool)
        ensures
            r == (!self@.busy && self@.state.accepts(command)),
    {
        !self.is_busy && self.state.allows(command)
    }

    /// Whether the session can be exported: only while it does not change.
    pub fn can_export(&self) -> (r: bool)
        ensures
            r == (self@.state is Paused || self@.state is Stopped),
    {
        matches!(self.state, SessionState::Paused | SessionState::Stopped)
    }

    /// Whether the buttons for exports can be pressed.
    pub fn is_export_enabled(&self) -> (r: bool)
        ensures
            r == ((self@.state is Paused || self@.state is Stopped) && !self@.busy),
    {
        self.can_export() && !self.is_busy
    }
}

/// What a session tells when it changes its state makes the window show that state, so that the
/// buttons that can be pressed are those of the commands that the session accepts.
pub proof fn law_buttons_follow_the_session(s: Shown, state: SessionState, command: ControlCommand)
    ensures
        ({
            let after = shown_after(s, AggregatorEvent::StateChanged(state));
            &&& after.state == state
            &&& !after.busy && after.state.accepts(command) <==> !s.busy && state.accepts(command)
        }),
{
}

/// Every event changes what it is about and nothing else that the window shows. Only a connection
/// drops the selection.
pub proof fn law_events_change_their_own_part(s: Shown, event: AggregatorEvent)
    ensures
        ({
            let after = shown_after(s, event);
            &&& event matches AggregatorEvent::BusyStateChanged(busy, message) ==> after.busy
                == busy && after.busy_message == message@
            &&& !(event is BusyStateChanged) ==> after.busy == s.busy && after.busy_message
                == s.busy_message
            &&& event matches AggregatorEvent::StateChanged(state) ==> after.state == state
                && after.status == "Session state => "@ + state.name()@
            &&& !(event is StateChanged) ==> after.state == s.state
            &&& event matches AggregatorEvent::DeviceUpdated(device) ==> after.device == Some(
                device@,
            )
            &&& !(event is DeviceUpdated) ==> after.device == s.device
            &&& event matches AggregatorEvent::DeviceDiscoveryUpdated(devices) ==> after.detected
                == text::views(devices@)
            &&& !(event is DeviceDiscoveryUpdated) ==> after.detected == s.detected
            &&& event matches AggregatorEvent::PackageNameChanged(name) ==> after.package == name@
            &&& !(event is PackageNameChanged) ==> after.package == s.package
            &&& event matches AggregatorEvent::SamplingRateChanged(hz) ==> after.hz == hz
            &&& !(event is SamplingRateChanged) ==> after.hz == s.hz
            &&& event matches AggregatorEvent::Status(message) ==> after.status == message@
            &&& !(event is Status) && !(event is StateChanged) ==> after.status == s.status
            &&& event == AggregatorEvent::StateChanged(SessionState::Connected)
                ==> after.selection is None && after.drag is None && !after.ignore_click
            &&& event != AggregatorEvent::StateChanged(SessionState::Connected)
                ==> after.selection == s.selection && after.drag == s.drag && after.ignore_click
                == s.ignore_click
        }),
{
}

} // verus!
