//! Devices: what they are, how they are found and how they are reached without a cable.

pub mod address;
pub mod wireless;

use vstd::prelude::*;

use crate::shell;
use crate::shell::{Outcome, Progress, RawReply};
use crate::text;
use crate::text::{
    after_prefix, chars_of, has_text, reads, joined, replaced, split_lines, split_words, string_of,
    trimmed, CharClass,
};

verus! {

/// How a device is reached.
#[derive(Debug, Clone, Copy, PartialEq, Eq, Structural)]
pub enum ConnectionKind {
    /// By cable.
    Usb,
    /// By wireless network.
    Wifi,
    /// It is not known how.
    Unknown,
}

impl ConnectionKind {
    /// What users see of the way a device is reached.
    pub open spec fn name(self) -> &'static str {
        match self {
            ConnectionKind::Usb => "USB",
            ConnectionKind::Wifi => "WiFi",
            ConnectionKind::Unknown => "Unknown",
        }
    }

    /// What users see of the way a device is reached.
    pub fn as_str(&self) -> (r: &'static str)
        ensures
            r@ == self.name()@,
    {
        match self {
            ConnectionKind::Usb => "USB",
            ConnectionKind::Wifi => "WiFi",
            ConnectionKind::Unknown => "Unknown",
        }
    }
}

/// What is known of a connected device.
#[derive(Debug, PartialEq, Eq)]
pub struct DeviceDescriptor {
    /// The serial number.
    pub serial: String,
    /// How the device is reached.
    pub connection: ConnectionKind,
    /// The model.
    pub model: String,
    /// The version of Android.
    pub android_version: String,
    /// The model of the processor.
    pub soc_model: String,
}

/// What is known of a connected device, abstractly.
pub struct Device {
    /// The serial number.
    pub serial: Seq<char>,
    /// How the device is reached.
    pub connection: ConnectionKind,
    /// The model.
    pub model: Seq<char>,
    /// The version of Android.
    pub android_version: Seq<char>,
    /// The model of the processor.
    pub soc_model: Seq<char>,
}

impl View for DeviceDescriptor {
    type V = Device;

    open spec fn view(&self) -> Device {
        Device {
            serial: self.serial@,
            connection: self.connection,
            model: self.model@,
            android_version: self.android_version@,
            soc_model: self.soc_model@,
        }
    }
}

impl Clone for DeviceDescriptor {
    fn clone(&self) -> (r: Self)
        ensures
            r@ == self@,
    {
        DeviceDescriptor {
            serial: self.serial.clone(),
            connection: self.connection,
            model: self.model.clone(),
            android_version: self.android_version.clone(),
            soc_model: self.soc_model.clone(),
        }
    }
}

/// A device in the listing of the ADB server.
#[derive(Debug, PartialEq, Eq)]
pub struct AdbDetectedDevice {
    /// The serial number.
    pub serial: String,
    /// How the device is reached.
    pub connection: ConnectionKind,
    /// The state that the ADB server reports.
    pub adb_state: String,
    /// The model.
    pub model: String,
}

/// A device in the listing of the ADB server, abstractly.
pub struct Detected {
    /// The serial number.
    pub serial: Seq<char>,
    /// How the device is reached.
    pub connection: ConnectionKind,
    /// The state that the ADB server reports.
    pub adb_state: Seq<char>,
    /// The model.
    pub model: Seq<char>,
}

impl View for AdbDetectedDevice {
    type V = Detected;

    open spec fn view(&self) -> Detected {
        Detected {
            serial: self.serial@,
            connection: self.connection,
            adb_state: self.adb_state@,
            model: self.model@,
        }
    }
}

impl Clone for AdbDetectedDevice {
    fn clone(&self) -> (r: Self)
        ensures
            r@ == self@,
    {
        AdbDetectedDevice {
            serial: self.serial.clone(),
            connection: self.connection,
            adb_state: self.adb_state.clone(),
            model: self.model.clone(),
        }
    }
}

// ---------------------------------------------------------------------------
// Connections
// ---------------------------------------------------------------------------

/// How a device is reached, by its serial number: that of a device on a wireless network holds a
/// colon before the port.
pub open spec fn connection_of(serial: Seq<char>) -> ConnectionKind {
    if text::contains(serial, ":"@) {
        ConnectionKind::Wifi
    } else if serial == "default"@ {
        ConnectionKind::Unknown
    } else {
        ConnectionKind::Usb
    }
}

fn infer_from_chars(serial: &[char]) -> (r: ConnectionKind)
    ensures
        r == connection_of(serial@),
{
    if has_text(serial, ":") {
        ConnectionKind::Wifi
    } else if reads(serial, "default") {
        ConnectionKind::Unknown
    } else {
        ConnectionKind::Usb
    }
}

/// How a device is reached, by its serial number.
pub fn infer_connection_kind(serial: &str) -> (r: ConnectionKind)
    ensures
        r == connection_of(serial@),
{
    let chars = chars_of(serial);
    infer_from_chars(chars.as_slice())
}

// ---------------------------------------------------------------------------
// The ADB tool
// ---------------------------------------------------------------------------

/// What a run of the ADB tool came to, before it is judged.
#[derive(Debug)]
pub enum AdbReply {
    /// The tool could not be run.
    NotLaunched {
        /// The path of the tool.
        path: String,
        /// The reason.
        reason: String,
    },
    /// The tool ended.
    Ended {
        /// Whether it reported success.
        success: bool,
        /// What it wrote to its standard output.
        stdout: String,
        /// What it wrote to its standard error.
        stderr: String,
    },
}

/// The first text, or the second where the first is empty.
pub open spec fn either(first: Seq<char>, second: Seq<char>) -> Seq<char> {
    if first.len() == 0 {
        second
    } else {
        first
    }
}

/// The judgement of a run of the ADB tool: what it printed, or a message with what it complained
/// of.
pub open spec fn adb_outcome(args: Seq<Seq<char>>, reply: AdbReply) -> Result<Seq<char>, Seq<char>> {
    match reply {
        AdbReply::NotLaunched { path, reason } => Err(
            "failed to launch `"@ + path@ + "` for `adb "@ + text::join(args, " "@) + "`: "@
                + reason@,
        ),
        AdbReply::Ended { success, stdout, stderr } => {
            let out = text::trim(stdout@);
            let err = text::trim(stderr@);
            if success {
                Ok(either(out, err))
            } else {
                Err("`adb "@ + text::join(args, " "@) + "` failed: "@ + either(err, out))
            }
        },
    }
}

/// Judges a run of the ADB tool.
pub fn run_adb(args: &Vec<String>, reply: AdbReply) -> (r: Result<String, String>)
    ensures
        text::result(r) == adb_outcome(text::views(args@), reply),
{
    let command = joined(args, " ");
    match reply {
        AdbReply::NotLaunched { path, reason } => {
            let mut message = String::from_str("failed to launch `");
            message.append(path.as_str());
            message.append("` for `adb ");
            message.append(command.as_str());
            message.append("`: ");
            message.append(reason.as_str());
            Err(message)
        },
        AdbReply::Ended { success, stdout, stderr } => {
            let stdout = chars_of(stdout.as_str());
            let stderr = chars_of(stderr.as_str());
            let out = trimmed(stdout.as_slice());
            let err = trimmed(stderr.as_slice());
            if success {
                if out.len() == 0 {
                    Ok(string_of(err))
                } else {
                    Ok(string_of(out))
                }
            } else {
                let detail = if err.len() == 0 {
                    string_of(out)
                } else {
                    string_of(err)
                };
                let mut message = String::from_str("`adb ");
                message.append(command.as_str());
                message.append("` failed: ");
                message.append(detail.as_str());
                Err(message)
            }
        },
    }
}

// ---------------------------------------------------------------------------
// The device listing
// ---------------------------------------------------------------------------

/// The model in a field `model:<model>`.
pub open spec fn model_field(field: Seq<char>) -> Option<Seq<char>> {
    text::strip_prefix(field, "model:"@)
}

/// The device in a line of the listing, if it is reached by cable.
pub open spec fn device_line(line: Seq<char>) -> Option<Detected> {
    let fields = text::words(text::trim(line));
    if fields.len() > 0 && connection_of(fields[0]) is Usb {
        let model = match text::first_some(fields, |field: Seq<char>| model_field(field)) {
            Some(model) => model,
            None => "Unknown"@,
        };
        Some(
            Detected {
                serial: fields[0],
                connection: ConnectionKind::Usb,
                adb_state: if fields.len() > 1 {
                    fields[1]
                } else {
                    "unknown"@
                },
                model: text::replace(model, '_', " "@),
            },
        )
    } else {
        None
    }
}

/// The devices in a listing that are reached by cable. The first line is a heading.
pub open spec fn listed_devices(output: Seq<char>) -> Seq<Detected> {
    let lines = text::lines(output);
    if lines.len() == 0 {
        Seq::empty()
    } else {
        lines.skip(1).filter_map(|line: Seq<char>| device_line(line))
    }
}

fn find_model(fields: &Vec<&[char]>) -> (r: String)
    ensures
        r@ == text::replace(
            match text::first_some(
                text::views(fields@),
                |field: Seq<char>| model_field(field),
            ) {
                Some(model) => model,
                None => "Unknown"@,
            },
            '_',
            " "@,
        ),
{
    let ghost all = text::views(fields@);
    let ghost f = |field: Seq<char>| model_field(field);
    let mut i: usize = 0;
    proof {
        text::lemma_first_some_at(all, f, 0);
    }
    while i < fields.len()
        invariant
            i <= fields@.len(),
            all == text::views(fields@),
            f == (|field: Seq<char>| model_field(field)),
            text::first_some(all, f) == text::first_some(all.skip(i as int), f),
        decreases fields@.len() - i,
    {
        proof {
            text::lemma_first_some_at(all, f, i as int);
        }
        assert(all[i as int] == fields@[i as int]@);
        if let Some(model) = after_prefix(fields[i], "model:") {
            return replaced(model, '_', " ");
        }
        i = i + 1;
    }
    proof {
        text::lemma_first_some_at(all, f, i as int);
    }
    let unknown = chars_of("Unknown");
    replaced(unknown.as_slice(), '_', " ")
}

fn parse_device_line(line: &[char]) -> (r: Option<AdbDetectedDevice>)
    ensures
        match r {
            Some(device) => device_line(line@) == Some(device@),
            None => device_line(line@) is None,
        },
{
    let fields = split_words(trimmed(line));
    assert(text::views(fields@).len() == fields@.len());
    if fields.len() == 0 {
        return None;
    }
    assert(text::views(fields@)[0] == fields@[0]@);
    let connection = infer_from_chars(fields[0]);
    if connection != ConnectionKind::Usb {
        return None;
    }
    let adb_state = if fields.len() > 1 {
        assert(text::views(fields@)[1] == fields@[1]@);
        string_of(fields[1])
    } else {
        String::from_str("unknown")
    };
    let model = find_model(&fields);
    Some(AdbDetectedDevice { serial: string_of(fields[0]), connection, adb_state, model })
}

/// Reads the devices that are reached by cable from a listing.
pub fn parse_device_listing(output: &str) -> (r: Vec<AdbDetectedDevice>)
    ensures
        text::views(r@) == listed_devices(output@),
{
    broadcast use text::lemma_views_push;

    let chars = chars_of(output);
    let lines = split_lines(chars.as_slice());
    let mut out: Vec<AdbDetectedDevice> = Vec::new();
    assert(text::views(lines@).len() == lines@.len());
    assert(text::views(out@) =~= Seq::empty());
    if lines.len() == 0 {
        return out;
    }
    let ghost all = text::lines(output@).skip(1);
    let ghost f = |line: Seq<char>| device_line(line);
    let mut i: usize = 1;
    assert(all.take(0) =~= Seq::empty());
    assert(text::views(out@) =~= all.take(0).filter_map(f));
    while i < lines.len()
        invariant
            1 <= i <= lines@.len(),
            all == text::views(lines@).skip(1),
            f == (|line: Seq<char>| device_line(line)),
            text::views(out@) == all.take(i - 1).filter_map(f),
        decreases lines@.len() - i,
    {
        proof {
            all.lemma_filter_map_take_succ(f, i - 1);
            assert(all[i - 1] == lines@[i as int]@);
        }
        let ghost before = out@;
        if let Some(device) = parse_device_line(lines[i]) {
            out.push(device);
            assert(text::views(out@) == text::views(before).push(device@));
        }
        i = i + 1;
    }
    assert(all.take(i - 1) =~= all);
    out
}

/// The arguments with which the ADB tool lists the devices.
pub open spec fn listing_args() -> Seq<Seq<char>> {
    seq!["devices"@, "-l"@]
}

/// The arguments with which the ADB tool lists the devices.
pub fn device_listing_args() -> (r: Vec<String>)
    ensures
        text::views(r@) == listing_args(),
{
    let mut args: Vec<String> = Vec::new();
    args.push(String::from_str("devices"));
    args.push(String::from_str("-l"));
    assert(text::views(args@) =~= listing_args());
    args
}

/// The devices that are reached by cable, from the run of the ADB tool that lists the devices,
/// or the message of its failure.
pub fn list_adb_devices(listing: Result<String, String>) -> (r: Result<Vec<AdbDetectedDevice>, String>)
    ensures
        match listing {
            Ok(output) => r matches Ok(devices) && text::views(devices@) == listed_devices(output@),
            Err(message) => r == Err::<Vec<AdbDetectedDevice>, String>(message),
        },
{
    match listing {
        Ok(output) => Ok(parse_device_listing(output.as_str())),
        Err(message) => Err(message),
    }
}

/// Every device in the listing is reached by cable: its serial number holds no colon.
pub proof fn law_listed_devices_are_reached_by_cable(output: Seq<char>)
    ensures
        forall|i: int|
            0 <= i < listed_devices(output).len() ==> (#[trigger] listed_devices(
                output,
            )[i]).connection is Usb && !text::contains(listed_devices(output)[i].serial, ":"@),
{
    let lines = text::lines(output);
    if lines.len() > 0 {
        let all = lines.skip(1);
        let f = |line: Seq<char>| device_line(line);
        assert forall|i: int| 0 <= i < listed_devices(output).len() implies (
        #[trigger] listed_devices(output)[i]).connection is Usb && !text::contains(
            listed_devices(output)[i].serial,
            ":"@,
        ) by {
            let device = listed_devices(output)[i];
            assert(all.filter_map(f).contains(device));
            all.lemma_filter_map_contains(f, device);
        }
    }
}

// ---------------------------------------------------------------------------
// Device properties
// ---------------------------------------------------------------------------

/// The value of a property in the reply to the command that prints it, if there is one.
pub open spec fn property(reply: RawReply) -> Option<Seq<char>> {
    match reply {
        RawReply::Broken(_) => None,
        RawReply::Ended { status, stdout, stderr } => if shell::is_nonzero(status) || text::trim(
            stdout@,
        ).len() == 0 {
            None
        } else {
            Some(text::trim(stdout@))
        },
    }
}

/// The value of a property, or the given text.
pub open spec fn property_or(value: Option<Seq<char>>, text: Seq<char>) -> Seq<char> {
    match value {
        Some(value) => value,
        None => text,
    }
}

/// Reads a property.
pub open spec fn ask(replies: Seq<RawReply>, at: nat, key: Seq<char>) -> Outcome<Option<Seq<char>>> {
    if at >= replies.len() {
        Outcome::Run("getprop "@ + key)
    } else {
        Outcome::Done(property(replies[at as int]), at + 1)
    }
}

/// Reads the serial number, unless it is known.
pub open spec fn ask_serial(serial: Option<Seq<char>>, replies: Seq<RawReply>) -> Outcome<Seq<char>> {
    match serial {
        Some(serial) => Outcome::Done(serial, 0),
        None => match ask(replies, 0, "ro.serialno"@) {
            Outcome::Run(command) => Outcome::Run(command),
            Outcome::Done(value, used) => Outcome::Done(property_or(value, "default"@), used),
        },
    }
}

/// Reads the model of the processor, from one property or else from another.
pub open spec fn ask_soc(replies: Seq<RawReply>, at: nat) -> Outcome<Seq<char>> {
    match ask(replies, at, "ro.soc.model"@) {
        Outcome::Run(command) => Outcome::Run(command),
        Outcome::Done(Some(value), used) => Outcome::Done(value, used),
        Outcome::Done(None, used) => match ask(replies, used, "ro.board.platform"@) {
            Outcome::Run(command) => Outcome::Run(command),
            Outcome::Done(value, used) => Outcome::Done(property_or(value, "Unknown"@), used),
        },
    }
}

/// Reads what is to be known of a device.
pub open spec fn describe(serial: Option<Seq<char>>, replies: Seq<RawReply>) -> Outcome<Device> {
    match ask_serial(serial, replies) {
        Outcome::Run(command) => Outcome::Run(command),
        Outcome::Done(serial, used) => match ask(replies, used, "ro.product.model"@) {
            Outcome::Run(command) => Outcome::Run(command),
            Outcome::Done(model, used) => match ask(replies, used, "ro.build.version.release"@) {
                Outcome::Run(command) => Outcome::Run(command),
                Outcome::Done(version, used) => match ask_soc(replies, used) {
                    Outcome::Run(command) => Outcome::Run(command),
                    Outcome::Done(soc_model, used) => Outcome::Done(
                        Device {
                            serial,
                            connection: connection_of(serial),
                            model: property_or(model, "Unknown"@),
                            android_version: property_or(version, "Unknown"@),
                            soc_model,
                        },
                        used,
                    ),
                },
            },
        },
    }
}

/// Describing a device ends after at most five replies.
pub proof fn law_describing_ends(serial: Option<Seq<char>>, replies: Seq<RawReply>)
    requires
        replies.len() >= 5,
    ensures
        describe(serial, replies) is Done,
{
}

/// The value of a property in the reply to the command that prints it.
pub fn read_prop(reply: &RawReply) -> (r: Option<String>)
    ensures
        text::optional(r) == property(*reply),
{
    match reply {
        RawReply::Broken(_) => None,
        RawReply::Ended { status, stdout, stderr: _ } => {
            let failed: bool = match status {
                Some(code) => *code != 0,
                None => false,
            };
            if failed {
                return None;
            }
            let chars = chars_of(stdout.as_str());
            let value = trimmed(chars.as_slice());
            if value.len() == 0 {
                None
            } else {
                Some(string_of(value))
            }
        },
    }
}

/// A property that has been read, or the command that prints it.
enum Asked {
    Run(String),
    Value(Option<String>),
}

fn ask_for(replies: &[RawReply], at: usize, key: &str) -> (r: Asked)
    ensures
        match r {
            Asked::Run(command) => ask(replies@, at as nat, key@) == Outcome::<
                Option<Seq<char>>,
            >::Run(command@),
            Asked::Value(value) => at < replies@.len() && ask(replies@, at as nat, key@)
                == Outcome::Done(text::optional(value), at as nat + 1),
        },
{
    if at >= replies.len() {
        let mut command = String::from_str("getprop ");
        command.append(key);
        Asked::Run(command)
    } else {
        Asked::Value(read_prop(&replies[at]))
    }
}

fn value_or(value: Option<String>, other: &str) -> (r: String)
    ensures
        r@ == property_or(text::optional(value), other@),
{
    match value {
        Some(value) => value,
        None => String::from_str(other),
    }
}

/// Describes a device that the ADB client has opened, or gives the message of why it could not
/// be opened.
pub fn query_device_descriptor(
    serial: Option<&str>,
    opened: Result<(), String>,
    replies: &[RawReply],
) -> (r: Result<Progress<DeviceDescriptor>, String>)
    ensures
        match opened {
            Err(reason) => r matches Err(message) && message@ == shell::no_device_text(
                text::optional_str(serial),
                reason@,
            ),
            Ok(_) => r matches Ok(progress) && progress.deep() == describe(
                text::optional_str(serial),
                replies@,
            ),
        },
{
    if let Err(reason) = opened {
        let message = match serial {
            Some(serial) => {
                let mut message = String::from_str("failed to get adb device `");
                message.append(serial);
                message.append("`: ");
                message.append(reason.as_str());
                message
            },
            None => {
                let mut message = String::from_str("failed to get adb device: ");
                message.append(reason.as_str());
                message
            },
        };
        return Err(message);
    }
    let mut used: usize = 0;
    let actual_serial = match serial {
        Some(serial) => String::from_str(serial),
        None => match ask_for(replies, used, "ro.serialno") {
            Asked::Run(command) => {
                return Ok(Progress::Run(command));
            },
            Asked::Value(value) => {
                used = used + 1;
                value_or(value, "default")
            },
        },
    };
    let model = match ask_for(replies, used, "ro.product.model") {
        Asked::Run(command) => {
            return Ok(Progress::Run(command));
        },
        Asked::Value(value) => value_or(value, "Unknown"),
    };
    used = used + 1;
    let android_version = match ask_for(replies, used, "ro.build.version.release") {
        Asked::Run(command) => {
            return Ok(Progress::Run(command));
        },
        Asked::Value(value) => value_or(value, "Unknown"),
    };
    used = used + 1;
    let soc = match ask_for(replies, used, "ro.soc.model") {
        Asked::Run(command) => {
            return Ok(Progress::Run(command));
        },
        Asked::Value(value) => value,
    };
    used = used + 1;
    let soc_model = match soc {
        Some(value) => value,
        None => match ask_for(replies, used, "ro.board.platform") {
            Asked::Run(command) => {
                return Ok(Progress::Run(command));
            },
            Asked::Value(value) => {
                used = used + 1;
                value_or(value, "Unknown")
            },
        },
    };
    let connection = infer_connection_kind(actual_serial.as_str());
    let device = DeviceDescriptor {
        serial: actual_serial,
        connection,
        model,
        android_version,
        soc_model,
    };
    Ok(Progress::Done(device, used))
}

/// A serial number with a colon in it is that of a device on a wireless network, and every other
/// one but the placeholder that of a device on a cable.
pub proof fn law_connections(before: Seq<char>, port: Seq<char>)
    ensures
        connection_of(before + ":"@ + port) is Wifi,
        text::is_free_of(before, CharClass::One(':')) && before != "default"@ ==> connection_of(
            before,
        ) is Usb,
        connection_of("default"@) is Unknown,
{
    reveal_strlit(":");
    reveal_strlit("default");
    assert(":"@ =~= seq![':']);
    text::lemma_contains_self(":"@);
    text::lemma_contains_right(before, ":"@, ":"@);
    text::lemma_contains_left(before + ":"@, port, ":"@);
    if text::is_free_of(before, CharClass::One(':')) {
        text::law_split_once(before, ':', port);
    }
    assert forall|i: int| 0 <= i < "default"@.len() implies !CharClass::One(':').holds(
        #[trigger] "default"@[i],
    ) by {}
    text::law_split_once("default"@, ':', port);
}

/// A printed line of the listing gives the device: its serial number, its state and its model,
/// whose words the tool joins by underscores. A device that is not on a cable gives none.
pub proof fn law_printed_devices(serial: Seq<char>, state: Seq<char>, model: Seq<char>)
    requires
        serial.len() > 0 && text::is_free_of(serial, CharClass::White),
        state.len() > 0 && text::is_free_of(state, CharClass::White),
        text::is_free_of(model, CharClass::White),
        !"model:"@.is_prefix_of(serial),
        !"model:"@.is_prefix_of(state),
    ensures
        ({
            let line = text::join(seq![serial, state, "model:"@ + model], seq![' ']);
            let device = device_line(line);
            &&& connection_of(serial) is Usb ==> device == Some(
                Detected {
                    serial,
                    connection: ConnectionKind::Usb,
                    adb_state: state,
                    model: text::replace(model, '_', " "@),
                },
            )
            &&& !(connection_of(serial) is Usb) ==> device is None
        }),
{
    reveal_strlit("model:");
    let fields = seq![serial, state, "model:"@ + model];
    let line = text::join(fields, seq![' ']);
    assert forall|i: int| 0 <= i < fields.len() implies (#[trigger] fields[i]).len() > 0
        && text::is_free_of(fields[i], CharClass::White) by {
        if i == 2 {
            assert forall|j: int| 0 <= j < fields[2].len() implies !CharClass::White.holds(
                #[trigger] fields[2][j],
            ) by {
                if j >= 6 {
                    assert(!CharClass::White.holds(model[j - 6]));
                }
            }
        }
    }
    text::law_joined_words(fields);
    lemma_joined_three(serial, state, "model:"@ + model);
    assert(!CharClass::White.holds(serial[0]));
    let last = "model:"@ + model;
    assert(!CharClass::White.holds(last[last.len() - 1])) by {
        assert(fields[2] == last);
        assert(text::is_free_of(fields[2], CharClass::White));
    }
    text::lemma_trim_nothing(line);
    text::law_strip(model, "model:"@);
    let f = |field: Seq<char>| model_field(field);
    text::lemma_first_some_is(fields, f, 2);
}

proof fn lemma_joined_three(a: Seq<char>, b: Seq<char>, c: Seq<char>)
    requires
        a.len() > 0,
        c.len() > 0,
    ensures
        ({
            let line = text::join(seq![a, b, c], seq![' ']);
            line.len() > 0 && line[0] == a[0] && line.last() == c.last()
        }),
{
    let parts = seq![a, b, c];
    assert(parts.drop_last() =~= seq![a, b]);
    assert(seq![a, b].drop_last() =~= seq![a]);
    assert(text::join(seq![a], seq![' ']) == a);
    assert(text::join(seq![a, b], seq![' ']) == a + seq![' '] + b);
    assert(text::join(parts, seq![' ']) == a + seq![' '] + b + seq![' '] + c);
}

/// The devices of a listing are those of its lines behind the heading, in their order.
pub proof fn law_listing_in_order(heading: Seq<char>, line: Seq<char>, rest: Seq<char>)
    requires
        text::is_free_of(heading, CharClass::One('\n')),
        heading.len() == 0 || heading.last() != '\r',
        text::is_free_of(line, CharClass::One('\n')),
        line.len() == 0 || line.last() != '\r',
    ensures
        listed_devices(heading + seq!['\n'] + (line + seq!['\n'] + rest)) == match device_line(
            line,
        ) {
            Some(device) => seq![device] + listed_devices(heading + seq!['\n'] + rest),
            None => listed_devices(heading + seq!['\n'] + rest),
        },
        listed_devices(heading).len() == 0,
        listed_devices(heading + seq!['\n']).len() == 0,
{
    let f = |line: Seq<char>| device_line(line);
    let none = Seq::<char>::empty();
    text::law_lines(heading, line + seq!['\n'] + rest);
    text::law_lines(heading, rest);
    text::law_lines(heading, none);
    assert(heading + seq!['\n'] + none =~= heading + seq!['\n']);
    text::law_lines_give_in_order(line, rest, f);
    let more = text::lines(line + seq!['\n'] + rest);
    assert((seq![heading] + more).skip(1) =~= more);
    assert((seq![heading] + text::lines(rest)).skip(1) =~= text::lines(rest));
    assert((seq![heading] + text::lines(none)).skip(1) =~= Seq::empty());
    assert(seq![heading].skip(1) =~= Seq::empty());
}

/// What the tool prints is the outcome of a run that succeeds: its output, or its complaints where
/// it prints nothing else. A run that fails is told with its complaints, or else its output.
pub proof fn law_outcomes(args: Seq<Seq<char>>, reply: AdbReply)
    ensures
        reply matches AdbReply::Ended { success, stdout, stderr } ==> {
            let out = text::trim(stdout@);
            let err = text::trim(stderr@);
            &&& success && out.len() > 0 ==> adb_outcome(args, reply) == Ok::<Seq<char>, Seq<char>>(
                out,
            )
            &&& success && out.len() == 0 ==> adb_outcome(args, reply) == Ok::<
                Seq<char>,
                Seq<char>,
            >(err)
            &&& !success && err.len() > 0 ==> (adb_outcome(args, reply) matches Err(message)
                && err.is_suffix_of(message))
            &&& !success && err.len() == 0 ==> (adb_outcome(args, reply) matches Err(message)
                && out.is_suffix_of(message))
        },
        reply matches AdbReply::NotLaunched { path, reason } ==> (adb_outcome(args, reply)
            matches Err(message) && reason@.is_suffix_of(message)),
{
    match reply {
        AdbReply::Ended { success, stdout, stderr } => {
            let out = text::trim(stdout@);
            let err = text::trim(stderr@);
            let head = "`adb "@ + text::join(args, " "@) + "` failed: "@;
            assert((head + err).skip((head + err).len() - err.len()) =~= err);
            assert((head + out).skip((head + out).len() - out.len()) =~= out);
        },
        AdbReply::NotLaunched { path, reason } => {
            let head = "failed to launch `"@ + path@ + "` for `adb "@ + text::join(args, " "@)
                + "`: "@;
            let message = head + reason@;
            assert(message.skip(message.len() - reason@.len()) =~= reason@);
        },
    }
}

/// A property is what the command printed, white space around it aside; a command that failed or
/// printed nothing gives none.
pub proof fn law_properties(reply: RawReply)
    ensures
        reply matches RawReply::Ended { status, stdout, stderr } ==> {
            &&& !shell::is_nonzero(status) && text::trim(stdout@).len() > 0 ==> property(reply)
                == Some(text::trim(stdout@))
            &&& shell::is_nonzero(status) ==> property(reply) is None
            &&& text::trim(stdout@).len() == 0 ==> property(reply) is None
        },
        reply is Broken ==> property(reply) is None,
{
}

/// What is told of a device comes from the replies in the order in which they are asked for: the
/// model, the version and the chip. The commands name the properties.
pub proof fn law_described_device(
    serial: Seq<char>,
    model: RawReply,
    version: RawReply,
    chip: RawReply,
    board: RawReply,
)
    ensures
        describe(Some(serial), seq![]) == Outcome::<Device>::Run("getprop ro.product.model"@),
        describe(Some(serial), seq![model]) == Outcome::<Device>::Run(
            "getprop ro.build.version.release"@,
        ),
        describe(Some(serial), seq![model, version]) == Outcome::<Device>::Run(
            "getprop ro.soc.model"@,
        ),
        property(chip) is None ==> describe(Some(serial), seq![model, version, chip]) == Outcome::<
            Device,
        >::Run("getprop ro.board.platform"@),
        property(model) is Some && property(version) is Some && property(chip) is Some ==> describe(
            Some(serial),
            seq![model, version, chip],
        ) == Outcome::Done(
            Device {
                serial,
                connection: connection_of(serial),
                model: property(model)->Some_0,
                android_version: property(version)->Some_0,
                soc_model: property(chip)->Some_0,
            },
            3,
        ),
        property(chip) is None && property(board) is Some ==> (describe(
            Some(serial),
            seq![model, version, chip, board],
        ) matches Outcome::Done(device, _) && device.soc_model == property(board)->Some_0
            && device.serial == serial),
        describe(None, seq![]) == Outcome::<Device>::Run("getprop ro.serialno"@),
{
    reveal_strlit("getprop ");
    reveal_strlit("ro.serialno");
    reveal_strlit("ro.product.model");
    reveal_strlit("ro.build.version.release");
    reveal_strlit("ro.soc.model");
    reveal_strlit("ro.board.platform");
    reveal_strlit("getprop ro.serialno");
    reveal_strlit("getprop ro.product.model");
    reveal_strlit("getprop ro.build.version.release");
    reveal_strlit("getprop ro.soc.model");
    reveal_strlit("getprop ro.board.platform");
    assert("getprop "@ + "ro.serialno"@ =~= "getprop ro.serialno"@);
    assert("getprop "@ + "ro.product.model"@ =~= "getprop ro.product.model"@);
    assert("getprop "@ + "ro.build.version.release"@ =~= "getprop ro.build.version.release"@);
    assert("getprop "@ + "ro.soc.model"@ =~= "getprop ro.soc.model"@);
    assert("getprop "@ + "ro.board.platform"@ =~= "getprop ro.board.platform"@);
}

} // verus!
