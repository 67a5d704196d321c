//! The texts of the window.

use vstd::prelude::*;

use crate::device::{AdbDetectedDevice, Device};
use crate::export::panel;
use crate::export::panel::{build_numbered_cards, write_value, Card};
use crate::gui::Dashboard;
use crate::number;
use crate::number::{read_unsigned, write_u128, write_u64};
use crate::session::SessionState;
use crate::storage;
use crate::storage::{Channel, SessionStore, TimestampedBatch};
use crate::text;
use crate::text::{chars_of, lowered, same, string_of, trimmed};

verus! {

/// The voltage, with its unit.
pub fn format_voltage_value(raw_mv: i64) -> (r: String)
    ensures
        r@ == panel::value_text(raw_mv, "mV"@),
{
    write_value(raw_mv, "mV")
}

/// The current, with its unit.
pub fn format_current_value(raw_ma: i64) -> (r: String)
    ensures
        r@ == panel::value_text(raw_ma, "mA"@),
{
    write_value(raw_ma, "mA")
}

/// The power, with its unit.
pub fn format_power_value(raw_mw: i64) -> (r: String)
    ensures
        r@ == panel::value_text(raw_mw, "mW"@),
{
    write_value(raw_mw, "mW")
}

/// The cards of the latest values of the policies; where there is no frame, a card with dashes.
pub open spec fn policy_cards(values: Seq<Option<i64>>, unit: Seq<char>) -> Seq<
    (Seq<char>, Seq<char>),
> {
    if values.len() == 0 {
        seq![("CPU policy"@, "--"@)]
    } else {
        panel::numbered_cards(values, unit, "policy"@)
    }
}

fn build_policy_cards(values: Vec<Option<i64>>, unit: &str) -> (r: Vec<Card>)
    ensures
        text::views(r@) == policy_cards(values@, unit@),
{
    if values.len() == 0 {
        let mut cards: Vec<Card> = Vec::new();
        cards.push(Card { name: String::from_str("CPU policy"), value: String::from_str("--") });
        assert(text::views(cards@) =~= seq![("CPU policy"@, "--"@)]);
        return cards;
    }
    build_numbered_cards(&values, unit, "policy")
}

/// The number of frames of all channels.
pub open spec fn frame_count(session: SessionStore) -> nat {
    session.frames(Channel::CpuClock).len() + session.frames(Channel::CpuUsage).len()
        + session.frames(Channel::Fps).len() + session.frames(Channel::BatteryTemperature).len()
        + session.frames(Channel::BatteryVoltage).len() + session.frames(
        Channel::BatteryCurrent,
    ).len() + session.frames(Channel::BatteryPower).len()
}

/// The lines about the device and the session.
pub open spec fn device_lines(device: Option<Device>, frames: nat, state: SessionState) -> Seq<
    Seq<char>,
> {
    let about = match device {
        Some(device) => seq![
            "Model: "@ + device.model,
            "Serial: "@ + device.serial,
            "Connection: "@ + device.connection.name()@,
            "Android: "@ + device.android_version,
            "SoC: "@ + device.soc_model,
        ],
        None => seq![
            "Model: --"@,
            "Serial: --"@,
            "Connection: --"@,
            "Android: --"@,
            "SoC: --"@,
        ],
    };
    about + seq![
        "Frames cached: "@ + number::decimal(frames),
        "Runtime snapshot: "@ + state.name()@,
    ]
}

fn labelled(label: &str, value: &str) -> (r: String)
    ensures
        r@ == label@ + value@,
{
    let mut out = String::from_str(label);
    out.append(value);
    out
}

/// Whether the text has nothing but white space.
fn is_blank_text(s: &str) -> (r: bool)
    ensures
        r == (text::trim(s@).len() == 0),
{
    let chars = chars_of(s);
    trimmed(chars.as_slice()).len() == 0
}

impl Dashboard {
    /// The cards of the latest clock rates.
    pub fn current_value_cards(&self) -> (r: Vec<Card>)
        ensures
            text::views(r@) == policy_cards(
                storage::latest_of(self.session.frames(Channel::CpuClock)),
                "MHz"@,
            ),
    {
        build_policy_cards(self.session.latest_values(), "MHz")
    }

    /// The cards of the latest utilisation.
    pub fn current_cpu_usage_cards(&self) -> (r: Vec<Card>)
        ensures
            text::views(r@) == policy_cards(
                storage::latest_of(self.session.frames(Channel::CpuUsage)),
                "%"@,
            ),
    {
        build_policy_cards(self.session.latest_cpu_usage_values(), "%")
    }

    /// The lines about the device and the session, whose state is given.
    pub fn device_part(&self, state: SessionState) -> (r: Vec<String>)
        ensures
            text::views(r@) == device_lines(self@.device, frame_count(self.session), state),
    {
        let mut lines: Vec<String> = match &self.device {
            Some(device) => vec![
                labelled("Model: ", device.model.as_str()),
                labelled("Serial: ", device.serial.as_str()),
                labelled("Connection: ", device.connection.as_str()),
                labelled("Android: ", device.android_version.as_str()),
                labelled("SoC: ", device.soc_model.as_str()),
            ],
            None => vec![
                String::from_str("Model: --"),
                String::from_str("Serial: --"),
                String::from_str("Connection: --"),
                String::from_str("Android: --"),
                String::from_str("SoC: --"),
            ],
        };
        let count: u128 = self.session.cpu_clock_frames().len() as u128
            + self.session.cpu_usage_frames().len() as u128
            + self.session.fps_frames().len() as u128
            + self.session.battery_temperature_frames().len() as u128
            + self.session.battery_voltage_frames().len() as u128
            + self.session.battery_current_frames().len() as u128
            + self.session.battery_power_frames().len() as u128;
        let digits = write_u128(count);
        lines.push(labelled("Frames cached: ", digits.as_str()));
        lines.push(labelled("Runtime snapshot: ", state.as_str()));
        assert(text::views(lines@) =~= device_lines(
            self@.device,
            frame_count(self.session),
            state,
        ));
        lines
    }

    /// The label of the button that starts the session.
    pub fn start_label(&self) -> (r: String)
        ensures
            r@ == "Start "@ + number::decimal(self@.hz as nat) + "Hz"@,
    {
        let mut out = String::from_str("Start ");
        let digits = write_u64(self.selected_hz);
        out.append(digits.as_str());
        out.append("Hz");
        out
    }

    /// The note on the sampling rate.
    pub fn hz_note(&self) -> (r: String)
        ensures
            r@ == "Selected sampling rate: "@ + number::decimal(self@.hz as nat) + " Hz"@,
    {
        let mut out = String::from_str("Selected sampling rate: ");
        let digits = write_u64(self.selected_hz);
        out.append(digits.as_str());
        out.append(" Hz");
        out
    }

    /// The note on the package.
    pub fn package_note(&self) -> (r: String)
        ensures
            r@ == "Current package: "@ + if text::trim(self@.package).len() == 0 {
                "--"@
            } else {
                self@.package
            },
    {
        if is_blank_text(self.package_name.as_str()) {
            labelled("Current package: ", "--")
        } else {
            labelled("Current package: ", self.package_name.as_str())
        }
    }

    /// The note on the device operation that is in progress.
    pub fn busy_note(&self) -> (r: String)
        ensures
            r@ == if text::trim(self@.busy_message).len() == 0 {
                "Please wait while PerfDroid finishes the current device operation."@
            } else {
                self@.busy_message
            },
    {
        if is_blank_text(self.busy_message.as_str()) {
            String::from_str("Please wait while PerfDroid finishes the current device operation.")
        } else {
            self.busy_message.clone()
        }
    }
}

/// The heading of a listed device.
pub fn detected_title(device: &AdbDetectedDevice) -> (r: String)
    ensures
        r@ == device@.model + " ("@ + device@.serial + ")"@,
{
    let mut out = device.model.clone();
    out.append(" (");
    out.append(device.serial.as_str());
    out.append(")");
    out
}

/// The lines about a listed device.
pub fn detected_lines(device: &AdbDetectedDevice) -> (r: Vec<String>)
    ensures
        text::views(r@) == seq![
            "ADB state: "@ + device@.adb_state,
            "Detected transport: "@ + device@.connection.name()@,
        ],
{
    let r: Vec<String> = vec![
        labelled("ADB state: ", device.adb_state.as_str()),
        labelled("Detected transport: ", device.connection.as_str()),
    ];
    assert(text::views(r@) =~= seq![
        "ADB state: "@ + device@.adb_state,
        "Detected transport: "@ + device@.connection.name()@,
    ]);
    r
}

/// The sampling rate that was typed, if it is a number.
pub fn read_hz(raw: &str) -> (r: Option<u64>)
    ensures
        match r {
            Some(hz) => number::parse_unsigned(text::trim(raw@), u64::MAX as nat) == Some(
                hz as nat,
            ),
            None => number::parse_unsigned(text::trim(raw@), u64::MAX as nat) is None,
        },
{
    let chars = chars_of(raw);
    read_unsigned(trimmed(chars.as_slice()), u64::MAX)
}

// ---------------------------------------------------------------------------
// Exports
// ---------------------------------------------------------------------------

/// What a session can be exported to.
#[derive(Debug, Clone, Copy, PartialEq, Eq, Structural)]
pub enum ExportKind {
    /// A table.
    Csv,
    /// A JSON document.
    Json,
    /// A page.
    Html,
    /// A picture.
    Png,
}

impl ExportKind {
    /// The name of the format.
    pub open spec fn name(self) -> &'static str {
        match self {
            ExportKind::Csv => "CSV",
            ExportKind::Json => "JSON",
            ExportKind::Html => "HTML",
            ExportKind::Png => "PNG",
        }
    }

    /// The extension of the file.
    pub open spec fn file_extension(self) -> &'static str {
        match self {
            ExportKind::Csv => "csv",
            ExportKind::Json => "json",
            ExportKind::Html => "html",
            ExportKind::Png => "png",
        }
    }

    /// What users are told that was exported.
    pub open spec fn what(self) -> &'static str {
        match self {
            ExportKind::Csv => "CSV exported: ",
            ExportKind::Json => "JSON exported: ",
            ExportKind::Html => "HTML report exported: ",
            ExportKind::Png => "PNG report exported: ",
        }
    }

    /// The name of the file that is proposed.
    pub open spec fn proposed(self) -> &'static str {
        match self {
            ExportKind::Csv => "perfdroid_session.csv",
            ExportKind::Json => "perfdroid_session.json",
            ExportKind::Html => "perfdroid_report.html",
            ExportKind::Png => "perfdroid_report.png",
        }
    }

    /// The name of the format.
    pub fn as_str(self) -> (r: &'static str)
        ensures
            r@ == self.name()@,
    {
        match self {
            ExportKind::Csv => "CSV",
            ExportKind::Json => "JSON",
            ExportKind::Html => "HTML",
            ExportKind::Png => "PNG",
        }
    }

    /// The extension of the file.
    pub fn extension(self) -> (r: &'static str)
        ensures
            r@ == self.file_extension()@,
    {
        match self {
            ExportKind::Csv => "csv",
            ExportKind::Json => "json",
            ExportKind::Html => "html",
            ExportKind::Png => "png",
        }
    }

    /// The name of the file that is proposed.
    pub fn proposed_name(self) -> (r: &'static str)
        ensures
            r@ == self.proposed()@,
    {
        match self {
            ExportKind::Csv => "perfdroid_session.csv",
            ExportKind::Json => "perfdroid_session.json",
            ExportKind::Html => "perfdroid_report.html",
            ExportKind::Png => "perfdroid_report.png",
        }
    }

    /// The label of the button.
    pub fn button_label(self) -> (r: String)
        ensures
            r@ == "Export "@ + self.name()@,
    {
        labelled("Export ", self.as_str())
    }

    /// The message where the state of the session does not allow exports.
    pub fn unavailable(self) -> (r: String)
        ensures
            r@ == self.name()@ + " export is only available in Paused or Stopped state."@,
    {
        labelled(self.as_str(), " export is only available in Paused or Stopped state.")
    }

    /// The message where no file was chosen.
    pub fn canceled(self) -> (r: String)
        ensures
            r@ == self.name()@ + " export canceled."@,
    {
        labelled(self.as_str(), " export canceled.")
    }

    /// The message where the dialog for the file could not be opened.
    pub fn no_dialog(self, error: &str) -> (r: String)
        ensures
            r@ == "failed to open save dialog for "@ + self.name()@ + " export: "@ + error@,
    {
        let mut out = labelled("failed to open save dialog for ", self.as_str());
        out.append(" export: ");
        out.append(error);
        out
    }

    /// The message where the dialog for the file gave no answer.
    pub fn no_answer(self, error: &str) -> (r: String)
        ensures
            r@ == "failed while waiting for "@ + self.name()@ + " save dialog result: "@ + error@,
    {
        let mut out = labelled("failed while waiting for ", self.as_str());
        out.append(" save dialog result: ");
        out.append(error);
        out
    }

    /// The message that tells what an export came to: the number of rows and the file, or the
    /// error.
    pub fn outcome(self, exported: Result<usize, String>, path: &str) -> (r: String)
        ensures
            r@ == match exported {
                Ok(rows) => self.what()@ + number::decimal(rows as nat) + " row(s) -> "@ + path@,
                Err(e) => self.name()@ + " export failed: "@ + e@,
            },
    {
        match exported {
            Ok(rows) => {
                let mut out = String::from_str(
                    match self {
                        ExportKind::Csv => "CSV exported: ",
                        ExportKind::Json => "JSON exported: ",
                        ExportKind::Html => "HTML report exported: ",
                        ExportKind::Png => "PNG report exported: ",
                    },
                );
                let digits = write_u64(rows as u64);
                out.append(digits.as_str());
                out.append(" row(s) -> ");
                out.append(path);
                out
            },
            Err(e) => {
                let mut out = labelled(self.as_str(), " export failed: ");
                out.append(e.as_str());
                out
            },
        }
    }
}

/// Whether a name without separators names a file: the empty name, one dot and two dots do not.
pub open spec fn names_a_file(name: Seq<char>) -> bool {
    name.len() > 0 && name != seq!['.'] && name != seq!['.', '.']
}

/// The place of the last dot of a file name that separates an extension: not one that the name
/// starts with.
pub open spec fn extension_dot(name: Seq<char>) -> Option<int>
    decreases name.len(),
{
    if name.len() <= 1 {
        None
    } else if name.last() == '.' {
        Some(name.len() - 1)
    } else {
        extension_dot(name.drop_last())
    }
}

/// The extension of a file name, if it has one.
pub open spec fn extension_of(name: Seq<char>) -> Option<Seq<char>> {
    match extension_dot(name) {
        Some(dot) => Some(name.skip(dot + 1)),
        None => None,
    }
}

/// A file name without its extension.
pub open spec fn stem_of(name: Seq<char>) -> Seq<char> {
    match extension_dot(name) {
        Some(dot) => name.take(dot),
        None => name,
    }
}

/// A stem with an extension behind it, if there is one.
pub open spec fn extended(stem: Seq<char>, extension: Seq<char>) -> Seq<char> {
    if extension.len() == 0 {
        stem
    } else {
        stem + "."@ + extension
    }
}

/// A name with an extension. The name holds no separators. It is unchanged where it names no file
/// or has that extension in any case; otherwise it has the extension in place of its own.
pub open spec fn with_extension(name: Seq<char>, extension: Seq<char>) -> Seq<char> {
    if !names_a_file(name) {
        name
    } else {
        match extension_of(name) {
            Some(own) => if text::lower(own) == text::lower(extension) {
                name
            } else {
                extended(stem_of(name), extension)
            },
            None => extended(name, extension),
        }
    }
}

fn find_extension_dot(name: &[char]) -> (r: Option<usize>)
    ensures
        match r {
            Some(dot) => extension_dot(name@) == Some(dot as int) && 0 < dot < name@.len(),
            None => extension_dot(name@) is None,
        },
{
    let mut n: usize = name.len();
    assert(name@.take(n as int) =~= name@);
    while n > 1
        invariant
            n <= name@.len(),
            extension_dot(name@) == extension_dot(name@.take(n as int)),
        decreases n,
    {
        assert(name@.take(n as int).drop_last() =~= name@.take(n - 1));
        if name[n - 1] == '.' {
            return Some(n - 1);
        }
        n = n - 1;
    }
    None
}

/// Tests whether a name without separators names a file.
fn is_file_name(name: &[char]) -> (r: bool)
    ensures
        r == names_a_file(name@),
{
    let empty = name.len() == 0;
    let dot = name.len() == 1 && name[0] == '.';
    let dots = name.len() == 2 && name[0] == '.' && name[1] == '.';
    proof {
        if dot {
            assert(name@ =~= seq!['.']);
        }
        if dots {
            assert(name@ =~= seq!['.', '.']);
        }
    }
    !empty && !dot && !dots
}

fn extend_stem(stem: String, extension: &str) -> (r: String)
    ensures
        r@ == extended(stem@, extension@),
{
    let mut out = stem;
    if extension.unicode_len() > 0 {
        out.append(".");
        out.append(extension);
    }
    out
}

/// A name with an extension. The name holds no separators.
pub fn ensure_extension(name: &str, extension: &str) -> (r: String)
    ensures
        r@ == with_extension(name@, extension@),
{
    let chars = chars_of(name);
    let wanted = chars_of(extension);
    if !is_file_name(chars.as_slice()) {
        return String::from_str(name);
    }
    match find_extension_dot(chars.as_slice()) {
        Some(dot) => {
            let total: usize = chars.len();
            assert(dot < total);
            let own = vstd::slice::slice_subrange(chars.as_slice(), dot + 1, total);
            assert(own@ =~= name@.skip(dot + 1));
            let a = lowered(own);
            let b = lowered(wanted.as_slice());
            if same(a.as_slice(), b.as_slice()) {
                return String::from_str(name);
            }
            let stem = vstd::slice::slice_subrange(chars.as_slice(), 0, dot);
            assert(stem@ =~= name@.take(dot as int));
            extend_stem(string_of(stem), extension)
        },
        None => extend_stem(String::from_str(name), extension),
    }
}

/// A name of a file that was given an extension has it, in some case, and giving it again changes
/// nothing.
pub proof fn law_extension_is_ensured(name: Seq<char>, extension: Seq<char>)
    requires
        names_a_file(name),
        extension.len() > 0,
        forall|i: int| 0 <= i < extension.len() ==> extension[i] != '.',
    ensures
        ({
            let given = with_extension(name, extension);
            &&& extension_of(given) is Some
            &&& text::lower(extension_of(given)->Some_0) == text::lower(extension)
            &&& with_extension(given, extension) == given
        }),
{
    reveal_strlit(".");
    let given = with_extension(name, extension);
    let stem = stem_of(name);
    let has_it = extension_of(name) matches Some(own) && text::lower(own) == text::lower(extension);
    if !has_it {
        lemma_stem_is_not_empty(name);
        lemma_extension_behind(stem, extension);
        assert(given == stem + "."@ + extension);
        assert(given.skip(stem.len() as int + 1) =~= extension);
        assert(given.last() == extension.last());
    }
}

proof fn lemma_stem_is_not_empty(name: Seq<char>)
    requires
        name.len() > 0,
    ensures
        stem_of(name).len() > 0,
        extension_dot(name) matches Some(dot) ==> 0 < dot < name.len(),
    decreases name.len(),
{
    if name.len() > 1 && name.last() != '.' {
        lemma_stem_is_not_empty(name.drop_last());
    }
}

proof fn lemma_extension_behind(stem: Seq<char>, extension: Seq<char>)
    requires
        stem.len() > 0,
        forall|i: int| 0 <= i < extension.len() ==> extension[i] != '.',
    ensures
        extension_dot(stem + "."@ + extension) == Some(stem.len() as int),
    decreases extension.len(),
{
    reveal_strlit(".");
    let whole = stem + "."@ + extension;
    if extension.len() > 0 {
        lemma_extension_behind(stem, extension.drop_last());
        assert(whole.drop_last() =~= stem + "."@ + extension.drop_last());
        assert(whole.last() == extension.last());
    } else {
        assert(whole.last() == '.');
    }
}

/// Every proposed name of a file has the extension of its format, and the extension is the name of
/// the format in small letters.
pub proof fn law_proposed_names_have_their_extension(kind: ExportKind)
    ensures
        text::strip_suffix(kind.proposed()@, "."@ + kind.file_extension()@) is Some,
        text::lower(kind.name()@) == kind.file_extension()@,
        kind.name()@.is_prefix_of(kind.what()@),
{
    reveal_strlit(".");
    reveal_strlit("csv");
    reveal_strlit("json");
    reveal_strlit("html");
    reveal_strlit("png");
    reveal_strlit("CSV");
    reveal_strlit("JSON");
    reveal_strlit("HTML");
    reveal_strlit("PNG");
    reveal_strlit("CSV exported: ");
    reveal_strlit("JSON exported: ");
    reveal_strlit("HTML report exported: ");
    reveal_strlit("PNG report exported: ");
    reveal_strlit("perfdroid_session.csv");
    reveal_strlit("perfdroid_session.json");
    reveal_strlit("perfdroid_report.html");
    reveal_strlit("perfdroid_report.png");
    let ending = "."@ + kind.file_extension()@;
    let proposed = kind.proposed()@;
    assert(proposed.skip(proposed.len() - ending.len()) =~= ending);
    assert(text::lower(kind.name()@) =~= kind.file_extension()@);
    assert(kind.what()@.take(kind.name()@.len() as int) =~= kind.name()@);
}

/// The lines about a device tell its model, its serial number, its connection, its version and its
/// chip, each behind its name; then the number of frames and the state of the session.
pub proof fn law_device_lines(device: Device, frames: nat, state: SessionState)
    ensures
        ({
            let lines = device_lines(Some(device), frames, state);
            &&& lines.len() == 7
            &&& text::strip_prefix(lines[0], "Model: "@) == Some(device.model)
            &&& text::strip_prefix(lines[1], "Serial: "@) == Some(device.serial)
            &&& text::strip_prefix(lines[2], "Connection: "@) == Some(device.connection.name()@)
            &&& text::strip_prefix(lines[3], "Android: "@) == Some(device.android_version)
            &&& text::strip_prefix(lines[4], "SoC: "@) == Some(device.soc_model)
            &&& text::strip_prefix(lines[5], "Frames cached: "@) == Some(number::decimal(frames))
            &&& text::strip_prefix(lines[6], "Runtime snapshot: "@) == Some(state.name()@)
        }),
{
    text::law_strip(device.model, "Model: "@);
    text::law_strip(device.serial, "Serial: "@);
    text::law_strip(device.connection.name()@, "Connection: "@);
    text::law_strip(device.android_version, "Android: "@);
    text::law_strip(device.soc_model, "SoC: "@);
    text::law_strip(number::decimal(frames), "Frames cached: "@);
    text::law_strip(state.name()@, "Runtime snapshot: "@);
}

/// The frames that are counted are those of all channels: a frame more in one of them counts one
/// more.
pub proof fn law_every_frame_counts(
    before: SessionStore,
    after: SessionStore,
    frame: TimestampedBatch,
    channel: Channel,
)
    requires
        storage::has_pushed(before, after, frame),
        frame.batch.metric_key@ == channel.title()@,
    ensures
        frame_count(after) == frame_count(before) + 1,
        frame_count(before) >= before.frames(channel).len(),
{
    storage::law_channels_are_named_by_their_keys(channel);
    assert(after.frames(Channel::CpuClock).len() >= 0);
    assert(after.frames(Channel::CpuUsage).len() >= 0);
    assert(after.frames(Channel::Fps).len() >= 0);
    assert(after.frames(Channel::BatteryTemperature).len() >= 0);
    assert(after.frames(Channel::BatteryVoltage).len() >= 0);
    assert(after.frames(Channel::BatteryCurrent).len() >= 0);
    assert(after.frames(Channel::BatteryPower).len() >= 0);
}

/// What stands behind the last dot of the name of a file, be it not its first character, is its
/// extension. Giving it another replaces that one and keeps what stands before the dot; a name
/// without a dot gets the extension behind it.
pub proof fn law_extension_is_replaced(stem: Seq<char>, own: Seq<char>, extension: Seq<char>)
    requires
        stem.len() > 0,
        own.len() > 0,
        extension.len() > 0,
        forall|i: int| 0 <= i < own.len() ==> own[i] != '.',
        text::lower(own) != text::lower(extension),
    ensures
        extension_of(stem + "."@ + own) == Some(own),
        with_extension(stem + "."@ + own, extension) == stem + "."@ + extension,
        (forall|i: int| 0 <= i < stem.len() ==> stem[i] != '.') ==> with_extension(
            stem,
            extension,
        ) == stem + "."@ + extension,
{
    reveal_strlit(".");
    let name = stem + "."@ + own;
    lemma_extension_behind(stem, own);
    assert(name.skip(stem.len() as int + 1) =~= own);
    assert(name.take(stem.len() as int) =~= stem);
    assert(name.last() == own.last());
    if forall|i: int| 0 <= i < stem.len() ==> stem[i] != '.' {
        assert(stem[0] != '.');
        lemma_no_extension(stem);
    }
}

proof fn lemma_no_extension(name: Seq<char>)
    requires
        forall|i: int| 0 <= i < name.len() ==> name[i] != '.',
    ensures
        extension_dot(name) is None,
    decreases name.len(),
{
    if name.len() > 1 {
        assert(name[name.len() - 1] != '.');
        assert forall|i: int| 0 <= i < name.drop_last().len() implies name.drop_last()[i] != '.' by {
            assert(name[i] != '.');
        }
        lemma_no_extension(name.drop_last());
    }
}

/// The cards of the policies are those of their latest values; without any there is one that says
/// so.
pub proof fn law_policy_cards(values: Seq<Option<i64>>, unit: Seq<char>)
    ensures
        values.len() > 0 ==> policy_cards(values, unit) == panel::numbered_cards(
            values,
            unit,
            "policy"@,
        ),
        policy_cards(Seq::empty(), unit) == seq![("CPU policy"@, "--"@)],
{
}

} // verus!
