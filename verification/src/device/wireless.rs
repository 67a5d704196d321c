//! Reaching a device over the wireless network.
//!
//! The address of the device is looked up over the cable, the device is told to listen on the
//! network, and the ADB server connects to it. What to do next is a function of the replies
//! received so far.

use vstd::prelude::*;

use crate::device::address;
use crate::device::address::{
    extract_first_ipv4, extract_inet_ip, extract_preferred_wireless_inet_ip,
    extract_wireless_route_src_ip,
};
use crate::text;
use crate::text::{chars_of, has_text, reads, joined, lowered, string_of, trimmed};

verus! {

/// Something to be done.
#[derive(Debug)]
pub enum Action {
    /// Run the ADB tool with the given arguments. The reply is what it printed, or the message of
    /// its failure.
    Adb(Vec<String>),
    /// Wait for the given number of milliseconds. The reply is empty.
    Sleep(u64),
    /// Open the device with the given serial number and describe it. The reply is empty, or the
    /// message of the failure.
    Open(String),
}

/// Something to be done, abstractly.
pub enum Act {
    /// Run the ADB tool.
    Adb(Seq<Seq<char>>),
    /// Wait.
    Sleep(nat),
    /// Open a device.
    Open(Seq<char>),
}

/// How far an undertaking has come.
#[derive(Debug)]
pub enum Step<T> {
    /// Something has to be done.
    Do(Action),
    /// The undertaking is done. Holds its result and the number of replies that it and all
    /// before it have used.
    Done(T, usize),
}

/// How far an undertaking has come, abstractly.
pub enum Course<T> {
    /// Something has to be done.
    Do(Act),
    /// The undertaking is done.
    Done(T, nat),
}

impl View for Action {
    type V = Act;

    open spec fn view(&self) -> Act {
        match *self {
            Action::Adb(args) => Act::Adb(text::views(args@)),
            Action::Sleep(ms) => Act::Sleep(ms as nat),
            Action::Open(serial) => Act::Open(serial@),
        }
    }
}

/// How far an undertaking has come, with its result taken by the given function.
pub open spec fn course<T, V>(step: Step<T>, f: spec_fn(T) -> V) -> Course<V> {
    match step {
        Step::Do(action) => Course::Do(action@),
        Step::Done(value, used) => Course::Done(f(value), used as nat),
    }
}

/// The replies, as texts.
pub open spec fn texts(replies: Seq<Result<String, String>>) -> Seq<Result<Seq<char>, Seq<char>>> {
    replies.map_values(|r: Result<String, String>| text::result(r))
}

/// An empty result or a message, as text.
pub open spec fn unit_result(r: Result<(), String>) -> Result<(), Seq<char>> {
    match r {
        Ok(_) => Ok(()),
        Err(message) => Err(message@),
    }
}

/// A pair of texts or a message, as texts.
pub open spec fn pair_result(r: Result<(String, String), String>) -> Result<
    (Seq<char>, Seq<char>),
    Seq<char>,
> {
    match r {
        Ok(pair) => Ok((pair.0@, pair.1@)),
        Err(message) => Err(message@),
    }
}

// ---------------------------------------------------------------------------
// Looking up the address
// ---------------------------------------------------------------------------

/// How an address is found in the output of a command.
#[derive(Debug, Clone, Copy, PartialEq, Eq, Structural)]
pub enum AddressSearch {
    /// In a one-line listing of all interfaces.
    WirelessInet,
    /// In the listing of one interface.
    Inet,
    /// In the routing table.
    WirelessRoute,
    /// In the value of a property.
    Property,
}

impl AddressSearch {
    /// The address in the output of a command.
    pub open spec fn found(self, output: Seq<char>) -> Option<Seq<char>> {
        match self {
            AddressSearch::WirelessInet => address::wireless_inet_address(output),
            AddressSearch::Inet => address::inet_address(output),
            AddressSearch::WirelessRoute => address::wireless_route_source(output),
            AddressSearch::Property => address::first_address(output),
        }
    }

    /// Finds the address in the output of a command.
    pub fn find(self, output: &str) -> (r: Option<String>)
        ensures
            text::optional(r) == self.found(output@),
    {
        match self {
            AddressSearch::WirelessInet => extract_preferred_wireless_inet_ip(output),
            AddressSearch::Inet => extract_inet_ip(output),
            AddressSearch::WirelessRoute => extract_wireless_route_src_ip(output),
            AddressSearch::Property => extract_first_ipv4(output),
        }
    }
}

/// The number of commands that may print the address.
pub const ADDRESS_COMMANDS: usize = 8;

/// The commands that may print the address, in the order in which they are tried, and how the
/// address is found in their outputs.
pub open spec fn address_command(i: int) -> (Seq<Seq<char>>, AddressSearch) {
    if i == 0 {
        (
            seq![
                "shell"@,
                "ip"@,
                "-f"@,
                "inet"@,
                "-o"@,
                "addr"@,
                "show"@,
                "up"@,
                "scope"@,
                "global"@,
            ],
            AddressSearch::WirelessInet,
        )
    } else if i == 1 {
        (
            seq!["shell"@, "ip"@, "-f"@, "inet"@, "addr"@, "show"@, "wlan0"@],
            AddressSearch::Inet,
        )
    } else if i == 2 {
        (
            seq!["shell"@, "ip"@, "-f"@, "inet"@, "addr"@, "show"@, "wlan1"@],
            AddressSearch::Inet,
        )
    } else if i == 3 {
        (
            seq!["shell"@, "ip"@, "-f"@, "inet"@, "addr"@, "show"@, "wifi0"@],
            AddressSearch::Inet,
        )
    } else if i == 4 {
        (seq!["shell"@, "ip"@, "route"@], AddressSearch::WirelessRoute)
    } else if i == 5 {
        (seq!["shell"@, "getprop"@, "dhcp.wlan0.ipaddress"@], AddressSearch::Property)
    } else if i == 6 {
        (seq!["shell"@, "getprop"@, "dhcp.wlan1.ipaddress"@], AddressSearch::Property)
    } else {
        (seq!["shell"@, "getprop"@, "dhcp.eth0.ipaddress"@], AddressSearch::Property)
    }
}

/// The arguments of the ADB tool for a command on a device.
pub open spec fn device_args(serial: Seq<char>, command: Seq<Seq<char>>) -> Seq<Seq<char>> {
    seq!["-s"@, serial] + command
}

/// The complaint about an output without an address.
pub open spec fn no_address_in_output(args: Seq<Seq<char>>) -> Seq<char> {
    "`adb "@ + text::join(args, " "@) + "` did not expose a usable IPv4 address"@
}

/// The message for a device without an address.
pub open spec fn no_address_text(serial: Seq<char>, failures: Seq<Seq<char>>) -> Seq<char> {
    "failed to determine WiFi IP for `"@ + serial
        + "` before enabling wireless ADB. Ensure the device is still visible in `adb devices`, WiFi is enabled, and the phone is on the same LAN as this computer. Attempts: "@
        + text::join(failures, " | "@)
}

/// Looks up the address of a device, from the given command on.
pub open spec fn look_up(
    serial: Seq<char>,
    i: nat,
    failures: Seq<Seq<char>>,
    outs: Seq<Result<Seq<char>, Seq<char>>>,
    at: nat,
) -> Course<Result<Seq<char>, Seq<char>>>
    decreases ADDRESS_COMMANDS - i,
{
    let args = device_args(serial, address_command(i as int).0);
    if i >= ADDRESS_COMMANDS {
        Course::Done(Err(no_address_text(serial, failures)), at)
    } else if at >= outs.len() {
        Course::Do(Act::Adb(args))
    } else {
        match outs[at as int] {
            Ok(output) => match address_command(i as int).1.found(output) {
                Some(found) => Course::Done(Ok(found), at + 1),
                None => look_up(
                    serial,
                    i + 1,
                    failures.push(no_address_in_output(args)),
                    outs,
                    at + 1,
                ),
            },
            Err(message) => look_up(serial, i + 1, failures.push(message), outs, at + 1),
        }
    }
}

// ---------------------------------------------------------------------------
// Connecting
// ---------------------------------------------------------------------------

/// How often the ADB server is told to connect.
pub const CONNECT_RETRIES: usize = 8;

/// How long to wait between these.
pub const CONNECT_RETRY_DELAY_MS: u64 = 900;

/// How often a connected device is asked whether it is ready.
pub const READY_RETRIES: usize = 12;

/// How long to wait between these.
pub const READY_RETRY_DELAY_MS: u64 = 350;

/// How long to wait for a device that has been told to listen on the network.
pub const LISTEN_DELAY_MS: u64 = 1_200;

/// Whether the ADB tool reports a connection.
pub open spec fn reports_connection(output: Seq<char>) -> bool {
    text::contains(text::lower(output), "connected to"@) || text::contains(
        text::lower(output),
        "already connected to"@,
    )
}

/// One question whether a connected device is ready.
pub open spec fn ready_attempt(
    serial: Seq<char>,
    outs: Seq<Result<Seq<char>, Seq<char>>>,
    at: nat,
) -> Course<Result<(), Seq<char>>> {
    if at >= outs.len() {
        Course::Do(Act::Adb(seq!["-s"@, serial, "get-state"@]))
    } else {
        match outs[at as int] {
            Err(message) => Course::Done(Err(message), at + 1),
            Ok(output) => {
                let state = text::trim(output);
                if state != "device"@ {
                    Course::Done(
                        Err(
                            "ADB reported `"@ + serial + "` as `"@ + state
                                + "` after connecting"@,
                        ),
                        at + 1,
                    )
                } else if at + 1 >= outs.len() {
                    Course::Do(Act::Open(serial))
                } else {
                    match outs[at as int + 1] {
                        Ok(_) => Course::Done(Ok(()), at + 2),
                        Err(message) => Course::Done(
                            Err(
                                "wireless ADB state is `device` but the Rust ADB client cannot open `"@
                                    + serial + "` yet: "@ + message,
                            ),
                            at + 2,
                        ),
                    }
                }
            },
        }
    }
}

/// Asks a connected device whether it is ready, from the given attempt on.
pub open spec fn ready(
    serial: Seq<char>,
    attempt: nat,
    last: Seq<char>,
    outs: Seq<Result<Seq<char>, Seq<char>>>,
    at: nat,
) -> Course<Result<(), Seq<char>>>
    decreases READY_RETRIES - attempt,
{
    if attempt >= READY_RETRIES {
        Course::Done(Err(last + "; the wireless transport did not become ready in time"@), at)
    } else {
        match ready_attempt(serial, outs, at) {
            Course::Do(act) => Course::Do(act),
            Course::Done(Ok(_), used) => Course::Done(Ok(()), used),
            Course::Done(Err(message), used) => if attempt + 1 >= READY_RETRIES {
                ready(serial, attempt + 1, message, outs, used)
            } else if used >= outs.len() {
                Course::Do(Act::Sleep(READY_RETRY_DELAY_MS as nat))
            } else {
                ready(serial, attempt + 1, message, outs, used + 1)
            },
        }
    }
}

/// One attempt to connect: an old connection is dropped, a new one made, and the device asked
/// whether it is ready.
pub open spec fn connect_attempt(
    serial: Seq<char>,
    outs: Seq<Result<Seq<char>, Seq<char>>>,
    at: nat,
) -> Course<Result<Seq<char>, Seq<char>>> {
    if at >= outs.len() {
        Course::Do(Act::Adb(seq!["disconnect"@, serial]))
    } else if at + 1 >= outs.len() {
        Course::Do(Act::Adb(seq!["connect"@, serial]))
    } else {
        match outs[at as int + 1] {
            Err(message) => Course::Done(Err(message), at + 2),
            Ok(output) => if reports_connection(output) {
                match ready(serial, 0, Seq::empty(), outs, at + 2) {
                    Course::Do(act) => Course::Do(act),
                    Course::Done(Ok(_), used) => Course::Done(Ok(output), used),
                    Course::Done(Err(message), used) => Course::Done(
                        Err(text::trim(output) + "; "@ + message),
                        used,
                    ),
                }
            } else {
                Course::Done(Err(output), at + 2)
            },
        }
    }
}

/// The message for a device that cannot be connected to.
pub open spec fn not_connected_text(serial: Seq<char>, last: Seq<char>) -> Seq<char> {
    "failed to connect to `"@ + serial + "` after 8 attempts: "@ + last
}

/// Connects to a device, from the given attempt on.
pub open spec fn connect(
    serial: Seq<char>,
    attempt: nat,
    last: Seq<char>,
    outs: Seq<Result<Seq<char>, Seq<char>>>,
    at: nat,
) -> Course<Result<Seq<char>, Seq<char>>>
    decreases CONNECT_RETRIES - attempt,
{
    if attempt >= CONNECT_RETRIES {
        Course::Done(Err(not_connected_text(serial, last)), at)
    } else {
        match connect_attempt(serial, outs, at) {
            Course::Do(act) => Course::Do(act),
            Course::Done(Ok(output), used) => Course::Done(Ok(output), used),
            Course::Done(Err(message), used) => if attempt + 1 >= CONNECT_RETRIES {
                connect(serial, attempt + 1, message, outs, used)
            } else if used >= outs.len() {
                Course::Do(Act::Sleep(CONNECT_RETRY_DELAY_MS as nat))
            } else {
                connect(serial, attempt + 1, message, outs, used + 1)
            },
        }
    }
}

/// What users are told of a device that was on the network already.
pub open spec fn reachable_text(serial: Seq<char>, output: Seq<char>) -> Seq<char> {
    text::trim(
        "Wireless device `"@ + serial + "` is reachable through ADB over WiFi. "@ + text::trim(
            output,
        ),
    )
}

/// What users are told of a device that has been put on the network.
pub open spec fn enabled_text(
    serial: Seq<char>,
    wifi_serial: Seq<char>,
    tcpip_output: Seq<char>,
    connect_output: Seq<char>,
) -> Seq<char> {
    text::trim(
        "Wireless ADB enabled for `"@ + serial + "` at `"@ + wifi_serial + "`. "@ + text::trim(
            tcpip_output,
        ) + " "@ + text::trim(connect_output),
    )
}

/// Reaches a device over the network. The result holds its serial number there and what users
/// are told.
pub open spec fn reach(serial: Seq<char>, outs: Seq<Result<Seq<char>, Seq<char>>>) -> Course<
    Result<(Seq<char>, Seq<char>), Seq<char>>,
> {
    if text::contains(serial, ":"@) {
        match connect(serial, 0, Seq::empty(), outs, 0) {
            Course::Do(act) => Course::Do(act),
            Course::Done(Err(message), used) => Course::Done(Err(message), used),
            Course::Done(Ok(output), used) => Course::Done(
                Ok((serial, reachable_text(serial, output))),
                used,
            ),
        }
    } else {
        match look_up(serial, 0, Seq::empty(), outs, 0) {
            Course::Do(act) => Course::Do(act),
            Course::Done(Err(message), used) => Course::Done(Err(message), used),
            Course::Done(Ok(ip), used) => if used >= outs.len() {
                Course::Do(Act::Adb(seq!["-s"@, serial, "tcpip"@, "5555"@]))
            } else {
                match outs[used as int] {
                    Err(message) => Course::Done(Err(message), used + 1),
                    Ok(tcpip_output) => if used + 1 >= outs.len() {
                        Course::Do(Act::Sleep(LISTEN_DELAY_MS as nat))
                    } else {
                        let wifi_serial = ip + ":5555"@;
                        match connect(wifi_serial, 0, Seq::empty(), outs, used + 2) {
                            Course::Do(act) => Course::Do(act),
                            Course::Done(Err(message), used) => Course::Done(Err(message), used),
                            Course::Done(Ok(output), used) => Course::Done(
                                Ok(
                                    (
                                        wifi_serial,
                                        enabled_text(serial, wifi_serial, tcpip_output, output),
                                    ),
                                ),
                                used,
                            ),
                        }
                    },
                }
            },
        }
    }
}

// ---------------------------------------------------------------------------
// Laws
// ---------------------------------------------------------------------------

proof fn lemma_look_up_ends(
    serial: Seq<char>,
    i: nat,
    failures: Seq<Seq<char>>,
    outs: Seq<Result<Seq<char>, Seq<char>>>,
    at: nat,
)
    requires
        i <= ADDRESS_COMMANDS,
        at <= outs.len(),
    ensures
        match look_up(serial, i, failures, outs, at) {
            Course::Done(_, used) => at <= used <= at + (ADDRESS_COMMANDS - i) && used
                <= outs.len(),
            Course::Do(_) => outs.len() < at + (ADDRESS_COMMANDS - i),
        },
    decreases ADDRESS_COMMANDS - i,
{
    if i < ADDRESS_COMMANDS && at < outs.len() {
        let args = device_args(serial, address_command(i as int).0);
        match outs[at as int] {
            Ok(output) => {
                lemma_look_up_ends(
                    serial,
                    i + 1,
                    failures.push(no_address_in_output(args)),
                    outs,
                    at + 1,
                );
            },
            Err(message) => {
                lemma_look_up_ends(serial, i + 1, failures.push(message), outs, at + 1);
            },
        }
    }
}

proof fn lemma_ready_ends(
    serial: Seq<char>,
    attempt: nat,
    last: Seq<char>,
    outs: Seq<Result<Seq<char>, Seq<char>>>,
    at: nat,
)
    requires
        attempt <= READY_RETRIES,
        at <= outs.len(),
    ensures
        match ready(serial, attempt, last, outs, at) {
            Course::Done(_, used) => at <= used <= at + 3 * (READY_RETRIES - attempt) && used
                <= outs.len(),
            Course::Do(_) => outs.len() < at + 3 * (READY_RETRIES - attempt),
        },
        ready(serial, attempt, last, outs, at) matches Course::Done(Ok(_), used) ==> {
            &&& used >= at + 2
            &&& outs[used - 2] matches Ok(state) && text::trim(state) == "device"@
            &&& outs[used - 1] is Ok
        },
    decreases READY_RETRIES - attempt,
{
    if attempt < READY_RETRIES {
        match ready_attempt(serial, outs, at) {
            Course::Done(Err(message), used) => {
                if attempt + 1 >= READY_RETRIES {
                    lemma_ready_ends(serial, attempt + 1, message, outs, used);
                } else if used < outs.len() {
                    lemma_ready_ends(serial, attempt + 1, message, outs, used + 1);
                }
            },
            _ => {},
        }
    }
}

proof fn lemma_connect_ends(
    serial: Seq<char>,
    attempt: nat,
    last: Seq<char>,
    outs: Seq<Result<Seq<char>, Seq<char>>>,
    at: nat,
)
    requires
        attempt <= CONNECT_RETRIES,
        at <= outs.len(),
    ensures
        match connect(serial, attempt, last, outs, at) {
            Course::Done(_, used) => at <= used <= at + 39 * (CONNECT_RETRIES - attempt) && used
                <= outs.len(),
            Course::Do(_) => outs.len() < at + 39 * (CONNECT_RETRIES - attempt),
        },
        connect(serial, attempt, last, outs, at) matches Course::Done(Ok(_), used) ==> {
            &&& used >= at + 4
            &&& outs[used - 2] matches Ok(state) && text::trim(state) == "device"@
            &&& outs[used - 1] is Ok
        },
    decreases CONNECT_RETRIES - attempt,
{
    if attempt < CONNECT_RETRIES {
        if at + 1 < outs.len() {
            lemma_ready_ends(serial, 0, Seq::empty(), outs, at + 2);
        }
        match connect_attempt(serial, outs, at) {
            Course::Done(Err(message), used) => {
                if attempt + 1 >= CONNECT_RETRIES {
                    lemma_connect_ends(serial, attempt + 1, message, outs, used);
                } else if used < outs.len() {
                    lemma_connect_ends(serial, attempt + 1, message, outs, used + 1);
                }
            },
            _ => {},
        }
    }
}

/// Reaching a device ends: after at most 322 replies it has succeeded or failed.
pub proof fn law_reaching_ends(serial: Seq<char>, outs: Seq<Result<Seq<char>, Seq<char>>>)
    requires
        outs.len() >= 322,
    ensures
        reach(serial, outs) is Done,
{
    lemma_connect_ends(serial, 0, Seq::empty(), outs, 0);
    lemma_look_up_ends(serial, 0, Seq::empty(), outs, 0);
    if let Course::Done(Ok(ip), used) = look_up(serial, 0, Seq::empty(), outs, 0) {
        if used + 1 < outs.len() {
            lemma_connect_ends(ip + ":5555"@, 0, Seq::empty(), outs, used + 2);
        }
    }
}

/// A device that has been reached is ready: the ADB server reported its state as `device`, and
/// then it could be opened.
pub proof fn law_reached_devices_are_ready(
    serial: Seq<char>,
    outs: Seq<Result<Seq<char>, Seq<char>>>,
)
    ensures
        reach(serial, outs) matches Course::Done(Ok(_), used) ==> {
            &&& 2 <= used <= outs.len()
            &&& outs[used - 2] matches Ok(state) && text::trim(state) == "device"@
            &&& outs[used - 1] is Ok
        },
{
    lemma_connect_ends(serial, 0, Seq::empty(), outs, 0);
    lemma_look_up_ends(serial, 0, Seq::empty(), outs, 0);
    if let Course::Done(Ok(ip), used) = look_up(serial, 0, Seq::empty(), outs, 0) {
        if used + 1 < outs.len() {
            lemma_connect_ends(ip + ":5555"@, 0, Seq::empty(), outs, used + 2);
        }
    }
}

/// The address of a device is what the first command whose output shows one gives; the outputs of
/// the commands before it show none.
pub proof fn law_first_address_is_taken(
    serial: Seq<char>,
    i: nat,
    failures: Seq<Seq<char>>,
    outs: Seq<Result<Seq<char>, Seq<char>>>,
    at: nat,
)
    requires
        i <= ADDRESS_COMMANDS,
        at <= outs.len(),
    ensures
        look_up(serial, i, failures, outs, at) matches Course::Done(Ok(found), used) ==> {
            &&& at < used <= outs.len()
            &&& used - at <= ADDRESS_COMMANDS - i
            &&& outs[used - 1] matches Ok(output) && address_command(
                i + used - 1 - at,
            ).1.found(output) == Some(found)
            &&& forall|k: int|
                at <= k < used - 1 ==> (#[trigger] outs[k] matches Ok(output) ==> address_command(
                    i + k - at,
                ).1.found(output) is None)
        },
        look_up(serial, i, failures, outs, at) matches Course::Do(act) ==> act == Act::Adb(
            seq!["-s"@, serial] + address_command(i + outs.len() - at).0,
        ),
    decreases ADDRESS_COMMANDS - i,
{
    if i < ADDRESS_COMMANDS && at < outs.len() {
        let args = device_args(serial, address_command(i as int).0);
        match outs[at as int] {
            Ok(output) => {
                if address_command(i as int).1.found(output) is None {
                    law_first_address_is_taken(
                        serial,
                        i + 1,
                        failures.push(no_address_in_output(args)),
                        outs,
                        at + 1,
                    );
                }
            },
            Err(message) => {
                law_first_address_is_taken(serial, i + 1, failures.push(message), outs, at + 1);
            },
        }
    }
}

/// A connection is reported by the words `connected to`, whatever the case of their letters, and
/// by nothing else.
pub proof fn law_reported_connections(before: Seq<char>, behind: Seq<char>, output: Seq<char>)
    ensures
        reports_connection(before + "connected to"@ + behind),
        reports_connection(before + "Connected to"@ + behind),
        reports_connection(output) ==> text::contains(text::lower(output), "connected to"@),
{
    reveal_strlit("connected to");
    reveal_strlit("Connected to");
    reveal_strlit("already connected to");
    lemma_lowered_holds(before, "connected to"@, behind);
    lemma_lowered_holds(before, "Connected to"@, behind);
    assert(text::lower("connected to"@) =~= "connected to"@);
    assert(text::lower("Connected to"@) =~= "connected to"@);
    let small = text::lower(output);
    if text::contains(small, "already connected to"@) {
        let i = choose|i: int| text::occurs_at(small, "already connected to"@, i);
        let long = small.subrange(i, i + 20);
        assert(long == "already connected to"@);
        assert(small.subrange(i + 8, i + 20) =~= long.subrange(8, 20));
        assert(long.subrange(8, 20) =~= "connected to"@);
        assert(text::occurs_at(small, "connected to"@, i + 8));
    }
}

proof fn lemma_lowered_holds(before: Seq<char>, s: Seq<char>, behind: Seq<char>)
    ensures
        text::contains(text::lower(before + s + behind), text::lower(s)),
{
    let whole = text::lower(before + s + behind);
    let at = before.len() as int;
    assert(whole.subrange(at, at + text::lower(s).len()) =~= text::lower(s));
    assert(text::occurs_at(whole, text::lower(s), at));
}

/// A device on a cable is reached step by step: its address is looked up, it is told to listen on
/// the network and given time to do so, an old connection is dropped and a new one made, and the
/// device is asked whether it is ready and opened. All of that goes to the address that was found,
/// and what is reached is the device at that address.
pub proof fn law_reaching_step_by_step(
    serial: Seq<char>,
    listing: Seq<char>,
    ip: Seq<char>,
    told: Seq<char>,
    slept: Result<Seq<char>, Seq<char>>,
    dropped: Result<Seq<char>, Seq<char>>,
    made: Seq<char>,
    state: Seq<char>,
    opened: Seq<char>,
)
    requires
        !text::contains(serial, ":"@),
        address::wireless_inet_address(listing) == Some(ip),
        reports_connection(made),
        text::trim(state) == "device"@,
    ensures
        ({
            let there = ip + ":5555"@;
            let outs = seq![Ok(listing), Ok(told), slept, dropped, Ok(made), Ok(state), Ok(opened)];
            &&& reach(serial, outs.take(0)) == Course::<
                Result<(Seq<char>, Seq<char>), Seq<char>>,
            >::Do(Act::Adb(seq!["-s"@, serial] + address_command(0).0))
            &&& reach(serial, outs.take(1)) == Course::<
                Result<(Seq<char>, Seq<char>), Seq<char>>,
            >::Do(Act::Adb(seq!["-s"@, serial, "tcpip"@, "5555"@]))
            &&& reach(serial, outs.take(2)) matches Course::Do(Act::Sleep(_))
            &&& reach(serial, outs.take(3)) == Course::<
                Result<(Seq<char>, Seq<char>), Seq<char>>,
            >::Do(Act::Adb(seq!["disconnect"@, there]))
            &&& reach(serial, outs.take(4)) == Course::<
                Result<(Seq<char>, Seq<char>), Seq<char>>,
            >::Do(Act::Adb(seq!["connect"@, there]))
            &&& reach(serial, outs.take(5)) == Course::<
                Result<(Seq<char>, Seq<char>), Seq<char>>,
            >::Do(Act::Adb(seq!["-s"@, there, "get-state"@]))
            &&& reach(serial, outs.take(6)) == Course::<
                Result<(Seq<char>, Seq<char>), Seq<char>>,
            >::Do(Act::Open(there))
            &&& reach(serial, outs) matches Course::Done(Ok(reached), used) && reached.0 == there
                && used == 7
        }),
{
    let there = ip + ":5555"@;
    let outs = seq![Ok(listing), Ok(told), slept, dropped, Ok(made), Ok(state), Ok(opened)];
    let none = Seq::<char>::empty();
    let failures = Seq::<Seq<char>>::empty();
    assert(address_command(0).1 is WirelessInet);
    assert(look_up(serial, 0, failures, outs.take(0), 0) == Course::<
        Result<Seq<char>, Seq<char>>,
    >::Do(Act::Adb(device_args(serial, address_command(0).0))));
    lemma_address_found(serial, listing, ip, outs.take(1));
    lemma_address_found(serial, listing, ip, outs.take(2));
    lemma_address_found(serial, listing, ip, outs.take(3));
    lemma_address_found(serial, listing, ip, outs.take(4));
    lemma_address_found(serial, listing, ip, outs.take(5));
    lemma_address_found(serial, listing, ip, outs.take(6));
    lemma_address_found(serial, listing, ip, outs);
    lemma_connecting(there, outs.take(3), outs, 3);
    lemma_connecting(there, outs.take(4), outs, 4);
    lemma_connecting(there, outs.take(5), outs, 5);
    lemma_connecting(there, outs.take(6), outs, 6);
    lemma_connecting(there, outs, outs, 7);
}

proof fn lemma_address_found(
    serial: Seq<char>,
    listing: Seq<char>,
    ip: Seq<char>,
    outs: Seq<Result<Seq<char>, Seq<char>>>,
)
    requires
        outs.len() > 0,
        outs[0] == Ok::<Seq<char>, Seq<char>>(listing),
        address::wireless_inet_address(listing) == Some(ip),
    ensures
        look_up(serial, 0, Seq::empty(), outs, 0) == Course::Done(
            Ok::<Seq<char>, Seq<char>>(ip),
            1,
        ),
{
    assert(address_command(0).1 is WirelessInet);
}

proof fn lemma_connecting(
    there: Seq<char>,
    part: Seq<Result<Seq<char>, Seq<char>>>,
    outs: Seq<Result<Seq<char>, Seq<char>>>,
    n: int,
)
    requires
        3 <= n <= 7,
        outs.len() == 7,
        part.len() == n,
        forall|i: int| 0 <= i < n ==> part[i] == outs[i],
        outs[4] matches Ok(made) && reports_connection(made),
        outs[5] matches Ok(state) && text::trim(state) == "device"@,
        outs[6] is Ok,
    ensures
        ({
            let r = connect(there, 0, Seq::empty(), part, 3);
            &&& n == 3 ==> r == Course::<Result<Seq<char>, Seq<char>>>::Do(
                Act::Adb(seq!["disconnect"@, there]),
            )
            &&& n == 4 ==> r == Course::<Result<Seq<char>, Seq<char>>>::Do(
                Act::Adb(seq!["connect"@, there]),
            )
            &&& n == 5 ==> r == Course::<Result<Seq<char>, Seq<char>>>::Do(
                Act::Adb(seq!["-s"@, there, "get-state"@]),
            )
            &&& n == 6 ==> r == Course::<Result<Seq<char>, Seq<char>>>::Do(Act::Open(there))
            &&& n == 7 ==> r == Course::Done(outs[4], 7)
        }),
{
    if n >= 5 {
        let state = ready_attempt(there, part, 5);
        assert(ready(there, 0, Seq::empty(), part, 5) == state);
    }
}

/// A device that is on the network already is connected to as it is: what is reached is that same
/// device.
pub proof fn law_reaching_again(serial: Seq<char>, outs: Seq<Result<Seq<char>, Seq<char>>>)
    requires
        text::contains(serial, ":"@),
    ensures
        reach(serial, outs) matches Course::Done(Ok(reached), _) ==> reached.0 == serial,
        reach(serial, Seq::empty()) == Course::<Result<(Seq<char>, Seq<char>), Seq<char>>>::Do(
            Act::Adb(seq!["disconnect"@, serial]),
        ),
{
}

// ---------------------------------------------------------------------------
// Carrying it out
// ---------------------------------------------------------------------------

/// Tests whether the ADB tool reports a connection.
pub fn is_adb_connect_success(output: &str) -> (r: bool)
    ensures
        r == reports_connection(output@),
{
    let chars = chars_of(output);
    let normalized = lowered(chars.as_slice());
    has_text(normalized.as_slice(), "connected to") || has_text(
        normalized.as_slice(),
        "already connected to",
    )
}

fn trimmed_string(s: &str) -> (r: String)
    ensures
        r@ == text::trim(s@),
{
    let chars = chars_of(s);
    string_of(trimmed(chars.as_slice()))
}

fn strings(items: &[&str]) -> (r: Vec<String>)
    ensures
        text::views(r@) == text::views(items@),
{
    let mut out: Vec<String> = Vec::new();
    let mut i: usize = 0;
    while i < items.len()
        invariant
            i <= items@.len(),
            out@.len() == i,
            forall|j: int| 0 <= j < i ==> (#[trigger] out@[j])@ == items@[j]@,
        decreases items@.len() - i,
    {
        out.push(String::from_str(items[i]));
        i = i + 1;
    }
    assert(text::views(out@) =~= text::views(items@));
    out
}

fn address_args(serial: &str, i: usize) -> (r: (Vec<String>, AddressSearch))
    ensures
        text::views(r.0@) == device_args(serial@, address_command(i as int).0),
        r.1 == address_command(i as int).1,
{
    let mut items: Vec<&str> = vec!["-s", serial];
    let search: AddressSearch;
    if i == 0 {
        items.push("shell");
        items.push("ip");
        items.push("-f");
        items.push("inet");
        items.push("-o");
        items.push("addr");
        items.push("show");
        items.push("up");
        items.push("scope");
        items.push("global");
        search = AddressSearch::WirelessInet;
    } else if i == 1 || i == 2 || i == 3 {
        items.push("shell");
        items.push("ip");
        items.push("-f");
        items.push("inet");
        items.push("addr");
        items.push("show");
        if i == 1 {
            items.push("wlan0");
        } else if i == 2 {
            items.push("wlan1");
        } else {
            items.push("wifi0");
        }
        search = AddressSearch::Inet;
    } else if i == 4 {
        items.push("shell");
        items.push("ip");
        items.push("route");
        search = AddressSearch::WirelessRoute;
    } else {
        items.push("shell");
        items.push("getprop");
        if i == 5 {
            items.push("dhcp.wlan0.ipaddress");
        } else if i == 6 {
            items.push("dhcp.wlan1.ipaddress");
        } else {
            items.push("dhcp.eth0.ipaddress");
        }
        search = AddressSearch::Property;
    }
    assert(text::views(items@) =~= device_args(serial@, address_command(i as int).0));
    (strings(items.as_slice()), search)
}

/// Looks up the address of a device.
pub fn query_wireless_ip(serial: &str, replies: &[Result<String, String>]) -> (r: Step<
    Result<String, String>,
>)
    ensures
        course(r, |v: Result<String, String>| text::result(v)) == look_up(
            serial@,
            0,
            Seq::empty(),
            texts(replies@),
            0,
        ),
        r matches Step::Done(_, used) ==> used <= replies@.len(),
{
    broadcast use text::lemma_views_push;

    let ghost outs = texts(replies@);
    let mut failures: Vec<String> = Vec::new();
    let mut i: usize = 0;
    assert(text::views(failures@) =~= Seq::empty());
    while i < ADDRESS_COMMANDS
        invariant
            i <= ADDRESS_COMMANDS,
            i <= replies@.len(),
            outs == texts(replies@),
            look_up(serial@, 0, Seq::empty(), outs, 0) == look_up(
                serial@,
                i as nat,
                text::views(failures@),
                outs,
                i as nat,
            ),
        decreases ADDRESS_COMMANDS - i,
    {
        let (args, search) = address_args(serial, i);
        if i >= replies.len() {
            return Step::Do(Action::Adb(args));
        }
        assert(outs[i as int] == text::result(replies@[i as int]));
        let ghost before = failures@;
        match &replies[i] {
            Ok(output) => match search.find(output.as_str()) {
                Some(found) => {
                    return Step::Done(Ok(found), i + 1);
                },
                None => {
                    let mut message = String::from_str("`adb ");
                    let command = joined(&args, " ");
                    message.append(command.as_str());
                    message.append("` did not expose a usable IPv4 address");
                    failures.push(message);
                    assert(text::views(failures@) == text::views(before).push(message@));
                },
            },
            Err(message) => {
                let message = message.clone();
                failures.push(message);
                assert(text::views(failures@) == text::views(before).push(message@));
            },
        }
        i = i + 1;
    }
    let mut message = String::from_str("failed to determine WiFi IP for `");
    message.append(serial);
    message.append(
        "` before enabling wireless ADB. Ensure the device is still visible in `adb devices`, WiFi is enabled, and the phone is on the same LAN as this computer. Attempts: ",
    );
    let list = joined(&failures, " | ");
    message.append(list.as_str());
    Step::Done(Err(message), i)
}

/// Asks once whether a connected device is ready.
fn probe_once(serial: &str, replies: &[Result<String, String>], at: usize) -> (r: Step<
    Result<(), String>,
>)
    requires
        at <= replies@.len(),
    ensures
        course(r, |v: Result<(), String>| unit_result(v)) == ready_attempt(
            serial@,
            texts(replies@),
            at as nat,
        ),
        r matches Step::Done(_, used) ==> at <= used <= replies@.len(),
{
    let total: usize = replies.len();
    let ghost outs = texts(replies@);
    if at >= total {
        let args: Vec<&str> = vec!["-s", serial, "get-state"];
        assert(text::views(args@) =~= seq!["-s"@, serial@, "get-state"@]);
        return Step::Do(Action::Adb(strings(args.as_slice())));
    }
    assert(outs[at as int] == text::result(replies@[at as int]));
    match &replies[at] {
        Err(message) => Step::Done(Err(message.clone()), at + 1),
        Ok(output) => {
            let chars = chars_of(output.as_str());
            let state = trimmed(chars.as_slice());
            if !reads(state, "device") {
                let mut message = String::from_str("ADB reported `");
                message.append(serial);
                message.append("` as `");
                let state_text = string_of(state);
                message.append(state_text.as_str());
                message.append("` after connecting");
                return Step::Done(Err(message), at + 1);
            }
            if at + 1 >= total {
                return Step::Do(Action::Open(String::from_str(serial)));
            }
            assert(outs[at + 1] == text::result(replies@[at + 1]));
            match &replies[at + 1] {
                Ok(_) => Step::Done(Ok(()), at + 2),
                Err(reason) => {
                    let mut message = String::from_str(
                        "wireless ADB state is `device` but the Rust ADB client cannot open `",
                    );
                    message.append(serial);
                    message.append("` yet: ");
                    message.append(reason.as_str());
                    Step::Done(Err(message), at + 2)
                },
            }
        },
    }
}

/// Asks a connected device whether it is ready.
pub fn probe_wireless_transport_ready(
    serial: &str,
    replies: &[Result<String, String>],
    at: usize,
) -> (r: Step<Result<(), String>>)
    requires
        at <= replies@.len(),
    ensures
        course(r, |v: Result<(), String>| unit_result(v)) == ready(
            serial@,
            0,
            Seq::empty(),
            texts(replies@),
            at as nat,
        ),
        r matches Step::Done(_, used) ==> at <= used <= replies@.len(),
{
    let ghost outs = texts(replies@);
    let mut last = String::new();
    let mut attempt: usize = 0;
    let mut used: usize = at;
    assert(last@ =~= Seq::empty());
    while attempt < READY_RETRIES
        invariant
            attempt <= READY_RETRIES,
            at <= used <= replies@.len(),
            outs == texts(replies@),
            ready(serial@, 0, Seq::empty(), outs, at as nat) == ready(
                serial@,
                attempt as nat,
                last@,
                outs,
                used as nat,
            ),
        decreases READY_RETRIES - attempt,
    {
        match probe_once(serial, replies, used) {
            Step::Do(action) => {
                return Step::Do(action);
            },
            Step::Done(Ok(_), now_used) => {
                return Step::Done(Ok(()), now_used);
            },
            Step::Done(Err(message), now_used) => {
                last = message;
                used = now_used;
            },
        }
        if attempt + 1 < READY_RETRIES {
            if used >= replies.len() {
                return Step::Do(Action::Sleep(READY_RETRY_DELAY_MS));
            }
            used = used + 1;
        }
        attempt = attempt + 1;
    }
    last.append("; the wireless transport did not become ready in time");
    Step::Done(Err(last), used)
}

/// Tries once to connect.
fn connect_once(serial: &str, replies: &[Result<String, String>], at: usize) -> (r: Step<
    Result<String, String>,
>)
    requires
        at <= replies@.len(),
    ensures
        course(r, |v: Result<String, String>| text::result(v)) == connect_attempt(
            serial@,
            texts(replies@),
            at as nat,
        ),
        r matches Step::Done(_, used) ==> at <= used <= replies@.len(),
{
    let total: usize = replies.len();
    let ghost outs = texts(replies@);
    if at >= total {
        let args: Vec<&str> = vec!["disconnect", serial];
        assert(text::views(args@) =~= seq!["disconnect"@, serial@]);
        return Step::Do(Action::Adb(strings(args.as_slice())));
    }
    if at + 1 >= total {
        let args: Vec<&str> = vec!["connect", serial];
        assert(text::views(args@) =~= seq!["connect"@, serial@]);
        return Step::Do(Action::Adb(strings(args.as_slice())));
    }
    assert(outs[at + 1] == text::result(replies@[at + 1]));
    match &replies[at + 1] {
        Err(message) => Step::Done(Err(message.clone()), at + 2),
        Ok(output) => {
            if !is_adb_connect_success(output.as_str()) {
                return Step::Done(Err(output.clone()), at + 2);
            }
            match probe_wireless_transport_ready(serial, replies, at + 2) {
                Step::Do(action) => Step::Do(action),
                Step::Done(Ok(_), used) => Step::Done(Ok(output.clone()), used),
                Step::Done(Err(reason), used) => {
                    let mut message = trimmed_string(output.as_str());
                    message.append("; ");
                    message.append(reason.as_str());
                    Step::Done(Err(message), used)
                },
            }
        },
    }
}

/// Connects to a device.
pub fn connect_wireless_with_retry(
    wifi_serial: &str,
    replies: &[Result<String, String>],
    at: usize,
) -> (r: Step<Result<String, String>>)
    requires
        at <= replies@.len(),
    ensures
        course(r, |v: Result<String, String>| text::result(v)) == connect(
            wifi_serial@,
            0,
            Seq::empty(),
            texts(replies@),
            at as nat,
        ),
        r matches Step::Done(_, used) ==> at <= used <= replies@.len(),
{
    let ghost outs = texts(replies@);
    let mut last = String::new();
    let mut attempt: usize = 0;
    let mut used: usize = at;
    assert(last@ =~= Seq::empty());
    while attempt < CONNECT_RETRIES
        invariant
            attempt <= CONNECT_RETRIES,
            at <= used <= replies@.len(),
            outs == texts(replies@),
            connect(wifi_serial@, 0, Seq::empty(), outs, at as nat) == connect(
                wifi_serial@,
                attempt as nat,
                last@,
                outs,
                used as nat,
            ),
        decreases CONNECT_RETRIES - attempt,
    {
        match connect_once(wifi_serial, replies, used) {
            Step::Do(action) => {
                return Step::Do(action);
            },
            Step::Done(Ok(output), now_used) => {
                return Step::Done(Ok(output), now_used);
            },
            Step::Done(Err(message), now_used) => {
                last = message;
                used = now_used;
            },
        }
        if attempt + 1 < CONNECT_RETRIES {
            if used >= replies.len() {
                return Step::Do(Action::Sleep(CONNECT_RETRY_DELAY_MS));
            }
            used = used + 1;
        }
        attempt = attempt + 1;
    }
    let mut message = String::from_str("failed to connect to `");
    message.append(wifi_serial);
    message.append("` after 8 attempts: ");
    message.append(last.as_str());
    Step::Done(Err(message), used)
}

/// Reaches a device over the network.
pub fn connect_wireless(serial: &str, replies: &[Result<String, String>]) -> (r: Step<
    Result<(String, String), String>,
>)
    ensures
        course(r, |v: Result<(String, String), String>| pair_result(v)) == reach(
            serial@,
            texts(replies@),
        ),
        r matches Step::Done(_, used) ==> used <= replies@.len(),
{
    let total: usize = replies.len();
    let ghost outs = texts(replies@);
    let chars = chars_of(serial);
    if has_text(chars.as_slice(), ":") {
        return match connect_wireless_with_retry(serial, replies, 0) {
            Step::Do(action) => Step::Do(action),
            Step::Done(Err(message), used) => Step::Done(Err(message), used),
            Step::Done(Ok(output), used) => {
                let mut message = String::from_str("Wireless device `");
                message.append(serial);
                message.append("` is reachable through ADB over WiFi. ");
                let output = trimmed_string(output.as_str());
                message.append(output.as_str());
                Step::Done(Ok((String::from_str(serial), trimmed_string(message.as_str()))), used)
            },
        };
    }
    match query_wireless_ip(serial, replies) {
        Step::Do(action) => Step::Do(action),
        Step::Done(Err(message), used) => Step::Done(Err(message), used),
        Step::Done(Ok(ip), used) => {
            if used >= total {
                let args: Vec<&str> = vec!["-s", serial, "tcpip", "5555"];
                assert(text::views(args@) =~= seq!["-s"@, serial@, "tcpip"@, "5555"@]);
                return Step::Do(Action::Adb(strings(args.as_slice())));
            }
            assert(outs[used as int] == text::result(replies@[used as int]));
            match &replies[used] {
                Err(message) => Step::Done(Err(message.clone()), used + 1),
                Ok(tcpip_output) => {
                    if used + 1 >= total {
                        return Step::Do(Action::Sleep(LISTEN_DELAY_MS));
                    }
                    let mut wifi_serial = ip;
                    wifi_serial.append(":5555");
                    match connect_wireless_with_retry(wifi_serial.as_str(), replies, used + 2) {
                        Step::Do(action) => Step::Do(action),
                        Step::Done(Err(message), used) => Step::Done(Err(message), used),
                        Step::Done(Ok(output), used) => {
                            let mut message = String::from_str("Wireless ADB enabled for `");
                            message.append(serial);
                            message.append("` at `");
                            message.append(wifi_serial.as_str());
                            message.append("`. ");
                            let tcpip_output = trimmed_string(tcpip_output.as_str());
                            message.append(tcpip_output.as_str());
                            message.append(" ");
                            let output = trimmed_string(output.as_str());
                            message.append(output.as_str());
                            let message = trimmed_string(message.as_str());
                            Step::Done(Ok((wifi_serial, message)), used)
                        },
                    }
                },
            }
        },
    }
}

} // verus!
