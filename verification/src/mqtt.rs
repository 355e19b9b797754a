//! The decisions of the MQTT task: the broker port, the Home Assistant
//! discovery message, and the session loop that connects, announces the
//! sensor, publishes the averaged temperature and backs off after failures.

use vstd::prelude::*;

verus! {

/// Port used when the configured one does not parse.
pub const DEFAULT_BROKER_PORT: u16 = 1883;

/// First pause, in seconds, after a failed connection attempt.
pub const RECONNECT_BASE_SECS: u64 = 5;

/// Longest pause, in seconds, between connection attempts.
pub const RECONNECT_MAX_SECS: u64 = 60;

/// Pause, in seconds, between two telemetry publications.
pub const TELEMETRY_INTERVAL_SECS: u64 = 30;

/// The shared temperature holds this value until a first average exists.
pub const NO_READING: i32 = i32::MIN;

/// Topic of the retained discovery message.
pub const DISCOVERY_TOPIC: &'static str = "homeassistant/sensor/esp32c3_ground_temp_001/config";

/// The discovery message up to the state topic.
pub const DISCOVERY_HEAD: &'static str = "{\"name\":\"ESP32C3 Ground Temperature\",\"state_topic\":\"";

/// The discovery message after the state topic.
pub const DISCOVERY_TAIL: &'static str = "\",\"unit_of_measurement\":\"°C\",\"value_template\":\"{{ value_json.temperature }}\",\"unique_id\":\"esp32c3_ground_temp_001\",\"device\":{\"identifiers\":[\"esp32c3_001\"],\"name\":\"ESP32C3\",\"manufacturer\":\"You\",\"model\":\"esp32c3-mini\"}}";

/// The Home Assistant discovery document for a sensor whose state is
/// published on `topic`.
pub open spec fn discovery_text(topic: Seq<char>) -> Seq<char> {
    DISCOVERY_HEAD@ + topic + DISCOVERY_TAIL@
}

/// Builds the discovery document announcing the sensor on `state_topic`.
pub fn discovery_payload(state_topic: &str) -> (doc: String)
    ensures
        doc@ == discovery_text(state_topic@),
{
    let mut doc = String::from_str(DISCOVERY_HEAD);
    doc.append(state_topic);
    doc.append(DISCOVERY_TAIL);
    doc
}

pub open spec fn is_decimal_digit(c: char) -> bool {
    '0' <= c <= '9'
}

/// The number written by the decimal digits `s`.
pub open spec fn decimal_value(s: Seq<char>) -> int
    decreases s.len(),
{
    if s.len() == 0 {
        0
    } else {
        decimal_value(s.drop_last()) * 10 + (s.last() as int - '0' as int)
    }
}

/// The digits of an unsigned number: the text without one leading `+`.
pub open spec fn unsigned_digits(s: Seq<char>) -> Seq<char> {
    if s.len() > 0 && s[0] == '+' {
        s.drop_first()
    } else {
        s
    }
}

/// What parsing `s` as a `u16` gives: the value when, after an optional `+`,
/// at least one character follows, all of them decimal digits, and the
/// number fits; nothing otherwise.
pub open spec fn parse_u16_spec(s: Seq<char>) -> Option<u16> {
    let d = unsigned_digits(s);
    if d.len() > 0 && (forall|i: int| 0 <= i < d.len() ==> is_decimal_digit(#[trigger] d[i]))
        && decimal_value(d) <= u16::MAX {
        Some(decimal_value(d) as u16)
    } else {
        None
    }
}

proof fn lemma_decimal_value_nonneg(s: Seq<char>)
    requires
        forall|i: int| 0 <= i < s.len() ==> is_decimal_digit(#[trigger] s[i]),
    ensures
        decimal_value(s) >= 0,
    decreases s.len(),
{
    if s.len() > 0 {
        let t = s.drop_last();
        assert forall|i: int| 0 <= i < t.len() implies is_decimal_digit(#[trigger] t[i]) by {
            assert(t[i] == s[i]);
        }
        lemma_decimal_value_nonneg(t);
    }
}

/// Parses a decimal `u16` as `str::parse::<u16>` does: an optional `+`, then
/// one or more ASCII digits whose value fits in 16 bits.
#[verifier::rlimit(30)]
pub fn parse_u16(text: &str) -> (r: Option<u16>)
    ensures
        r == parse_u16_spec(text@),
{
    let n = text.unicode_len();
    let mut start: usize = 0;
    if n > 0 && text.get_char(0) == '+' {
        start = 1;
    }
    let ghost d = unsigned_digits(text@);
    proof {
        assert(d =~= text@.subrange(start as int, n as int));
    }
    if start == n {
        return None;
    }
    let mut value: u32 = 0;
    let mut i: usize = start;
    while i < n
        invariant
            start <= i <= n,
            n == text@.len(),
            d =~= text@.subrange(start as int, n as int),
            d == unsigned_digits(text@),
            forall|j: int| 0 <= j < i - start ==> is_decimal_digit(#[trigger] d[j]),
            value as int == if decimal_value(d.subrange(0, i - start)) <= 65536 {
                decimal_value(d.subrange(0, i - start))
            } else {
                65536
            },
        decreases n - i,
    {
        let c = text.get_char(i);
        if c < '0' || c > '9' {
            assert(d[i - start] == c);
            assert(!is_decimal_digit(d[i - start]));
            return None;
        }
        let digit = (c as u32) - ('0' as u32);
        let ghost prefix = d.subrange(0, i - start);
        let ghost next = d.subrange(0, i + 1 - start);
        proof {
            assert(next.drop_last() =~= prefix);
            assert(next.last() == c);
            assert forall|j: int| 0 <= j < prefix.len() implies is_decimal_digit(
                #[trigger] prefix[j],
            ) by {
                assert(prefix[j] == d[j]);
            }
            lemma_decimal_value_nonneg(prefix);
            assert(decimal_value(next) == decimal_value(prefix) * 10 + digit);
        }
        let grown = value * 10 + digit;
        value = if grown > 65536 {
            65536
        } else {
            grown
        };
        i = i + 1;
    }
    proof {
        assert(d.subrange(0, n - start) =~= d);
    }
    if value > 65535 {
        None
    } else {
        Some(value as u16)
    }
}

/// The broker port: the configured text parsed as a `u16`, or 1883 when it
/// does not parse.
pub fn broker_port(text: &str) -> (port: u16)
    ensures
        port == match parse_u16_spec(text@) {
            Some(p) => p,
            None => DEFAULT_BROKER_PORT,
        },
{
    match parse_u16(text) {
        Some(p) => p,
        None => DEFAULT_BROKER_PORT,
    }
}


/// Where the session stands: which operation's answer it waits for.
#[derive(Debug, Clone, Copy, PartialEq, Eq, Structural)]
pub enum MqttPhase {
    /// The broker's host name is being resolved.
    Resolving,
    /// A TCP connection to the broker is being opened.
    ConnectingTcp,
    /// The MQTT CONNECT exchange is running.
    ConnectingMqtt,
    /// The retained discovery message is being published.
    PublishingDiscovery,
    /// The latest average temperature is being read.
    ReadingTemperature,
    /// A temperature message is being published.
    PublishingTelemetry,
    /// The pause between two temperature messages is running.
    Waiting,
    /// The pause before the next connection attempt is running.
    BackingOff,
}

/// What the session asks its driver to do next.
#[derive(Debug, Clone, Copy, PartialEq, Eq, Structural)]
pub enum MqttAction {
    /// Resolve the broker's host name (A record).
    ResolveBroker,
    /// Open a TCP connection to the first resolved address on this port.
    ConnectTcp(u16),
    /// Send CONNECT with a clean start; the flags say whether the user name
    /// and the password go with it.
    ConnectMqtt { with_user_name: bool, with_password: bool },
    /// Publish the discovery document, retained, on the discovery topic.
    PublishDiscovery,
    /// Read the shared average temperature.
    ReadTemperature,
    /// Publish this temperature (hundredths of a degree) on the state topic.
    PublishTelemetry(i32),
    /// Sleep for this many seconds.
    Sleep(u64),
}

/// What the last operation answered.
#[derive(Debug, Clone, Copy, PartialEq, Eq, Structural)]
pub enum MqttEvent {
    DnsFailed,
    NoAddress,
    Resolved,
    TcpFailed,
    TcpConnected,
    MqttFailed,
    MqttConnected,
    PublishFailed,
    Published,
    /// The shared average, `NO_READING` while there is none.
    Temperature(i32),
    TimerElapsed,
}

/// The session's abstract state.
#[derive(Debug, Clone, Copy, PartialEq, Eq, Structural)]
pub struct MqttState {
    pub phase: MqttPhase,
    /// The pause, in seconds, that the next failure waits.
    pub backoff: u64,
    pub port: u16,
    pub with_user_name: bool,
    pub with_password: bool,
}

/// Whether `e` is an answer to the operation that `p` waits for.
pub open spec fn answers(p: MqttPhase, e: MqttEvent) -> bool {
    match p {
        MqttPhase::Resolving => e is DnsFailed || e is NoAddress || e is Resolved,
        MqttPhase::ConnectingTcp => e is TcpFailed || e is TcpConnected,
        MqttPhase::ConnectingMqtt => e is MqttFailed || e is MqttConnected,
        MqttPhase::PublishingDiscovery => e is PublishFailed || e is Published,
        MqttPhase::ReadingTemperature => e is Temperature,
        MqttPhase::PublishingTelemetry => e is PublishFailed || e is Published,
        MqttPhase::Waiting => e is TimerElapsed,
        MqttPhase::BackingOff => e is TimerElapsed,
    }
}

/// The pause that follows `backoff` after a failed attempt: twice as long,
/// at most a minute.
pub open spec fn next_backoff(backoff: u64) -> u64 {
    if backoff * 2 <= RECONNECT_MAX_SECS {
        (backoff * 2) as u64
    } else {
        RECONNECT_MAX_SECS
    }
}

/// Whether the answer `e` is a failure that gives up the connection.
pub open spec fn is_failure(e: MqttEvent) -> bool {
    e is DnsFailed || e is NoAddress || e is TcpFailed || e is MqttFailed || e is PublishFailed
}

/// The state and action that follow the answer `e` in state `s`.
pub open spec fn mqtt_next(s: MqttState, e: MqttEvent) -> (MqttState, MqttAction) {
    if is_failure(e) {
        (MqttState { phase: MqttPhase::BackingOff, ..s }, MqttAction::Sleep(s.backoff))
    } else {
        match e {
            MqttEvent::Resolved => (
                MqttState { phase: MqttPhase::ConnectingTcp, ..s },
                MqttAction::ConnectTcp(s.port),
            ),
            MqttEvent::TcpConnected => (
                MqttState { phase: MqttPhase::ConnectingMqtt, ..s },
                MqttAction::ConnectMqtt {
                    with_user_name: s.with_user_name,
                    with_password: s.with_password,
                },
            ),
            MqttEvent::MqttConnected => (
                MqttState { phase: MqttPhase::PublishingDiscovery, ..s },
                MqttAction::PublishDiscovery,
            ),
            MqttEvent::Published => if s.phase is PublishingDiscovery {
                (
                    MqttState {
                        phase: MqttPhase::ReadingTemperature,
                        backoff: RECONNECT_BASE_SECS,
                        ..s
                    },
                    MqttAction::ReadTemperature,
                )
            } else {
                (
                    MqttState { phase: MqttPhase::Waiting, ..s },
                    MqttAction::Sleep(TELEMETRY_INTERVAL_SECS),
                )
            },
            MqttEvent::Temperature(t) => if t != NO_READING {
                (
                    MqttState { phase: MqttPhase::PublishingTelemetry, ..s },
                    MqttAction::PublishTelemetry(t),
                )
            } else {
                (
                    MqttState { phase: MqttPhase::Waiting, ..s },
                    MqttAction::Sleep(TELEMETRY_INTERVAL_SECS),
                )
            },
            _ => if s.phase is Waiting {
                (
                    MqttState { phase: MqttPhase::ReadingTemperature, ..s },
                    MqttAction::ReadTemperature,
                )
            } else {
                (
                    MqttState {
                        phase: MqttPhase::Resolving,
                        backoff: next_backoff(s.backoff),
                        ..s
                    },
                    MqttAction::ResolveBroker,
                )
            },
        }
    }
}

/// The pause between attempts stays between five seconds and a minute.
pub open spec fn backoff_in_range(backoff: u64) -> bool {
    RECONNECT_BASE_SECS <= backoff <= RECONNECT_MAX_SECS
}

/// The MQTT task's session state.
pub struct MqttSession {
    phase: MqttPhase,
    backoff: u64,
    port: u16,
    with_user_name: bool,
    with_password: bool,
}

impl View for MqttSession {
    type V = MqttState;

    closed spec fn view(&self) -> MqttState {
        MqttState {
            phase: self.phase,
            backoff: self.backoff,
            port: self.port,
            with_user_name: self.with_user_name,
            with_password: self.with_password,
        }
    }
}

impl MqttSession {
    #[verifier::type_invariant]
    spec fn inv(self) -> bool {
        backoff_in_range(self.backoff)
    }

    /// A session for the configured broker port text and credentials, and
    /// its first action: resolving the broker. The port falls back to 1883;
    /// a user name or password is sent only when it is not empty.
    pub fn new(port_text: &str, user_name: &str, password: &str) -> (r: (Self, MqttAction))
        ensures
            r.0@ == (MqttState {
                phase: MqttPhase::Resolving,
                backoff: RECONNECT_BASE_SECS,
                port: match parse_u16_spec(port_text@) {
                    Some(p) => p,
                    None => DEFAULT_BROKER_PORT,
                },
                with_user_name: user_name@.len() > 0,
                with_password: password@.len() > 0,
            }),
            r.1 == MqttAction::ResolveBroker,
    {
        let session = MqttSession {
            phase: MqttPhase::Resolving,
            backoff: RECONNECT_BASE_SECS,
            port: broker_port(port_text),
            with_user_name: !user_name.is_empty(),
            with_password: !password.is_empty(),
        };
        (session, MqttAction::ResolveBroker)
    }

    /// The phase the session is in.
    pub fn phase(&self) -> (p: MqttPhase)
        ensures
            p == self@.phase,
    {
        self.phase
    }

    /// The pause, in seconds, that the next failure waits.
    pub fn backoff(&self) -> (b: u64)
        ensures
            b == self@.backoff,
            backoff_in_range(b),
    {
        proof {
            use_type_invariant(self);
        }
        self.backoff
    }

    /// Takes the answer to the last action and returns the next action.
    pub fn step(&mut self, event: MqttEvent) -> (action: MqttAction)
        requires
            answers(old(self)@.phase, event),
        ensures
            (final(self)@, action) == mqtt_next(old(self)@, event),
            backoff_in_range(final(self)@.backoff),
    {
        proof {
            use_type_invariant(&*self);
        }
        match event {
            MqttEvent::DnsFailed | MqttEvent::NoAddress | MqttEvent::TcpFailed
            | MqttEvent::MqttFailed | MqttEvent::PublishFailed => {
                self.phase = MqttPhase::BackingOff;
                MqttAction::Sleep(self.backoff)
            },
            MqttEvent::Resolved => {
                self.phase = MqttPhase::ConnectingTcp;
                MqttAction::ConnectTcp(self.port)
            },
            MqttEvent::TcpConnected => {
                self.phase = MqttPhase::ConnectingMqtt;
                MqttAction::ConnectMqtt {
                    with_user_name: self.with_user_name,
                    with_password: self.with_password,
                }
            },
            MqttEvent::MqttConnected => {
                self.phase = MqttPhase::PublishingDiscovery;
                MqttAction::PublishDiscovery
            },
            MqttEvent::Published => {
                if self.phase == MqttPhase::PublishingDiscovery {
                    self.phase = MqttPhase::ReadingTemperature;
                    self.backoff = RECONNECT_BASE_SECS;
                    MqttAction::ReadTemperature
                } else {
                    self.phase = MqttPhase::Waiting;
                    MqttAction::Sleep(TELEMETRY_INTERVAL_SECS)
                }
            },
            MqttEvent::Temperature(t) => {
                if t != NO_READING {
                    self.phase = MqttPhase::PublishingTelemetry;
                    MqttAction::PublishTelemetry(t)
                } else {
                    self.phase = MqttPhase::Waiting;
                    MqttAction::Sleep(TELEMETRY_INTERVAL_SECS)
                }
            },
            MqttEvent::TimerElapsed => {
                if self.phase == MqttPhase::Waiting {
                    self.phase = MqttPhase::ReadingTemperature;
                    MqttAction::ReadTemperature
                } else {
                    let doubled = self.backoff * 2;
                    self.phase = MqttPhase::Resolving;
                    self.backoff = if doubled <= RECONNECT_MAX_SECS {
                        doubled
                    } else {
                        RECONNECT_MAX_SECS
                    };
                    MqttAction::ResolveBroker
                }
            },
        }
    }
}


/// The pause before the next attempt after `n` failed attempts in a row,
/// counted from a fresh session or a successful announcement.
pub open spec fn backoff_after(n: nat) -> u64
    decreases n,
{
    if n == 0 {
        RECONNECT_BASE_SECS
    } else {
        next_backoff(backoff_after((n - 1) as nat))
    }
}

/// Failed attempts in a row wait 5, 10, 20 and 40 seconds, and a minute from
/// then on.
pub proof fn lemma_backoff_schedule(n: nat)
    ensures
        n == 0 ==> backoff_after(n) == 5,
        n == 1 ==> backoff_after(n) == 10,
        n == 2 ==> backoff_after(n) == 20,
        n == 3 ==> backoff_after(n) == 40,
        n >= 4 ==> backoff_after(n) == 60,
    decreases n,
{
    if n > 0 {
        lemma_backoff_schedule((n - 1) as nat);
    }
}

/// A failure puts the session to sleep for its current pause, and when that
/// pause is over it tries again from name resolution with the pause doubled,
/// at most a minute.
pub proof fn lemma_failure_then_retry(s: MqttState, e: MqttEvent)
    requires
        answers(s.phase, e),
        is_failure(e),
    ensures
        mqtt_next(s, e).1 == MqttAction::Sleep(s.backoff),
        mqtt_next(s, e).0.phase == MqttPhase::BackingOff,
        mqtt_next(mqtt_next(s, e).0, MqttEvent::TimerElapsed) == (
            MqttState { phase: MqttPhase::Resolving, backoff: next_backoff(s.backoff), ..s },
            MqttAction::ResolveBroker,
        ),
{
}

/// Every pause the session asks for is either the telemetry interval or a
/// back-off between five seconds and a minute.
pub proof fn lemma_sleeps_bounded(s: MqttState, e: MqttEvent)
    requires
        backoff_in_range(s.backoff),
        answers(s.phase, e),
    ensures
        backoff_in_range(mqtt_next(s, e).0.backoff),
        mqtt_next(s, e).1 matches MqttAction::Sleep(d) ==> d == TELEMETRY_INTERVAL_SECS
            || backoff_in_range(d),
{
}

/// Once the discovery message is out, the next failure waits only five
/// seconds again.
pub proof fn lemma_announcement_resets_backoff(s: MqttState)
    requires
        s.phase == MqttPhase::PublishingDiscovery,
    ensures
        mqtt_next(s, MqttEvent::Published).0.backoff == RECONNECT_BASE_SECS,
        mqtt_next(s, MqttEvent::Published).1 == MqttAction::ReadTemperature,
{
}

/// A temperature is published exactly when one has been measured; a failed
/// publication goes straight to the back-off pause, without the telemetry
/// interval.
pub proof fn lemma_telemetry(s: MqttState, t: i32)
    requires
        s.phase == MqttPhase::ReadingTemperature,
    ensures
        (mqtt_next(s, MqttEvent::Temperature(t)).1 is PublishTelemetry) <==> t != NO_READING,
        t != NO_READING ==> mqtt_next(s, MqttEvent::Temperature(t)).1
            == MqttAction::PublishTelemetry(t),
        t != NO_READING ==> mqtt_next(mqtt_next(s, MqttEvent::Temperature(t)).0, MqttEvent::PublishFailed).1
            == MqttAction::Sleep(s.backoff),
{
}


/// Once the broker's name resolves, the session connects over TCP on the
/// port it was configured with, and the session keeps that port, and the
/// credential flags, through every answer.
pub proof fn lemma_resolved_connects_on_configured_port(s: MqttState, e: MqttEvent)
    requires
        answers(s.phase, e),
    ensures
        s.phase == MqttPhase::Resolving ==> mqtt_next(s, MqttEvent::Resolved).1
            == MqttAction::ConnectTcp(s.port),
        mqtt_next(s, e).0.port == s.port,
        mqtt_next(s, e).0.with_user_name == s.with_user_name,
        mqtt_next(s, e).0.with_password == s.with_password,
{
}

/// The discovery document names the given state topic: right after the text
/// `"state_topic":"` comes the topic, character for character, and then a
/// closing quote.
pub proof fn lemma_discovery_names_topic(topic: Seq<char>)
    ensures
        ({
            let doc = discovery_text(topic);
            let key = "\"state_topic\":\""@;
            let start = DISCOVERY_HEAD@.len() as int;
            &&& start >= key.len()
            &&& doc.subrange(start - key.len(), start) == key
            &&& doc.subrange(start, start + topic.len()) == topic
            &&& doc[start + topic.len()] == '"'
        }),
{
    reveal_strlit("{\"name\":\"ESP32C3 Ground Temperature\",\"state_topic\":\"");
    reveal_strlit("\"state_topic\":\"");
    reveal_strlit("\",\"unit_of_measurement\":\"°C\",\"value_template\":\"{{ value_json.temperature }}\",\"unique_id\":\"esp32c3_ground_temp_001\",\"device\":{\"identifiers\":[\"esp32c3_001\"],\"name\":\"ESP32C3\",\"manufacturer\":\"You\",\"model\":\"esp32c3-mini\"}}");
    let doc = discovery_text(topic);
    let key = "\"state_topic\":\""@;
    let start = DISCOVERY_HEAD@.len() as int;
    assert(doc.subrange(start - key.len(), start) =~= key);
    assert(doc.subrange(start, start + topic.len()) =~= topic);
}

} // verus!
