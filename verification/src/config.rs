//! Configuration with a default for every knob, and the text configuration of the embedded
//! MQTT broker.

use vstd::prelude::*;

use crate::decimal::decimal;

verus! {

/// Where the hub's MQTT client connects.
#[derive(Debug, Clone)]
pub struct MqttConfig {
    /// Broker host.
    pub host: String,
    /// Broker port (MQTT v5).
    pub port: u16,
    /// Client id.
    pub client_id: String,
    /// Optional credentials.
    pub username: Option<String>,
    /// Optional credentials.
    pub password: Option<String>,
}

impl Default for MqttConfig {
    fn default() -> (r: Self)
        ensures
            r.host@ == "127.0.0.1"@,
            r.port == 1883,
            r.client_id@ == "olivaw-hub"@,
            r.username is None,
            r.password is None,
    {
        MqttConfig {
            host: "127.0.0.1".to_owned(),
            port: 1883,
            client_id: "olivaw-hub".to_owned(),
            username: None,
            password: None,
        }
    }
}

impl MqttConfig {
    /// The MQTT client id of one of the hub's connections: `<client_id>-<suffix>`.
    pub fn client_name(&self, suffix: &str) -> (r: String)
        ensures
            r@ == self.client_id@ + "-"@ + suffix@,
    {
        let mut r = self.client_id.clone();
        r.append("-");
        r.append(suffix);
        r
    }

    /// The login to present, only when both a username and a password are configured.
    pub fn credentials(&self) -> (r: Option<(String, String)>)
        ensures
            match (self.username, self.password) {
                (Some(u), Some(p)) => r matches Some(c) && c.0@ == u@ && c.1@ == p@,
                _ => r is None,
            },
    {
        match (&self.username, &self.password) {
            (Some(u), Some(p)) => Some((u.clone(), p.clone())),
            _ => None,
        }
    }
}

/// The few SLAM numbers worth exposing.
#[derive(Debug, Clone, Copy, PartialEq, Eq, Structural)]
pub struct SlamTuning {
    /// Publish a map snapshot every N scans (~1 Hz at 10 Hz scans).
    pub map_every_scans: u32,
    /// Points kept per scan sent to the dashboard (decimated).
    pub ws_scan_points: usize,
    /// Trajectory points kept per car.
    pub trajectory_len: usize,
}

impl Default for SlamTuning {
    fn default() -> (r: Self)
        ensures
            r.map_every_scans == 10,
            r.ws_scan_points == 240,
            r.trajectory_len == 4000,
    {
        SlamTuning { map_every_scans: 10, ws_scan_points: 240, trajectory_len: 4000 }
    }
}

/// The decimal digits of `n` as characters.
pub open spec fn decimal_chars(n: nat) -> Seq<char> {
    decimal(n).map_values(|b: u8| b as char)
}

/// The embedded broker's configuration (rumqttd TOML): one router, a v5 listener and a
/// v3.1.1 listener with the given addresses and payload cap.
pub open spec fn broker_config_text(v5_listen: Seq<char>, v4_listen: Seq<char>, max_payload_size: nat) -> Seq<char> {
    "\nid = 0\n\n[router]\nid = 0\nmax_connections = 64\nmax_outgoing_packet_count = 200\nmax_segment_size = 10485760\nmax_segment_count = 10\n\n[v5.1]\nname = \"v5\"\nlisten = \""@
        + v5_listen
        + "\"\nnext_connection_delay_ms = 1\n    [v5.1.connections]\n    connection_timeout_ms = 60000\n    max_payload_size = "@
        + decimal_chars(max_payload_size)
        + "\n    max_inflight_count = 100\n    dynamic_filters = true\n\n[v4.1]\nname = \"v4\"\nlisten = \""@
        + v4_listen
        + "\"\nnext_connection_delay_ms = 1\n    [v4.1.connections]\n    connection_timeout_ms = 60000\n    max_payload_size = "@
        + decimal_chars(max_payload_size)
        + "\n    max_inflight_count = 100\n    dynamic_filters = true\n"@
}

/// The router section of the broker text: one broker, up to 64 connections, 200 outgoing
/// packets in flight, 10 segments of 10 MiB.
pub open spec fn router_section() -> Seq<char> {
    "\n"@ + "id = 0\n"@ + "\n"@ + "[router]\n"@ + "id = 0\n"@ + "max_connections = 64\n"@
        + "max_outgoing_packet_count = 200\n"@ + "max_segment_size = 10485760\n"@
        + "max_segment_count = 10\n"@
}

/// One listener section: its name, its address, a 1 ms delay between connections, a
/// one-minute connection timeout, payloads capped at `cap` bytes, 100 messages in flight and
/// dynamic filters.
pub open spec fn listener_section(name: Seq<char>, listen: Seq<char>, cap: nat) -> Seq<char> {
    "\n"@ + "["@ + name + ".1]\n"@ + "name = \""@ + name + "\"\n"@ + "listen = \""@ + listen + "\"\n"@
        + "next_connection_delay_ms = 1\n"@ + "    ["@ + name + ".1.connections]\n"@
        + "    connection_timeout_ms = 60000\n"@ + "    max_payload_size = "@ + decimal_chars(cap)
        + "\n"@ + "    max_inflight_count = 100\n"@ + "    dynamic_filters = true\n"@
}

/// The broker text is the fixed router section followed by a `v5` listener on `v5_listen` and
/// a `v4` listener on `v4_listen`; only the two addresses and the payload cap vary.
pub proof fn lemma_broker_text_sections(v5_listen: Seq<char>, v4_listen: Seq<char>, max_payload_size: nat)
    ensures
        broker_config_text(v5_listen, v4_listen, max_payload_size) == router_section() + listener_section(
            "v5"@,
            v5_listen,
            max_payload_size,
        ) + listener_section("v4"@, v4_listen, max_payload_size),
        router_section().subrange(25, 46) == "max_connections = 64\n"@,
{
    reveal_strlit("\nid = 0\n\n[router]\nid = 0\nmax_connections = 64\nmax_outgoing_packet_count = 200\nmax_segment_size = 10485760\nmax_segment_count = 10\n\n[v5.1]\nname = \"v5\"\nlisten = \"");
    reveal_strlit("\"\nnext_connection_delay_ms = 1\n    [v5.1.connections]\n    connection_timeout_ms = 60000\n    max_payload_size = ");
    reveal_strlit("\n    max_inflight_count = 100\n    dynamic_filters = true\n\n[v4.1]\nname = \"v4\"\nlisten = \"");
    reveal_strlit("\"\nnext_connection_delay_ms = 1\n    [v4.1.connections]\n    connection_timeout_ms = 60000\n    max_payload_size = ");
    reveal_strlit("\n    max_inflight_count = 100\n    dynamic_filters = true\n");
    reveal_strlit("\n");
    reveal_strlit("id = 0\n");
    reveal_strlit("[router]\n");
    reveal_strlit("max_connections = 64\n");
    reveal_strlit("max_outgoing_packet_count = 200\n");
    reveal_strlit("max_segment_size = 10485760\n");
    reveal_strlit("max_segment_count = 10\n");
    reveal_strlit("[");
    reveal_strlit(".1]\n");
    reveal_strlit("name = \"");
    reveal_strlit("\"\n");
    reveal_strlit("listen = \"");
    reveal_strlit("next_connection_delay_ms = 1\n");
    reveal_strlit("    [");
    reveal_strlit(".1.connections]\n");
    reveal_strlit("    connection_timeout_ms = 60000\n");
    reveal_strlit("    max_payload_size = ");
    reveal_strlit("    max_inflight_count = 100\n");
    reveal_strlit("    dynamic_filters = true\n");
    reveal_strlit("v5");
    reveal_strlit("v4");
    let r = router_section();
    let d = decimal_chars(max_payload_size);
    let a5 = listener_section("v5"@, v5_listen, max_payload_size);
    let a4 = listener_section("v4"@, v4_listen, max_payload_size);
    let p1 = "\nid = 0\n\n[router]\nid = 0\nmax_connections = 64\nmax_outgoing_packet_count = 200\nmax_segment_size = 10485760\nmax_segment_count = 10\n\n[v5.1]\nname = \"v5\"\nlisten = \""@;
    let p2 = "\"\nnext_connection_delay_ms = 1\n    [v5.1.connections]\n    connection_timeout_ms = 60000\n    max_payload_size = "@;
    let p3 = "\n    max_inflight_count = 100\n    dynamic_filters = true\n\n[v4.1]\nname = \"v4\"\nlisten = \""@;
    let p4 = "\"\nnext_connection_delay_ms = 1\n    [v4.1.connections]\n    connection_timeout_ms = 60000\n    max_payload_size = "@;
    let p5 = "\n    max_inflight_count = 100\n    dynamic_filters = true\n"@;
    let h5 = "\n"@ + "["@ + "v5"@ + ".1]\n"@ + "name = \""@ + "v5"@ + "\"\n"@ + "listen = \""@;
    let h4 = "\n"@ + "["@ + "v4"@ + ".1]\n"@ + "name = \""@ + "v4"@ + "\"\n"@ + "listen = \""@;
    let m5 = "\"\n"@ + "next_connection_delay_ms = 1\n"@ + "    ["@ + "v5"@ + ".1.connections]\n"@
        + "    connection_timeout_ms = 60000\n"@ + "    max_payload_size = "@;
    let m4 = "\"\n"@ + "next_connection_delay_ms = 1\n"@ + "    ["@ + "v4"@ + ".1.connections]\n"@
        + "    connection_timeout_ms = 60000\n"@ + "    max_payload_size = "@;
    let t = "\n"@ + "    max_inflight_count = 100\n"@ + "    dynamic_filters = true\n"@;
    assert(p1 =~= r + h5);
    assert(p2 =~= m5);
    assert(p3 =~= t + h4);
    assert(p4 =~= m4);
    assert(p5 =~= t);
    assert(a5 =~= h5 + v5_listen + m5 + d + t);
    assert(a4 =~= h4 + v4_listen + m4 + d + t);
    assert(broker_config_text(v5_listen, v4_listen, max_payload_size) =~= r + a5 + a4);
    assert(r.subrange(25, 46) =~= "max_connections = 64\n"@);
}

fn digit_str(d: u64) -> (s: &'static str)
    requires
        d < 10,
    ensures
        s@ == seq![(48 + d) as u8 as char],
{
    proof {
        reveal_strlit("0");
        reveal_strlit("1");
        reveal_strlit("2");
        reveal_strlit("3");
        reveal_strlit("4");
        reveal_strlit("5");
        reveal_strlit("6");
        reveal_strlit("7");
        reveal_strlit("8");
        reveal_strlit("9");
    }
    if d == 0 {
        "0"
    } else if d == 1 {
        "1"
    } else if d == 2 {
        "2"
    } else if d == 3 {
        "3"
    } else if d == 4 {
        "4"
    } else if d == 5 {
        "5"
    } else if d == 6 {
        "6"
    } else if d == 7 {
        "7"
    } else if d == 8 {
        "8"
    } else {
        "9"
    }
}

/// Appends the decimal digits of `n` to `out`.
pub fn append_decimal(out: &mut String, n: u64)
    ensures
        final(out)@ == old(out)@ + decimal_chars(n as nat),
    decreases n,
{
    if n >= 10 {
        append_decimal(out, n / 10);
    }
    out.append(digit_str(n % 10));
    proof {
        if n >= 10 {
            assert(decimal(n as nat) == decimal((n / 10) as nat).push((48 + n % 10) as u8));
            assert(decimal_chars(n as nat) =~= decimal_chars((n / 10) as nat).push(
                (48 + n % 10) as u8 as char,
            ));
        } else {
            assert(decimal_chars(n as nat) =~= seq![(48 + n % 10) as u8 as char]);
        }
        assert(final(out)@ =~= old(out)@ + decimal_chars(n as nat));
    }
}

/// The embedded broker's configuration text for the given listener addresses and payload cap.
pub fn broker_config(v5_listen: &str, v4_listen: &str, max_payload_size: usize) -> (r: String)
    ensures
        r@ == broker_config_text(v5_listen@, v4_listen@, max_payload_size as nat),
{
    let mut t = String::new();
    t.append(
        "\nid = 0\n\n[router]\nid = 0\nmax_connections = 64\nmax_outgoing_packet_count = 200\nmax_segment_size = 10485760\nmax_segment_count = 10\n\n[v5.1]\nname = \"v5\"\nlisten = \"",
    );
    t.append(v5_listen);
    t.append(
        "\"\nnext_connection_delay_ms = 1\n    [v5.1.connections]\n    connection_timeout_ms = 60000\n    max_payload_size = ",
    );
    append_decimal(&mut t, max_payload_size as u64);
    t.append(
        "\n    max_inflight_count = 100\n    dynamic_filters = true\n\n[v4.1]\nname = \"v4\"\nlisten = \"",
    );
    t.append(v4_listen);
    t.append(
        "\"\nnext_connection_delay_ms = 1\n    [v4.1.connections]\n    connection_timeout_ms = 60000\n    max_payload_size = ",
    );
    append_decimal(&mut t, max_payload_size as u64);
    t.append("\n    max_inflight_count = 100\n    dynamic_filters = true\n");
    assert(t@ =~= broker_config_text(v5_listen@, v4_listen@, max_payload_size as nat));
    t
}

} // verus!
