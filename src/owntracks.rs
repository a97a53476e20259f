//! The configuration handed to tracking apps, made from the settings found.
use vstd::prelude::*;

verus! {

/// The value of decimal digits.
pub open spec fn digits_value(s: Seq<char>) -> int
    decreases s.len(),
{
    if s.len() == 0 {
        0
    } else {
        digits_value(s.drop_last()) * 10 + (s.last() as int - '0' as int)
    }
}

/// What `u16::from_str` reads: an optional `+` and one or more ASCII digits
/// whose value fits in 16 bits.
pub open spec fn u16_text(s: Seq<char>) -> Option<u16> {
    let d = if s.len() > 0 && s[0] == '+' {
        s.drop_first()
    } else {
        s
    };
    if d.len() > 0 && (forall|i: int| 0 <= i < d.len() ==> '0' <= #[trigger] d[i] <= '9')
        && digits_value(d) <= 65535 {
        Some(digits_value(d) as u16)
    } else {
        None
    }
}

/// Relies on std's `u16::from_str`, which accepts an optional `+` followed by
/// decimal digits, and refuses anything else or a value above 65535.
#[verifier::external_body]
fn parse_u16(s: &str) -> (r: Option<u16>)
    ensures
        r == u16_text(s@),
{
    s.parse::<u16>().ok()
}

/// What `bool::from_str` reads: exactly `true` or `false`.
pub open spec fn bool_text(s: Seq<char>) -> Option<bool> {
    if s == "true"@ {
        Some(true)
    } else if s == "false"@ {
        Some(false)
    } else {
        None
    }
}

fn parse_bool(s: &String) -> (r: Option<bool>)
    ensures
        r == bool_text(s@),
{
    if *s == String::from_str("true") {
        Some(true)
    } else if *s == String::from_str("false") {
        Some(false)
    } else {
        None
    }
}

/// The settings found for the configuration, each `None` where it is not set.
#[derive(Debug)]
pub struct Settings {
    pub username: Option<String>,
    pub device_id: Option<String>,
    pub tid: Option<String>,
    pub http_address: Option<String>,
    pub base_url: Option<String>,
    pub client_id: Option<String>,
    pub password: Option<String>,
    pub mqtt_host: Option<String>,
    pub mqtt_port: Option<String>,
    pub mqtt_ws: Option<String>,
    pub topic_base: Option<String>,
}

/// Configuration of a tracking app.
#[derive(Debug)]
pub struct AppConfig {
    /// Owntracks/MQTT username
    pub username: String,
    /// Device identifier
    pub device_id: String,
    /// MQTT client ID
    pub client_id: String,
    /// Tracker (display) ID
    pub tid: String,
    /// MQTT password
    pub password: String,
    /// Use password authentication
    pub use_password: bool,
    /// Operating mode (0: MQTT, 3: HTTP)
    pub mode: u8,
    /// MQTT broker hostname
    pub mqtt_host: String,
    /// MQTT broker port
    pub mqtt_port: u16,
    /// Use WebSocket
    pub ws: bool,
    /// MQTT topic base
    pub topic_base: String,
    /// HTTP publish URL
    pub http_url: String,
    /// Enable TLS
    pub tls: bool,
}

/// The setting, or the default where it is not set.
pub open spec fn or_default(v: Option<String>, d: Seq<char>) -> Seq<char> {
    match v {
        Some(s) => s@,
        None => d,
    }
}

fn setting_or(v: Option<String>, d: &str) -> (r: String)
    ensures
        r@ == or_default(v, d@),
{
    match v {
        Some(s) => s,
        None => String::from_str(d),
    }
}

/// The first two characters of `s`, or all of it where it is shorter.
pub open spec fn first_two(s: Seq<char>) -> Seq<char> {
    s.take(if s.len() < 2 {
        s.len() as int
    } else {
        2
    })
}

/// The URL to which the app publishes over HTTP.
pub open spec fn http_url_of(s: Settings, req_url: Option<String>) -> Seq<char> {
    let base = match s.base_url {
        Some(b) => b@,
        None => match req_url {
            Some(u) => u@,
            None => "https://"@ + or_default(s.http_address, "localhost"@),
        },
    };
    base + "/owntracks?u="@ + or_default(s.username, "me"@) + "&d="@ + or_default(
        s.device_id,
        "mobile"@,
    )
}

/// The configuration that the settings give.
pub open spec fn config_of(c: AppConfig, s: Settings, req_url: Option<String>) -> bool {
    let username = or_default(s.username, "me"@);
    let url = http_url_of(s, req_url);
    &&& c.username@ == username
    &&& c.device_id@ == or_default(s.device_id, "mobile"@)
    &&& c.tid@ == or_default(s.tid, first_two(username))
    &&& c.client_id@ == or_default(s.client_id, "owntracks-app"@)
    &&& c.password@ == or_default(s.password, ""@)
    &&& c.use_password == match s.password {
        Some(p) => p@.len() > 0,
        None => false,
    }
    &&& c.mode == 3
    &&& c.mqtt_host@ == or_default(s.mqtt_host, "localhost"@)
    &&& c.mqtt_port == match u16_text(or_default(s.mqtt_port, "1883"@)) {
        Some(p) => p,
        None => 1883,
    }
    &&& c.ws == match bool_text(or_default(s.mqtt_ws, "false"@)) {
        Some(b) => b,
        None => false,
    }
    &&& c.topic_base@ == or_default(s.topic_base, "owntracks"@)
    &&& c.http_url@ == url
    &&& c.tls == (url.len() >= 8 && url.take(8) == "https://"@)
}

impl AppConfig {
    /// The configuration from the settings found, with defaults for the
    /// others. `req_url`, the address a request came in on, stands in for the
    /// base URL where that is not set.
    pub fn from_settings(s: Settings, req_url: Option<String>) -> (r: AppConfig)
        ensures
            config_of(r, s, req_url),
    {
        let ghost s0 = s;
        let username = setting_or(s.username, "me");
        let device_id = setting_or(s.device_id, "mobile");
        let tid = match s.tid {
            Some(t) => t,
            None => {
                let n = username.as_str().unicode_len();
                let k = if n < 2 {
                    n
                } else {
                    2
                };
                String::from_str(username.as_str().substring_char(0, k))
            },
        };
        let mut http_url = match s.base_url {
            Some(b) => b,
            None => match req_url {
                Some(u) => u,
                None => {
                    let mut u = String::from_str("https://");
                    let address = setting_or(s.http_address, "localhost");
                    u.append(address.as_str());
                    u
                },
            },
        };
        http_url.append("/owntracks?u=");
        http_url.append(username.as_str());
        http_url.append("&d=");
        http_url.append(device_id.as_str());
        let tls = starts_with_https(&http_url);
        let use_password = match &s.password {
            Some(p) => p.as_str().unicode_len() > 0,
            None => false,
        };
        let password = setting_or(s.password, "");
        let port_text = setting_or(s.mqtt_port, "1883");
        let mqtt_port = match parse_u16(port_text.as_str()) {
            Some(p) => p,
            None => 1883,
        };
        let ws_text = setting_or(s.mqtt_ws, "false");
        let ws = match parse_bool(&ws_text) {
            Some(b) => b,
            None => false,
        };
        let r = AppConfig {
            username,
            device_id,
            client_id: setting_or(s.client_id, "owntracks-app"),
            tid,
            password,
            use_password,
            mode: 3,
            mqtt_host: setting_or(s.mqtt_host, "localhost"),
            mqtt_port,
            ws,
            topic_base: setting_or(s.topic_base, "owntracks"),
            http_url,
            tls,
        };
        assert(r.http_url@ =~= http_url_of(s0, req_url));
        r
    }

    /// The topic the app publishes to: `{topic_base}/{username}/{device_id}`.
    pub fn pub_topic_base(&self) -> (r: String)
        ensures
            r@ == self.topic_base@ + "/"@ + self.username@ + "/"@ + self.device_id@,
    {
        let mut t = self.topic_base.clone();
        t.append("/");
        t.append(self.username.as_str());
        t.append("/");
        t.append(self.device_id.as_str());
        t
    }

    /// The topics the app subscribes to: all devices, their events and
    /// infos, and its own commands.
    pub fn sub_topic(&self) -> (r: String)
        ensures
            r@ == self.topic_base@ + "/+/+ "@ + self.topic_base@ + "/+/+/event "@ + self.topic_base@
                + "/+/+/info "@ + self.topic_base@ + "/"@ + self.username@ + "/"@ + self.device_id@
                + "/cmd"@,
    {
        let tb = self.topic_base.as_str();
        let mut t = String::from_str(tb);
        t.append("/+/+ ");
        t.append(tb);
        t.append("/+/+/event ");
        t.append(tb);
        t.append("/+/+/info ");
        t.append(tb);
        t.append("/");
        t.append(self.username.as_str());
        t.append("/");
        t.append(self.device_id.as_str());
        t.append("/cmd");
        t
    }
}

/// Whether the URL starts with `https://`.
fn starts_with_https(url: &String) -> (r: bool)
    ensures
        r == (url@.len() >= 8 && url@.take(8) == "https://"@),
{
    let s = url.as_str();
    let n = s.unicode_len();
    if n < 8 {
        return false;
    }
    let head = String::from_str(s.substring_char(0, 8));
    head == String::from_str("https://")
}

} // verus!
