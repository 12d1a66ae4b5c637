use vstd::prelude::*;
use vstd::string::*;

use crate::connection_graph::ConnectionGraph;
use crate::json::{
    append_json_escaped, append_string_array, id_views, json_escape, string_array_json,
};
use crate::service::{seq_has_id, seq_has_name, Service, ServiceId, ServiceMap};
use crate::text::{dec_digits, dec_signed, i64_to_decimal, u64_to_decimal};

verus! {

/// A capability that the websocket server advertises to its clients.
#[derive(Clone, Copy, Debug, PartialEq, Eq, Structural)]
pub enum Capability {
    /// Allow clients to advertise channels to send data messages to the
    /// server.
    ClientPublish,
    /// Allow clients to get and set parameters.
    Parameters,
    /// Allow clients to subscribe to parameter updates.
    ParametersSubscribe,
    /// Inform clients about the latest server time.
    Time,
    /// Allow clients to call services.
    Services,
    /// Allow clients to subscribe to connection-graph updates.
    ConnectionGraph,
    /// Allow clients to fetch assets.
    Assets,
}

/// The advertised name of a capability.
pub open spec fn capability_name(c: Capability) -> Seq<char> {
    match c {
        Capability::ClientPublish => "clientPublish"@,
        Capability::Parameters => "parameters"@,
        Capability::ParametersSubscribe => "parametersSubscribe"@,
        Capability::Time => "time"@,
        Capability::Services => "services"@,
        Capability::ConnectionGraph => "connectionGraph"@,
        Capability::Assets => "assets"@,
    }
}

/// The advertised name of a capability.
pub fn capability_label(c: Capability) -> (r: String)
    ensures
        r@ == capability_name(c),
{
    match c {
        Capability::ClientPublish => String::from_str("clientPublish"),
        Capability::Parameters => String::from_str("parameters"),
        Capability::ParametersSubscribe => String::from_str("parametersSubscribe"),
        Capability::Time => String::from_str("time"),
        Capability::Services => String::from_str("services"),
        Capability::ConnectionGraph => String::from_str("connectionGraph"),
        Capability::Assets => String::from_str("assets"),
    }
}

/// A client request kind that the server admits or rejects by the
/// capabilities it advertised.
#[derive(Clone, Copy, Debug, PartialEq, Eq, Structural)]
pub enum ClientOperation {
    /// Subscribe to a server channel.
    Subscribe,
    /// Unsubscribe from a server channel.
    Unsubscribe,
    /// Advertise a client channel.
    ClientAdvertise,
    /// Retract a client channel.
    ClientUnadvertise,
    /// Send a data message on a client channel.
    ClientMessageData,
    /// Read parameter values.
    GetParameters,
    /// Write parameter values.
    SetParameters,
    /// Subscribe to parameter updates.
    SubscribeParameterUpdates,
    /// Unsubscribe from parameter updates.
    UnsubscribeParameterUpdates,
    /// Call a service.
    ServiceCallRequest,
    /// Fetch an asset.
    FetchAsset,
    /// Subscribe to connection-graph updates.
    SubscribeConnectionGraph,
    /// Unsubscribe from connection-graph updates.
    UnsubscribeConnectionGraph,
}

/// The capability a client operation depends on, if any; subscription
/// management itself needs none.
pub open spec fn required_capability(op: ClientOperation) -> Option<Capability> {
    match op {
        ClientOperation::Subscribe => None,
        ClientOperation::Unsubscribe => None,
        ClientOperation::ClientAdvertise => Some(Capability::ClientPublish),
        ClientOperation::ClientUnadvertise => Some(Capability::ClientPublish),
        ClientOperation::ClientMessageData => Some(Capability::ClientPublish),
        ClientOperation::GetParameters => Some(Capability::Parameters),
        ClientOperation::SetParameters => Some(Capability::Parameters),
        ClientOperation::SubscribeParameterUpdates => Some(Capability::ParametersSubscribe),
        ClientOperation::UnsubscribeParameterUpdates => Some(Capability::ParametersSubscribe),
        ClientOperation::ServiceCallRequest => Some(Capability::Services),
        ClientOperation::FetchAsset => Some(Capability::Assets),
        ClientOperation::SubscribeConnectionGraph => Some(Capability::ConnectionGraph),
        ClientOperation::UnsubscribeConnectionGraph => Some(Capability::ConnectionGraph),
    }
}

/// The capability a client operation depends on, if any.
pub fn required_capability_of(op: ClientOperation) -> (r: Option<Capability>)
    ensures
        r == required_capability(op),
{
    match op {
        ClientOperation::Subscribe => None,
        ClientOperation::Unsubscribe => None,
        ClientOperation::ClientAdvertise => Some(Capability::ClientPublish),
        ClientOperation::ClientUnadvertise => Some(Capability::ClientPublish),
        ClientOperation::ClientMessageData => Some(Capability::ClientPublish),
        ClientOperation::GetParameters => Some(Capability::Parameters),
        ClientOperation::SetParameters => Some(Capability::Parameters),
        ClientOperation::SubscribeParameterUpdates => Some(Capability::ParametersSubscribe),
        ClientOperation::UnsubscribeParameterUpdates => Some(Capability::ParametersSubscribe),
        ClientOperation::ServiceCallRequest => Some(Capability::Services),
        ClientOperation::FetchAsset => Some(Capability::Assets),
        ClientOperation::SubscribeConnectionGraph => Some(Capability::ConnectionGraph),
        ClientOperation::UnsubscribeConnectionGraph => Some(Capability::ConnectionGraph),
    }
}

/// The error status sent to a client whose request depends on a capability
/// the server did not advertise.
pub open spec fn capability_denied_json(c: Capability) -> Seq<char> {
    "{\"op\":\"status\",\"level\":2,\"message\":\"capability not granted: "@ + capability_name(c)
        + "\"}"@
}

/// The severity of a status message.
#[derive(Clone, Copy, Debug, PartialEq, Eq, Structural)]
pub enum StatusLevel {
    /// Informational.
    Info,
    /// A warning.
    Warning,
    /// An error.
    Error,
}

/// The wire number of a status level.
pub open spec fn status_level_num(l: StatusLevel) -> int {
    match l {
        StatusLevel::Info => 0,
        StatusLevel::Warning => 1,
        StatusLevel::Error => 2,
    }
}

/// A status message shown to clients.
#[derive(Clone, Debug)]
pub struct Status {
    /// Severity level.
    pub level: StatusLevel,
    /// Status text.
    pub message: String,
    /// Optional id, which enables later removal of the status.
    pub id: Option<String>,
}

impl Status {
    /// Creates a new status message.
    pub fn new(level: StatusLevel, message: &str) -> (r: Self)
        ensures
            r.level == level,
            r.message@ == message@,
            r.id is None,
    {
        Status { level, message: message.to_owned(), id: None }
    }

    /// Attaches an id to the status message.
    pub fn with_id(self, id: &str) -> (r: Self)
        ensures
            r.level == self.level,
            r.message == self.message,
            r.id matches Some(i) && i@ == id@,
    {
        Status { id: Some(id.to_owned()), ..self }
    }
}

/// The value of a parameter. Floating-point parameter values are outside
/// this core and are handled by the embedding code.
#[derive(Clone, Debug)]
pub enum ParameterValue {
    /// A boolean.
    Bool(bool),
    /// An integer.
    Integer(i64),
    /// A string.
    Text(String),
}

/// A named parameter, with an optional value; an absent value deletes the
/// parameter.
#[derive(Clone, Debug)]
pub struct Parameter {
    /// Parameter name.
    pub name: String,
    /// Parameter value, if any.
    pub value: Option<ParameterValue>,
}

/// The JSON rendering of a parameter value.
pub open spec fn parameter_value_json(v: ParameterValue) -> Seq<char> {
    match v {
        ParameterValue::Bool(b) => if b {
            "true"@
        } else {
            "false"@
        },
        ParameterValue::Integer(i) => dec_signed(i as int),
        ParameterValue::Text(s) => "\""@ + json_escape(s@) + "\""@,
    }
}

/// The JSON rendering of one parameter.
pub open spec fn parameter_json(p: Parameter) -> Seq<char> {
    "{\"name\":\""@ + json_escape(p.name@) + "\""@ + (match p.value {
        Some(v) => ",\"value\":"@ + parameter_value_json(v),
        None => Seq::empty(),
    }) + "}"@
}

/// The items of the parameter array, for the first `n` parameters.
pub open spec fn parameter_items(ps: Seq<Parameter>, n: int) -> Seq<char>
    decreases n,
{
    if n <= 0 {
        Seq::empty()
    } else if n == 1 {
        parameter_json(ps[0])
    } else {
        parameter_items(ps, n - 1) + ","@ + parameter_json(ps[n - 1])
    }
}

/// The parameter-values document sent to clients.
pub open spec fn parameter_values_json(ps: Seq<Parameter>) -> Seq<char> {
    "{\"op\":\"parameterValues\",\"parameters\":["@ + parameter_items(ps, ps.len() as int)
        + "]}"@
}

/// The status document sent to clients.
pub open spec fn status_json(s: Status) -> Seq<char> {
    "{\"op\":\"status\",\"level\":"@ + dec_digits(status_level_num(s.level)) + ",\"message\":\""@
        + json_escape(s.message@) + "\""@ + (match s.id {
        Some(i) => ",\"id\":\""@ + json_escape(i@) + "\""@,
        None => Seq::empty(),
    }) + "}"@
}

/// The remove-status document sent to clients.
pub open spec fn remove_status_json(ids: Seq<Seq<char>>) -> Seq<char> {
    "{\"op\":\"removeStatus\",\"statusIds\":"@ + string_array_json(ids) + "}"@
}

/// The advertised names of a capability list.
pub open spec fn capability_names(cs: Seq<Capability>) -> Seq<Seq<char>> {
    cs.map_values(|c: Capability| capability_name(c))
}

/// The server-info document sent to each client on connect and on session
/// reset.
pub open spec fn server_info_json(
    name: Seq<char>,
    capabilities: Seq<Capability>,
    supported_encodings: Seq<Seq<char>>,
    session_id: Seq<char>,
) -> Seq<char> {
    "{\"op\":\"serverInfo\",\"name\":\""@ + json_escape(name) + "\",\"capabilities\":"@
        + string_array_json(capability_names(capabilities))
        + ",\"supportedEncodings\":"@ + string_array_json(supported_encodings)
        + ",\"metadata\":{},\"sessionId\":\""@ + json_escape(session_id) + "\"}"@
}

/// Renders a status document.
pub fn encode_status(s: &Status) -> (r: String)
    ensures
        r@ == status_json(*s),
{
    let mut out = String::new();
    out.append("{\"op\":\"status\",\"level\":");
    let level: u64 = match s.level {
        StatusLevel::Info => 0,
        StatusLevel::Warning => 1,
        StatusLevel::Error => 2,
    };
    let digits = u64_to_decimal(level);
    out.append(digits.as_str());
    out.append(",\"message\":\"");
    append_json_escaped(&mut out, s.message.as_str());
    out.append("\"");
    match &s.id {
        Some(i) => {
            out.append(",\"id\":\"");
            append_json_escaped(&mut out, i.as_str());
            out.append("\"");
        },
        None => {},
    }
    out.append("}");
    proof {
        assert(out@ =~= status_json(*s));
    }
    out
}

/// Renders a remove-status document.
pub fn encode_remove_status(status_ids: &Vec<String>) -> (r: String)
    ensures
        r@ == remove_status_json(id_views(status_ids@)),
{
    let mut out = String::new();
    out.append("{\"op\":\"removeStatus\",\"statusIds\":");
    append_string_array(&mut out, status_ids);
    out.append("}");
    proof {
        assert(out@ =~= remove_status_json(id_views(status_ids@)));
    }
    out
}

/// Renders one parameter object.
fn append_parameter(out: &mut String, p: &Parameter)
    ensures
        final(out)@ == old(out)@ + parameter_json(*p),
{
    out.append("{\"name\":\"");
    append_json_escaped(out, p.name.as_str());
    out.append("\"");
    match &p.value {
        Some(v) => {
            out.append(",\"value\":");
            match v {
                ParameterValue::Bool(b) => {
                    if *b {
                        out.append("true");
                    } else {
                        out.append("false");
                    }
                },
                ParameterValue::Integer(x) => {
                    let digits = i64_to_decimal(*x);
                    out.append(digits.as_str());
                },
                ParameterValue::Text(s) => {
                    out.append("\"");
                    append_json_escaped(out, s.as_str());
                    out.append("\"");
                },
            }
        },
        None => {},
    }
    out.append("}");
    proof {
        assert(out@ =~= old(out)@ + parameter_json(*p));
    }
}

/// Renders a parameter-values document.
pub fn encode_parameter_values(parameters: &Vec<Parameter>) -> (r: String)
    ensures
        r@ == parameter_values_json(parameters@),
{
    let mut out = String::new();
    out.append("{\"op\":\"parameterValues\",\"parameters\":[");
    let n = parameters.len();
    let mut i: usize = 0;
    while i < n
        invariant
            n == parameters@.len(),
            0 <= i <= n,
            out@ == "{\"op\":\"parameterValues\",\"parameters\":["@ + parameter_items(
                parameters@,
                i as int,
            ),
        decreases n - i,
    {
        if i > 0 {
            out.append(",");
        }
        append_parameter(&mut out, &parameters[i]);
        proof {
            assert(out@ =~= "{\"op\":\"parameterValues\",\"parameters\":["@ + parameter_items(
                parameters@,
                i + 1,
            ));
        }
        i = i + 1;
    }
    out.append("]}");
    proof {
        assert(out@ =~= parameter_values_json(parameters@));
    }
    out
}

/// Renders a server-info document.
pub fn encode_server_info(
    name: &str,
    capabilities: &Vec<Capability>,
    supported_encodings: &Vec<String>,
    session_id: &str,
) -> (r: String)
    ensures
        r@ == server_info_json(
            name@,
            capabilities@,
            id_views(supported_encodings@),
            session_id@,
        ),
{
    let mut out = String::new();
    out.append("{\"op\":\"serverInfo\",\"name\":\"");
    append_json_escaped(&mut out, name);
    out.append("\",\"capabilities\":");
    let mut labels: Vec<String> = Vec::new();
    let n = capabilities.len();
    let mut i: usize = 0;
    while i < n
        invariant
            n == capabilities@.len(),
            0 <= i <= n,
            labels@.len() == i,
            forall|k: int| 0 <= k < i ==> (#[trigger] labels@[k])@ == capability_name(
                capabilities@[k],
            ),
        decreases n - i,
    {
        let lab = capability_label(capabilities[i]);
        labels.push(lab);
        i = i + 1;
    }
    proof {
        assert forall|k: int| 0 <= k < n implies id_views(labels@)[k] == capability_names(
            capabilities@,
        )[k] by {
            assert(labels@[k]@ == capability_name(capabilities@[k]));
        }
        assert(id_views(labels@) =~= capability_names(capabilities@));
    }
    append_string_array(&mut out, &labels);
    out.append(",\"supportedEncodings\":");
    append_string_array(&mut out, supported_encodings);
    out.append(",\"metadata\":{},\"sessionId\":\"");
    append_json_escaped(&mut out, session_id);
    out.append("\"}");
    proof {
        assert(out@ =~= server_info_json(
            name@,
            capabilities@,
            id_views(supported_encodings@),
            session_id@,
        ));
    }
    out
}

/// The JSON object advertising one service: its id, name and schema type,
/// and its declared request and response encodings where it has them.
pub open spec fn service_ad_json(s: Service) -> Seq<char> {
    "{\"id\":"@ + dec_digits(s.spec_id().0 as int) + ",\"name\":\""@ + json_escape(s.spec_name())
        + "\",\"type\":\""@ + json_escape(s.spec_schema().name@) + "\""@ + (
    match s.spec_request_encoding() {
        Some(e) => ",\"requestEncoding\":\""@ + json_escape(e) + "\""@,
        None => Seq::empty(),
    }) + (match s.spec_response_encoding() {
        Some(e) => ",\"responseEncoding\":\""@ + json_escape(e) + "\""@,
        None => Seq::empty(),
    }) + "}"@
}

/// The items of the advertised-service array, for the first `n` services.
pub open spec fn service_ad_items(ss: Seq<Service>, n: int) -> Seq<char>
    decreases n,
{
    if n <= 0 {
        Seq::empty()
    } else if n == 1 {
        service_ad_json(ss[0])
    } else {
        service_ad_items(ss, n - 1) + ","@ + service_ad_json(ss[n - 1])
    }
}

/// The document advertising services to clients.
pub open spec fn advertise_services_json(ss: Seq<Service>) -> Seq<char> {
    "{\"op\":\"advertiseServices\",\"services\":["@ + service_ad_items(ss, ss.len() as int)
        + "]}"@
}

/// The items of a JSON array of numeric ids, for the first `n` ids.
pub open spec fn id_array_items(ids: Seq<u32>, n: int) -> Seq<char>
    decreases n,
{
    if n <= 0 {
        Seq::empty()
    } else if n == 1 {
        dec_digits(ids[0] as int)
    } else {
        id_array_items(ids, n - 1) + ","@ + dec_digits(ids[n - 1] as int)
    }
}

/// The document retracting services from clients.
pub open spec fn unadvertise_services_json(ids: Seq<u32>) -> Seq<char> {
    "{\"op\":\"unadvertiseServices\",\"serviceIds\":["@ + id_array_items(ids, ids.len() as int)
        + "]}"@
}

/// Renders the advertisement of one service.
#[verifier::rlimit(50)]
fn append_service_ad(out: &mut String, s: &Service)
    ensures
        final(out)@ == old(out)@ + service_ad_json(*s),
{
    out.append("{\"id\":");
    let digits = u64_to_decimal(s.id().value() as u64);
    out.append(digits.as_str());
    out.append(",\"name\":\"");
    append_json_escaped(out, s.name());
    out.append("\",\"type\":\"");
    append_json_escaped(out, s.schema().name.as_str());
    out.append("\"");
    match s.request_encoding() {
        Some(e) => {
            out.append(",\"requestEncoding\":\"");
            append_json_escaped(out, e);
            out.append("\"");
        },
        None => {},
    }
    match s.response_encoding() {
        Some(e) => {
            out.append(",\"responseEncoding\":\"");
            append_json_escaped(out, e);
            out.append("\"");
        },
        None => {},
    }
    out.append("}");
    proof {
        assert(out@ =~= old(out)@ + service_ad_json(*s));
    }
}

/// Renders the document advertising services to clients.
pub fn encode_advertise_services(services: &Vec<Service>) -> (r: String)
    ensures
        r@ == advertise_services_json(services@),
{
    let mut out = String::new();
    out.append("{\"op\":\"advertiseServices\",\"services\":[");
    let n = services.len();
    let mut i: usize = 0;
    while i < n
        invariant
            n == services@.len(),
            0 <= i <= n,
            out@ == "{\"op\":\"advertiseServices\",\"services\":["@ + service_ad_items(
                services@,
                i as int,
            ),
        decreases n - i,
    {
        if i > 0 {
            out.append(",");
        }
        append_service_ad(&mut out, &services[i]);
        proof {
            assert(out@ =~= "{\"op\":\"advertiseServices\",\"services\":["@ + service_ad_items(
                services@,
                i + 1,
            ));
        }
        i = i + 1;
    }
    out.append("]}");
    proof {
        assert(out@ =~= advertise_services_json(services@));
    }
    out
}

/// Renders the document retracting services from clients.
pub fn encode_unadvertise_services(ids: &Vec<u32>) -> (r: String)
    ensures
        r@ == unadvertise_services_json(ids@),
{
    let mut out = String::new();
    out.append("{\"op\":\"unadvertiseServices\",\"serviceIds\":[");
    let n = ids.len();
    let mut i: usize = 0;
    while i < n
        invariant
            n == ids@.len(),
            0 <= i <= n,
            out@ == "{\"op\":\"unadvertiseServices\",\"serviceIds\":["@ + id_array_items(
                ids@,
                i as int,
            ),
        decreases n - i,
    {
        if i > 0 {
            out.append(",");
        }
        let digits = u64_to_decimal(ids[i] as u64);
        out.append(digits.as_str());
        proof {
            assert(out@ =~= "{\"op\":\"unadvertiseServices\",\"serviceIds\":["@ + id_array_items(
                ids@,
                i + 1,
            ));
        }
        i = i + 1;
    }
    out.append("]}");
    proof {
        assert(out@ =~= unadvertise_services_json(ids@));
    }
    out
}

/// The document advertising one server channel to clients. The schema data
/// accompanies the advertisement as text, which the embedding renders as
/// the sub-protocol prescribes: the data verbatim for textual schemas,
/// base64 for binary ones.
pub open spec fn channel_advertise_json(c: crate::sink::Channel, schema_text: Seq<char>) -> Seq<
    char,
> {
    "{\"op\":\"advertise\",\"channels\":[{\"id\":"@ + dec_digits(c.id as int) + ",\"topic\":\""@
        + json_escape(c.topic@) + "\",\"encoding\":\""@ + json_escape(c.message_encoding@) + "\""@
        + (match c.schema {
        Some(sch) => ",\"schemaName\":\""@ + json_escape(sch.name@) + "\",\"schemaEncoding\":\""@
            + json_escape(sch.encoding@) + "\",\"schema\":\""@ + json_escape(schema_text) + "\""@,
        None => Seq::empty(),
    }) + "}]}"@
}

/// The document retracting one server channel from clients.
pub open spec fn channel_unadvertise_json(channel_id: u64) -> Seq<char> {
    "{\"op\":\"unadvertise\",\"channelIds\":["@ + dec_digits(channel_id as int) + "]}"@
}

/// Renders the document advertising one server channel, as clients receive
/// on connect and on channel creation.
pub fn encode_channel_advertise(channel: &crate::sink::Channel, schema_text: &str) -> (r: String)
    ensures
        r@ == channel_advertise_json(*channel, schema_text@),
{
    let mut out = String::new();
    out.append("{\"op\":\"advertise\",\"channels\":[{\"id\":");
    let digits = u64_to_decimal(channel.id);
    out.append(digits.as_str());
    out.append(",\"topic\":\"");
    append_json_escaped(&mut out, channel.topic.as_str());
    out.append("\",\"encoding\":\"");
    append_json_escaped(&mut out, channel.message_encoding.as_str());
    out.append("\"");
    match &channel.schema {
        Some(sch) => {
            out.append(",\"schemaName\":\"");
            append_json_escaped(&mut out, sch.name.as_str());
            out.append("\",\"schemaEncoding\":\"");
            append_json_escaped(&mut out, sch.encoding.as_str());
            out.append("\",\"schema\":\"");
            append_json_escaped(&mut out, schema_text);
            out.append("\"");
        },
        None => {},
    }
    out.append("}]}");
    proof {
        assert(out@ =~= channel_advertise_json(*channel, schema_text@));
    }
    out
}

/// Renders the document retracting one server channel.
pub fn encode_channel_unadvertise(channel_id: u64) -> (r: String)
    ensures
        r@ == channel_unadvertise_json(channel_id),
{
    let mut out = String::new();
    out.append("{\"op\":\"unadvertise\",\"channelIds\":[");
    let digits = u64_to_decimal(channel_id);
    out.append(digits.as_str());
    out.append("]}");
    proof {
        assert(out@ =~= channel_unadvertise_json(channel_id));
    }
    out
}

/// Relies on std::time::SystemTime::now: the current wall-clock time.
/// Nothing is assumed of the value.
#[verifier::external_body]
fn system_time_now() -> std::time::SystemTime {
    std::time::SystemTime::now()
}

/// Relies on std::time::SystemTime::duration_since: the span from the unix
/// epoch to this time, or nothing for a time before the epoch. Nothing is
/// assumed of the value.
#[verifier::external_body]
fn duration_since_epoch(t: &std::time::SystemTime) -> Option<std::time::Duration> {
    t.duration_since(std::time::UNIX_EPOCH).ok()
}

/// Relies on std::time::Duration::as_millis: the whole milliseconds of the
/// span. Nothing is assumed of the value.
#[verifier::external_body]
fn duration_as_millis(d: &std::time::Duration) -> u128 {
    d.as_millis()
}

/// Declares std::time::SystemTime for the wall-clock reading above.
#[verifier::external_type_specification]
#[verifier::external_body]
pub struct ExSystemTime(std::time::SystemTime);

/// Generates a session id from the wall clock: the decimal milliseconds
/// since the unix epoch.
pub fn generate_session_id() -> (r: String)
    ensures
        exists|n: int| 0 <= n && r@ == dec_digits(n),
{
    let now = system_time_now();
    let ms64: u64 = match duration_since_epoch(&now) {
        Some(d) => {
            let ms = duration_as_millis(&d);
            if ms > u64::MAX as u128 {
                u64::MAX
            } else {
                ms as u64
            }
        },
        None => 0,
    };
    let r = u64_to_decimal(ms64);
    proof {
        assert(0 <= ms64 as int && r@ == dec_digits(ms64 as int));
    }
    r
}

/// A view of a connected client, as listener callbacks see it.
#[derive(Clone, Copy, Debug, PartialEq, Eq, Structural)]
pub struct Client {
    /// The client's id.
    pub id: u32,
}

/// Information about a server channel, as listener callbacks see it.
#[derive(Clone, Debug)]
pub struct ChannelView {
    /// The channel id.
    pub id: u64,
    /// The channel topic.
    pub topic: String,
}

/// Information about a channel advertised by a client.
#[derive(Clone, Debug)]
pub struct ClientChannelView {
    /// The client's channel id.
    pub id: u32,
    /// The channel topic.
    pub topic: String,
}

/// A mechanism to receive client message events. Every method has a no-op
/// default; embedders override what they need.
pub trait ServerListener: Send + Sync {
    /// A client subscribed to a channel.
    fn on_subscribe(&self, client: Client, channel: ChannelView) {
    }

    /// A client unsubscribed from a channel.
    fn on_unsubscribe(&self, client: Client, channel: ChannelView) {
    }

    /// A client advertised a client channel.
    fn on_client_advertise(&self, client: Client, channel: ClientChannelView) {
    }

    /// A client retracted a client channel.
    fn on_client_unadvertise(&self, client: Client, channel: ClientChannelView) {
    }

    /// A client sent a message on a client channel.
    fn on_message_data(&self, client: Client, channel: ClientChannelView, payload: &[u8]) {
    }

    /// A client asked to read the named parameters; the default knows none.
    fn on_get_parameters(&self, client: Client, param_names: Vec<String>) -> Vec<Parameter> {
        Vec::new()
    }

    /// A client asked to write parameters; the default ignores the request
    /// and reports no updated values.
    fn on_set_parameters(&self, client: Client, parameters: Vec<Parameter>) -> Vec<Parameter> {
        Vec::new()
    }

    /// A client subscribed to updates of the named parameters.
    fn on_parameters_subscribe(&self, param_names: Vec<String>) {
    }

    /// A client unsubscribed from updates of the named parameters.
    fn on_parameters_unsubscribe(&self, param_names: Vec<String>) {
    }
}

/// A websocket server for live visualization, configured but not yet
/// started.
pub struct WebSocketServer {
    host: String,
    port: u16,
    name: Option<String>,
    session_id: Option<String>,
    capabilities: Vec<Capability>,
    supported_encodings: Vec<String>,
    message_backlog_size: u64,
    services: Vec<Service>,
}

/// The index of the service named `name`, where one exists.
pub open spec fn svc_name_index(acc: Seq<Service>, name: Seq<char>) -> int {
    choose|i: int| 0 <= i < acc.len() && acc[i].spec_name() == name
}

/// Adds a service to a pending list, replacing a service of the same name.
pub open spec fn svc_replace_or_push(acc: Seq<Service>, s: Service) -> Seq<Service> {
    if seq_has_name(acc, s.spec_name()) {
        acc.update(svc_name_index(acc, s.spec_name()), s)
    } else {
        acc.push(s)
    }
}

/// The pending service list built from the first `n` configured services,
/// where a repeated name redefines the service.
pub open spec fn dedup_services(ss: Seq<Service>, n: int) -> Seq<Service>
    decreases n,
{
    if n <= 0 {
        Seq::empty()
    } else {
        svc_replace_or_push(dedup_services(ss, n - 1), ss[n - 1])
    }
}

impl WebSocketServer {
    /// The bound host, for use in specifications.
    pub closed spec fn spec_host(&self) -> Seq<char> {
        self.host@
    }

    /// The bound port, for use in specifications.
    pub closed spec fn spec_port(&self) -> u16 {
        self.port
    }

    /// The advertised name, for use in specifications.
    pub closed spec fn spec_name(&self) -> Option<Seq<char>> {
        match self.name {
            Some(n) => Some(n@),
            None => None,
        }
    }

    /// The configured session id, for use in specifications.
    pub closed spec fn spec_session_id(&self) -> Option<Seq<char>> {
        match self.session_id {
            Some(s) => Some(s@),
            None => None,
        }
    }

    /// The advertised capabilities, for use in specifications.
    pub closed spec fn spec_capabilities(&self) -> Seq<Capability> {
        self.capabilities@
    }

    /// The supported client encodings, for use in specifications.
    pub closed spec fn spec_supported_encodings(&self) -> Seq<Seq<char>> {
        id_views(self.supported_encodings@)
    }

    /// The outbound queue size, for use in specifications.
    pub closed spec fn spec_message_backlog_size(&self) -> int {
        self.message_backlog_size as int
    }

    /// The pending services, for use in specifications.
    pub closed spec fn spec_services(&self) -> Seq<Service> {
        self.services@
    }

    /// Creates a new websocket server with default options: bound to
    /// 127.0.0.1:8765, no name, a fresh wall-clock session id, no
    /// capabilities, and a backlog of 1024 messages.
    pub fn new() -> (r: Self)
        ensures
            r.spec_host() == "127.0.0.1"@,
            r.spec_port() == 8765,
            r.spec_name() is None,
            r.spec_session_id() matches Some(s) && (exists|n: int| 0 <= n && s == dec_digits(n)),
            r.spec_capabilities().len() == 0,
            r.spec_supported_encodings().len() == 0,
            r.spec_message_backlog_size() == 1024,
            r.spec_services().len() == 0,
    {
        WebSocketServer {
            host: String::from_str("127.0.0.1"),
            port: 8765,
            name: None,
            session_id: Some(generate_session_id()),
            capabilities: Vec::new(),
            supported_encodings: Vec::new(),
            message_backlog_size: 1024,
            services: Vec::new(),
        }
    }

    /// The configured host.
    pub fn host(&self) -> (r: &str)
        ensures
            r@ == self.spec_host(),
    {
        self.host.as_str()
    }

    /// The configured port.
    pub fn port(&self) -> (r: u16)
        ensures
            r == self.spec_port(),
    {
        self.port
    }

    /// Set the websocket server name to advertise to clients.
    pub fn name(self, name: &str) -> (r: Self)
        ensures
            r.spec_name() == Some(name@),
            r.spec_host() == self.spec_host(),
            r.spec_port() == self.spec_port(),
            r.spec_session_id() == self.spec_session_id(),
            r.spec_capabilities() == self.spec_capabilities(),
            r.spec_supported_encodings() == self.spec_supported_encodings(),
            r.spec_message_backlog_size() == self.spec_message_backlog_size(),
            r.spec_services() == self.spec_services(),
    {
        WebSocketServer { name: Some(name.to_owned()), ..self }
    }

    /// Bind a TCP host and port. By default, the server is addressed at
    /// 127.0.0.1:8765.
    pub fn bind(self, host: &str, port: u16) -> (r: Self)
        ensures
            r.spec_host() == host@,
            r.spec_port() == port,
            r.spec_name() == self.spec_name(),
            r.spec_session_id() == self.spec_session_id(),
            r.spec_capabilities() == self.spec_capabilities(),
            r.spec_supported_encodings() == self.spec_supported_encodings(),
            r.spec_message_backlog_size() == self.spec_message_backlog_size(),
            r.spec_services() == self.spec_services(),
    {
        WebSocketServer { host: host.to_owned(), port, ..self }
    }

    /// Sets the server capabilities to advertise to the client. By default,
    /// the server advertises none.
    pub fn capabilities(self, capabilities: Vec<Capability>) -> (r: Self)
        ensures
            r.spec_capabilities() == capabilities@,
            r.spec_host() == self.spec_host(),
            r.spec_port() == self.spec_port(),
            r.spec_name() == self.spec_name(),
            r.spec_session_id() == self.spec_session_id(),
            r.spec_supported_encodings() == self.spec_supported_encodings(),
            r.spec_message_backlog_size() == self.spec_message_backlog_size(),
            r.spec_services() == self.spec_services(),
    {
        WebSocketServer { capabilities, ..self }
    }

    /// Set the message backlog size: the server buffers this many outgoing
    /// frames per client before dropping the oldest. The default is 1024.
    pub fn message_backlog_size(self, size: u64) -> (r: Self)
        ensures
            r.spec_message_backlog_size() == size,
            r.spec_host() == self.spec_host(),
            r.spec_port() == self.spec_port(),
            r.spec_name() == self.spec_name(),
            r.spec_session_id() == self.spec_session_id(),
            r.spec_capabilities() == self.spec_capabilities(),
            r.spec_supported_encodings() == self.spec_supported_encodings(),
            r.spec_services() == self.spec_services(),
    {
        WebSocketServer { message_backlog_size: size, ..self }
    }

    /// Configure the set of services to advertise to clients: a repeated
    /// name redefines the service. Adds the services capability to the set
    /// of advertised capabilities if it is absent.
    pub fn services(self, services: Vec<Service>) -> (r: Self)
        ensures
            r.spec_services() == dedup_services(services@, services@.len() as int),
            r.spec_capabilities() == if self.spec_capabilities().contains(Capability::Services) {
                self.spec_capabilities()
            } else {
                self.spec_capabilities().push(Capability::Services)
            },
            r.spec_host() == self.spec_host(),
            r.spec_port() == self.spec_port(),
            r.spec_name() == self.spec_name(),
            r.spec_session_id() == self.spec_session_id(),
            r.spec_supported_encodings() == self.spec_supported_encodings(),
            r.spec_message_backlog_size() == self.spec_message_backlog_size(),
    {
        let mut pending: Vec<Service> = Vec::new();
        let ghost orig = services@;
        let n = services.len();
        let mut services = services;
        let mut i: usize = 0;
        while i < n
            invariant
                orig.len() == n,
                0 <= i <= n,
                services@ == orig.skip(i as int),
                pending@ == dedup_services(orig, i as int),
                forall|p: int, q: int|
                    #![trigger pending@[p], pending@[q]]
                    0 <= p < q < pending@.len() ==> pending@[p].spec_name()
                        != pending@[q].spec_name(),
            decreases n - i,
        {
            let s = services.remove(0);
            proof {
                assert(s == orig[i as int]);
                assert(services@ =~= orig.skip(i + 1));
            }
            let ghost pre = pending@;
            let m = pending.len();
            let mut k: usize = 0;
            let mut found: bool = false;
            let mut idx: usize = 0;
            while k < m
                invariant
                    m == pending@.len(),
                    0 <= k <= m,
                    pending@ == pre,
                    s == orig[i as int],
                    !found ==> forall|t: int| 0 <= t < k ==> pre[t].spec_name() != s.spec_name(),
                    found ==> idx < k <= m && pre[idx as int].spec_name() == s.spec_name(),
                decreases m - k,
            {
                if !found && crate::text::str_eq(pending[k].name(), s.name()) {
                    found = true;
                    idx = k;
                }
                k = k + 1;
            }
            if found {
                proof {
                    assert(seq_has_name(pre, s.spec_name()));
                    let j = svc_name_index(pre, s.spec_name());
                    assert(0 <= j < pre.len() && pre[j].spec_name() == s.spec_name());
                    if j != idx {
                        assert(pre[j].spec_name() != pre[idx as int].spec_name());
                    }
                }
                pending.set(idx, s);
                proof {
                    assert(pending@ == svc_replace_or_push(pre, orig[i as int]));
                    assert(pending@ == dedup_services(orig, i + 1));
                    assert forall|p: int, q: int|
                        #![trigger pending@[p], pending@[q]]
                        0 <= p < q < pending@.len() implies pending@[p].spec_name()
                        != pending@[q].spec_name() by {
                        assert(pre[p].spec_name() != pre[q].spec_name());
                    }
                }
            } else {
                proof {
                    assert(!seq_has_name(pre, s.spec_name()));
                }
                pending.push(s);
                proof {
                    assert(pending@ == svc_replace_or_push(pre, orig[i as int]));
                    assert(pending@ == dedup_services(orig, i + 1));
                    assert forall|p: int, q: int|
                        #![trigger pending@[p], pending@[q]]
                        0 <= p < q < pending@.len() implies pending@[p].spec_name()
                        != pending@[q].spec_name() by {
                        if q < pre.len() {
                            assert(pre[p].spec_name() != pre[q].spec_name());
                        } else {
                            assert(pending@[q] == s);
                            assert(pre[p].spec_name() != s.spec_name());
                        }
                    }
                }
            }
            i = i + 1;
        }
        let mut this = self;
        let has_services_cap = has_capability_in(&this.capabilities, Capability::Services);
        if !has_services_cap {
            this.capabilities.push(Capability::Services);
        }
        WebSocketServer { services: pending, ..this }
    }

    /// Configure the set of supported encodings for client requests. This is
    /// used for both client-side publishing and service call requests.
    pub fn supported_encodings(self, encodings: Vec<String>) -> (r: Self)
        ensures
            r.spec_supported_encodings() == id_views(encodings@),
            r.spec_host() == self.spec_host(),
            r.spec_port() == self.spec_port(),
            r.spec_name() == self.spec_name(),
            r.spec_session_id() == self.spec_session_id(),
            r.spec_capabilities() == self.spec_capabilities(),
            r.spec_message_backlog_size() == self.spec_message_backlog_size(),
            r.spec_services() == self.spec_services(),
    {
        WebSocketServer { supported_encodings: encodings, ..self }
    }

    /// Set a session id, which lets the client understand if a connection is
    /// a reconnection. By default, this is the number of milliseconds since
    /// the unix epoch.
    pub fn session_id(self, id: &str) -> (r: Self)
        ensures
            r.spec_session_id() == Some(id@),
            r.spec_host() == self.spec_host(),
            r.spec_port() == self.spec_port(),
            r.spec_name() == self.spec_name(),
            r.spec_capabilities() == self.spec_capabilities(),
            r.spec_supported_encodings() == self.spec_supported_encodings(),
            r.spec_message_backlog_size() == self.spec_message_backlog_size(),
            r.spec_services() == self.spec_services(),
    {
        WebSocketServer { session_id: Some(id.to_owned()), ..self }
    }
}

impl Default for WebSocketServer {
    /// A server with default options: bound to 127.0.0.1:8765, no name, a
    /// fresh wall-clock session id, no capabilities, and a backlog of 1024
    /// messages.
    fn default() -> (r: Self)
        ensures
            r.spec_host() == "127.0.0.1"@,
            r.spec_port() == 8765,
            r.spec_name() is None,
            r.spec_session_id() matches Some(s) && (exists|n: int| 0 <= n && s == dec_digits(n)),
            r.spec_capabilities().len() == 0,
            r.spec_supported_encodings().len() == 0,
            r.spec_message_backlog_size() == 1024,
            r.spec_services().len() == 0,
    {
        WebSocketServer::new()
    }
}

/// True if the capability list holds `c`.
fn has_capability_in(caps: &Vec<Capability>, c: Capability) -> (r: bool)
    ensures
        r == caps@.contains(c),
{
    let n = caps.len();
    let mut i: usize = 0;
    while i < n
        invariant
            n == caps@.len(),
            0 <= i <= n,
            forall|k: int| 0 <= k < i ==> caps@[k] != c,
        decreases n - i,
    {
        if caps[i] == c {
            return true;
        }
        i = i + 1;
    }
    false
}

/// True if the services can all be added to a registry with this view:
/// their ids and names are distinct among themselves and collide with no
/// registered service.
pub open spec fn services_addable(view: Seq<Service>, batch: Seq<Service>) -> bool {
    &&& forall|i: int, j: int|
        0 <= i < j < batch.len() ==> batch[i].spec_id().0 != batch[j].spec_id().0
            && batch[i].spec_name() != batch[j].spec_name()
    &&& forall|i: int|
        0 <= i < batch.len() ==> !seq_has_id(view, (#[trigger] batch[i]).spec_id().0)
            && !seq_has_name(view, batch[i].spec_name())
}

/// A running websocket server: the session state that its operations read
/// and update. The embedding code owns the transport; this state decides
/// what is sent.
#[derive(Debug)]
pub struct WebSocketServerHandle {
    session_id: String,
    name: String,
    capabilities: Vec<Capability>,
    supported_encodings: Vec<String>,
    message_backlog_size: u64,
    services: ServiceMap,
    graph: ConnectionGraph,
}

impl WebSocketServerHandle {
    /// The session id, for use in specifications.
    pub closed spec fn spec_session_id(&self) -> Seq<char> {
        self.session_id@
    }

    /// The advertised name, for use in specifications.
    pub closed spec fn spec_name(&self) -> Seq<char> {
        self.name@
    }

    /// The advertised capabilities, for use in specifications.
    pub closed spec fn spec_capabilities(&self) -> Seq<Capability> {
        self.capabilities@
    }

    /// The supported client encodings, for use in specifications.
    pub closed spec fn spec_supported_encodings(&self) -> Seq<Seq<char>> {
        id_views(self.supported_encodings@)
    }

    /// The outbound queue size, for use in specifications.
    pub closed spec fn spec_message_backlog_size(&self) -> int {
        self.message_backlog_size as int
    }

    /// The service registry, for use in specifications.
    pub closed spec fn spec_services(&self) -> ServiceMap {
        self.services
    }

    /// The last-published connection graph, for use in specifications.
    pub closed spec fn spec_graph(&self) -> ConnectionGraph {
        self.graph
    }

    /// Well-formedness: the service registry and the connection graph keep
    /// their invariants.
    pub open spec fn wf(&self) -> bool {
        self.spec_services().wf() && self.spec_graph().wf()
    }

    /// True if the server advertises the capability, for use in
    /// specifications.
    pub open spec fn has_capability(&self, c: Capability) -> bool {
        self.spec_capabilities().contains(c)
    }

    /// The configuration of the handle, apart from the service registry and
    /// the connection graph, for use in specifications.
    pub open spec fn spec_config(&self) -> (
        Seq<char>,
        Seq<char>,
        Seq<Capability>,
        Seq<Seq<char>>,
        int,
    ) {
        (
            self.spec_session_id(),
            self.spec_name(),
            self.spec_capabilities(),
            self.spec_supported_encodings(),
            self.spec_message_backlog_size(),
        )
    }

    /// The server-info document for the current session, which is sent to
    /// each client on connect.
    pub fn server_info(&self) -> (r: String)
        ensures
            r@ == server_info_json(
                self.spec_name(),
                self.spec_capabilities(),
                self.spec_supported_encodings(),
                self.spec_session_id(),
            ),
    {
        encode_server_info(
            self.name.as_str(),
            &self.capabilities,
            &self.supported_encodings,
            self.session_id.as_str(),
        )
    }

    /// Decides whether a client's request is admitted by capability: nothing
    /// for an admissible request, and the error status document to send back
    /// when the request depends on a capability the server did not
    /// advertise.
    pub fn check_client_capability(&self, op: ClientOperation) -> (r: Option<String>)
        ensures
            r is None <==> (match required_capability(op) {
                None => true,
                Some(c) => self.has_capability(c),
            }),
            r matches Some(doc) ==> (match required_capability(op) {
                Some(c) => !self.has_capability(c) && doc@ == capability_denied_json(c),
                None => false,
            }),
    {
        let c = match required_capability_of(op) {
            Some(c) => c,
            None => {
                return None;
            },
        };
        if has_capability_in(&self.capabilities, c) {
            return None;
        }
        let mut out = String::new();
        out.append("{\"op\":\"status\",\"level\":2,\"message\":\"capability not granted: ");
        let label = capability_label(c);
        out.append(label.as_str());
        out.append("\"}");
        proof {
            assert(out@ =~= capability_denied_json(c));
        }
        Some(out)
    }

    /// True if the encoding is among the configured supported encodings, as
    /// client-published messages must be.
    pub fn encoding_supported(&self, encoding: &str) -> (r: bool)
        ensures
            r == self.spec_supported_encodings().contains(encoding@),
    {
        let r = crate::text::vec_contains_str(&self.supported_encodings, encoding);
        proof {
            let fb = id_views(self.supported_encodings@);
            if fb.contains(encoding@) {
                let j = choose|j: int| 0 <= j < fb.len() && fb[j] == encoding@;
                assert(self.supported_encodings@[j]@ == encoding@);
            }
            if exists|j: int|
                0 <= j < self.supported_encodings@.len() && self.supported_encodings@[j]@
                    == encoding@ {
                let j = choose|j: int|
                    0 <= j < self.supported_encodings@.len() && self.supported_encodings@[j]@
                        == encoding@;
                assert(fb[j] == encoding@);
            }
        }
        r
    }

    /// Decides whether a client's service request is admitted, with the
    /// server's configured supported encodings as the fallback where the
    /// called service declares no request encoding.
    pub fn accept_client_call(
        &self,
        used_call_ids: &Vec<u32>,
        service_id: crate::service::ServiceId,
        call_id: crate::service::CallId,
        encoding: &str,
        permit_available: bool,
    ) -> (r: Result<(), crate::service::ServiceCallRejection>)
        requires
            self.wf(),
        ensures
            r == Ok::<(), crate::service::ServiceCallRejection>(()) <==> self.spec_services().has_id(
                service_id.0,
            ) && !used_call_ids@.contains(call_id.0) && crate::service::call_encoding_ok(
                &self.spec_services(),
                service_id.0,
                encoding@,
                self.spec_supported_encodings(),
            ) && permit_available,
            !self.spec_services().has_id(service_id.0) ==> r == Err::<
                (),
                crate::service::ServiceCallRejection,
            >(crate::service::ServiceCallRejection::UnknownService),
            self.spec_services().has_id(service_id.0) && used_call_ids@.contains(call_id.0)
                ==> r == Err::<(), crate::service::ServiceCallRejection>(
                crate::service::ServiceCallRejection::CallIdReused,
            ),
            self.spec_services().has_id(service_id.0) && !used_call_ids@.contains(call_id.0)
                && !crate::service::call_encoding_ok(
                &self.spec_services(),
                service_id.0,
                encoding@,
                self.spec_supported_encodings(),
            ) ==> r == Err::<(), crate::service::ServiceCallRejection>(
                crate::service::ServiceCallRejection::EncodingMismatch,
            ),
            self.spec_services().has_id(service_id.0) && !used_call_ids@.contains(call_id.0)
                && crate::service::call_encoding_ok(
                &self.spec_services(),
                service_id.0,
                encoding@,
                self.spec_supported_encodings(),
            ) && !permit_available ==> r == Err::<(), crate::service::ServiceCallRejection>(
                crate::service::ServiceCallRejection::Overloaded,
            ),
    {
        crate::service::accept_call(
            &self.services,
            used_call_ids,
            service_id,
            call_id,
            encoding,
            &self.supported_encodings,
            permit_available,
        )
    }

    /// Advertises support for the provided services, which are available to
    /// clients until they are removed; returns the document announcing them
    /// to every client.
    ///
    /// Fails if the server was not configured with the services capability,
    /// or if a service id or name collides with a registered service or
    /// another service of the batch; a failed call changes nothing.
    pub fn add_services(&mut self, services: Vec<Service>) -> (r: Result<
        String,
        crate::FoxgloveError,
    >)
        requires
            old(self).wf(),
        ensures
            final(self).wf(),
            final(self).spec_config() == old(self).spec_config(),
            final(self).spec_graph() == old(self).spec_graph(),
            r is Ok <==> old(self).has_capability(Capability::Services) && services_addable(
                old(self).spec_services().view_seq(),
                services@,
            ),
            r matches Ok(doc) ==> final(self).spec_services().view_seq() == old(
                self,
            ).spec_services().view_seq() + services@ && doc@ == advertise_services_json(services@),
            r is Err ==> final(self).spec_services() == old(self).spec_services(),
            !old(self).has_capability(Capability::Services) ==> r == Err::<
                String,
                crate::FoxgloveError,
            >(crate::FoxgloveError::ServicesNotSupported),
            old(self).has_capability(Capability::Services) && !services_addable(
                old(self).spec_services().view_seq(),
                services@,
            ) ==> r == Err::<String, crate::FoxgloveError>(crate::FoxgloveError::DuplicateService),
    {
        if !has_capability_in(&self.capabilities, Capability::Services) {
            return Err(crate::FoxgloveError::ServicesNotSupported);
        }
        let n = services.len();
        let mut i: usize = 0;
        while i < n
            invariant
                self == old(self),
                old(self).wf(),
                old(self).has_capability(Capability::Services),
                n == services@.len(),
                0 <= i <= n,
                forall|p: int, q: int|
                    0 <= p < q < i ==> services@[p].spec_id().0 != services@[q].spec_id().0
                        && services@[p].spec_name() != services@[q].spec_name(),
                forall|p: int|
                    0 <= p < i ==> !seq_has_id(
                        old(self).spec_services().view_seq(),
                        (#[trigger] services@[p]).spec_id().0,
                    ) && !seq_has_name(
                        old(self).spec_services().view_seq(),
                        services@[p].spec_name(),
                    ),
            decreases n - i,
        {
            if self.services.contains_id(services[i].id()) {
                proof {
                    assert(seq_has_id(
                        old(self).spec_services().view_seq(),
                        services@[i as int].spec_id().0,
                    ));
                    assert(!services_addable(old(self).spec_services().view_seq(), services@));
                }
                return Err(crate::FoxgloveError::DuplicateService);
            }
            if self.services.contains_name(services[i].name()) {
                proof {
                    assert(seq_has_name(
                        old(self).spec_services().view_seq(),
                        services@[i as int].spec_name(),
                    ));
                    assert(!services_addable(old(self).spec_services().view_seq(), services@));
                }
                return Err(crate::FoxgloveError::DuplicateService);
            }
            let mut k: usize = 0;
            while k < i
                invariant
                    self == old(self),
                    old(self).wf(),
                    old(self).has_capability(Capability::Services),
                    0 <= k <= i < n,
                    n == services@.len(),
                    forall|t: int|
                        0 <= t < k ==> services@[t].spec_id().0 != services@[i as int].spec_id().0
                            && services@[t].spec_name() != services@[i as int].spec_name(),
                decreases i - k,
            {
                if services[k].id().value() == services[i].id().value() {
                    proof {
                        assert(services@[k as int].spec_id().0 == services@[i as int].spec_id().0);
                        assert(!services_addable(
                            old(self).spec_services().view_seq(),
                            services@,
                        ));
                    }
                    return Err(crate::FoxgloveError::DuplicateService);
                }
                if crate::text::str_eq(services[k].name(), services[i].name()) {
                    proof {
                        assert(services@[k as int].spec_name() == services@[
                            i as int
                        ].spec_name());
                        assert(!services_addable(
                            old(self).spec_services().view_seq(),
                            services@,
                        ));
                    }
                    return Err(crate::FoxgloveError::DuplicateService);
                }
                k = k + 1;
            }
            i = i + 1;
        }
        let document = encode_advertise_services(&services);
        let ghost base = self.services.view_seq();
        let ghost all = services@;
        let mut services = services;
        let mut j: usize = 0;
        while j < n
            invariant
                base == old(self).spec_services().view_seq(),
                self.spec_config() == old(self).spec_config(),
                self.spec_graph() == old(self).spec_graph(),
                n == all.len(),
                0 <= j <= n,
                services@ == all.skip(j as int),
                self.services.wf(),
                self.services.view_seq() == base + all.take(j as int),
                services_addable(base, all),
            decreases n - j,
        {
            let s = services.remove(0);
            proof {
                assert(s == all[j as int]);
                assert(services@ =~= all.skip(j + 1));
                let cur = self.services.view_seq();
                assert forall|t: int| 0 <= t < cur.len() implies cur[t].spec_id().0 != s.spec_id().0
                    && cur[t].spec_name() != s.spec_name() by {
                    if t < base.len() {
                        assert(!seq_has_id(base, (all[j as int]).spec_id().0));
                        assert(!seq_has_name(base, all[j as int].spec_name()));
                        if cur[t].spec_id().0 == s.spec_id().0 {
                            assert(seq_has_id(base, all[j as int].spec_id().0));
                        }
                        if cur[t].spec_name() == s.spec_name() {
                            assert(seq_has_name(base, all[j as int].spec_name()));
                        }
                    } else {
                        let p = t - base.len();
                        assert(cur[t] == all[p]);
                        assert(all[p].spec_id().0 != all[j as int].spec_id().0 && all[
                            p
                        ].spec_name() != all[j as int].spec_name());
                    }
                }
                if seq_has_id(self.services.view_seq(), s.spec_id().0) {
                    let w = choose|w: int|
                        0 <= w < self.services.view_seq().len() && self.services.view_seq()[
                            w
                        ].spec_id().0 == s.spec_id().0;
                    assert(false);
                }
                if seq_has_name(self.services.view_seq(), s.spec_name()) {
                    let w = choose|w: int|
                        0 <= w < self.services.view_seq().len() && self.services.view_seq()[
                            w
                        ].spec_name() == s.spec_name();
                    assert(false);
                }
            }
            self.services.insert(s);
            proof {
                assert(self.services.view_seq() =~= base + all.take(j + 1));
            }
            j = j + 1;
        }
        proof {
            assert(all.take(n as int) =~= all);
        }
        Ok(document)
    }

    /// Removes services that were previously advertised, by id; returns the
    /// document retracting the removed services — those that were actually
    /// registered — from every client.
    pub fn remove_services(&mut self, ids: Vec<ServiceId>) -> (r: String)
        requires
            old(self).wf(),
        ensures
            final(self).wf(),
            final(self).spec_config() == old(self).spec_config(),
            final(self).spec_graph() == old(self).spec_graph(),
            final(self).spec_services().view_seq() == crate::service::without_ids(
                old(self).spec_services().view_seq(),
                ids@,
            ),
            r@ == unadvertise_services_json(
                crate::service::removed_ids(old(self).spec_services().view_seq(), ids@),
            ),
    {
        let removed = self.services.retain_without_ids(&ids);
        encode_unadvertise_services(&removed)
    }

    /// The registered services, in registration order.
    pub fn services(&self) -> (r: &Vec<Service>)
        ensures
            r@ == self.spec_services().view_seq(),
    {
        self.services.values()
    }

    /// Publishes the current server timestamp: the binary time frame to send
    /// to every client, if the time capability is advertised, and nothing
    /// otherwise.
    pub fn broadcast_time(&self, timestamp_nanos: u64) -> (r: Option<Vec<u8>>)
        ensures
            r is Some <==> self.has_capability(Capability::Time),
            r matches Some(f) ==> f@ == crate::framing::time_frame(timestamp_nanos),
    {
        if has_capability_in(&self.capabilities, Capability::Time) {
            Some(crate::framing::encode_time(timestamp_nanos))
        } else {
            None
        }
    }

    /// Sets a new session id, or generates a fresh one from the wall clock,
    /// and returns the server-info document that notifies every client,
    /// causing them to reset their state.
    pub fn clear_session(&mut self, new_session_id: Option<String>) -> (r: String)
        ensures
            final(self).spec_name() == old(self).spec_name(),
            final(self).spec_capabilities() == old(self).spec_capabilities(),
            final(self).spec_supported_encodings() == old(self).spec_supported_encodings(),
            final(self).spec_message_backlog_size() == old(self).spec_message_backlog_size(),
            final(self).spec_services() == old(self).spec_services(),
            final(self).spec_graph() == old(self).spec_graph(),
            new_session_id matches Some(s) ==> final(self).spec_session_id() == s@,
            new_session_id is None ==> (exists|n: int|
                0 <= n && final(self).spec_session_id() == dec_digits(n)),
            r@ == server_info_json(
                final(self).spec_name(),
                final(self).spec_capabilities(),
                final(self).spec_supported_encodings(),
                final(self).spec_session_id(),
            ),
    {
        self.session_id = match new_session_id {
            Some(s) => s,
            None => generate_session_id(),
        };
        self.server_info()
    }

    /// Publishes parameter values: the document to send to every client, if
    /// the parameters capability is advertised, and nothing otherwise.
    pub fn publish_parameter_values(&self, parameters: Vec<Parameter>) -> (r: Option<String>)
        ensures
            r is Some <==> self.has_capability(Capability::Parameters),
            r matches Some(doc) ==> doc@ == parameter_values_json(parameters@),
    {
        if has_capability_in(&self.capabilities, Capability::Parameters) {
            Some(encode_parameter_values(&parameters))
        } else {
            None
        }
    }

    /// Publishes a status message: the document to send to every client.
    pub fn publish_status(&self, status: &Status) -> (r: String)
        ensures
            r@ == status_json(*status),
    {
        encode_status(status)
    }

    /// Removes status messages by id: the document to send to every client.
    pub fn remove_status(&self, status_ids: Vec<String>) -> (r: String)
        ensures
            r@ == remove_status_json(id_views(status_ids@)),
    {
        encode_remove_status(&status_ids)
    }

    /// Publishes a connection graph update: replaces the last-published
    /// graph and returns the update document for subscribed clients. Fails
    /// if the server was not configured with the connection-graph
    /// capability; a failed call changes nothing.
    pub fn publish_connection_graph(&mut self, update: ConnectionGraph) -> (r: Result<
        String,
        crate::FoxgloveError,
    >)
        requires
            old(self).wf(),
            update.wf(),
        ensures
            final(self).wf(),
            final(self).spec_config() == old(self).spec_config(),
            final(self).spec_services() == old(self).spec_services(),
            r is Ok <==> old(self).has_capability(Capability::ConnectionGraph),
            r is Err ==> r == Err::<String, crate::FoxgloveError>(
                crate::FoxgloveError::ConnectionGraphNotSupported,
            ) && final(self).spec_graph() == old(self).spec_graph(),
            r matches Ok(doc) ==> final(self).spec_graph() == update && doc@
                == crate::connection_graph::diff_json(
                crate::connection_graph::changed_entries(
                    old(self).spec_graph().published_topics.view_entries(),
                    update.published_topics.view_entries(),
                ),
                crate::connection_graph::changed_entries(
                    old(self).spec_graph().subscribed_topics.view_entries(),
                    update.subscribed_topics.view_entries(),
                ),
                crate::connection_graph::changed_entries(
                    old(self).spec_graph().advertised_services.view_entries(),
                    update.advertised_services.view_entries(),
                ),
                crate::connection_graph::removed_topic_keys(
                    old(self).spec_graph().published_topics.view_entries(),
                    old(self).spec_graph().subscribed_topics.view_entries(),
                    update.published_topics.view_entries(),
                    update.subscribed_topics.view_entries(),
                ),
                crate::connection_graph::removed_service_keys(
                    old(self).spec_graph().advertised_services.view_entries(),
                    update.advertised_services.view_entries(),
                ),
            ),
    {
        if !has_capability_in(&self.capabilities, Capability::ConnectionGraph) {
            return Err(crate::FoxgloveError::ConnectionGraphNotSupported);
        }
        Ok(self.graph.update(update))
    }

    /// Gracefully shuts down the session: consumes the handle, after which
    /// no operation can be invoked on it.
    pub fn stop(self) {
    }
}

impl WebSocketServer {
    /// Turns the configured options into a running session state. The
    /// embedding code binds the socket; this constructs everything the
    /// session decides with.
    ///
    /// Fails if two configured services share an id; a repeated name was
    /// already resolved by [`WebSocketServer::services`].
    pub fn into_handle(self) -> (r: Result<WebSocketServerHandle, crate::FoxgloveError>)
        ensures
            r is Ok <==> services_addable(Seq::<Service>::empty(), self.spec_services()),
            r is Err ==> r == Err::<WebSocketServerHandle, crate::FoxgloveError>(
                crate::FoxgloveError::DuplicateService,
            ),
            r matches Ok(h) ==> {
                &&& h.wf()
                &&& h.spec_name() == (match self.spec_name() {
                    Some(n) => n,
                    None => Seq::<char>::empty(),
                })
                &&& self.spec_session_id() matches Some(s) ==> h.spec_session_id() == s
                &&& self.spec_session_id() is None ==> (exists|n: int|
                    0 <= n && h.spec_session_id() == dec_digits(n))
                &&& h.spec_capabilities() == self.spec_capabilities()
                &&& h.spec_supported_encodings() == self.spec_supported_encodings()
                &&& h.spec_message_backlog_size() == self.spec_message_backlog_size()
                &&& h.spec_services().view_seq() == self.spec_services()
                &&& h.spec_graph().published_topics.view_entries().len() == 0
                &&& h.spec_graph().subscribed_topics.view_entries().len() == 0
                &&& h.spec_graph().advertised_services.view_entries().len() == 0
            },
    {
        proof {
            assert(forall|id: u32| !seq_has_id(Seq::<Service>::empty(), id));
            assert(forall|nm: Seq<char>| !seq_has_name(Seq::<Service>::empty(), nm));
        }
        if !services_distinct(&self.services) {
            return Err(crate::FoxgloveError::DuplicateService);
        }
        Ok(
            WebSocketServerHandle {
                session_id: match self.session_id {
                    Some(s) => s,
                    None => generate_session_id(),
                },
                name: match self.name {
                    Some(n) => n,
                    None => String::new(),
                },
                capabilities: self.capabilities,
                supported_encodings: self.supported_encodings,
                message_backlog_size: self.message_backlog_size,
                services: ServiceMap::from_iter(self.services),
                graph: ConnectionGraph::new(),
            },
        )
    }
}

/// True if the services' ids and names are pairwise distinct.
fn services_distinct(services: &Vec<Service>) -> (r: bool)
    ensures
        r == forall|i: int, j: int|
            0 <= i < j < services@.len() ==> services@[i].spec_id().0 != services@[j].spec_id().0
                && services@[i].spec_name() != services@[j].spec_name(),
{
    let n = services.len();
    let mut i: usize = 0;
    while i < n
        invariant
            n == services@.len(),
            0 <= i <= n,
            forall|p: int, q: int|
                0 <= p < q < i ==> services@[p].spec_id().0 != services@[q].spec_id().0
                    && services@[p].spec_name() != services@[q].spec_name(),
        decreases n - i,
    {
        let mut k: usize = 0;
        while k < i
            invariant
                0 <= k <= i < n,
                n == services@.len(),
                forall|t: int|
                    0 <= t < k ==> services@[t].spec_id().0 != services@[i as int].spec_id().0
                        && services@[t].spec_name() != services@[i as int].spec_name(),
            decreases i - k,
        {
            if services[k].id().value() == services[i].id().value() {
                proof {
                    assert(services@[k as int].spec_id().0 == services@[i as int].spec_id().0);
                }
                return false;
            }
            if crate::text::str_eq(services[k].name(), services[i].name()) {
                proof {
                    assert(services@[k as int].spec_name() == services@[i as int].spec_name());
                }
                return false;
            }
            k = k + 1;
        }
        i = i + 1;
    }
    true
}

/// A blocking wrapper around a [`WebSocketServerHandle`]: the embedding code
/// drives it from synchronous contexts.
#[derive(Debug)]
pub struct WebSocketServerBlockingHandle {
    inner: WebSocketServerHandle,
}

impl WebSocketServerBlockingHandle {
    /// The wrapped handle, for use in specifications.
    pub closed spec fn spec_inner(&self) -> WebSocketServerHandle {
        self.inner
    }

    /// Wraps a handle.
    pub fn new(inner: WebSocketServerHandle) -> (r: Self)
        ensures
            r.spec_inner() == inner,
    {
        WebSocketServerBlockingHandle { inner }
    }

    /// Advertises support for the provided services; returns the document
    /// announcing them to every client.
    pub fn add_services(&mut self, services: Vec<Service>) -> (r: Result<
        String,
        crate::FoxgloveError,
    >)
        requires
            old(self).spec_inner().wf(),
        ensures
            final(self).spec_inner().wf(),
            final(self).spec_inner().spec_config() == old(self).spec_inner().spec_config(),
            final(self).spec_inner().spec_graph() == old(self).spec_inner().spec_graph(),
            r is Ok <==> old(self).spec_inner().has_capability(Capability::Services)
                && services_addable(
                old(self).spec_inner().spec_services().view_seq(),
                services@,
            ),
            r matches Ok(doc) ==> final(self).spec_inner().spec_services().view_seq() == old(
                self,
            ).spec_inner().spec_services().view_seq() + services@ && doc@
                == advertise_services_json(services@),
            r is Err ==> final(self).spec_inner().spec_services() == old(
                self,
            ).spec_inner().spec_services(),
    {
        self.inner.add_services(services)
    }

    /// Removes services that were previously advertised, by id; returns the
    /// document retracting the removed services from every client.
    pub fn remove_services(&mut self, ids: Vec<ServiceId>) -> (r: String)
        requires
            old(self).spec_inner().wf(),
        ensures
            final(self).spec_inner().wf(),
            final(self).spec_inner().spec_config() == old(self).spec_inner().spec_config(),
            final(self).spec_inner().spec_graph() == old(self).spec_inner().spec_graph(),
            final(self).spec_inner().spec_services().view_seq() == crate::service::without_ids(
                old(self).spec_inner().spec_services().view_seq(),
                ids@,
            ),
            r@ == unadvertise_services_json(
                crate::service::removed_ids(
                    old(self).spec_inner().spec_services().view_seq(),
                    ids@,
                ),
            ),
    {
        self.inner.remove_services(ids)
    }

    /// Publishes the current server timestamp, if the time capability is
    /// advertised.
    pub fn broadcast_time(&self, timestamp_nanos: u64) -> (r: Option<Vec<u8>>)
        ensures
            r is Some <==> self.spec_inner().has_capability(Capability::Time),
            r matches Some(f) ==> f@ == crate::framing::time_frame(timestamp_nanos),
    {
        self.inner.broadcast_time(timestamp_nanos)
    }

    /// Sets a new session id and returns the server-info document that
    /// notifies every client.
    pub fn clear_session(&mut self, new_session_id: Option<String>) -> (r: String)
        ensures
            final(self).spec_inner().spec_name() == old(self).spec_inner().spec_name(),
            final(self).spec_inner().spec_capabilities() == old(
                self,
            ).spec_inner().spec_capabilities(),
            final(self).spec_inner().spec_supported_encodings() == old(
                self,
            ).spec_inner().spec_supported_encodings(),
            final(self).spec_inner().spec_message_backlog_size() == old(
                self,
            ).spec_inner().spec_message_backlog_size(),
            final(self).spec_inner().spec_services() == old(self).spec_inner().spec_services(),
            final(self).spec_inner().spec_graph() == old(self).spec_inner().spec_graph(),
            new_session_id matches Some(s) ==> final(self).spec_inner().spec_session_id() == s@,
            new_session_id is None ==> (exists|n: int|
                0 <= n && final(self).spec_inner().spec_session_id() == dec_digits(n)),
            r@ == server_info_json(
                final(self).spec_inner().spec_name(),
                final(self).spec_inner().spec_capabilities(),
                final(self).spec_inner().spec_supported_encodings(),
                final(self).spec_inner().spec_session_id(),
            ),
    {
        self.inner.clear_session(new_session_id)
    }

    /// Publishes parameter values, if the parameters capability is
    /// advertised.
    pub fn publish_parameter_values(&self, parameters: Vec<Parameter>) -> (r: Option<String>)
        ensures
            r is Some <==> self.spec_inner().has_capability(Capability::Parameters),
            r matches Some(doc) ==> doc@ == parameter_values_json(parameters@),
    {
        self.inner.publish_parameter_values(parameters)
    }

    /// Publishes a status message.
    pub fn publish_status(&self, status: &Status) -> (r: String)
        ensures
            r@ == status_json(*status),
    {
        self.inner.publish_status(status)
    }

    /// Removes status messages by id.
    pub fn remove_status(&self, status_ids: Vec<String>) -> (r: String)
        ensures
            r@ == remove_status_json(id_views(status_ids@)),
    {
        self.inner.remove_status(status_ids)
    }

    /// Publishes a connection graph update to subscribed clients.
    pub fn publish_connection_graph(&mut self, update: ConnectionGraph) -> (r: Result<
        String,
        crate::FoxgloveError,
    >)
        requires
            old(self).spec_inner().wf(),
            update.wf(),
        ensures
            final(self).spec_inner().wf(),
            r is Ok <==> old(self).spec_inner().has_capability(Capability::ConnectionGraph),
            r matches Ok(doc) ==> final(self).spec_inner().spec_graph() == update,
            r is Err ==> r == Err::<String, crate::FoxgloveError>(
                crate::FoxgloveError::ConnectionGraphNotSupported,
            ) && final(self).spec_inner().spec_graph() == old(self).spec_inner().spec_graph(),
    {
        self.inner.publish_connection_graph(update)
    }

    /// Gracefully shuts down the session.
    pub fn stop(self) {
        self.inner.stop()
    }
}

/// Session state for an embedding that creates the server in one call,
/// starts it in a second and stops it in a third, as a foreign interface
/// does: the configured server until started, the running handle after.
pub struct FoxgloveWebSocketServer {
    server: Option<WebSocketServer>,
    handle: Option<WebSocketServerBlockingHandle>,
}

impl FoxgloveWebSocketServer {
    /// True if the server was started and not yet stopped, for use in
    /// specifications.
    pub closed spec fn is_started(&self) -> bool {
        self.handle is Some
    }

    /// True if the server holds its configuration and can be started, for
    /// use in specifications.
    pub closed spec fn is_startable(&self) -> bool {
        self.server is Some
    }

    /// Wraps a configured server.
    pub fn new(server: WebSocketServer) -> (r: Self)
        ensures
            r.is_startable(),
            !r.is_started(),
    {
        FoxgloveWebSocketServer { server: Some(server), handle: None }
    }

    /// Starts the server: turns the configuration into a running session.
    /// The configuration must still be present, and the server must not
    /// already be started.
    pub fn start(&mut self) -> (r: Result<(), crate::FoxgloveError>)
        requires
            old(self).is_startable(),
            !old(self).is_started(),
        ensures
            r is Ok ==> final(self).is_started() && !final(self).is_startable(),
            r is Err ==> !final(self).is_started(),
    {
        let server = match self.server.take() {
            Some(s) => s,
            None => {
                return Err(crate::FoxgloveError::Bind);
            },
        };
        match server.into_handle() {
            Ok(h) => {
                self.handle = Some(WebSocketServerBlockingHandle::new(h));
                Ok(())
            },
            Err(e) => Err(e),
        }
    }

    /// Stops the server, consuming the running handle.
    pub fn stop(&mut self)
        requires
            old(self).is_started(),
        ensures
            !final(self).is_started(),
    {
        match self.handle.take() {
            Some(h) => h.stop(),
            None => {},
        }
    }
}

/// A running server as a C++ embedding holds it.
pub struct CppWebSocketServer {
    handle: WebSocketServerBlockingHandle,
}

impl CppWebSocketServer {
    /// The wrapped handle, for use in specifications.
    pub closed spec fn spec_handle(&self) -> WebSocketServerBlockingHandle {
        self.handle
    }

    /// Wraps a running handle.
    pub fn new(handle: WebSocketServerBlockingHandle) -> (r: Self)
        ensures
            r.spec_handle() == handle,
    {
        CppWebSocketServer { handle }
    }

    /// Stops the wrapped server.
    pub fn stop(self) {
        self.handle.stop()
    }
}

} // verus!
