//! Per-connection metrics recorded in Prometheus counters and gauges.
//!
//! The counters live in the process-wide Prometheus registry, which every
//! connection updates through shared references; what an update does to a
//! counter's value is therefore not stated here. What is stated and
//! checked is that every update names as many labels as its metric was
//! made with, which Prometheus otherwise enforces by panicking.
use vstd::prelude::*;

verus! {

/// A Prometheus `IntCounterVec`: integer counters told apart by label
/// values. The builder type behind `IntCounterVec` is private to
/// `prometheus`, so the type cannot be declared; the vector is held in a
/// hidden field instead.
#[verifier::external_body]
pub struct CounterFamily {
    inner: prometheus::IntCounterVec,
}

/// A Prometheus `IntGaugeVec`: integer gauges told apart by label values.
#[verifier::external_body]
pub struct GaugeFamily {
    inner: prometheus::IntGaugeVec,
}

/// How many variable labels a counter vector was made with.
pub uninterp spec fn counter_vec_label_count(v: CounterFamily) -> nat;

/// How many variable labels a gauge vector was made with.
pub uninterp spec fn gauge_vec_label_count(v: GaugeFamily) -> nat;

/// The metric name that a counter vector was made with.
pub uninterp spec fn counter_vec_name(v: CounterFamily) -> Seq<char>;

/// The help text that a counter vector was made with.
pub uninterp spec fn counter_vec_help(v: CounterFamily) -> Seq<char>;

/// The variable label names that a counter vector was made with, in order.
pub uninterp spec fn counter_vec_labels(v: CounterFamily) -> Seq<Seq<char>>;

/// The metric name that a gauge vector was made with.
pub uninterp spec fn gauge_vec_name(v: GaugeFamily) -> Seq<char>;

/// The help text that a gauge vector was made with.
pub uninterp spec fn gauge_vec_help(v: GaugeFamily) -> Seq<char>;

/// The variable label names that a gauge vector was made with, in order.
pub uninterp spec fn gauge_vec_labels(v: GaugeFamily) -> Seq<Seq<char>>;

/// The texts of label names.
pub open spec fn label_views(labels: Seq<&str>) -> Seq<Seq<char>> {
    labels.map_values(|l: &str| l@)
}

/// A counter vector made with this name, help text and label names.
pub open spec fn counter_made_as(
    v: CounterFamily,
    name: Seq<char>,
    help: Seq<char>,
    labels: Seq<Seq<char>>,
) -> bool {
    &&& counter_vec_name(v) == name
    &&& counter_vec_help(v) == help
    &&& counter_vec_labels(v) == labels
    &&& counter_vec_label_count(v) == labels.len()
}

/// A gauge vector made with this name, help text and label names.
pub open spec fn gauge_made_as(
    v: GaugeFamily,
    name: Seq<char>,
    help: Seq<char>,
    labels: Seq<Seq<char>>,
) -> bool {
    &&& gauge_vec_name(v) == name
    &&& gauge_vec_help(v) == help
    &&& gauge_vec_labels(v) == labels
    &&& gauge_vec_label_count(v) == labels.len()
}

/// `IntCounterVec::new(Opts::new(name, help), labels)`, with its error
/// dropped: a counter vector with those variable labels, or `None` where
/// Prometheus refuses the name or the labels.
#[verifier::external_body]
fn new_counter_vec(name: &str, help: &str, labels: &[&str]) -> (res: Option<CounterFamily>)
    ensures
        res matches Some(v) ==> counter_made_as(v, name@, help@, label_views(labels@)),
{
    match prometheus::IntCounterVec::new(prometheus::Opts::new(name, help), labels) {
        Ok(inner) => Some(CounterFamily { inner }),
        Err(_) => None,
    }
}

/// `IntGaugeVec::new(Opts::new(name, help), labels)`, with its error
/// dropped.
#[verifier::external_body]
fn new_gauge_vec(name: &str, help: &str, labels: &[&str]) -> (res: Option<GaugeFamily>)
    ensures
        res matches Some(v) ==> gauge_made_as(v, name@, help@, label_views(labels@)),
{
    match prometheus::IntGaugeVec::new(prometheus::Opts::new(name, help), labels) {
        Ok(inner) => Some(GaugeFamily { inner }),
        Err(_) => None,
    }
}

/// `prometheus::register` of a counter vector in the default registry;
/// whether the registry accepted it. Nothing is promised of which it does.
#[verifier::external_body]
fn register_counter_vec(v: &CounterFamily) -> bool {
    prometheus::register(Box::new(v.inner.clone())).is_ok()
}

/// `prometheus::register` of a gauge vector in the default registry.
#[verifier::external_body]
fn register_gauge_vec(v: &GaugeFamily) -> bool {
    prometheus::register(Box::new(v.inner.clone())).is_ok()
}

/// `IntCounterVec::clone`: another handle on the same counters.
#[verifier::external_body]
fn clone_counter_vec(v: &CounterFamily) -> (res: CounterFamily)
    ensures
        counter_vec_label_count(res) == counter_vec_label_count(*v),
        counter_vec_name(res) == counter_vec_name(*v),
        counter_vec_help(res) == counter_vec_help(*v),
        counter_vec_labels(res) == counter_vec_labels(*v),
{
    CounterFamily { inner: v.inner.clone() }
}

/// `IntGaugeVec::clone`: another handle on the same gauges.
#[verifier::external_body]
fn clone_gauge_vec(v: &GaugeFamily) -> (res: GaugeFamily)
    ensures
        gauge_vec_label_count(res) == gauge_vec_label_count(*v),
        gauge_vec_name(res) == gauge_vec_name(*v),
        gauge_vec_help(res) == gauge_vec_help(*v),
        gauge_vec_labels(res) == gauge_vec_labels(*v),
{
    GaugeFamily { inner: v.inner.clone() }
}

/// `v.with_label_values(&[a, b]).inc_by(by)`: Prometheus panics unless the
/// vector has two labels.
#[verifier::external_body]
fn counter_add2(v: &CounterFamily, a: &str, b: &str, by: u64)
    requires
        counter_vec_label_count(*v) == 2,
{
    v.inner.with_label_values(&[a, b]).inc_by(by);
}

/// `v.with_label_values(&[a, b, c]).inc_by(by)`: Prometheus panics unless
/// the vector has three labels.
#[verifier::external_body]
fn counter_add3(v: &CounterFamily, a: &str, b: &str, c: &str, by: u64)
    requires
        counter_vec_label_count(*v) == 3,
{
    v.inner.with_label_values(&[a, b, c]).inc_by(by);
}

/// `v.with_label_values(&[a, b]).inc()` on a gauge with two labels.
#[verifier::external_body]
fn gauge_inc2(v: &GaugeFamily, a: &str, b: &str)
    requires
        gauge_vec_label_count(*v) == 2,
{
    v.inner.with_label_values(&[a, b]).inc();
}

/// `v.with_label_values(&[a, b]).dec()` on a gauge with two labels.
#[verifier::external_body]
fn gauge_dec2(v: &GaugeFamily, a: &str, b: &str)
    requires
        gauge_vec_label_count(*v) == 2,
{
    v.inner.with_label_values(&[a, b]).dec();
}

/// The proxy's metrics in the Prometheus registry.
pub struct ProxyMetrics {
    /// Number of active connections, by protocol and user.
    active_connections: GaugeFamily,
    /// Connections handled, by protocol, user and status.
    total_connections: CounterFamily,
    /// Bytes transferred, by protocol, user and direction.
    bytes_transferred: CounterFamily,
    /// Authentication attempts, by protocol and status.
    auth_attempts: CounterFamily,
    /// Rate limit hits, by protocol, user and limit type.
    rate_limit_hits: CounterFamily,
    /// Protocol errors, by protocol and error type.
    protocol_errors: CounterFamily,
}

impl ProxyMetrics {
    /// Each metric has the labels that its updates name.
    pub closed spec fn wf(&self) -> bool {
        &&& gauge_vec_label_count(self.active_connections) == 2
        &&& counter_vec_label_count(self.total_connections) == 3
        &&& counter_vec_label_count(self.bytes_transferred) == 3
        &&& counter_vec_label_count(self.auth_attempts) == 2
        &&& counter_vec_label_count(self.rate_limit_hits) == 3
        &&& counter_vec_label_count(self.protocol_errors) == 2
    }

    pub closed spec fn spec_active_connections(&self) -> GaugeFamily {
        self.active_connections
    }

    pub closed spec fn spec_total_connections(&self) -> CounterFamily {
        self.total_connections
    }

    pub closed spec fn spec_bytes_transferred(&self) -> CounterFamily {
        self.bytes_transferred
    }

    pub closed spec fn spec_auth_attempts(&self) -> CounterFamily {
        self.auth_attempts
    }

    pub closed spec fn spec_rate_limit_hits(&self) -> CounterFamily {
        self.rate_limit_hits
    }

    pub closed spec fn spec_protocol_errors(&self) -> CounterFamily {
        self.protocol_errors
    }

    /// The metrics carry the names, help texts and labels of the proxy's
    /// metrics.
    pub open spec fn as_declared(&self) -> bool {
        &&& gauge_made_as(
            self.spec_active_connections(),
            "proxy_active_connections"@,
            "Number of active connections"@,
            seq!["protocol"@, "user"@],
        )
        &&& counter_made_as(
            self.spec_total_connections(),
            "proxy_total_connections"@,
            "Total number of connections handled"@,
            seq!["protocol"@, "user"@, "status"@],
        )
        &&& counter_made_as(
            self.spec_bytes_transferred(),
            "proxy_bytes_transferred"@,
            "Total bytes transferred"@,
            seq!["protocol"@, "user"@, "direction"@],
        )
        &&& counter_made_as(
            self.spec_auth_attempts(),
            "proxy_auth_attempts"@,
            "Number of authentication attempts"@,
            seq!["protocol"@, "status"@],
        )
        &&& counter_made_as(
            self.spec_rate_limit_hits(),
            "proxy_rate_limit_hits"@,
            "Number of rate limit hits"@,
            seq!["protocol"@, "user"@, "limit_type"@],
        )
        &&& counter_made_as(
            self.spec_protocol_errors(),
            "proxy_protocol_errors"@,
            "Number of protocol-specific errors"@,
            seq!["protocol"@, "error_type"@],
        )
    }

    /// Makes the metrics and registers them in the default registry; `None`
    /// where Prometheus refuses one of them (as when they are registered
    /// already). The metrics handed to Prometheus carry the proxy's metric
    /// names, help texts and label names.
    pub fn register() -> (res: Option<ProxyMetrics>)
        ensures
            res matches Some(m) ==> m.wf() && m.as_declared(),
    {
        let l2: [&str; 2] = ["protocol", "user"];
        let l3_status: [&str; 3] = ["protocol", "user", "status"];
        let l3_direction: [&str; 3] = ["protocol", "user", "direction"];
        let l2_status: [&str; 2] = ["protocol", "status"];
        let l3_limit: [&str; 3] = ["protocol", "user", "limit_type"];
        let l2_error: [&str; 2] = ["protocol", "error_type"];
        assert(label_views(l2@) =~= seq!["protocol"@, "user"@]);
        assert(label_views(l3_status@) =~= seq!["protocol"@, "user"@, "status"@]);
        assert(label_views(l3_direction@) =~= seq!["protocol"@, "user"@, "direction"@]);
        assert(label_views(l2_status@) =~= seq!["protocol"@, "status"@]);
        assert(label_views(l3_limit@) =~= seq!["protocol"@, "user"@, "limit_type"@]);
        assert(label_views(l2_error@) =~= seq!["protocol"@, "error_type"@]);
        let active_connections = new_gauge_vec(
            "proxy_active_connections",
            "Number of active connections",
            l2.as_slice(),
        )?;
        let total_connections = new_counter_vec(
            "proxy_total_connections",
            "Total number of connections handled",
            l3_status.as_slice(),
        )?;
        let bytes_transferred = new_counter_vec(
            "proxy_bytes_transferred",
            "Total bytes transferred",
            l3_direction.as_slice(),
        )?;
        let auth_attempts = new_counter_vec(
            "proxy_auth_attempts",
            "Number of authentication attempts",
            l2_status.as_slice(),
        )?;
        let rate_limit_hits = new_counter_vec(
            "proxy_rate_limit_hits",
            "Number of rate limit hits",
            l3_limit.as_slice(),
        )?;
        let protocol_errors = new_counter_vec(
            "proxy_protocol_errors",
            "Number of protocol-specific errors",
            l2_error.as_slice(),
        )?;
        if !register_gauge_vec(&active_connections) || !register_counter_vec(&total_connections)
            || !register_counter_vec(&bytes_transferred) || !register_counter_vec(&auth_attempts)
            || !register_counter_vec(&rate_limit_hits) || !register_counter_vec(&protocol_errors) {
            return None;
        }
        Some(
            ProxyMetrics {
                active_connections,
                total_connections,
                bytes_transferred,
                auth_attempts,
                rate_limit_hits,
                protocol_errors,
            },
        )
    }

    /// Another handle on the same metrics.
    pub fn share(&self) -> (res: ProxyMetrics)
        requires
            self.wf(),
        ensures
            res.wf(),
            self.as_declared() ==> res.as_declared(),
    {
        ProxyMetrics {
            active_connections: clone_gauge_vec(&self.active_connections),
            total_connections: clone_counter_vec(&self.total_connections),
            bytes_transferred: clone_counter_vec(&self.bytes_transferred),
            auth_attempts: clone_counter_vec(&self.auth_attempts),
            rate_limit_hits: clone_counter_vec(&self.rate_limit_hits),
            protocol_errors: clone_counter_vec(&self.protocol_errors),
        }
    }
}

/// Represents a connection metrics tracker.
pub struct ConnectionMetrics {
    protocol: String,
    username: String,
    metrics: ProxyMetrics,
}

impl ConnectionMetrics {
    pub closed spec fn wf(&self) -> bool {
        self.metrics.wf()
    }

    pub closed spec fn spec_protocol(&self) -> Seq<char> {
        self.protocol@
    }

    pub closed spec fn spec_username(&self) -> Seq<char> {
        self.username@
    }

    /// Starts tracking a connection of `username` over `protocol`: counts
    /// it as active and as connected.
    pub fn new(metrics: &ProxyMetrics, protocol: &str, username: &str) -> (res: Self)
        requires
            metrics.wf(),
        ensures
            res.wf(),
            res.spec_protocol() == protocol@,
            res.spec_username() == username@,
    {
        let m = ConnectionMetrics {
            protocol: String::from_str(protocol),
            username: String::from_str(username),
            metrics: metrics.share(),
        };
        // Increment active connections
        gauge_inc2(&m.metrics.active_connections, m.protocol.as_str(), m.username.as_str());
        // Record new connection
        counter_add3(
            &m.metrics.total_connections,
            m.protocol.as_str(),
            m.username.as_str(),
            "connected",
            1,
        );
        m
    }

    /// The protocol of the connection.
    pub fn protocol(&self) -> (res: &str)
        ensures
            res@ == self.spec_protocol(),
    {
        self.protocol.as_str()
    }

    /// The user of the connection.
    pub fn username(&self) -> (res: &str)
        ensures
            res@ == self.spec_username(),
    {
        self.username.as_str()
    }

    /// Counts bytes sent.
    pub fn record_bytes_sent(&self, bytes: u64)
        requires
            self.wf(),
    {
        counter_add3(
            &self.metrics.bytes_transferred,
            self.protocol.as_str(),
            self.username.as_str(),
            "sent",
            bytes,
        );
    }

    /// Counts bytes received.
    pub fn record_bytes_received(&self, bytes: u64)
        requires
            self.wf(),
    {
        counter_add3(
            &self.metrics.bytes_transferred,
            self.protocol.as_str(),
            self.username.as_str(),
            "received",
            bytes,
        );
    }

    /// Counts a successful authentication.
    pub fn record_auth_success(&self)
        requires
            self.wf(),
    {
        counter_add2(&self.metrics.auth_attempts, self.protocol.as_str(), "success", 1);
    }

    /// Counts a failed authentication.
    pub fn record_auth_failure(&self)
        requires
            self.wf(),
    {
        counter_add2(&self.metrics.auth_attempts, self.protocol.as_str(), "failure", 1);
    }

    /// Counts a request refused by the limit `limit_type`.
    pub fn record_rate_limit_hit(&self, limit_type: &str)
        requires
            self.wf(),
    {
        counter_add3(
            &self.metrics.rate_limit_hits,
            self.protocol.as_str(),
            self.username.as_str(),
            limit_type,
            1,
        );
    }

    /// Counts a protocol error of the kind `error_type`.
    pub fn record_error(&self, error_type: &str)
        requires
            self.wf(),
    {
        counter_add2(&self.metrics.protocol_errors, self.protocol.as_str(), error_type, 1);
    }

    /// Ends tracking the connection: it is no longer active and counts as
    /// disconnected.
    pub fn close(self)
        requires
            self.wf(),
    {
        // Decrement active connections
        gauge_dec2(&self.metrics.active_connections, self.protocol.as_str(), self.username.as_str());
        // Record disconnection
        counter_add3(
            &self.metrics.total_connections,
            self.protocol.as_str(),
            self.username.as_str(),
            "disconnected",
            1,
        );
    }
}

} // verus!
