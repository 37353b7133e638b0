use crate::filter::{parse_filter_spec, LevelFilter};
use crate::logger::{Logger, Phase};
use crate::channel::ChannelView;
use crate::record::Field;
use vstd::prelude::*;

verus! {

#[verifier::external_type_specification]
#[verifier::external_body]
pub struct ExDsn(sentry::types::Dsn);

#[verifier::external_type_specification]
#[verifier::external_body]
pub struct ExParseDsnError(sentry::types::ParseDsnError);

/// Whether sentry's DSN parser accepts a text.
pub uninterp spec fn dsn_accepts(url: Seq<char>) -> bool;

/// Relies on sentry's `FromStr` for `Dsn`: it either accepts the text as a
/// DSN or returns a `ParseDsnError`, depending on the text alone.
#[verifier::external_body]
fn parse_dsn(url: &str) -> (r: Result<sentry::types::Dsn, sentry::types::ParseDsnError>)
    ensures
        r is Ok == dsn_accepts(url@),
{
    url.parse::<sentry::types::Dsn>()
}

/// How many records each sink's queue holds before new ones are dropped.
pub const QUEUE_CAPACITY: usize = 128;

/// The filter expression used when none is configured.
pub const DEFAULT_FILTERS: &'static str = "info";

/// The deployment label used when none is configured.
pub const DEFAULT_ENVIRONMENT: &'static str = "unknown";

/// What the pipeline is built from. Absent values leave the matching part
/// out: no remote collector, no error tracker, the default filters.
pub struct LoggingOptions {
    pub version: Option<String>,
    pub environment: Option<String>,
    pub filters: Option<String>,
    pub graylog: Option<String>,
    pub sentry: Option<String>,
}

pub open spec fn opt_view(o: Option<String>) -> Option<Seq<char>> {
    match o {
        Some(s) => Some(s@),
        None => None,
    }
}

impl Default for LoggingOptions {
    fn default() -> (r: LoggingOptions)
        ensures
            r.version is None,
            r.environment is None,
            r.filters is None,
            r.graylog is None,
            r.sentry is None,
    {
        LoggingOptions { version: None, environment: None, filters: None, graylog: None, sentry: None }
    }
}

/// The kinds of sink the pipeline can feed.
#[derive(Clone, Copy, Debug, PartialEq, Eq, Structural)]
pub enum SinkKind {
    /// Plain text on standard error.
    Terminal,
    /// A remote log collector (GELF over UDP).
    Collector,
    /// An error-tracking service, with a client that must be flushed at
    /// shutdown.
    ErrorTracker,
}

/// Why the pipeline could not be set up.
#[derive(Clone, Copy, Debug, PartialEq, Eq, Structural)]
pub enum SetupError {
    /// The error tracker's DSN is not one that sentry accepts.
    InvalidSentryDsn,
}

/// Everything needed to start the pipeline: the logger, with one sink per
/// entry of `sinks` registered in that order, and what each sink is built
/// from.
pub struct LoggingPlan {
    pub logger: Logger,
    pub sinks: Vec<SinkKind>,
    pub collector: Option<String>,
    pub tracker: Option<sentry::types::Dsn>,
    pub release: Option<String>,
    pub environment: Option<String>,
    /// Key/value pairs attached to every record: the version and the
    /// environment, where present.
    pub context: Vec<Field>,
}

/// The sinks that `options` asks for, in registration order: the terminal
/// always, then the collector and the error tracker when configured.
pub open spec fn planned_sinks(options: LoggingOptions) -> Seq<SinkKind> {
    let t = seq![SinkKind::Terminal];
    let c = if options.graylog is Some {
        t.push(SinkKind::Collector)
    } else {
        t
    };
    if options.sentry is Some {
        c.push(SinkKind::ErrorTracker)
    } else {
        c
    }
}

/// The filter expression in force for `options`.
pub open spec fn filters_of(options: LoggingOptions) -> Seq<char> {
    match options.filters {
        Some(f) => f@,
        None => DEFAULT_FILTERS@,
    }
}

pub open spec fn fresh_channel(capacity: nat) -> ChannelView {
    ChannelView {
        accepted: Seq::empty(),
        taken: 0,
        capacity,
        dropped: 0,
        failed: 0,
        closed: false,
    }
}

/// The context fields for `options`: version, then environment, where present.
pub open spec fn context_of(options: LoggingOptions) -> Seq<(Seq<char>, Seq<char>)> {
    let v: Seq<(Seq<char>, Seq<char>)> = match options.version {
        Some(s) => seq![("version"@, s@)],
        None => Seq::empty(),
    };
    match options.environment {
        Some(s) => v.push(("environment"@, s@)),
        None => v,
    }
}

pub open spec fn sentry_acceptable(options: LoggingOptions) -> bool {
    match options.sentry {
        Some(url) => dsn_accepts(url@),
        None => true,
    }
}

fn register(logger: &mut Logger, sinks: &mut Vec<SinkKind>, kind: SinkKind)
    requires
        old(logger).wf(),
        old(logger)@.phase == Phase::Uninitialized,
        old(sinks)@.len() == old(logger)@.tee.channels.len(),
    ensures
        final(logger).wf(),
        final(logger)@.phase == Phase::Uninitialized,
        final(logger)@.tee.filter == old(logger)@.tee.filter,
        final(sinks)@ == old(sinks)@.push(kind),
        final(logger)@.tee.channels == old(logger)@.tee.channels.push(fresh_channel(QUEUE_CAPACITY as nat)),
        final(logger)@.guarded == old(logger)@.guarded.push(kind == SinkKind::ErrorTracker),
{
    let ghost before = logger@;
    logger.add_sink(QUEUE_CAPACITY, kind == SinkKind::ErrorTracker);
    sinks.push(kind);
    let ghost chans = logger@.tee.channels;
    assert(chans =~= chans.drop_last().push(chans.last()));
}

/// Plans the pipeline for `options`: the filter, and the sinks in the order
/// terminal, collector, error tracker, each behind a fresh queue of
/// `QUEUE_CAPACITY` records, the error tracker with a guard. The logger is
/// left `Uninitialized`, to be activated once every sink is running. Fails,
/// before anything is started, when the error tracker's DSN is invalid.
pub fn setup(options: LoggingOptions) -> (r: Result<LoggingPlan, SetupError>)
    ensures
        r is Ok == sentry_acceptable(options),
        r matches Err(e) ==> e == SetupError::InvalidSentryDsn,
        r matches Ok(p) ==> {
            &&& p.logger.wf()
            &&& p.logger@.phase == Phase::Uninitialized
            &&& p.logger@.tee.filter == parse_filter_spec(filters_of(options))
            &&& p.sinks@ == planned_sinks(options)
            &&& p.logger@.tee.channels == Seq::new(p.sinks@.len(), |i: int| fresh_channel(QUEUE_CAPACITY as nat))
            &&& p.logger@.guarded == Seq::new(p.sinks@.len(), |i: int| p.sinks@[i] == SinkKind::ErrorTracker)
            &&& opt_view(p.collector) == opt_view(options.graylog)
            &&& p.tracker is Some == options.sentry is Some
            &&& opt_view(p.release) == opt_view(options.version)
            &&& opt_view(p.environment) == opt_view(options.environment)
            &&& p.context@.map_values(|f: Field| (f.key@, f.value@)) == context_of(options)
        },
{
    let tracker = match &options.sentry {
        Some(url) => match parse_dsn(url.as_str()) {
            Ok(dsn) => Some(dsn),
            Err(_) => {
                return Err(SetupError::InvalidSentryDsn);
            },
        },
        None => None,
    };
    let filter = match &options.filters {
        Some(f) => LevelFilter::parse(f.as_str()),
        None => LevelFilter::parse(DEFAULT_FILTERS),
    };
    let mut logger = Logger::new(filter);
    let mut sinks: Vec<SinkKind> = Vec::new();
    register(&mut logger, &mut sinks, SinkKind::Terminal);
    if options.graylog.is_some() {
        register(&mut logger, &mut sinks, SinkKind::Collector);
    }
    if tracker.is_some() {
        register(&mut logger, &mut sinks, SinkKind::ErrorTracker);
    }
    assert(sinks@ =~= planned_sinks(options));
    assert(logger@.tee.channels =~= Seq::new(sinks@.len(), |i: int| fresh_channel(QUEUE_CAPACITY as nat)));
    assert(logger@.guarded =~= Seq::new(sinks@.len(), |i: int| sinks@[i] == SinkKind::ErrorTracker));
    let mut context: Vec<Field> = Vec::new();
    let ghost ctx = context_of(options);
    match &options.version {
        Some(v) => context.push(Field::new("version".to_owned(), v.clone())),
        None => {},
    }
    match &options.environment {
        Some(e) => context.push(Field::new("environment".to_owned(), e.clone())),
        None => {},
    }
    assert(context@.map_values(|f: Field| (f.key@, f.value@)) =~= ctx);
    Ok(LoggingPlan {
        logger,
        sinks,
        collector: options.graylog,
        tracker,
        release: options.version,
        environment: options.environment,
        context,
    })
}

/// An environment value as configuration sees it: an empty value counts as
/// absent.
pub open spec fn non_empty_view(value: Option<String>) -> Option<Seq<char>> {
    match opt_view(value) {
        Some(s) => if s.len() > 0 {
            Some(s)
        } else {
            None
        },
        None => None,
    }
}

/// Drops an empty value.
pub fn non_empty(value: Option<String>) -> (r: Option<String>)
    ensures
        opt_view(r) == non_empty_view(value),
{
    match value {
        Some(s) => if s.as_str().unicode_len() > 0 {
            Some(s)
        } else {
            None
        },
        None => None,
    }
}

/// Options from the raw values of the process environment: empty values
/// count as absent, and a missing environment label becomes
/// `DEFAULT_ENVIRONMENT`.
pub fn options_from_env(
    version: Option<String>,
    filters: Option<String>,
    environment: Option<String>,
    graylog: Option<String>,
    sentry: Option<String>,
) -> (r: LoggingOptions)
    ensures
        opt_view(r.version) == opt_view(version),
        opt_view(r.filters) == non_empty_view(filters),
        opt_view(r.environment) == (match non_empty_view(environment) {
            Some(e) => Some(e),
            None => Some(DEFAULT_ENVIRONMENT@),
        }),
        opt_view(r.graylog) == non_empty_view(graylog),
        opt_view(r.sentry) == non_empty_view(sentry),
{
    let environment = match non_empty(environment) {
        Some(e) => Some(e),
        None => Some(DEFAULT_ENVIRONMENT.to_owned()),
    };
    LoggingOptions {
        version,
        filters: non_empty(filters),
        environment,
        graylog: non_empty(graylog),
        sentry: non_empty(sentry),
    }
}

} // verus!
