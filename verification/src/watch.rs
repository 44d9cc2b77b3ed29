//! Watching a source: which changes matter, when a regeneration cycle may
//! begin, and what a cycle runs.

use crate::errors::{BigError, Result};
use crate::html::{generate_html, html_of};
use crate::paths::{extension, extension_of, parent, parent_of, same, same_path};
use crate::resources::{is_content_of, ContentRead, LoadedResource, ResourceFile};
use crate::text::{
    append_str, decimal, from_chars, lowercase, opt_text, push_decimal, str_equal, to_chars,
    to_lowercase,
};
use vstd::prelude::*;

verus! {

/// What a watching session is asked to do.
pub struct WatchConfig {
    /// The Markdown source that is watched.
    pub markdown_path: String,
    /// Where the document is written.
    pub html_output: String,
    /// Where slide images are written, if they are wanted.
    pub slides_output_dir: Option<String>,
    /// Where the presentation is written, if it is wanted.
    pub pptx_output: Option<String>,
    pub css_files: Vec<ResourceFile>,
    pub js_files: Vec<ResourceFile>,
    /// Whether resources are embedded rather than linked.
    pub embed_resources: bool,
    /// The least time between two regeneration cycles, in milliseconds.
    pub debounce_ms: u64,
    /// Whether the document is served for preview.
    pub serve: bool,
    /// The port of the preview server.
    pub port: u16,
    /// Whether previews reload by themselves.
    pub auto_reload: bool,
    /// The port of the reload hub; the port after the preview server's
    /// where none is given.
    pub ws_port: Option<u16>,
}

impl Default for WatchConfig {
    /// Embedded resources, half a second of debounce, no preview server, port
    /// 8080, no reload hub, and no paths.
    fn default() -> (c: WatchConfig)
        ensures
            c.markdown_path@.len() == 0,
            c.html_output@.len() == 0,
            c.slides_output_dir is None,
            c.pptx_output is None,
            c.css_files@.len() == 0,
            c.js_files@.len() == 0,
            c.embed_resources,
            c.debounce_ms == 500,
            !c.serve,
            c.port == 8080,
            !c.auto_reload,
            c.ws_port is None,
    {
        WatchConfig {
            markdown_path: String::new(),
            html_output: String::new(),
            slides_output_dir: None,
            pptx_output: None,
            css_files: Vec::new(),
            js_files: Vec::new(),
            embed_resources: true,
            debounce_ms: 500,
            serve: false,
            port: 8080,
            auto_reload: false,
            ws_port: None,
        }
    }
}

/// The reload script up to the port number.
pub const RELOAD_SCRIPT_OPENING: &'static str = "<script>\n// Auto-reload WebSocket client\n(function() {\n    const ws_port = ";

/// The reload script after the port number: it connects to the hub,
/// connects again three seconds after the connection closes, and reloads
/// the page when it receives `reload`.
pub const RELOAD_SCRIPT_REST: &'static str = ";\n    const wsProtocol = window.location.protocol === 'https:' ? 'wss:' : 'ws:';\n    const wsUrl = `${wsProtocol}//${window.location.hostname}:${ws_port}`;\n\n    let socket;\n    let reconnectInterval;\n\n    function connect() {\n        socket = new WebSocket(wsUrl);\n\n        socket.onopen = function() {\n            console.log('Connected to auto-reload server');\n            clearInterval(reconnectInterval);\n        };\n\n        socket.onclose = function() {\n            console.log('Disconnected from auto-reload server. Attempting to reconnect...');\n            reconnectInterval = setInterval(connect, 3000);\n        };\n\n        socket.onerror = function(error) {\n            console.error('WebSocket error:', error);\n            socket.close();\n        };\n\n        socket.onmessage = function(event) {\n            console.log('Received message:', event.data);\n            if (event.data === 'reload') {\n                console.log('Reloading page...');\n                window.location.reload();\n            }\n        };\n    }\n\n    // Start connection\n    connect();\n})();\n</script>";

/// The script that keeps a preview in step with the hub at `ws_port`.
pub open spec fn reload_script(ws_port: u16) -> Seq<char> {
    RELOAD_SCRIPT_OPENING@ + decimal(ws_port as nat) + RELOAD_SCRIPT_REST@
}

/// The script element that a served document carries to reload itself.
pub fn auto_reload_js(ws_port: u16) -> (r: String)
    ensures
        r@ == reload_script(ws_port),
{
    let mut out = to_chars(RELOAD_SCRIPT_OPENING);
    push_decimal(&mut out, ws_port as u128);
    append_str(&mut out, RELOAD_SCRIPT_REST);
    from_chars(&out)
}

impl WatchConfig {
    /// Whether the session has a reload hub: previews are served and reload
    /// by themselves.
    pub open spec fn has_hub(self) -> bool {
        self.serve && self.auto_reload
    }

    /// The port of the reload hub, if reloading is asked for: the one
    /// given, or else the port after the preview server's.
    pub open spec fn hub_port_of(self) -> Option<u16> {
        if self.auto_reload {
            match self.ws_port {
                Some(p) => Some(p),
                None => Some((self.port + 1) as u16),
            }
        } else {
            None
        }
    }

    /// The port of the reload hub, if reloading is asked for. Where no port
    /// is given, the preview port must have a successor.
    pub fn hub_port(&self) -> (r: Option<u16>)
        requires
            self.auto_reload && self.ws_port is None ==> self.port < u16::MAX,
        ensures
            r == self.hub_port_of(),
    {
        if self.auto_reload {
            match self.ws_port {
                Some(p) => Some(p),
                None => Some(self.port + 1),
            }
        } else {
            None
        }
    }

    /// Whether the session has a reload hub.
    pub fn hub_enabled(&self) -> (r: bool)
        ensures
            r == self.has_hub(),
    {
        self.serve && self.auto_reload
    }
}

/// A path that the file system reported as changed.
#[derive(Debug, Clone)]
pub struct ChangedPath {
    /// The path as it was reported.
    pub path: String,
    /// Its canonical form; `None` where it has none, as for a file that is
    /// gone again.
    pub canonical: Option<String>,
}

/// One notification of the file system, with the paths it concerns.
#[derive(Debug, Clone)]
pub struct ChangeEvent {
    pub paths: Vec<ChangedPath>,
}

/// Whether one of `resources` is a local file named by `path` or by
/// `canonical`, compared as text.
pub open spec fn is_dependency(
    resources: Seq<ResourceFile>,
    path: Seq<char>,
    canonical: Seq<char>,
) -> bool {
    exists|i: int|
        0 <= i < resources.len() && !(#[trigger] resources[i]).is_remote && (resources[i].path@
            == path || resources[i].path@ == canonical)
}

/// Whether an extension, in lower case, is a watched one: `md`, `css` or
/// `js`.
pub open spec fn is_watched(extension: Seq<char>) -> bool {
    extension == "md"@ || extension == "css"@ || extension == "js"@
}

/// Whether the file that `path` names has one of the extensions `md`, `css`
/// and `js`, in any mix of upper and lower case.
pub open spec fn has_watched_extension(path: Seq<char>) -> bool {
    match extension_of(path) {
        Some(e) => is_watched(lowercase(e)),
        None => false,
    }
}

/// Whether a change calls for a regeneration, given whether the changed
/// path is the source and whether its extension is a watched one. A path
/// without a canonical form never does. Otherwise the change is relevant if
/// the path is the source, a local stylesheet or script of the session, or
/// a file with a watched extension.
pub open spec fn is_relevant_given(
    path: Seq<char>,
    canonical: Option<Seq<char>>,
    config: WatchConfig,
    is_source: bool,
    watched: bool,
) -> bool {
    match canonical {
        None => false,
        Some(abs) => {
            ||| is_source
            ||| is_dependency(config.css_files@, path, abs)
            ||| is_dependency(config.js_files@, path, abs)
            ||| watched
        },
    }
}

/// Whether a path is the source: its canonical form is that of the source,
/// or the source's path as configured where the source has no canonical
/// form; or the path as reported is the configured one.
pub open spec fn is_source(
    path: Seq<char>,
    canonical: Seq<char>,
    config: WatchConfig,
    source_canonical: Option<Seq<char>>,
) -> bool {
    let source = match source_canonical {
        Some(s) => s,
        None => config.markdown_path@,
    };
    same_path(canonical, source) || same_path(path, config.markdown_path@)
}

/// Whether a change to `path` calls for a regeneration. A path without a
/// canonical form never does. Otherwise the path is relevant if it is the
/// source, if it is a local stylesheet or script of the session, or if its
/// extension is a watched one.
pub open spec fn is_relevant(
    path: Seq<char>,
    canonical: Option<Seq<char>>,
    config: WatchConfig,
    source_canonical: Option<Seq<char>>,
) -> bool {
    is_relevant_given(
        path,
        canonical,
        config,
        match canonical {
            Some(abs) => is_source(path, abs, config, source_canonical),
            None => false,
        },
        has_watched_extension(path),
    )
}

/// Whether one of `resources` is a local file named by `path` or by
/// `canonical`.
pub fn names_dependency(resources: &Vec<ResourceFile>, path: &str, canonical: &str) -> (r: bool)
    ensures
        r == is_dependency(resources@, path@, canonical@),
{
    let mut i: usize = 0;
    while i < resources.len()
        invariant
            i <= resources.len(),
            forall|k: int|
                0 <= k < i ==> !(!(#[trigger] resources@[k]).is_remote && (resources@[k].path@
                    == path@ || resources@[k].path@ == canonical@)),
        decreases resources.len() - i,
    {
        let resource = &resources[i];
        if !resource.is_remote && (str_equal(resource.path.as_str(), path) || str_equal(
            resource.path.as_str(),
            canonical,
        )) {
            return true;
        }
        i += 1;
    }
    false
}

/// Whether an extension, in lower case, is a watched one.
pub fn watches(extension: &str) -> (r: bool)
    ensures
        r == is_watched(extension@),
{
    str_equal(extension, "md") || str_equal(extension, "css") || str_equal(extension, "js")
}

/// Whether the file that `path` names has a watched extension.
pub fn watched_extension(path: &str) -> (r: bool)
    ensures
        r == has_watched_extension(path@),
{
    match extension(path) {
        Some(e) => watches(to_lowercase(e.as_str()).as_str()),
        None => false,
    }
}

/// Whether a change to `changed` calls for a regeneration, given whether
/// the path is the source and whether its extension is a watched one.
pub fn relevant_given(
    changed: &ChangedPath,
    config: &WatchConfig,
    is_source: bool,
    watched: bool,
) -> (r: bool)
    ensures
        r == is_relevant_given(
            changed.path@,
            opt_text(changed.canonical),
            *config,
            is_source,
            watched,
        ),
{
    match &changed.canonical {
        None => false,
        Some(abs) => {
            is_source || names_dependency(
                &config.css_files,
                changed.path.as_str(),
                abs.as_str(),
            ) || names_dependency(&config.js_files, changed.path.as_str(), abs.as_str())
                || watched
        },
    }
}

/// Whether a change to `changed` calls for a regeneration.
/// `source_canonical` is the canonical form of the source's path, where it
/// has one.
pub fn is_relevant_path(
    changed: &ChangedPath,
    config: &WatchConfig,
    source_canonical: &Option<String>,
) -> (r: bool)
    ensures
        r == is_relevant(
            changed.path@,
            opt_text(changed.canonical),
            *config,
            opt_text(*source_canonical),
        ),
{
    let from_source: bool = match &changed.canonical {
        None => false,
        Some(abs) => {
            let source: &String = match source_canonical {
                Some(s) => s,
                None => &config.markdown_path,
            };
            same(abs.as_str(), source.as_str()) || same(
                changed.path.as_str(),
                config.markdown_path.as_str(),
            )
        },
    };
    relevant_given(changed, config, from_source, watched_extension(changed.path.as_str()))
}

/// Whether a batch holds a relevant path.
pub open spec fn batch_relevant(
    batch: Seq<ChangeEvent>,
    config: WatchConfig,
    source_canonical: Option<Seq<char>>,
) -> bool {
    exists|i: int, j: int|
        0 <= i < batch.len() && 0 <= j < batch[i].paths@.len() && is_relevant(
            (#[trigger] batch[i].paths@[j]).path@,
            opt_text(batch[i].paths@[j].canonical),
            config,
            source_canonical,
        )
}

/// Whether an event concerns a relevant path.
pub open spec fn event_relevant(
    event: ChangeEvent,
    config: WatchConfig,
    source_canonical: Option<Seq<char>>,
) -> bool {
    exists|j: int|
        0 <= j < event.paths@.len() && is_relevant(
            (#[trigger] event.paths@[j]).path@,
            opt_text(event.paths@[j].canonical),
            config,
            source_canonical,
        )
}

/// Whether `event` concerns a relevant path.
pub fn event_is_relevant(
    event: &ChangeEvent,
    config: &WatchConfig,
    source_canonical: &Option<String>,
) -> (r: bool)
    ensures
        r == event_relevant(*event, *config, opt_text(*source_canonical)),
{
    let mut j: usize = 0;
    while j < event.paths.len()
        invariant
            j <= event.paths.len(),
            forall|k: int|
                0 <= k < j ==> !is_relevant(
                    (#[trigger] event.paths@[k]).path@,
                    opt_text(event.paths@[k].canonical),
                    *config,
                    opt_text(*source_canonical),
                ),
        decreases event.paths.len() - j,
    {
        if is_relevant_path(&event.paths[j], config, source_canonical) {
            return true;
        }
        j += 1;
    }
    false
}

/// Whether the batch holds a relevant path: only such a batch may begin a
/// regeneration cycle.
pub fn batch_is_relevant(
    batch: &Vec<ChangeEvent>,
    config: &WatchConfig,
    source_canonical: &Option<String>,
) -> (r: bool)
    ensures
        r == batch_relevant(batch@, *config, opt_text(*source_canonical)),
{
    let mut i: usize = 0;
    while i < batch.len()
        invariant
            i <= batch.len(),
            forall|k: int|
                0 <= k < i ==> !event_relevant(
                    #[trigger] batch@[k],
                    *config,
                    opt_text(*source_canonical),
                ),
        decreases batch.len() - i,
    {
        if event_is_relevant(&batch[i], config, source_canonical) {
            proof {
                let ghost j = choose|j: int|
                    0 <= j < batch@[i as int].paths@.len() && is_relevant(
                        (#[trigger] batch@[i as int].paths@[j]).path@,
                        opt_text(batch@[i as int].paths@[j].canonical),
                        *config,
                        opt_text(*source_canonical),
                    );
                assert(0 <= i < batch@.len() && 0 <= j < batch@[i as int].paths@.len()
                    && is_relevant(
                    batch@[i as int].paths@[j].path@,
                    opt_text(batch@[i as int].paths@[j].canonical),
                    *config,
                    opt_text(*source_canonical),
                ));
            }
            return true;
        }
        i += 1;
    }
    false
}

/// Nanoseconds in a millisecond.
pub const NANOS_PER_MILLI: u128 = 1_000_000;

/// What the orchestrator is doing.
#[derive(Debug, Clone, Copy, PartialEq, Eq, Structural)]
pub enum Phase {
    /// Waiting for the next batch.
    Idle,
    /// Running the cycle that the batch accepted at `accepted_at` began.
    Running { accepted_at: u128 },
}

/// The one place that begins regeneration cycles. Instants are nanoseconds
/// on the session's monotonic clock.
#[derive(Debug, Clone, Copy, PartialEq, Eq, Structural)]
pub struct Orchestrator {
    /// When the batch of the last successful cycle was accepted; the start
    /// of the watch before any.
    pub last_regen: u128,
    pub phase: Phase,
}

/// The time from `since` to `now`; none where the clock reads earlier.
pub open spec fn elapsed(since: u128, now: u128) -> int {
    if now >= since {
        now - since
    } else {
        0
    }
}

/// Whether a batch that arrives at `now` begins a cycle: no cycle is
/// running, the batch holds a relevant path, and at least the debounce
/// interval has passed since the last successful regeneration.
pub open spec fn accepts(o: Orchestrator, relevant: bool, now: u128, debounce_ms: u64) -> bool {
    &&& o.phase is Idle
    &&& relevant
    &&& elapsed(o.last_regen, now) >= debounce_ms * NANOS_PER_MILLI
}

/// The orchestrator after a batch at `now`.
pub open spec fn after_batch(o: Orchestrator, relevant: bool, now: u128, debounce_ms: u64)
    -> Orchestrator {
    if accepts(o, relevant, now, debounce_ms) {
        Orchestrator { last_regen: o.last_regen, phase: Phase::Running { accepted_at: now } }
    } else {
        o
    }
}

/// The orchestrator after its cycle ended: idle again, and after a success
/// the last regeneration is the instant at which the cycle's batch was
/// accepted. Ending changes nothing while no cycle runs.
pub open spec fn after_cycle(o: Orchestrator, success: bool) -> Orchestrator {
    match o.phase {
        Phase::Idle => o,
        Phase::Running { accepted_at } => Orchestrator {
            last_regen: if success {
                accepted_at
            } else {
                o.last_regen
            },
            phase: Phase::Idle,
        },
    }
}

/// Whether the end of the cycle is followed by a reload broadcast: a cycle
/// was running, it succeeded, and the session has a hub.
pub open spec fn broadcasts(o: Orchestrator, success: bool, has_hub: bool) -> bool {
    o.phase is Running && success && has_hub
}

impl Orchestrator {
    /// An idle orchestrator whose last regeneration was at `now`.
    pub fn new(now: u128) -> (o: Orchestrator)
        ensures
            o == (Orchestrator { last_regen: now, phase: Phase::Idle }),
    {
        Orchestrator { last_regen: now, phase: Phase::Idle }
    }

    /// The orchestrator of a session that starts at `now`: the first cycle
    /// begins with the session.
    pub fn start(now: u128) -> (o: Orchestrator)
        ensures
            o == (Orchestrator { last_regen: now, phase: Phase::Running { accepted_at: now } }),
    {
        Orchestrator { last_regen: now, phase: Phase::Running { accepted_at: now } }
    }

    /// Whether a cycle is running.
    pub fn is_running(&self) -> (r: bool)
        ensures
            r == (self.phase is Running),
    {
        match self.phase {
            Phase::Idle => false,
            Phase::Running { .. } => true,
        }
    }

    /// Takes one batch, delivered at `now`, and tells whether a cycle begins.
    /// `relevant` tells whether the batch holds a relevant path.
    pub fn on_batch(&mut self, relevant: bool, now: u128, debounce_ms: u64) -> (begin: bool)
        ensures
            begin == accepts(*old(self), relevant, now, debounce_ms),
            *final(self) == after_batch(*old(self), relevant, now, debounce_ms),
    {
        if self.is_running() || !relevant {
            return false;
        }
        let waited: u128 = if now >= self.last_regen {
            now - self.last_regen
        } else {
            0
        };
        let needed: u128 = (debounce_ms as u128) * NANOS_PER_MILLI;
        if waited >= needed {
            self.phase = Phase::Running { accepted_at: now };
            true
        } else {
            false
        }
    }

    /// Ends the running cycle and tells whether connected previews are told
    /// to reload.
    pub fn on_cycle_end(&mut self, success: bool, has_hub: bool) -> (broadcast: bool)
        ensures
            broadcast == broadcasts(*old(self), success, has_hub),
            *final(self) == after_cycle(*old(self), success),
    {
        match self.phase {
            Phase::Idle => false,
            Phase::Running { accepted_at } => {
                if success {
                    self.last_regen = accepted_at;
                }
                self.phase = Phase::Idle;
                success && has_hub
            },
        }
    }
}

/// A stage of a regeneration cycle.
#[derive(Debug, Clone, Copy, PartialEq, Eq, Structural)]
pub enum Stage {
    /// Generate the document and write it.
    Document,
    /// Render one image per slide of the written document.
    Assets,
    /// Package the images into a presentation.
    Package,
}

/// How far a cycle has come.
#[derive(Debug)]
pub enum Progress {
    /// Nothing has run yet.
    Begin,
    /// The stage ran, with this result.
    Ran(Stage, Result<()>),
}

/// What a cycle does next.
#[derive(Debug)]
pub enum CycleStep {
    /// Run the stage.
    Run(Stage),
    /// The cycle is over, with this result.
    Finished(Result<()>),
}

/// The stage that follows `done` once it has succeeded, if one is
/// configured: images follow the document where an image directory is
/// configured, and the presentation follows the images where a presentation
/// is configured.
pub open spec fn stage_after(config: WatchConfig, done: Stage) -> Option<Stage> {
    match done {
        Stage::Document => if config.slides_output_dir is Some {
            Some(Stage::Assets)
        } else {
            None
        },
        Stage::Assets => if config.pptx_output is Some {
            Some(Stage::Package)
        } else {
            None
        },
        Stage::Package => None,
    }
}

/// Whether `step` is what a cycle does at `progress`: it begins with the
/// document; a failed stage ends it with that stage's error; a stage that
/// succeeded is followed by the next configured stage, or ends the cycle
/// with success.
pub open spec fn is_step_after(step: CycleStep, config: WatchConfig, progress: Progress) -> bool {
    match progress {
        Progress::Begin => step == CycleStep::Run(Stage::Document),
        Progress::Ran(_, Err(e)) => step == CycleStep::Finished(Err(e)),
        Progress::Ran(done, Ok(_)) => match stage_after(config, done) {
            Some(next) => step == CycleStep::Run(next),
            None => step == CycleStep::Finished(Ok(())),
        },
    }
}

/// Decides the next step of a regeneration cycle.
pub fn regenerate_outputs(config: &WatchConfig, progress: Progress) -> (step: CycleStep)
    ensures
        is_step_after(step, *config, progress),
{
    match progress {
        Progress::Begin => CycleStep::Run(Stage::Document),
        Progress::Ran(_, Err(e)) => CycleStep::Finished(Err(e)),
        Progress::Ran(Stage::Document, Ok(_)) => {
            if config.slides_output_dir.is_some() {
                CycleStep::Run(Stage::Assets)
            } else {
                CycleStep::Finished(Ok(()))
            }
        },
        Progress::Ran(Stage::Assets, Ok(_)) => {
            if config.pptx_output.is_some() {
                CycleStep::Run(Stage::Package)
            } else {
                CycleStep::Finished(Ok(()))
            }
        },
        Progress::Ran(Stage::Package, Ok(_)) => CycleStep::Finished(Ok(())),
    }
}

/// What a regeneration cycle did: the stages it ran, in order, and how it
/// ended.
#[derive(Debug)]
pub struct CycleReport {
    pub ran: Vec<Stage>,
    pub result: Result<()>,
}

/// Whether `ran`, with what each stage gave, is one whole regeneration
/// cycle: it begins with the document; after each stage that succeeded comes
/// the next configured stage; and it ends with the first stage that fails,
/// or with a success after which no stage is configured.
pub open spec fn is_cycle(config: WatchConfig, ran: Seq<Stage>, outcomes: Seq<Result<()>>) -> bool {
    &&& ran.len() == outcomes.len()
    &&& ran.len() >= 1
    &&& ran[0] == Stage::Document
    &&& forall|k: int|
        0 <= k < ran.len() - 1 ==> (#[trigger] outcomes[k]) is Ok && stage_after(config, ran[k])
            == Some(ran[k + 1])
    &&& outcomes.last() is Ok ==> stage_after(config, ran.last()) is None
}

/// Whether a cycle that ended with `result` ended as its last stage did:
/// with success, or with that stage's error.
pub open spec fn ends_as(result: Result<()>, last: Result<()>) -> bool {
    match last {
        Ok(_) => result is Ok,
        Err(e) => result == Err::<(), BigError>(e),
    }
}

/// Whether `report` tells of one whole cycle in which the stages gave
/// `outcomes`: these are what `run` gave for the stages that ran, and the
/// cycle ended as the last of them did.
pub open spec fn reports<F: Fn(Stage) -> Result<()>>(
    report: CycleReport,
    config: WatchConfig,
    run: F,
    outcomes: Seq<Result<()>>,
) -> bool {
    &&& is_cycle(config, report.ran@, outcomes)
    &&& forall|k: int|
        0 <= k < outcomes.len() ==> run.ensures((report.ran@[k],), #[trigger] outcomes[k])
    &&& ends_as(report.result, outcomes.last())
}

/// Runs one regeneration cycle. `run` does the work of a stage and tells
/// how it went. The stages run strictly in order, each only after the one
/// before has succeeded; the first failure ends the cycle with its error.
pub fn run_cycle<F>(config: &WatchConfig, run: F) -> (report: CycleReport) where
    F: Fn(Stage) -> Result<()>,

    requires
        forall|stage: Stage| run.requires((stage,)),
    ensures
        exists|outcomes: Seq<Result<()>>| reports(report, *config, run, outcomes),
{
    let mut ran: Vec<Stage> = Vec::new();
    let ghost mut outcomes: Seq<Result<()>> = Seq::empty();
    let mut stage = Stage::Document;
    loop
        invariant
            ran@.len() == outcomes.len(),
            ran@.len() <= 2,
            ran@.len() == match stage {
                Stage::Document => 0nat,
                Stage::Assets => 1nat,
                Stage::Package => 2nat,
            },
            ran@.len() > 0 ==> ran@[0] == Stage::Document && stage_after(*config, ran@.last())
                == Some(stage),
            forall|k: int|
                0 <= k < ran@.len() - 1 ==> (#[trigger] outcomes[k]) is Ok && stage_after(
                    *config,
                    ran@[k],
                ) == Some(ran@[k + 1]),
            forall|k: int| 0 <= k < outcomes.len() ==> (#[trigger] outcomes[k]) is Ok,
            forall|k: int|
                0 <= k < outcomes.len() ==> run.ensures((ran@[k],), #[trigger] outcomes[k]),
            forall|stage: Stage| run.requires((stage,)),
        decreases 3 - ran@.len(),
    {
        let ghost before = ran@;
        let ghost earlier = outcomes;
        let outcome = run(stage);
        ran.push(stage);
        proof {
            outcomes = outcomes.push(outcome);
            assert forall|k: int| 0 <= k < outcomes.len() implies run.ensures(
                (ran@[k],),
                #[trigger] outcomes[k],
            ) by {
                if k < earlier.len() {
                    assert(outcomes[k] == earlier[k]);
                    assert(ran@[k] == before[k]);
                }
            }
        }
        match regenerate_outputs(config, Progress::Ran(stage, outcome)) {
            CycleStep::Finished(result) => {
                proof {
                    assert(outcomes.last() == outcome);
                    assert(ends_as(result, outcomes.last()));
                    assert(is_cycle(*config, ran@, outcomes));
                }
                let report = CycleReport { ran, result };
                proof {
                    assert(reports(report, *config, run, outcomes));
                }
                return report;
            },
            CycleStep::Run(next) => {
                stage = next;
            },
        }
    }
}

/// What became of a batch: the cycle that it began, if it began one, and
/// whether connected previews were told to reload.
#[derive(Debug)]
pub struct BatchReport {
    pub cycle: Option<CycleReport>,
    pub broadcast: bool,
}

/// Whether `report` tells what became of a batch that arrived at `now`. A
/// batch that the orchestrator does not accept begins nothing and changes
/// nothing. One that it accepts begins one whole cycle; the orchestrator is
/// idle again afterwards, and previews were told to reload exactly if the
/// cycle succeeded and the session has a hub.
pub open spec fn is_batch_report(
    report: BatchReport,
    before: Orchestrator,
    after: Orchestrator,
    relevant: bool,
    now: u128,
    config: WatchConfig,
) -> bool {
    if accepts(before, relevant, now, config.debounce_ms) {
        &&& report.cycle matches Some(cycle) && after == after_cycle(
            after_batch(before, relevant, now, config.debounce_ms),
            cycle.result is Ok,
        ) && report.broadcast == (cycle.result is Ok && config.has_hub())
    } else {
        &&& report.cycle is None
        &&& !report.broadcast
        &&& after == before
    }
}

impl Orchestrator {
    /// Starts a session at `now` with its first regeneration cycle, with
    /// `run` doing the work of each stage. Whatever comes of the cycle, the
    /// session goes on: the orchestrator is idle afterwards and waits for
    /// the first batch. Nobody is told to reload, as no preview is connected
    /// yet.
    pub fn start_session<F>(config: &WatchConfig, now: u128, run: F) -> (r: (
        Orchestrator,
        CycleReport,
    )) where F: Fn(Stage) -> Result<()>
        requires
            forall|stage: Stage| run.requires((stage,)),
        ensures
            r.0 == (Orchestrator { last_regen: now, phase: Phase::Idle }),
            exists|outcomes: Seq<Result<()>>| reports(r.1, *config, run, outcomes),
    {
        let mut orchestrator = Orchestrator::start(now);
        let cycle = run_cycle(config, run);
        let _ = orchestrator.on_cycle_end(cycle.result.is_ok(), false);
        let r = (orchestrator, cycle);
        proof {
            let outcomes = choose|outcomes: Seq<Result<()>>| reports(cycle, *config, run, outcomes);
            assert(reports(r.1, *config, run, outcomes));
        }
        r
    }

    /// Takes one batch, delivered at `now`. If the batch holds a relevant
    /// path, no cycle is running and the debounce interval has passed, one
    /// regeneration cycle runs, with `run` doing the work of each stage; if
    /// it succeeds and the session has a hub, `notify` tells the connected
    /// previews to reload, after the last stage. Nothing else runs a cycle or
    /// tells anyone to reload.
    pub fn handle_batch<F, N>(
        &mut self,
        batch: &Vec<ChangeEvent>,
        config: &WatchConfig,
        source_canonical: &Option<String>,
        now: u128,
        run: F,
        notify: N,
    ) -> (report: BatchReport) where F: Fn(Stage) -> Result<()>, N: Fn() -> ()
        requires
            forall|stage: Stage| run.requires((stage,)),
            notify.requires(()),
        ensures
            is_batch_report(
                report,
                *old(self),
                *final(self),
                batch_relevant(batch@, *config, opt_text(*source_canonical)),
                now,
                *config,
            ),
            report.cycle matches Some(cycle) ==> exists|outcomes: Seq<Result<()>>|
                reports(cycle, *config, run, outcomes),
            report.broadcast ==> notify.ensures((), ()),
    {
        let relevant = batch_is_relevant(batch, config, source_canonical);
        if !self.on_batch(relevant, now, config.debounce_ms) {
            return BatchReport { cycle: None, broadcast: false };
        }
        let cycle = run_cycle(config, run);
        let broadcast = self.on_cycle_end(cycle.result.is_ok(), config.hub_enabled());
        if broadcast {
            notify();
        }
        BatchReport { cycle: Some(cycle), broadcast }
    }
}

/// What the stages gave, by stage, for a cycle with these outcomes; a stage
/// that did not run counts as failed.
pub open spec fn results_of(outcomes: Seq<Result<()>>) -> StageResults {
    StageResults {
        document_ok: outcomes.len() > 0 && outcomes[0] is Ok,
        assets_ok: outcomes.len() > 1 && outcomes[1] is Ok,
        package_ok: outcomes.len() > 2 && outcomes[2] is Ok,
    }
}

/// What the stages of one cycle would give, were they run.
pub struct StageResults {
    pub document_ok: bool,
    pub assets_ok: bool,
    pub package_ok: bool,
}

impl StageResults {
    pub open spec fn ok(self, stage: Stage) -> bool {
        match stage {
            Stage::Document => self.document_ok,
            Stage::Assets => self.assets_ok,
            Stage::Package => self.package_ok,
        }
    }
}

/// The stages that a cycle runs from `stage` on, in order: each configured
/// stage until one fails.
pub open spec fn stages_run_from(config: WatchConfig, results: StageResults, stage: Stage) -> Seq<
    Stage,
>
    decreases
            match stage {
                Stage::Document => 2int,
                Stage::Assets => 1int,
                Stage::Package => 0int,
            },
{
    if results.ok(stage) {
        match stage_after(config, stage) {
            Some(next) => seq![stage] + stages_run_from(config, results, next),
            None => seq![stage],
        }
    } else {
        seq![stage]
    }
}

/// The stages that a cycle runs.
pub open spec fn stages_run(config: WatchConfig, results: StageResults) -> Seq<Stage> {
    stages_run_from(config, results, Stage::Document)
}

/// Whether a cycle succeeds: every stage that it runs does.
pub open spec fn cycle_succeeds(config: WatchConfig, results: StageResults) -> bool {
    forall|i: int|
        0 <= i < stages_run(config, results).len() ==> results.ok(
            #[trigger] stages_run(config, results)[i],
        )
}

/// Whether `stage` is configured: the document always is, images where
/// an image directory is given, the presentation where a presentation path
/// is given besides.
pub open spec fn is_configured(config: WatchConfig, stage: Stage) -> bool {
    match stage {
        Stage::Document => true,
        Stage::Assets => config.slides_output_dir is Some,
        Stage::Package => config.slides_output_dir is Some && config.pptx_output is Some,
    }
}

/// The directory to watch, from the parent of the source's path: that
/// parent, or `.` where there is none or it is empty.
pub open spec fn root_from(parent: Option<Seq<char>>) -> Seq<char> {
    match parent {
        Some(dir) if dir.len() > 0 => dir,
        _ => "."@,
    }
}

/// The directory to watch for a source at `markdown_path`: the one that
/// holds it, or `.` where the path names none.
pub open spec fn watch_root_of(markdown_path: Seq<char>) -> Seq<char> {
    root_from(parent_of(markdown_path))
}

/// The directory to watch, from the parent of the source's path.
pub fn root_of(parent: Option<String>) -> (r: String)
    ensures
        r@ == root_from(opt_text(parent)),
{
    match parent {
        Some(dir) => {
            if dir.as_str().unicode_len() > 0 {
                dir
            } else {
                ".".to_owned()
            }
        },
        None => ".".to_owned(),
    }
}

/// The directory to watch, with everything below it, for a source at
/// `markdown_path`.
pub fn watch_root(markdown_path: &str) -> (r: String)
    ensures
        r@ == watch_root_of(markdown_path@),
{
    root_of(parent(markdown_path))
}

/// The document stage of a cycle: the document for the session's source,
/// with the reload script for the hub at `ws_port` where reloading is asked
/// for.
pub fn regenerate_html(
    config: &WatchConfig,
    ws_port: Option<u16>,
    source: &ContentRead,
    css_files: &Vec<LoadedResource>,
    js_files: &Vec<LoadedResource>,
) -> (r: Result<String>)
    ensures
        match *source {
            ContentRead::Text(markdown) => r matches Ok(html) && html@ == html_of(
                markdown@,
                css_files@,
                js_files@,
                config.embed_resources,
                if config.auto_reload {
                    match ws_port {
                        Some(p) => Some(reload_script(p)),
                        None => None,
                    }
                } else {
                    None
                },
            ),
            _ => r is Err && is_content_of(r, config.markdown_path@, *source),
        },
{
    let script: Option<String> = if config.auto_reload {
        match ws_port {
            Some(p) => Some(auto_reload_js(p)),
            None => None,
        }
    } else {
        None
    };
    generate_html(
        config.markdown_path.as_str(),
        source,
        css_files,
        js_files,
        config.embed_resources,
        script,
    )
}

/// A batch as the orchestrator sees it: whether it holds a relevant path,
/// and when it arrived.
pub struct Arrival {
    pub relevant: bool,
    pub at: u128,
}

/// How many cycles the batches begin, taken in order, where every cycle
/// that begins succeeds and ends before the next batch arrives.
pub open spec fn cycles_begun(o: Orchestrator, arrivals: Seq<Arrival>, debounce_ms: u64) -> nat
    decreases arrivals.len(),
{
    if arrivals.len() == 0 {
        0
    } else {
        let first = arrivals[0];
        if accepts(o, first.relevant, first.at, debounce_ms) {
            1 + cycles_begun(
                after_cycle(after_batch(o, first.relevant, first.at, debounce_ms), true),
                arrivals.drop_first(),
                debounce_ms,
            )
        } else {
            cycles_begun(o, arrivals.drop_first(), debounce_ms)
        }
    }
}

/// Batches that all arrive less than the debounce interval after the last
/// successful regeneration begin no cycle.
pub proof fn lemma_gate_holds(o: Orchestrator, arrivals: Seq<Arrival>, debounce_ms: u64)
    requires
        forall|i: int|
            0 <= i < arrivals.len() ==> elapsed(o.last_regen, (#[trigger] arrivals[i]).at)
                < debounce_ms * NANOS_PER_MILLI,
    ensures
        cycles_begun(o, arrivals, debounce_ms) == 0,
    decreases arrivals.len(),
{
    if arrivals.len() > 0 {
        assert(elapsed(o.last_regen, arrivals[0].at) < debounce_ms * NANOS_PER_MILLI);
        assert forall|i: int| 0 <= i < arrivals.drop_first().len() implies elapsed(
            o.last_regen,
            (#[trigger] arrivals.drop_first()[i]).at,
        ) < debounce_ms * NANOS_PER_MILLI by {
            assert(arrivals.drop_first()[i] == arrivals[i + 1]);
        }
        lemma_gate_holds(o, arrivals.drop_first(), debounce_ms);
    }
}

/// Batches that arrive in order within one debounce interval begin at most
/// one cycle between them, however many they are and however many events
/// each holds, as long as the cycle that begins succeeds.
pub proof fn lemma_debounce(o: Orchestrator, arrivals: Seq<Arrival>, debounce_ms: u64)
    requires
        forall|i: int, j: int|
            0 <= i <= j < arrivals.len() ==> (#[trigger] arrivals[i]).at <= (
            #[trigger] arrivals[j]).at,
        forall|i: int|
            0 <= i < arrivals.len() ==> (#[trigger] arrivals[i]).at - arrivals[0].at < debounce_ms
                * NANOS_PER_MILLI,
    ensures
        cycles_begun(o, arrivals, debounce_ms) <= 1,
    decreases arrivals.len(),
{
    if arrivals.len() > 0 {
        let first = arrivals[0];
        let rest = arrivals.drop_first();
        assert forall|i: int| 0 <= i < rest.len() implies (#[trigger] rest[i]) == arrivals[i
            + 1] by {}
        if accepts(o, first.relevant, first.at, debounce_ms) {
            let next = after_cycle(after_batch(o, first.relevant, first.at, debounce_ms), true);
            assert(next.last_regen == first.at);
            assert forall|i: int| 0 <= i < rest.len() implies elapsed(
                next.last_regen,
                (#[trigger] rest[i]).at,
            ) < debounce_ms * NANOS_PER_MILLI by {
                assert(rest[i] == arrivals[i + 1]);
                assert(arrivals[0].at <= arrivals[i + 1].at);
            }
            lemma_gate_holds(next, rest, debounce_ms);
        } else {
            assert forall|i: int, j: int| 0 <= i <= j < rest.len() implies (#[trigger] rest[i]).at
                <= (#[trigger] rest[j]).at by {
                assert(rest[i] == arrivals[i + 1]);
                assert(rest[j] == arrivals[j + 1]);
            }
            assert forall|i: int| 0 <= i < rest.len() implies (#[trigger] rest[i]).at
                - rest[0].at < debounce_ms * NANOS_PER_MILLI by {
                assert(rest[i] == arrivals[i + 1]);
                assert(rest[0] == arrivals[1]);
                assert(arrivals[0].at <= arrivals[1].at);
            }
            lemma_debounce(o, rest, debounce_ms);
        }
    }
}

/// A batch in which no path is the source, a local stylesheet or script of
/// the session, or a file with a watched extension begins no cycle and
/// leaves the orchestrator as it was.
pub proof fn lemma_irrelevant_batch(
    o: Orchestrator,
    batch: Seq<ChangeEvent>,
    config: WatchConfig,
    source_canonical: Option<Seq<char>>,
    now: u128,
)
    requires
        forall|i: int, j: int|
            0 <= i < batch.len() && 0 <= j < batch[i].paths@.len() ==> {
                let changed = #[trigger] batch[i].paths@[j];
                let source = match source_canonical {
                    Some(s) => s,
                    None => config.markdown_path@,
                };
                changed.canonical matches Some(abs) ==> {
                    &&& !same_path(abs@, source)
                    &&& !same_path(changed.path@, config.markdown_path@)
                    &&& !is_dependency(config.css_files@, changed.path@, abs@)
                    &&& !is_dependency(config.js_files@, changed.path@, abs@)
                    &&& !has_watched_extension(changed.path@)
                }
            },
    ensures
        !batch_relevant(batch, config, source_canonical),
        !accepts(o, batch_relevant(batch, config, source_canonical), now, config.debounce_ms),
        after_batch(o, batch_relevant(batch, config, source_canonical), now, config.debounce_ms)
            == o,
{
}

/// While a cycle runs no batch begins another, and a cycle begins only from
/// idleness; so between the beginnings of two cycles lies the end of the
/// first.
pub proof fn lemma_one_cycle_at_a_time(
    o: Orchestrator,
    relevant: bool,
    now: u128,
    debounce_ms: u64,
)
    ensures
        o.phase is Running ==> !accepts(o, relevant, now, debounce_ms) && after_batch(
            o,
            relevant,
            now,
            debounce_ms,
        ) == o,
        accepts(o, relevant, now, debounce_ms) ==> o.phase is Idle && after_batch(
            o,
            relevant,
            now,
            debounce_ms,
        ).phase is Running,
        after_cycle(o, true).phase is Idle,
        after_cycle(o, false).phase is Idle,
{
}

/// The stages that a cycle runs, written out: the document; then the
/// images, if the document was generated and images are configured; then
/// the presentation, if the images were rendered and a presentation is
/// configured.
pub proof fn lemma_stages_run(config: WatchConfig, results: StageResults)
    ensures
        stages_run(config, results) == if !results.document_ok || config.slides_output_dir
            is None {
            seq![Stage::Document]
        } else if !results.assets_ok || config.pptx_output is None {
            seq![Stage::Document, Stage::Assets]
        } else {
            seq![Stage::Document, Stage::Assets, Stage::Package]
        },
{
    reveal_with_fuel(stages_run_from, 4);
    if !results.document_ok || config.slides_output_dir is None {
    } else if !results.assets_ok || config.pptx_output is None {
        assert(stages_run(config, results) =~= seq![Stage::Document, Stage::Assets]);
    } else {
        assert(stages_run(config, results) =~= seq![
            Stage::Document,
            Stage::Assets,
            Stage::Package,
        ]);
    }
}

/// A cycle succeeds exactly when every configured stage completes without
/// error.
pub proof fn lemma_cycle_success(config: WatchConfig, results: StageResults)
    ensures
        cycle_succeeds(config, results) <==> (forall|stage: Stage| #[trigger]
            is_configured(config, stage) ==> results.ok(stage)),
{
    lemma_stages_run(config, results);
    let run = stages_run(config, results);
    let all = forall|stage: Stage| #[trigger] is_configured(config, stage) ==> results.ok(stage);
    if cycle_succeeds(config, results) {
        assert(results.ok(run[0]));
        if run.len() > 1 {
            assert(results.ok(run[1]));
        }
        if run.len() > 2 {
            assert(results.ok(run[2]));
        }
        assert(all);
    }
    if all {
        assert(is_configured(config, Stage::Document));
        assert(is_configured(config, Stage::Assets) ==> results.assets_ok);
        assert(is_configured(config, Stage::Package) ==> results.package_ok);
        assert(cycle_succeeds(config, results));
    }
}

/// A whole cycle runs exactly the stages that its outcomes call for. It
/// ends with success exactly when every configured stage completed without
/// error, and then every configured stage has run.
pub proof fn lemma_cycle_runs_its_stages(
    config: WatchConfig,
    ran: Seq<Stage>,
    outcomes: Seq<Result<()>>,
)
    requires
        is_cycle(config, ran, outcomes),
    ensures
        ran == stages_run(config, results_of(outcomes)),
        outcomes.last() is Ok <==> cycle_succeeds(config, results_of(outcomes)),
        outcomes.last() is Ok ==> (forall|stage: Stage| #[trigger]
            is_configured(config, stage) ==> ran.contains(stage)),
{
    let results = results_of(outcomes);
    lemma_stages_run(config, results);
    lemma_cycle_success(config, results);
    if ran.len() > 1 {
        assert(outcomes[0] is Ok && stage_after(config, ran[0]) == Some(ran[1]));
    }
    if ran.len() > 2 {
        assert(outcomes[1] is Ok && stage_after(config, ran[1]) == Some(ran[2]));
    }
    if ran.len() > 3 {
        assert(outcomes[2] is Ok && stage_after(config, ran[2]) == Some(ran[3]));
    }
    assert(ran =~= stages_run(config, results));
    if outcomes.last() is Ok {
        assert forall|stage: Stage| #[trigger] is_configured(config, stage) implies ran.contains(
            stage,
        ) by {
            match stage {
                Stage::Document => {
                    assert(ran[0] == stage);
                },
                Stage::Assets => {
                    assert(ran[1] == stage);
                },
                Stage::Package => {
                    assert(ran[2] == stage);
                },
            }
        }
    }
}

/// In a session with a hub, the end of a running cycle is followed by a
/// reload broadcast exactly when every configured stage of that cycle
/// completed without error; without a running cycle, or without a hub,
/// nothing is broadcast.
pub proof fn lemma_broadcast_iff_full_success(
    o: Orchestrator,
    config: WatchConfig,
    results: StageResults,
)
    ensures
        o.phase is Running && config.has_hub() ==> (broadcasts(
            o,
            cycle_succeeds(config, results),
            config.has_hub(),
        ) <==> (forall|stage: Stage| #[trigger]
            is_configured(config, stage) ==> results.ok(stage))),
        !(o.phase is Running) || !config.has_hub() ==> !broadcasts(
            o,
            cycle_succeeds(config, results),
            config.has_hub(),
        ),
{
    lemma_cycle_success(config, results);
}

/// The stages of a cycle run in order and only after the one before has
/// succeeded: images are rendered only after the document was generated,
/// and packaging runs only after images were rendered without error. A
/// cycle in which a stage fails ends there, and the orchestrator is idle
/// afterwards.
pub proof fn lemma_failed_stage_ends_cycle(
    o: Orchestrator,
    config: WatchConfig,
    results: StageResults,
)
    ensures
        stages_run(config, results).contains(Stage::Assets) ==> results.document_ok,
        stages_run(config, results).contains(Stage::Package) ==> results.document_ok
            && results.assets_ok,
        !results.assets_ok ==> !stages_run(config, results).contains(Stage::Package),
        !results.document_ok ==> stages_run(config, results) == seq![Stage::Document],
        after_cycle(o, cycle_succeeds(config, results)).phase is Idle,
{
    lemma_stages_run(config, results);
    let run = stages_run(config, results);
    if run.contains(Stage::Assets) {
        let i = choose|i: int| 0 <= i < run.len() && run[i] == Stage::Assets;
    }
    if run.contains(Stage::Package) {
        let i = choose|i: int| 0 <= i < run.len() && run[i] == Stage::Package;
    }
}

} // verus!
