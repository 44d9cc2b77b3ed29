use big_slides::errors::BigError;
use big_slides::hub::RELOAD_MESSAGE;
use big_slides::resources::{ContentRead, ResourceFile};
use big_slides::watch::{
    auto_reload_js, batch_is_relevant, event_is_relevant, is_relevant_path, regenerate_html,
    regenerate_outputs, relevant_given, root_of, run_cycle, watch_root, watches, ChangeEvent,
    ChangedPath, CycleStep, Orchestrator, Phase, Progress, Stage, WatchConfig,
};
use std::cell::{Cell, RefCell};

const MS: u128 = 1_000_000;

fn session() -> WatchConfig {
    WatchConfig {
        markdown_path: "talk/slides.md".to_string(),
        html_output: "out/index.html".to_string(),
        css_files: vec![
            ResourceFile::new("talk/theme.less", Some("/work/talk/theme.less".to_string())),
            ResourceFile::new("https://example.com/remote.txt", None),
        ],
        js_files: vec![ResourceFile::new("talk/deck.script", None)],
        ..WatchConfig::default()
    }
}

fn source_canonical() -> Option<String> {
    Some("/work/talk/slides.md".to_string())
}

fn changed(path: &str, canonical: Option<&str>) -> ChangedPath {
    ChangedPath { path: path.to_string(), canonical: canonical.map(|c| c.to_string()) }
}

fn relevant(path: &str, canonical: Option<&str>) -> bool {
    is_relevant_path(&changed(path, canonical), &session(), &source_canonical())
}

#[test]
fn default_watch_config() {
    let c = WatchConfig::default();
    assert_eq!(c.markdown_path, "");
    assert_eq!(c.html_output, "");
    assert_eq!(c.slides_output_dir, None);
    assert_eq!(c.pptx_output, None);
    assert!(c.css_files.is_empty() && c.js_files.is_empty());
    assert!(c.embed_resources);
    assert_eq!(c.debounce_ms, 500);
    assert!(!c.serve);
    assert_eq!(c.port, 8080);
    assert!(!c.auto_reload);
    assert_eq!(c.ws_port, None);
}

#[test]
fn the_source_is_relevant() {
    assert!(relevant("/work/talk/slides.md", Some("/work/talk/slides.md")));
    assert!(relevant("whatever/name.txt", Some("/work/talk/slides.md")));
    assert!(relevant("talk/slides.md", Some("/elsewhere/x.txt")));
}

#[test]
fn paths_are_compared_by_component() {
    assert!(relevant("talk//slides.md.bak", Some("/work//talk/slides.md")));
    assert!(relevant("talk/./slides.md", Some("/else/where.txt")));
}

#[test]
fn a_source_without_canonical_form_is_compared_as_configured() {
    let hit = changed("x.txt", Some("talk/slides.md"));
    assert!(is_relevant_path(&hit, &session(), &None));
    let miss = changed("x.txt", Some("/work/talk/slides.md"));
    assert!(!is_relevant_path(&miss, &session(), &None));
}

#[test]
fn a_path_without_canonical_form_is_never_relevant() {
    assert!(!relevant("talk/slides.md", None));
    assert!(!relevant("talk/new.css", None));
    assert!(!relevant("/work/talk/theme.less", None));
}

#[test]
fn local_dependencies_are_relevant_by_either_path() {
    assert!(relevant("theme.less", Some("/work/talk/theme.less")));
    assert!(relevant("/work/talk/theme.less", Some("/other")));
    assert!(relevant("talk/deck.script", Some("/work/talk/deck.script")));
    assert!(!relevant("talk//deck.script", Some("/work/talk/deck.script")));
}

#[test]
fn remote_dependencies_are_not_watched() {
    assert!(!relevant("https://example.com/remote.txt", Some("https://example.com/remote.txt")));
}

#[test]
fn watched_extensions_are_relevant_in_any_case() {
    assert!(relevant("notes/other.md", Some("/work/notes/other.md")));
    assert!(relevant("a.CSS", Some("/work/a.CSS")));
    assert!(relevant("a.Js", Some("/work/a.Js")));
    assert!(relevant("a.tar.md", Some("/work/a.tar.md")));
    assert!(!relevant("a.txt", Some("/work/a.txt")));
    assert!(!relevant("a.mdx", Some("/work/a.mdx")));
    assert!(!relevant("md", Some("/work/md")));
    assert!(!relevant(".css", Some("/work/.css")));
    assert!(!relevant("a.md/", Some("/work/a")) || relevant("a.md", Some("/work/a")));
    assert!(!relevant("a.md.txt", Some("/work/a.md.txt")));
}

#[test]
fn the_extension_is_read_from_the_reported_path() {
    assert!(relevant("a.md", Some("/work/renamed.txt")));
    assert!(!relevant("a.txt", Some("/work/renamed.md")));
}

#[test]
fn an_unrelated_text_file_beside_a_stylesheet_begins_nothing() {
    let mut config = WatchConfig::default();
    config.markdown_path = "talk/slides.md".to_string();
    config.css_files = vec![ResourceFile::new("talk/style.css", Some("/w/talk/style.css".into()))];
    let batch = vec![ChangeEvent { paths: vec![changed("talk/notes.txt", Some("/w/talk/notes.txt"))] }];
    let source = Some("/w/talk/slides.md".to_string());
    assert!(!batch_is_relevant(&batch, &config, &source));
    let mut o = Orchestrator::new(0);
    let began = o.on_batch(batch_is_relevant(&batch, &config, &source), 10_000 * MS, config.debounce_ms);
    assert!(!began);
    assert_eq!(o, Orchestrator::new(0));
}

#[test]
fn a_batch_is_relevant_if_any_path_is() {
    let config = session();
    let source = source_canonical();
    let none: Vec<ChangeEvent> = vec![];
    assert!(!batch_is_relevant(&none, &config, &source));
    let empty_event = vec![ChangeEvent { paths: vec![] }];
    assert!(!batch_is_relevant(&empty_event, &config, &source));
    let mixed = vec![
        ChangeEvent { paths: vec![changed("a.txt", Some("/w/a.txt"))] },
        ChangeEvent { paths: vec![] },
        ChangeEvent {
            paths: vec![changed("b.log", Some("/w/b.log")), changed("c.md", Some("/w/c.md"))],
        },
    ];
    assert!(batch_is_relevant(&mixed, &config, &source));
    assert!(!event_is_relevant(&mixed[0], &config, &source));
    assert!(event_is_relevant(&mixed[2], &config, &source));
}

#[test]
fn two_saves_in_one_window_run_one_cycle() {
    let config = session();
    let source = source_canonical();
    let save = || ChangeEvent { paths: vec![changed("talk/slides.md", Some("/work/talk/slides.md"))] };
    let mut o = Orchestrator::new(0);
    let mut cycles = 0;
    // both saves, 100 ms apart, arrive in the one batch of their window
    let batch = vec![save(), save()];
    if o.on_batch(batch_is_relevant(&batch, &config, &source), 600 * MS, 500) {
        cycles += 1;
        o.on_cycle_end(true, false);
    }
    assert_eq!(cycles, 1);
}

#[test]
fn two_saves_in_two_batches_run_one_cycle() {
    let mut o = Orchestrator::new(0);
    let mut cycles = 0;
    for at in [1_000 * MS, 1_100 * MS] {
        if o.on_batch(true, at, 500) {
            cycles += 1;
            o.on_cycle_end(true, false);
        }
    }
    assert_eq!(cycles, 1);
    assert_eq!(o.last_regen, 1_000 * MS);
}

#[test]
fn the_gate_opens_when_the_interval_has_passed() {
    let mut o = Orchestrator::new(1_000 * MS);
    assert!(!o.on_batch(true, 1_499 * MS, 500));
    assert!(!o.on_batch(true, 1_500 * MS - 1, 500));
    assert!(o.on_batch(true, 1_500 * MS, 500));
    assert_eq!(o.phase, Phase::Running { accepted_at: 1_500 * MS });
}

#[test]
fn a_clock_that_reads_earlier_counts_as_no_time_passed() {
    let mut o = Orchestrator::new(1_000 * MS);
    assert!(!o.on_batch(true, 0, 500));
    assert!(o.on_batch(true, 0, 0));
}

#[test]
fn the_largest_interval_does_not_overflow() {
    let mut o = Orchestrator::new(0);
    assert!(!o.on_batch(true, u64::MAX as u128 * MS - 1, u64::MAX));
    assert!(o.on_batch(true, u64::MAX as u128 * MS, u64::MAX));
}

#[test]
fn no_cycle_begins_while_one_runs() {
    let mut o = Orchestrator::new(0);
    assert!(o.on_batch(true, 1_000 * MS, 500));
    assert!(o.is_running());
    assert!(!o.on_batch(true, 5_000 * MS, 500));
    assert!(!o.on_batch(true, 50_000 * MS, 0));
    o.on_cycle_end(false, true);
    assert!(!o.is_running());
    assert!(o.on_batch(true, 5_000 * MS, 500));
}

#[test]
fn a_failed_cycle_leaves_the_last_regeneration() {
    let mut o = Orchestrator::new(0);
    assert!(o.on_batch(true, 1_000 * MS, 500));
    assert!(!o.on_cycle_end(false, true));
    assert_eq!(o, Orchestrator::new(0));
    // the next change is taken up at once
    assert!(o.on_batch(true, 1_001 * MS, 500));
}

#[test]
fn a_reload_follows_success_only() {
    let mut o = Orchestrator::new(0);
    assert!(!o.on_cycle_end(true, true)); // nothing was running
    assert!(o.on_batch(true, 1_000 * MS, 500));
    assert!(o.on_cycle_end(true, true));
    assert_eq!(o.last_regen, 1_000 * MS);
    assert!(o.on_batch(true, 2_000 * MS, 500));
    assert!(!o.on_cycle_end(false, true));
    assert!(o.on_batch(true, 3_000 * MS, 500));
    assert!(!o.on_cycle_end(true, false)); // no hub
}

fn step_through(config: &WatchConfig, assets_ok: bool, package_ok: bool) -> (Vec<Stage>, Result<(), BigError>) {
    let mut ran = vec![];
    let mut step = regenerate_outputs(config, Progress::Begin);
    loop {
        match step {
            CycleStep::Finished(r) => return (ran, r),
            CycleStep::Run(stage) => {
                ran.push(stage);
                let ok = match stage {
                    Stage::Document => true,
                    Stage::Assets => assets_ok,
                    Stage::Package => package_ok,
                };
                let result =
                    if ok { Ok(()) } else { Err(BigError::UnknownError(format!("{:?}", stage))) };
                step = regenerate_outputs(config, Progress::Ran(stage, result));
            }
        }
    }
}

#[test]
fn a_cycle_runs_the_configured_stages_in_order() {
    let mut config = session();
    assert_eq!(step_through(&config, true, true), (vec![Stage::Document], Ok(())));
    config.slides_output_dir = Some("out/slides".to_string());
    assert_eq!(step_through(&config, true, true), (vec![Stage::Document, Stage::Assets], Ok(())));
    config.pptx_output = Some("out/deck.pptx".to_string());
    assert_eq!(
        step_through(&config, true, true),
        (vec![Stage::Document, Stage::Assets, Stage::Package], Ok(()))
    );
}

#[test]
fn packaging_needs_an_image_directory() {
    let mut config = session();
    config.pptx_output = Some("out/deck.pptx".to_string());
    assert_eq!(step_through(&config, true, true), (vec![Stage::Document], Ok(())));
}

#[test]
fn failed_rendering_skips_packaging_and_the_session_goes_on() {
    let mut config = session();
    config.serve = true;
    config.auto_reload = true;
    config.slides_output_dir = Some("out/slides".to_string());
    config.pptx_output = Some("out/deck.pptx".to_string());
    let mut o = Orchestrator::new(0);
    assert!(o.on_batch(true, 1_000 * MS, config.debounce_ms));
    let (ran, result) = step_through(&config, false, true);
    assert_eq!(ran, vec![Stage::Document, Stage::Assets]);
    assert_eq!(result, Err(BigError::UnknownError("Assets".to_string())));
    assert!(!o.on_cycle_end(result.is_ok(), config.hub_enabled()));
    assert!(!o.is_running());
    assert!(o.on_batch(true, 1_200 * MS, config.debounce_ms));
}

#[test]
fn a_failed_document_ends_the_cycle_with_its_error() {
    let config = session();
    let failure = BigError::PathNotFoundError("talk/slides.md".to_string());
    match regenerate_outputs(&config, Progress::Ran(Stage::Document, Err(failure.clone()))) {
        CycleStep::Finished(r) => assert_eq!(r, Err(failure)),
        CycleStep::Run(stage) => panic!("ran {:?}", stage),
    }
}

#[test]
fn a_session_starts_with_a_cycle() {
    let mut o = Orchestrator::start(0);
    assert!(o.is_running());
    assert!(!o.on_batch(true, 10_000 * MS, 500));
    assert!(!o.on_cycle_end(false, false));
    assert_eq!(o, Orchestrator::new(0));
    let mut o = Orchestrator::start(7);
    assert!(o.on_cycle_end(true, true));
    assert_eq!(o, Orchestrator::new(7));
}

#[test]
fn hub_port_defaults_to_the_next_port() {
    let mut config = WatchConfig::default();
    assert_eq!(config.hub_port(), None);
    config.auto_reload = true;
    assert_eq!(config.hub_port(), Some(8081));
    config.port = 65534;
    assert_eq!(config.hub_port(), Some(65535));
    config.ws_port = Some(9000);
    assert_eq!(config.hub_port(), Some(9000));
    config.port = 65535;
    assert_eq!(config.hub_port(), Some(9000));
    assert!(!config.hub_enabled());
    config.serve = true;
    assert!(config.hub_enabled());
}

#[test]
fn the_watch_root_is_the_directory_of_the_source() {
    assert_eq!(watch_root("talk/slides.md"), "talk");
    assert_eq!(watch_root("/abs/talk/slides.md"), "/abs/talk");
    assert_eq!(watch_root("slides.md"), ".");
    assert_eq!(watch_root(""), ".");
    assert_eq!(watch_root("/"), ".");
}

#[test]
fn the_reload_script_names_the_port() {
    let script = auto_reload_js(8081);
    assert!(script.starts_with("<script>\n// Auto-reload WebSocket client\n(function() {\n    const ws_port = 8081;\n"));
    assert!(script.contains("const wsUrl = `${wsProtocol}//${window.location.hostname}:${ws_port}`;"));
    assert!(script.contains("if (event.data === 'reload') {"));
    assert!(script.contains("window.location.reload();"));
    assert!(script.contains("reconnectInterval = setInterval(connect, 3000);"));
    assert!(script.ends_with("    connect();\n})();\n</script>"));
    assert_eq!(script.len(), 75 + 4 + 1085);
    assert!(auto_reload_js(0).contains("const ws_port = 0;"));
    assert!(auto_reload_js(65535).contains("const ws_port = 65535;"));
    assert_eq!(RELOAD_MESSAGE, "reload");
}

#[test]
fn the_document_stage_injects_the_script_when_reloading() {
    let mut config = session();
    let source = ContentRead::Text("# One".to_string());
    let plain = regenerate_html(&config, Some(8081), &source, &vec![], &vec![]).unwrap();
    assert!(!plain.contains("WebSocket"));
    config.auto_reload = true;
    let live = regenerate_html(&config, Some(8081), &source, &vec![], &vec![]).unwrap();
    assert!(live.contains(&format!("</div>\n{}\n</body>", auto_reload_js(8081))));
    let no_port = regenerate_html(&config, None, &source, &vec![], &vec![]).unwrap();
    assert_eq!(no_port, plain);
    assert_eq!(
        regenerate_html(&config, Some(1), &ContentRead::Missing, &vec![], &vec![]),
        Err(BigError::PathNotFoundError("talk/slides.md".to_string()))
    );
}

#[test]
fn the_watched_extensions() {
    assert!(watches("md"));
    assert!(watches("css"));
    assert!(watches("js"));
    assert!(!watches("MD"));
    assert!(!watches("html"));
    assert!(!watches(""));
    assert!(!watches("mdx"));
}

#[test]
fn relevance_from_its_parts() {
    let config = session();
    let plain = changed("notes.txt", Some("/work/notes.txt"));
    assert!(!relevant_given(&plain, &config, false, false));
    assert!(relevant_given(&plain, &config, true, false));
    assert!(relevant_given(&plain, &config, false, true));
    let vanished = changed("talk/slides.md", None);
    assert!(!relevant_given(&vanished, &config, true, true));
    let style = changed("x", Some("/work/talk/theme.less"));
    assert!(relevant_given(&style, &config, false, false));
    let script = changed("talk/deck.script", Some("/y"));
    assert!(relevant_given(&script, &config, false, false));
    let remote = changed("https://example.com/remote.txt", Some("/z"));
    assert!(!relevant_given(&remote, &config, false, false));
}

#[test]
fn the_watch_root_from_the_parent() {
    assert_eq!(root_of(Some("talk".to_string())), "talk");
    assert_eq!(root_of(Some("".to_string())), ".");
    assert_eq!(root_of(None), ".");
}

fn full_session() -> WatchConfig {
    let mut config = session();
    config.serve = true;
    config.auto_reload = true;
    config.slides_output_dir = Some("out/slides".to_string());
    config.pptx_output = Some("out/deck.pptx".to_string());
    config
}

fn source_change() -> Vec<ChangeEvent> {
    vec![ChangeEvent { paths: vec![changed("talk/slides.md", Some("/work/talk/slides.md"))] }]
}

#[test]
fn a_whole_cycle_runs_each_stage_once() {
    let calls = RefCell::new(vec![]);
    let report = run_cycle(&full_session(), |stage| {
        calls.borrow_mut().push(stage);
        Ok(())
    });
    assert_eq!(report.ran, vec![Stage::Document, Stage::Assets, Stage::Package]);
    assert_eq!(report.result, Ok(()));
    assert_eq!(*calls.borrow(), report.ran);
}

#[test]
fn a_whole_cycle_ends_at_the_first_failure() {
    for failing in [Stage::Document, Stage::Assets, Stage::Package] {
        let calls = RefCell::new(vec![]);
        let report = run_cycle(&full_session(), |stage| {
            calls.borrow_mut().push(stage);
            if stage == failing {
                Err(BigError::UnknownError(format!("{:?} failed", stage)))
            } else {
                Ok(())
            }
        });
        assert_eq!(report.result, Err(BigError::UnknownError(format!("{:?} failed", failing))));
        assert_eq!(report.ran.last(), Some(&failing));
        assert_eq!(*calls.borrow(), report.ran);
        assert_eq!(report.ran.contains(&Stage::Package), failing == Stage::Package);
    }
}

#[test]
fn a_session_starts_with_one_cycle_and_goes_on_when_it_fails() {
    let (o, first) = Orchestrator::start_session(&full_session(), 5, |stage| {
        if stage == Stage::Document {
            Err(BigError::MarkdownError("bad".to_string()))
        } else {
            Ok(())
        }
    });
    assert_eq!(o, Orchestrator::new(5));
    assert_eq!(first.ran, vec![Stage::Document]);
    assert_eq!(first.result, Err(BigError::MarkdownError("bad".to_string())));
    let (o, first) = Orchestrator::start_session(&session(), 5, |_| Ok(()));
    assert_eq!(o, Orchestrator::new(5));
    assert_eq!(first.result, Ok(()));
}

#[test]
fn a_batch_runs_a_cycle_and_then_tells_the_previews() {
    let config = full_session();
    let log = RefCell::new(vec![]);
    let mut o = Orchestrator::new(0);
    let report = o.handle_batch(
        &source_change(),
        &config,
        &source_canonical(),
        600 * MS,
        |stage| {
            log.borrow_mut().push(format!("{:?}", stage));
            Ok(())
        },
        || log.borrow_mut().push("reload".to_string()),
    );
    assert!(report.broadcast);
    assert_eq!(report.cycle.unwrap().result, Ok(()));
    assert_eq!(*log.borrow(), vec!["Document", "Assets", "Package", "reload"]);
    assert_eq!(o, Orchestrator::new(600 * MS));
}

#[test]
fn a_batch_whose_cycle_fails_tells_nobody() {
    let config = full_session();
    let reloads = Cell::new(0);
    let mut o = Orchestrator::new(0);
    let report = o.handle_batch(
        &source_change(),
        &config,
        &source_canonical(),
        600 * MS,
        |stage| {
            if stage == Stage::Assets {
                Err(BigError::BrowserNotFound)
            } else {
                Ok(())
            }
        },
        || reloads.set(reloads.get() + 1),
    );
    assert!(!report.broadcast);
    let cycle = report.cycle.unwrap();
    assert_eq!(cycle.ran, vec![Stage::Document, Stage::Assets]);
    assert_eq!(cycle.result, Err(BigError::BrowserNotFound));
    assert_eq!(reloads.get(), 0);
    assert_eq!(o, Orchestrator::new(0));
}

#[test]
fn a_batch_that_is_not_accepted_runs_nothing() {
    let config = full_session();
    let stages = Cell::new(0);
    let reloads = Cell::new(0);
    let run = |_: Stage| {
        stages.set(stages.get() + 1);
        Ok(())
    };
    let notify = || reloads.set(reloads.get() + 1);
    let mut o = Orchestrator::new(0);
    // too early
    let early = o.handle_batch(&source_change(), &config, &source_canonical(), 100 * MS, run, notify);
    assert!(early.cycle.is_none() && !early.broadcast);
    // nothing relevant
    let other = vec![ChangeEvent { paths: vec![changed("a.txt", Some("/work/a.txt"))] }];
    let idle = o.handle_batch(&other, &config, &source_canonical(), 900 * MS, run, notify);
    assert!(idle.cycle.is_none() && !idle.broadcast);
    // a cycle is running
    let mut busy = Orchestrator::start(0);
    let blocked =
        busy.handle_batch(&source_change(), &config, &source_canonical(), 900 * MS, run, notify);
    assert!(blocked.cycle.is_none() && !blocked.broadcast);
    assert!(busy.is_running());
    assert_eq!((stages.get(), reloads.get()), (0, 0));
    assert_eq!(o, Orchestrator::new(0));
}

#[test]
fn without_a_hub_a_successful_cycle_tells_nobody() {
    let mut config = full_session();
    config.auto_reload = false;
    let reloads = Cell::new(0);
    let mut o = Orchestrator::new(0);
    let report = o.handle_batch(
        &source_change(),
        &config,
        &source_canonical(),
        600 * MS,
        |_| Ok(()),
        || reloads.set(reloads.get() + 1),
    );
    assert!(report.cycle.is_some() && !report.broadcast);
    assert_eq!(reloads.get(), 0);
}
