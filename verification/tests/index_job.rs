use eg_gui::events::WsEvent;
use eg_gui::index_job::{
    default_true, index_done, Action, IndexBody, IndexJob, IndexSlot, JobEvent, JobStep, LogLine,
};

fn body(lexical_only: bool, profiles: bool) -> IndexBody {
    IndexBody { path: "/w/book.xlsx".to_string(), lexical_only, profiles }
}

fn texts(step: &JobStep) -> Vec<String> {
    step.logs
        .iter()
        .map(|l| match l {
            LogLine::Text(t) => t.clone(),
            LogLine::Loaded => "<loaded>".to_string(),
            LogLine::Built => "<built>".to_string(),
            LogLine::Searchable => "<searchable>".to_string(),
        })
        .collect()
}

fn feed(job: &mut IndexJob, event: JobEvent) -> JobStep {
    assert!(job.accepts(&event), "the job did not expect this event");
    job.step(event)
}

fn error_of(step: &JobStep) -> Option<String> {
    match &step.action {
        Action::Finish { result: Err(m) } => Some(m.clone()),
        _ => None,
    }
}

#[test]
fn profiles_are_on_by_default() {
    assert!(default_true());
}

#[test]
fn a_full_run_in_the_cli_order() {
    let (mut job, first) = IndexJob::start(&body(false, true), false, 1000);
    assert!(matches!(&first.action, Action::Load { path } if path == "/w/book.xlsx"));
    let s = feed(&mut job, JobEvent::Loaded { warnings: vec!["merged cells".to_string()] });
    assert!(matches!(s.action, Action::Build));
    assert_eq!(texts(&s), vec!["<loaded>", "  warning: merged cells"]);
    let s = feed(&mut job, JobEvent::Built { formula_groups: 12 });
    assert!(matches!(s.action, Action::Finalize { drop_formula_groups: false }));
    let s = feed(&mut job, JobEvent::Done);
    assert!(matches!(s.action, Action::Profile { values: true }));
    assert_eq!(texts(&s), vec!["<built>"]);
    let s = feed(&mut job, JobEvent::Done);
    assert!(matches!(s.action, Action::StoreGraph { formula_groups_stored: true }));
    let s = feed(&mut job, JobEvent::Done);
    assert!(matches!(s.action, Action::StoreProfiles));
    let s = feed(&mut job, JobEvent::Done);
    assert!(matches!(s.action, Action::ReadBack));
    assert_eq!(texts(&s), vec!["graph stored"]);
    let s = feed(&mut job, JobEvent::Done);
    assert!(matches!(s.action, Action::OpenText));
    let s = feed(&mut job, JobEvent::Done);
    assert!(matches!(s.action, Action::CheckText));
    let s = feed(&mut job, JobEvent::Holds { present: false });
    assert!(matches!(s.action, Action::IndexText));
    let s = feed(&mut job, JobEvent::Counted { count: 42 });
    assert!(matches!(s.action, Action::OpenEmbedder));
    assert_eq!(texts(&s), vec!["42 lexical document(s) added"]);
    let s = feed(&mut job, JobEvent::Holds { present: false });
    assert!(matches!(s.action, Action::Embed));
    let s = feed(&mut job, JobEvent::Done);
    assert!(matches!(s.action, Action::StoreVectors));
    let s = feed(&mut job, JobEvent::Counted { count: 40 });
    assert!(matches!(s.action, Action::Rotate));
    assert_eq!(texts(&s), vec!["40 vector(s) added"]);
    assert!(!job.finished());
    let s = feed(&mut job, JobEvent::Done);
    assert!(matches!(s.action, Action::Finish { result: Ok(()) }));
    assert_eq!(texts(&s), vec!["<searchable>"]);
    assert!(job.finished());
    assert!(!job.accepts(&JobEvent::Done));
}

#[test]
fn too_many_formula_groups_are_dropped_and_not_stored() {
    let (mut job, _) = IndexJob::start(&body(false, false), false, 10);
    feed(&mut job, JobEvent::Loaded { warnings: Vec::new() });
    let s = feed(&mut job, JobEvent::Built { formula_groups: 11 });
    assert!(matches!(s.action, Action::Finalize { drop_formula_groups: true }));
    let s = feed(&mut job, JobEvent::Done);
    // no profiles asked for: straight to storing
    assert!(matches!(s.action, Action::StoreGraph { formula_groups_stored: false }));
    let s = feed(&mut job, JobEvent::Done);
    // absence is authoritative: stale profiles are cleared
    assert!(matches!(s.action, Action::ForgetProfiles));
    let s = feed(&mut job, JobEvent::Done);
    assert_eq!(texts(&s), vec!["graph stored"]);
}

#[test]
fn exactly_the_limit_keeps_formula_groups() {
    let (mut job, _) = IndexJob::start(&body(false, false), false, 10);
    feed(&mut job, JobEvent::Loaded { warnings: Vec::new() });
    let s = feed(&mut job, JobEvent::Built { formula_groups: 10 });
    assert!(matches!(s.action, Action::Finalize { drop_formula_groups: false }));
}

#[test]
fn redaction_keeps_values_out_of_profiles() {
    let (mut job, _) = IndexJob::start(&body(false, true), true, 10);
    feed(&mut job, JobEvent::Loaded { warnings: Vec::new() });
    feed(&mut job, JobEvent::Built { formula_groups: 0 });
    let s = feed(&mut job, JobEvent::Done);
    assert!(matches!(s.action, Action::Profile { values: false }));
}

fn to_text_check(lexical_only: bool) -> IndexJob {
    let (mut job, _) = IndexJob::start(&body(lexical_only, false), false, 10);
    feed(&mut job, JobEvent::Loaded { warnings: Vec::new() });
    feed(&mut job, JobEvent::Built { formula_groups: 0 });
    feed(&mut job, JobEvent::Done);
    feed(&mut job, JobEvent::Done);
    feed(&mut job, JobEvent::Done);
    feed(&mut job, JobEvent::Done);
    let s = feed(&mut job, JobEvent::Done);
    assert!(matches!(s.action, Action::CheckText));
    job
}

#[test]
fn lexical_only_never_opens_the_embedder() {
    let mut job = to_text_check(true);
    let s = feed(&mut job, JobEvent::Holds { present: true });
    assert!(matches!(s.action, Action::Rotate));
    let mut job = to_text_check(true);
    feed(&mut job, JobEvent::Holds { present: false });
    let s = feed(&mut job, JobEvent::Counted { count: 3 });
    assert!(matches!(s.action, Action::Rotate));
}

#[test]
fn an_indexed_workbook_is_not_indexed_again() {
    let mut job = to_text_check(false);
    let s = feed(&mut job, JobEvent::Holds { present: true });
    assert!(matches!(s.action, Action::OpenEmbedder));
    assert!(s.logs.is_empty());
    let s = feed(&mut job, JobEvent::Holds { present: true });
    assert!(matches!(s.action, Action::Rotate));
}

#[test]
fn no_embedder_means_word_only() {
    let mut job = to_text_check(false);
    feed(&mut job, JobEvent::Holds { present: true });
    let s = feed(&mut job, JobEvent::Failed { reason: "model missing".to_string() });
    assert!(matches!(s.action, Action::Rotate));
    assert_eq!(texts(&s), vec!["no semantic half (model missing); indexed by word only"]);
    let s = feed(&mut job, JobEvent::Done);
    assert!(matches!(s.action, Action::Finish { result: Ok(()) }));
}

#[test]
fn every_failure_names_what_failed() {
    let r = |e: JobEvent| -> String {
        let (mut job, _) = IndexJob::start(&body(false, true), false, 10);
        error_of(&feed(&mut job, e)).unwrap()
    };
    assert_eq!(
        r(JobEvent::Failed { reason: "not a workbook".to_string() }),
        "could not load /w/book.xlsx: not a workbook"
    );

    let at = |n: usize, e: JobEvent| -> String {
        let (mut job, _) = IndexJob::start(&body(false, true), false, 10);
        let script = vec![
            JobEvent::Loaded { warnings: Vec::new() },
            JobEvent::Built { formula_groups: 0 },
            JobEvent::Done,
            JobEvent::Done,
            JobEvent::Done,
            JobEvent::Done,
            JobEvent::Done,
            JobEvent::Done,
            JobEvent::Holds { present: false },
            JobEvent::Counted { count: 1 },
            JobEvent::Holds { present: false },
            JobEvent::Done,
            JobEvent::Counted { count: 1 },
        ];
        for ev in script.into_iter().take(n) {
            feed(&mut job, ev);
        }
        let s = feed(&mut job, e);
        assert!(job.finished());
        assert!(s.logs.is_empty());
        error_of(&s).unwrap()
    };
    let f = |m: &str| JobEvent::Failed { reason: m.to_string() };
    assert_eq!(at(4, f("full")), "could not store /w/book.xlsx: full");
    assert_eq!(at(5, f("full")), "could not store the profiles for /w/book.xlsx: full");
    assert_eq!(at(6, f("gone")), "could not read back the stored graph: gone");
    assert_eq!(at(6, JobEvent::Missing), "the graph vanished between storing and indexing it");
    assert_eq!(
        at(6, JobEvent::ProfilesFailed { reason: "bad json".to_string() }),
        "could not read back the profiles: bad json"
    );
    assert_eq!(at(7, f("locked")), "could not open the lexical index: locked");
    assert_eq!(at(8, f("corrupt")), "could not read the lexical index: corrupt");
    assert_eq!(at(9, f("oom")), "could not index /w/book.xlsx: oom");
    assert_eq!(at(11, f("oom")), "could not embed /w/book.xlsx: oom");
    assert_eq!(at(12, f("full")), "could not store the vectors for /w/book.xlsx: full");
    assert_eq!(at(13, f("cannot reopen")), "cannot reopen");
}

#[test]
fn clearing_stale_profiles_can_fail() {
    let (mut job, _) = IndexJob::start(&body(false, false), false, 10);
    feed(&mut job, JobEvent::Loaded { warnings: Vec::new() });
    feed(&mut job, JobEvent::Built { formula_groups: 0 });
    feed(&mut job, JobEvent::Done);
    feed(&mut job, JobEvent::Done);
    let s = feed(&mut job, JobEvent::Failed { reason: "denied".to_string() });
    assert_eq!(error_of(&s).unwrap(), "could not clear stale profiles for /w/book.xlsx: denied");
}

#[test]
fn one_job_at_a_time() {
    let mut slot = IndexSlot::new();
    assert!(slot.try_begin(&"a.xlsx".to_string()).is_ok());
    assert_eq!(slot.running.as_deref(), Some("a.xlsx"));
    let refused = slot.try_begin(&"b.xlsx".to_string()).unwrap_err();
    assert_eq!(refused.status.code(), 409);
    assert_eq!(refused.body.error, "already indexing a.xlsx — one at a time");
    assert_eq!(slot.running.as_deref(), Some("a.xlsx"));
    slot.finish();
    assert!(slot.running.is_none());
    assert!(slot.try_begin(&"b.xlsx".to_string()).is_ok());
    assert_eq!(slot.running.as_deref(), Some("b.xlsx"));
}

#[test]
fn a_finished_job_is_announced() {
    match index_done("a.xlsx".to_string(), Ok(())) {
        WsEvent::IndexDone { path, ok, error } => {
            assert_eq!(path, "a.xlsx");
            assert!(ok);
            assert!(error.is_none());
        }
        _ => panic!("wrong event"),
    }
    match index_done("a.xlsx".to_string(), Err("boom".to_string())) {
        WsEvent::IndexDone { ok, error, .. } => {
            assert!(!ok);
            assert_eq!(error.as_deref(), Some("boom"));
        }
        _ => panic!("wrong event"),
    }
}
