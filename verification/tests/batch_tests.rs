use stamprename::adapters::Warning;
use stamprename::plan::Batch;
use stamprename::plan::BatchItem;
use stamprename::plan::PlanEntry;
use stamprename::plan::RenamePlan;
use stamprename::resolver::outcome_to_batch_item;
use stamprename::resolver::start;
use stamprename::resolver::Action;
use stamprename::resolver::Event;
use stamprename::resolver::Outcome;
use stamprename::resolver::SourceKind;

fn entry(ts: &str, path: &str, new_name: &str) -> PlanEntry {
    PlanEntry {
        timestamp: ts.to_owned(),
        path: path.to_owned(),
        new_name: new_name.to_owned(),
    }
}

#[test]
fn colliding_batch_aborts_and_names_both_paths() {
    // Two files resolve to the same canonical timestamp: the batch must
    // abort with zero renames, and both paths must be reported.
    let mut batch = Batch::new();
    batch.record(BatchItem::Resolved(entry(
        "2023-05-25_19-47-30",
        "./a.jpg",
        "2023-05-25_19-47-30.jpg",
    )));
    batch.record(BatchItem::Resolved(entry(
        "2023-05-25_19-47-30",
        "./b.heic",
        "2023-05-25_19-47-30.heic",
    )));
    assert!(batch.must_abort());
    let collisions = batch.collisions();
    assert_eq!(collisions.len(), 1);
    assert_eq!(collisions[0].timestamp, "2023-05-25_19-47-30");
    assert_eq!(collisions[0].existing_path, "./a.jpg");
    assert_eq!(collisions[0].incoming_path, "./b.heic");
    assert!(batch.validated_entries().is_none());
}

#[test]
fn all_collisions_are_surfaced_in_one_pass() {
    let mut batch = Batch::new();
    batch.record(BatchItem::Resolved(entry("t1", "a", "t1.jpg")));
    batch.record(BatchItem::Resolved(entry("t2", "b", "t2.jpg")));
    batch.record(BatchItem::Resolved(entry("t1", "c", "t1.heic")));
    batch.record(BatchItem::Resolved(entry("t2", "d", "t2.heic")));
    assert!(batch.must_abort());
    let collisions = batch.collisions();
    assert_eq!(collisions.len(), 2);
    assert_eq!(collisions[0].existing_path, "a");
    assert_eq!(collisions[0].incoming_path, "c");
    assert_eq!(collisions[1].existing_path, "b");
    assert_eq!(collisions[1].incoming_path, "d");
}

#[test]
fn clean_batch_hands_out_renames_in_timestamp_order() {
    let mut batch = Batch::new();
    batch.record(BatchItem::Resolved(entry(
        "2024-01-01_00-00-00",
        "late",
        "2024-01-01_00-00-00.jpg",
    )));
    batch.record(BatchItem::Resolved(entry(
        "2022-06-30_12-00-00",
        "early",
        "2022-06-30_12-00-00.jpg",
    )));
    batch.record(BatchItem::Resolved(entry(
        "2023-05-14_21-34-06",
        "middle",
        "2023-05-14_21-34-06.mov",
    )));
    assert!(!batch.must_abort());
    assert!(!batch.needs_confirmation());
    let entries = batch.validated_entries().expect("no collision");
    let order: Vec<&str> = entries.iter().map(|e| e.path.as_str()).collect();
    assert_eq!(order, vec!["early", "middle", "late"]);
}

#[test]
fn excluded_files_only_ask_for_confirmation() {
    let mut batch = Batch::new();
    batch.record(BatchItem::Excluded);
    batch.record(BatchItem::Resolved(entry("t1", "a", "t1.jpg")));
    assert!(batch.needs_confirmation());
    assert!(!batch.must_abort());
    assert_eq!(batch.validated_entries().expect("no collision").len(), 1);
}

#[test]
fn duplicate_plan_keys_are_hard_errors() {
    let mut plan = RenamePlan::new();
    assert!(plan.insert(entry("t1", "a", "n1")).is_ok());
    assert_eq!(plan.insert(entry("t1", "b", "n2")), Err("a".to_owned()));
    assert_eq!(plan.entries().len(), 1);
    assert_eq!(plan.entries()[0].path, "a");
}

#[test]
fn unsupported_extension_is_skipped_with_confirmation() {
    // A `.gif` file is excluded from the plan, sets the confirmation
    // flag, and nothing crashes.
    let (_resolver, action) = start("./c.gif");
    match action {
        Action::Finish(outcome) => {
            assert!(matches!(
                outcome,
                Outcome::Skipped(Warning::UnsupportedExtension)
            ));
            let mut batch = Batch::new();
            batch.record(outcome_to_batch_item("./c.gif", outcome));
            assert!(batch.needs_confirmation());
            assert!(!batch.must_abort());
            assert_eq!(batch.validated_entries().expect("empty plan").len(), 0);
        },
        _ => panic!("a .gif file must not be attempted"),
    }
}

#[test]
fn video_goes_straight_to_the_secondary_tag() {
    let (resolver, action) = start("./c.mov");
    assert!(matches!(action, Action::RunCreationDateTool));

    // The tool knows no CreationDate tag (empty output), so the resolver
    // falls through to the tertiary tag.
    let (resolver, action, warning) = resolver.step(Event::ToolOutput(Some(Vec::new())));
    assert!(matches!(action, Action::RunCreateDateTool));
    assert_eq!(warning, Some(Warning::EmptyOutput));

    // The tertiary tag resolves, timezone-ambiguously.
    let (_resolver, action, warning) =
        resolver.step(Event::ToolOutput(Some(b"2023:05:14 21:34:06\n".to_vec())));
    assert_eq!(warning, None);
    match action {
        Action::Finish(Outcome::Resolved(r)) => {
            assert_eq!(r.timestamp, "2023-05-14_21-34-06");
            assert_eq!(r.target_name, "2023-05-14_21-34-06 (utc).mov");
            assert_eq!(r.kind, SourceKind::Tertiary);
        },
        _ => panic!("the tertiary tag should have resolved the file"),
    }
}

#[test]
fn uppercase_video_extension_routes_the_same() {
    let (_resolver, action) = start("./C.MOV");
    assert!(matches!(action, Action::RunCreationDateTool));
}

#[test]
fn image_tries_the_container_first_and_falls_through() {
    let (resolver, action) = start("./a.jpg");
    assert!(matches!(action, Action::ReadFileBytes));

    // The file cannot be opened: fall through to the secondary tag.
    let (resolver, action, warning) = resolver.step(Event::FileBytes(None));
    assert!(matches!(action, Action::RunCreationDateTool));
    assert_eq!(warning, Some(Warning::Unopenable));

    // The tool cannot run either; then the tertiary output is absent:
    // the file ends unresolved.
    let (resolver, action, warning) = resolver.step(Event::ToolOutput(None));
    assert!(matches!(action, Action::RunCreateDateTool));
    assert_eq!(warning, Some(Warning::ToolExecutionError));
    let (_resolver, action, warning) = resolver.step(Event::ToolOutput(Some(Vec::new())));
    assert_eq!(warning, Some(Warning::EmptyOutput));
    assert!(matches!(action, Action::Finish(Outcome::Unresolved)));
}

#[test]
fn file_without_extension_tries_the_container() {
    let (_resolver, action) = start("./bare");
    assert!(matches!(action, Action::ReadFileBytes));
}

#[test]
fn secondary_resolution_carries_no_marker() {
    let (resolver, action) = start("./b.heic");
    assert!(matches!(action, Action::ReadFileBytes));
    let (resolver, _action, _warning) = resolver.step(Event::FileBytes(None));
    let (_resolver, action, warning) =
        resolver.step(Event::ToolOutput(Some(b"2023:05:25 19:47:30-05:00\n".to_vec())));
    assert_eq!(warning, None);
    match action {
        Action::Finish(Outcome::Resolved(r)) => {
            assert_eq!(r.timestamp, "2023-05-25_19-47-30");
            assert_eq!(r.target_name, "2023-05-25_19-47-30.heic");
            assert_eq!(r.kind, SourceKind::Secondary);
        },
        _ => panic!("the secondary tag should have resolved the file"),
    }
}
