use unwrapper::driver::{Action, Cause, Driver, Event, Outcome, Step};
use unwrapper::error::UnwrapError;
use unwrapper::format::WrappedFormat;

fn failed(cause: Cause, reason: &str) -> Event {
    Event::Failed { cause, reason: reason.to_string() }
}

/// Feeds the events to a driver for `item`; gives the actions it asked for and its outcome.
fn run(item: &str, events: Vec<Event>) -> (Vec<Action>, Option<Outcome>) {
    let (mut driver, first) = Driver::begin(item);
    let mut actions = vec![first];
    for event in events {
        match driver.step(event) {
            Step::Continue { driver: next, action } => {
                driver = next;
                actions.push(action);
            }
            Step::Finish(outcome) => return (actions, Some(outcome)),
        }
    }
    (actions, None)
}

fn probe(path: &str) -> Action {
    Action::Probe { path: path.to_string() }
}

fn classify(path: &str) -> Action {
    Action::Classify { path: path.to_string() }
}

fn create_dir(path: &str) -> Action {
    Action::CreateDir { path: path.to_string() }
}

fn unpack(format: WrappedFormat, source: &str, dest: &str) -> Action {
    Action::Unpack { format, source: source.to_string(), dest: dest.to_string() }
}

fn decode(format: WrappedFormat, source: &str, output: &str) -> Action {
    Action::Decode { format, source: source.to_string(), output: output.to_string() }
}

fn intermediate_of(action: &Action) -> String {
    match action {
        Action::Rename { to, .. } => to.clone(),
        other => panic!("no rename: {:?}", other),
    }
}

#[test]
fn an_item_that_names_no_file_is_text() {
    let (actions, outcome) = run("aGVsbG8=", vec![Event::Missing]);
    assert_eq!(actions, vec![probe("aGVsbG8=")]);
    assert_eq!(outcome, Some(Outcome::Text { text: "aGVsbG8=".to_string() }));
}

#[test]
fn unsupported_content_gets_no_directory() {
    for format in [WrappedFormat::Unsupported, WrappedFormat::Base64] {
        let (actions, outcome) = run("notes.txt", vec![Event::Found, Event::Format(format)]);
        assert_eq!(actions, vec![probe("notes.txt"), classify("notes.txt")]);
        assert_eq!(outcome, Some(Outcome::Failed(UnwrapError::Unsupported)));
    }
}

#[test]
fn a_zip_archive_is_unpacked_into_a_directory_named_by_its_stem() {
    let (actions, outcome) = run(
        "dir/photos.zip",
        vec![Event::Found, Event::Format(WrappedFormat::Zip), Event::Done, Event::Done],
    );
    assert_eq!(
        actions,
        vec![
            probe("dir/photos.zip"),
            classify("dir/photos.zip"),
            create_dir("photos"),
            unpack(WrappedFormat::Zip, "dir/photos.zip", "photos"),
        ]
    );
    assert_eq!(outcome, Some(Outcome::Unpacked { dest: "photos".to_string() }));
}

#[test]
fn tar_and_rar_archives_go_to_their_adapters() {
    for format in [WrappedFormat::Tar, WrappedFormat::Rar] {
        let (actions, outcome) =
            run("a.bin", vec![Event::Found, Event::Format(format), Event::Done, Event::Done]);
        assert_eq!(actions[3], unpack(format, "a.bin", "a"));
        assert_eq!(outcome, Some(Outcome::Unpacked { dest: "a".to_string() }));
    }
}

#[test]
fn taken_directory_names_are_counted_up() {
    let (actions, outcome) = run(
        "photos.zip",
        vec![
            Event::Found,
            Event::Format(WrappedFormat::Zip),
            Event::Exists,
            Event::Exists,
            Event::Exists,
            Event::Done,
            Event::Done,
        ],
    );
    assert_eq!(
        actions[2..],
        [
            create_dir("photos"),
            create_dir("photos_(1)"),
            create_dir("photos_(2)"),
            create_dir("photos_(3)"),
            unpack(WrappedFormat::Zip, "photos.zip", "photos_(3)"),
        ]
    );
    assert_eq!(outcome, Some(Outcome::Unpacked { dest: "photos_(3)".to_string() }));
}

#[test]
fn an_input_that_ends_in_a_count_has_it_raised() {
    let (actions, _) = run(
        "backup_(7).zip",
        vec![Event::Found, Event::Format(WrappedFormat::Zip), Event::Exists, Event::Exists],
    );
    assert_eq!(
        actions[2..],
        [create_dir("backup_(7)"), create_dir("backup_(8)"), create_dir("backup_(9)")]
    );
}

#[test]
fn a_directory_that_cannot_be_created_ends_the_item() {
    let (actions, outcome) = run(
        "photos.zip",
        vec![
            Event::Found,
            Event::Format(WrappedFormat::Zip),
            failed(Cause::Destination, "permission denied"),
        ],
    );
    assert_eq!(actions.len(), 3);
    assert_eq!(
        outcome,
        Some(Outcome::Failed(UnwrapError::DestinationAllocation {
            reason: "permission denied".to_string()
        }))
    );
}

#[test]
fn a_compressed_file_is_decoded_and_kept() {
    for format in [WrappedFormat::Gzip, WrappedFormat::Bzip2, WrappedFormat::Xz] {
        let (actions, outcome) = run(
            "notes.txt.gz",
            vec![
                Event::Found,
                Event::Format(format),
                Event::Done,
                Event::Done,
                Event::Format(WrappedFormat::Unsupported),
            ],
        );
        assert_eq!(
            actions,
            vec![
                probe("notes.txt.gz"),
                classify("notes.txt.gz"),
                create_dir("notes.txt"),
                decode(format, "notes.txt.gz", "notes.txt/notes.txt"),
                classify("notes.txt/notes.txt"),
            ]
        );
        assert_eq!(
            outcome,
            Some(Outcome::Decoded {
                dest: "notes.txt".to_string(),
                output: "notes.txt/notes.txt".to_string()
            })
        );
    }
}

#[test]
fn a_decoded_archive_of_another_kind_is_kept_as_it_is() {
    let (_, outcome) = run(
        "a.zip.gz",
        vec![
            Event::Found,
            Event::Format(WrappedFormat::Gzip),
            Event::Done,
            Event::Done,
            Event::Format(WrappedFormat::Zip),
        ],
    );
    assert_eq!(
        outcome,
        Some(Outcome::Decoded { dest: "a.zip".to_string(), output: "a.zip/a.zip".to_string() })
    );
}

#[test]
fn a_compressed_tar_archive_is_unpacked_and_its_intermediate_removed() {
    let (actions, outcome) = run(
        "x.tar.xz",
        vec![
            Event::Found,
            Event::Format(WrappedFormat::Xz),
            Event::Done,
            Event::Done,
            Event::Format(WrappedFormat::Tar),
            Event::Done,
            Event::Done,
            Event::Done,
        ],
    );
    assert_eq!(actions.len(), 8);
    assert_eq!(actions[3], decode(WrappedFormat::Xz, "x.tar.xz", "x.tar/x.tar"));
    assert_eq!(actions[4], classify("x.tar/x.tar"));
    let intermediate = intermediate_of(&actions[5]);
    assert_eq!(
        actions[5],
        Action::Rename { from: "x.tar/x.tar".to_string(), to: intermediate.clone() }
    );
    assert_eq!(actions[6], unpack(WrappedFormat::Tar, &intermediate, "x.tar"));
    assert_eq!(actions[7], Action::Remove { path: intermediate.clone() });
    assert_eq!(outcome, Some(Outcome::Unpacked { dest: "x.tar".to_string() }));

    let token = intermediate.strip_prefix("x.tar/").unwrap();
    assert_eq!(token.len(), 8);
    assert!(token.chars().all(|c| c.is_ascii_alphanumeric()));
}

#[test]
fn the_intermediate_is_removed_even_if_the_nested_unpack_fails() {
    let (actions, outcome) = run(
        "x.tar.gz",
        vec![
            Event::Found,
            Event::Format(WrappedFormat::Gzip),
            Event::Done,
            Event::Done,
            Event::Format(WrappedFormat::Tar),
            Event::Done,
            failed(Cause::Corrupt, "unexpected end of archive"),
            Event::Done,
        ],
    );
    let intermediate = intermediate_of(&actions[5]);
    assert_eq!(actions[7], Action::Remove { path: intermediate });
    assert_eq!(
        outcome,
        Some(Outcome::Failed(UnwrapError::NestedUnwrap {
            format: WrappedFormat::Gzip,
            reason: "unexpected end of archive".to_string()
        }))
    );
}

#[test]
fn the_nested_failure_is_the_one_reported_if_the_removal_fails_too() {
    let (_, outcome) = run(
        "x.tar.gz",
        vec![
            Event::Found,
            Event::Format(WrappedFormat::Gzip),
            Event::Done,
            Event::Done,
            Event::Format(WrappedFormat::Tar),
            Event::Done,
            failed(Cause::Corrupt, "bad header"),
            failed(Cause::Destination, "busy"),
        ],
    );
    assert_eq!(
        outcome,
        Some(Outcome::Failed(UnwrapError::NestedUnwrap {
            format: WrappedFormat::Gzip,
            reason: "bad header".to_string()
        }))
    );
}

#[test]
fn a_removal_that_fails_is_a_nested_failure() {
    let (_, outcome) = run(
        "x.tar.bz2",
        vec![
            Event::Found,
            Event::Format(WrappedFormat::Bzip2),
            Event::Done,
            Event::Done,
            Event::Format(WrappedFormat::Tar),
            Event::Done,
            Event::Done,
            failed(Cause::Destination, "busy"),
        ],
    );
    assert_eq!(
        outcome,
        Some(Outcome::Failed(UnwrapError::NestedUnwrap {
            format: WrappedFormat::Bzip2,
            reason: "busy".to_string()
        }))
    );
}

#[test]
fn a_rename_that_fails_leaves_nothing_to_remove() {
    let (actions, outcome) = run(
        "x.tar.gz",
        vec![
            Event::Found,
            Event::Format(WrappedFormat::Gzip),
            Event::Done,
            Event::Done,
            Event::Format(WrappedFormat::Tar),
            failed(Cause::Destination, "read-only file system"),
        ],
    );
    assert_eq!(actions.len(), 6);
    assert!(!actions.iter().any(|a| matches!(a, Action::Remove { .. })));
    assert_eq!(
        outcome,
        Some(Outcome::Failed(UnwrapError::NestedUnwrap {
            format: WrappedFormat::Gzip,
            reason: "read-only file system".to_string()
        }))
    );
}

#[test]
fn a_decoder_that_fails_is_reported_with_its_format() {
    let (actions, outcome) = run(
        "x.gz",
        vec![
            Event::Found,
            Event::Format(WrappedFormat::Gzip),
            Event::Done,
            failed(Cause::Corrupt, "corrupt deflate stream"),
        ],
    );
    assert_eq!(actions.len(), 4);
    assert_eq!(
        outcome,
        Some(Outcome::Failed(UnwrapError::Decode {
            format: WrappedFormat::Gzip,
            reason: "corrupt deflate stream".to_string()
        }))
    );
}

#[test]
fn a_source_that_cannot_be_read_is_reported_as_such() {
    let (_, outcome) = run(
        "x.zip",
        vec![
            Event::Found,
            Event::Format(WrappedFormat::Zip),
            Event::Done,
            failed(Cause::Source, "permission denied"),
        ],
    );
    assert_eq!(
        outcome,
        Some(Outcome::Failed(UnwrapError::SourceIo { reason: "permission denied".to_string() }))
    );
    let (_, outcome) = run("x.zip", vec![Event::Found, failed(Cause::Source, "gone")]);
    assert_eq!(
        outcome,
        Some(Outcome::Failed(UnwrapError::SourceIo { reason: "gone".to_string() }))
    );
    let (_, outcome) = run("x.zip", vec![failed(Cause::Source, "no access")]);
    assert_eq!(
        outcome,
        Some(Outcome::Failed(UnwrapError::SourceIo { reason: "no access".to_string() }))
    );
}

#[test]
fn an_archive_that_cannot_be_stored_is_a_decode_failure() {
    let (_, outcome) = run(
        "x.tar",
        vec![
            Event::Found,
            Event::Format(WrappedFormat::Tar),
            Event::Done,
            failed(Cause::Destination, "disk full"),
        ],
    );
    assert_eq!(
        outcome,
        Some(Outcome::Failed(UnwrapError::Decode {
            format: WrappedFormat::Tar,
            reason: "disk full".to_string()
        }))
    );
}

#[test]
fn an_input_without_a_file_name_has_no_destination() {
    let (actions, outcome) = run("..", vec![Event::Found, Event::Format(WrappedFormat::Zip)]);
    assert_eq!(actions.len(), 2);
    assert_eq!(
        outcome,
        Some(Outcome::Failed(UnwrapError::DestinationAllocation {
            reason: "the input has no file name".to_string()
        }))
    );
}

#[test]
fn an_answer_that_fits_no_question_ends_the_item() {
    let (_, outcome) = run("x.zip", vec![Event::Done]);
    assert_eq!(outcome, Some(Outcome::Failed(UnwrapError::SourceIo { reason: String::new() })));
    let (_, outcome) = run("x.zip", vec![Event::Found, Event::Exists]);
    assert_eq!(outcome, Some(Outcome::Failed(UnwrapError::SourceIo { reason: String::new() })));
    let (_, outcome) =
        run("x.zip", vec![Event::Found, Event::Format(WrappedFormat::Zip), Event::Missing]);
    assert_eq!(
        outcome,
        Some(Outcome::Failed(UnwrapError::DestinationAllocation { reason: String::new() }))
    );
}

#[test]
fn each_driver_has_a_token_of_its_own() {
    let events = || {
        vec![
            Event::Found,
            Event::Format(WrappedFormat::Gzip),
            Event::Done,
            Event::Done,
            Event::Format(WrappedFormat::Tar),
        ]
    };
    let first = intermediate_of(&run("x.tar.gz", events()).0[5]);
    assert!((0..20).any(|_| intermediate_of(&run("x.tar.gz", events()).0[5]) != first));
}

const FORMATS: [WrappedFormat; 8] = [
    WrappedFormat::Zip,
    WrappedFormat::Xz,
    WrappedFormat::Tar,
    WrappedFormat::Gzip,
    WrappedFormat::Bzip2,
    WrappedFormat::Rar,
    WrappedFormat::Base64,
    WrappedFormat::Unsupported,
];

fn every_event() -> Vec<Event> {
    let mut events = vec![
        Event::Found,
        Event::Missing,
        Event::Exists,
        Event::Done,
        failed(Cause::Source, "s"),
        failed(Cause::Destination, "d"),
        failed(Cause::Corrupt, "c"),
    ];
    events.extend(FORMATS.iter().map(|f| Event::Format(*f)));
    events
}

/// Walks every course that the events can give the driver, up to three collisions, and hands
/// each finished course to `check` with the actions asked for and the events answered.
fn explore(
    driver: Driver,
    actions: &mut Vec<Action>,
    events: &mut Vec<Event>,
    check: &mut dyn FnMut(&[Action], &[Event], &Outcome),
) {
    for event in every_event() {
        if event == Event::Exists && events.iter().filter(|e| **e == Event::Exists).count() >= 3 {
            continue;
        }
        events.push(event.clone());
        match driver.clone().step(event) {
            Step::Continue { driver: next, action } => {
                actions.push(action);
                assert!(actions.len() <= 12, "too long a course: {:?}", actions);
                explore(next, actions, events, check);
                actions.pop();
            }
            Step::Finish(outcome) => check(actions, events, &outcome),
        }
        events.pop();
    }
}

fn explore_all(item: &str, check: &mut dyn FnMut(&[Action], &[Event], &Outcome)) {
    let (driver, first) = Driver::begin(item);
    explore(driver, &mut vec![first], &mut Vec::new(), check);
}

#[test]
fn every_action_asked_for_can_be_carried_out() {
    let mut courses = 0;
    explore_all("x.tar.gz", &mut |actions, _, _| {
        courses += 1;
        for action in actions {
            match action {
                Action::Unpack { format, .. } => assert!(format.is_archive(), "{:?}", action),
                Action::Decode { format, .. } => assert!(format.is_compressor(), "{:?}", action),
                _ => {}
            }
        }
    });
    assert!(courses > 500);
}

#[test]
fn no_directory_is_asked_for_before_the_format_is_known() {
    explore_all("x.tar.gz", &mut |actions, events, _| {
        for (i, action) in actions.iter().enumerate() {
            if let Action::CreateDir { .. } = action {
                // The action at `i` answers the event at `i - 1`.
                let known = events[..i].iter().any(|e| match e {
                    Event::Format(f) => f.is_archive() || f.is_compressor(),
                    _ => false,
                });
                assert!(known, "{:?} after {:?}", action, &events[..i]);
            }
        }
    });
}

#[test]
fn what_was_renamed_is_always_removed() {
    explore_all("x.tar.gz", &mut |actions, events, outcome| {
        for (i, action) in actions.iter().enumerate() {
            if let Action::Rename { to, .. } = action {
                if events.get(i) == Some(&Event::Done) {
                    assert!(
                        actions[i + 1..].contains(&Action::Remove { path: to.clone() }),
                        "{:?} ended as {:?} with {:?} left behind",
                        events,
                        outcome,
                        to
                    );
                }
            }
        }
    });
}

#[test]
fn only_what_was_renamed_is_removed() {
    explore_all("x.tar.gz", &mut |actions, _, _| {
        for (i, action) in actions.iter().enumerate() {
            if let Action::Remove { path } = action {
                assert!(actions[..i]
                    .iter()
                    .any(|a| matches!(a, Action::Rename { to, .. } if to == path)));
                assert_ne!(path, "x.tar.gz");
            }
        }
    });
}

#[test]
fn a_failure_after_the_outer_layer_is_a_nested_one() {
    explore_all("x.tar.gz", &mut |actions, _, outcome| {
        let decoded = actions.iter().any(|a| matches!(a, Action::Classify { path } if path != "x.tar.gz"));
        if decoded {
            match outcome {
                Outcome::Failed(error) => {
                    assert!(matches!(error, UnwrapError::NestedUnwrap { .. }), "{:?}", error)
                }
                Outcome::Unpacked { .. } | Outcome::Decoded { .. } => {}
                Outcome::Text { .. } => panic!("a file became text"),
            }
        } else {
            assert!(!matches!(outcome, Outcome::Failed(UnwrapError::NestedUnwrap { .. })));
        }
    });
}

#[test]
fn what_was_stored_and_sound_is_done() {
    assert_eq!(Event::after_decoding(None, None), Event::Done);
    assert_eq!(Event::after_extraction(None, None), Event::Done);
}

#[test]
fn a_flaw_is_reported_after_what_came_out_was_stored() {
    assert_eq!(
        Event::after_decoding(None, Some("corrupt deflate stream".to_string())),
        failed(Cause::Corrupt, "corrupt deflate stream")
    );
    assert_eq!(
        Event::after_extraction(
            None,
            Some(UnwrapError::Decode {
                format: WrappedFormat::Zip,
                reason: "Invalid checksum".to_string()
            })
        ),
        failed(Cause::Corrupt, "Invalid checksum")
    );
    assert_eq!(
        Event::after_extraction(None, Some(UnwrapError::Unsupported)),
        failed(Cause::Corrupt, "the content is of no supported format")
    );
}

#[test]
fn a_store_that_failed_comes_before_a_flaw() {
    assert_eq!(
        Event::after_decoding(Some("disk full".to_string()), Some("corrupt".to_string())),
        failed(Cause::Destination, "disk full")
    );
    assert_eq!(
        Event::after_decoding(Some("disk full".to_string()), None),
        failed(Cause::Destination, "disk full")
    );
    assert_eq!(
        Event::after_extraction(
            Some("read-only file system".to_string()),
            Some(UnwrapError::Decode { format: WrappedFormat::Zip, reason: "bad".to_string() })
        ),
        failed(Cause::Destination, "read-only file system")
    );
}
