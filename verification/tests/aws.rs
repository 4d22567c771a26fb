use std::collections::BTreeMap;

use aws_image_tag::aws::{
    first_manifest, floating_tag_names, judge_delete, judge_put, manifest_tag, tag_names, Command,
    Event, ManifestError, Phase, PublishError, Publisher, Record, Step, Verdict,
};
use aws_image_tag::business::get_tags;
use aws_image_tag::config::{Tag, Version};
use aws_image_tag::registry::{DeleteOutcome, Image, ImageId, PutOutcome};

const COMMIT: &str = "6c7faa17e3d6e3d6e356dd9e0d0f1dc2f3b4b174";

fn id(tag: Option<&str>, digest: Option<&str>) -> ImageId {
    ImageId {
        tag: tag.map(str::to_owned),
        digest: digest.map(str::to_owned),
    }
}

fn created(tag: &str, digest: &str) -> PutOutcome {
    PutOutcome::Created(Some(Image {
        id: Some(id(Some(tag), Some(digest))),
    }))
}

fn tag(name: &str, mutable: bool) -> (String, bool) {
    (name.to_owned(), mutable)
}

fn names(list: &[&str]) -> Vec<String> {
    list.iter().map(|name| (*name).to_owned()).collect()
}

fn quiet(command: Command) -> Step {
    Step {
        records: vec![],
        command,
    }
}

fn registry_failure(message: &str) -> PublishError {
    PublishError::Registry(message.to_owned())
}

#[test]
fn judge_delete_records_each_deleted_image() {
    let verdict = judge_delete(DeleteOutcome::Deleted(vec![
        id(Some("latest"), Some("sha256:aa")),
        id(Some("1.2"), Some("sha256:bb")),
    ]));
    assert_eq!(
        verdict,
        Verdict {
            records: vec![
                Record::Deleted {
                    tag: "latest".to_owned(),
                    digest: "sha256:aa".to_owned()
                },
                Record::Deleted {
                    tag: "1.2".to_owned(),
                    digest: "sha256:bb".to_owned()
                },
            ],
            fault: None,
        }
    );
}

#[test]
fn judge_delete_accepts_an_empty_answer_and_a_missing_tag() {
    let nothing = Verdict {
        records: vec![],
        fault: None,
    };
    assert_eq!(judge_delete(DeleteOutcome::Deleted(vec![])), nothing);
    assert_eq!(judge_delete(DeleteOutcome::NotFound), nothing);
}

#[test]
fn judge_delete_stops_at_the_first_incomplete_image() {
    let verdict = judge_delete(DeleteOutcome::Deleted(vec![
        id(Some("a"), Some("sha256:01")),
        id(Some("b"), None),
        id(Some("c"), Some("sha256:03")),
    ]));
    assert_eq!(
        verdict,
        Verdict {
            records: vec![Record::Deleted {
                tag: "a".to_owned(),
                digest: "sha256:01".to_owned()
            }],
            fault: Some(PublishError::MissingDigest),
        }
    );
    let verdict = judge_delete(DeleteOutcome::Deleted(vec![id(None, None)]));
    assert_eq!(
        verdict,
        Verdict {
            records: vec![],
            fault: Some(PublishError::MissingTag),
        }
    );
    let verdict = judge_delete(DeleteOutcome::Deleted(vec![id(None, Some("sha256:01"))]));
    assert_eq!(verdict.fault, Some(PublishError::MissingTag));
}

#[test]
fn judge_delete_passes_a_failure_on() {
    assert_eq!(
        judge_delete(DeleteOutcome::Fatal("access denied".to_owned())),
        Verdict {
            records: vec![],
            fault: Some(registry_failure("access denied")),
        }
    );
}

#[test]
fn judge_put_records_the_stored_image() {
    assert_eq!(
        judge_put(created("latest", "sha256:aa")),
        Verdict {
            records: vec![Record::Added {
                tag: "latest".to_owned(),
                digest: "sha256:aa".to_owned()
            }],
            fault: None,
        }
    );
    assert_eq!(
        judge_put(PutOutcome::Created(None)),
        Verdict {
            records: vec![],
            fault: None,
        }
    );
}

#[test]
fn judge_put_notes_an_image_that_exists() {
    assert_eq!(
        judge_put(PutOutcome::AlreadyExists("tag test-1.2.3 exists".to_owned())),
        Verdict {
            records: vec![Record::Kept {
                message: "tag test-1.2.3 exists".to_owned()
            }],
            fault: None,
        }
    );
}

#[test]
fn judge_put_names_what_a_stored_image_lacks() {
    let faults = [
        (PutOutcome::Created(Some(Image { id: None })), PublishError::MissingImageId),
        (
            PutOutcome::Created(Some(Image {
                id: Some(id(None, Some("sha256:aa"))),
            })),
            PublishError::MissingTag,
        ),
        (
            PutOutcome::Created(Some(Image {
                id: Some(id(Some("latest"), None)),
            })),
            PublishError::MissingDigest,
        ),
        (
            PutOutcome::Created(Some(Image {
                id: Some(id(None, None)),
            })),
            PublishError::MissingTag,
        ),
        (PutOutcome::Fatal("throttled".to_owned()), registry_failure("throttled")),
    ];
    for (outcome, fault) in faults {
        assert_eq!(
            judge_put(outcome),
            Verdict {
                records: vec![],
                fault: Some(fault),
            }
        );
    }
}

#[test]
fn tag_names_lists_all_and_floating_ones() {
    let tags = vec![tag("test-1.2.3", false), tag("1.2", true), tag("1", true)];
    assert_eq!(tag_names(&tags), names(&["test-1.2.3", "1.2", "1"]));
    assert_eq!(floating_tag_names(&tags), names(&["1.2", "1"]));
    assert_eq!(tag_names(&vec![]), names(&[]));
    assert_eq!(floating_tag_names(&vec![tag("only", false)]), names(&[]));
}

#[test]
fn start_deletes_the_floating_tags_first() {
    let tags = get_tags(&Some("test".to_owned()), &Tag::SemVer(Version::new(1, 2, 3)));
    let (publisher, command) = Publisher::start(tags.clone());
    assert_eq!(
        command,
        Command::Delete(names(&["1.2", "1", "test-active", "latest"]))
    );
    assert_eq!(publisher.phase, Phase::Cleanup(4));
    assert_eq!(publisher.tags, tags);
}

#[test]
fn start_goes_straight_to_the_puts_without_floating_tags() {
    let (publisher, command) = Publisher::start(vec![tag("a", false), tag("b", false)]);
    assert_eq!(command, Command::Put(names(&["a", "b"])));
    assert_eq!(publisher.phase, Phase::Publish(2));
}

#[test]
fn start_ends_at_once_without_tags() {
    let (mut publisher, command) = Publisher::start(vec![]);
    assert_eq!(command, Command::Finish);
    assert_eq!(publisher.phase, Phase::Done);
    assert_eq!(
        publisher.step(Event::Put(PutOutcome::Fatal("late".to_owned()))),
        quiet(Command::Finish)
    );
    assert_eq!(publisher.phase, Phase::Done);
}

#[test]
fn step_holds_the_puts_back_until_every_delete_is_answered() {
    let tags = get_tags(&Some("test".to_owned()), &Tag::Commit(COMMIT.to_owned()));
    let (mut publisher, command) = Publisher::start(tags);
    assert_eq!(command, Command::Delete(names(&["test-active", "latest"])));

    let step = publisher.step(Event::Deleted(DeleteOutcome::Deleted(vec![id(
        Some("latest"),
        Some("sha256:old"),
    )])));
    assert_eq!(
        step,
        Step {
            records: vec![Record::Deleted {
                tag: "latest".to_owned(),
                digest: "sha256:old".to_owned()
            }],
            command: Command::Wait,
        }
    );
    assert_eq!(publisher.phase, Phase::Cleanup(1));

    let step = publisher.step(Event::Deleted(DeleteOutcome::NotFound));
    assert_eq!(
        step,
        quiet(Command::Put(names(&[
            "test-6c7faa17e3d6e3d6e356dd9e0d0f1dc2f3b4b174",
            "test-active",
            "latest"
        ])))
    );
    assert_eq!(publisher.phase, Phase::Publish(3));

    assert_eq!(
        publisher.step(Event::Put(created("latest", "sha256:new"))),
        Step {
            records: vec![Record::Added {
                tag: "latest".to_owned(),
                digest: "sha256:new".to_owned()
            }],
            command: Command::Wait,
        }
    );
    assert_eq!(
        publisher.step(Event::Put(PutOutcome::AlreadyExists("exists".to_owned()))),
        Step {
            records: vec![Record::Kept {
                message: "exists".to_owned()
            }],
            command: Command::Wait,
        }
    );
    assert_eq!(publisher.phase, Phase::Publish(1));
    assert_eq!(
        publisher.step(Event::Put(PutOutcome::Created(None))),
        quiet(Command::Finish)
    );
    assert_eq!(publisher.phase, Phase::Done);
}

#[test]
fn step_aborts_on_a_failed_delete() {
    let (mut publisher, _) = Publisher::start(vec![tag("latest", true), tag("1", true)]);
    let step = publisher.step(Event::Deleted(DeleteOutcome::Fatal("denied".to_owned())));
    assert_eq!(step, quiet(Command::Abort(registry_failure("denied"))));
    assert_eq!(publisher.phase, Phase::Failed(registry_failure("denied")));
    // What was in flight may still be answered: it changes nothing.
    let step = publisher.step(Event::Deleted(DeleteOutcome::NotFound));
    assert_eq!(step, quiet(Command::Abort(registry_failure("denied"))));
    let step = publisher.step(Event::Deleted(DeleteOutcome::Fatal("other".to_owned())));
    assert_eq!(step, quiet(Command::Abort(registry_failure("denied"))));
    assert_eq!(publisher.phase, Phase::Failed(registry_failure("denied")));
}

#[test]
fn step_aborts_on_a_failed_put() {
    let (mut publisher, _) = Publisher::start(vec![tag("a", false), tag("b", false)]);
    assert_eq!(
        publisher.step(Event::Put(created("a", "sha256:aa"))).command,
        Command::Wait
    );
    let step = publisher.step(Event::Put(PutOutcome::Fatal("server error".to_owned())));
    assert_eq!(step, quiet(Command::Abort(registry_failure("server error"))));
    assert_eq!(
        publisher.phase,
        Phase::Failed(registry_failure("server error"))
    );
}

#[test]
fn step_aborts_on_an_incomplete_answer_after_logging_what_came_before() {
    let (mut publisher, _) = Publisher::start(vec![tag("latest", true)]);
    let step = publisher.step(Event::Deleted(DeleteOutcome::Deleted(vec![
        id(Some("latest"), Some("sha256:aa")),
        id(None, Some("sha256:bb")),
    ])));
    assert_eq!(
        step,
        Step {
            records: vec![Record::Deleted {
                tag: "latest".to_owned(),
                digest: "sha256:aa".to_owned()
            }],
            command: Command::Abort(PublishError::MissingTag),
        }
    );
    assert_eq!(publisher.phase, Phase::Failed(PublishError::MissingTag));

    let (mut publisher, _) = Publisher::start(vec![tag("pinned", false)]);
    let step = publisher.step(Event::Put(PutOutcome::Created(Some(Image { id: None }))));
    assert_eq!(step, quiet(Command::Abort(PublishError::MissingImageId)));
}

#[test]
fn fail_ends_a_running_publish() {
    let (mut publisher, _) = Publisher::start(vec![tag("latest", true), tag("pinned", false)]);
    let step = publisher.fail("task 7 panicked".to_owned());
    assert_eq!(step, quiet(Command::Abort(registry_failure("task 7 panicked"))));
    assert_eq!(
        publisher.phase,
        Phase::Failed(registry_failure("task 7 panicked"))
    );
    assert_eq!(publisher.tags, vec![tag("latest", true), tag("pinned", false)]);

    let (mut publisher, _) = Publisher::start(vec![tag("pinned", false)]);
    assert_eq!(publisher.phase, Phase::Publish(1));
    let step = publisher.fail("cancelled".to_owned());
    assert_eq!(step, quiet(Command::Abort(registry_failure("cancelled"))));
    assert_eq!(publisher.phase, Phase::Failed(registry_failure("cancelled")));
}

#[test]
fn fail_changes_nothing_after_the_end() {
    let (mut publisher, _) = Publisher::start(vec![]);
    assert_eq!(publisher.fail("late".to_owned()), quiet(Command::Finish));
    assert_eq!(publisher.phase, Phase::Done);

    let (mut publisher, _) = Publisher::start(vec![tag("latest", true)]);
    publisher.step(Event::Deleted(DeleteOutcome::Fatal("denied".to_owned())));
    assert_eq!(
        publisher.fail("late".to_owned()),
        quiet(Command::Abort(registry_failure("denied")))
    );
    assert_eq!(publisher.phase, Phase::Failed(registry_failure("denied")));
}

#[test]
fn step_ignores_an_answer_of_the_wrong_kind() {
    let (mut publisher, _) = Publisher::start(vec![tag("latest", true)]);
    let step = publisher.step(Event::Put(PutOutcome::Fatal("stray".to_owned())));
    assert_eq!(step, quiet(Command::Wait));
    assert_eq!(publisher.phase, Phase::Cleanup(1));

    let (mut publisher, _) = Publisher::start(vec![tag("pinned", false)]);
    let step = publisher.step(Event::Deleted(DeleteOutcome::Fatal("stray".to_owned())));
    assert_eq!(step, quiet(Command::Wait));
    assert_eq!(publisher.phase, Phase::Publish(1));
}

#[test]
fn step_treats_a_count_of_zero_like_the_last_answer() {
    let mut publisher = Publisher {
        tags: vec![tag("latest", true)],
        phase: Phase::Cleanup(0),
    };
    let step = publisher.step(Event::Deleted(DeleteOutcome::NotFound));
    assert_eq!(step, quiet(Command::Put(names(&["latest"]))));
    assert_eq!(publisher.phase, Phase::Publish(1));
}

/// A registry that answers every request: a tag points at the digest of
/// its image.
fn publish(
    registry: &mut BTreeMap<String, String>,
    tags: Vec<(String, bool)>,
    digest: &str,
    backwards: bool,
) -> (Phase, Vec<Record>) {
    let mut records = vec![];
    let (mut publisher, mut command) = Publisher::start(tags);
    loop {
        let (mut names, deleting) = match command {
            Command::Delete(names) => (names, true),
            Command::Put(names) => (names, false),
            Command::Wait => panic!("nothing is in flight"),
            Command::Finish | Command::Abort(_) => return (publisher.phase, records),
        };
        if backwards {
            names.reverse();
        }
        command = Command::Wait;
        for name in names {
            assert_eq!(command, Command::Wait);
            let event = if deleting {
                Event::Deleted(match registry.remove(&name) {
                    Some(old) => DeleteOutcome::Deleted(vec![id(Some(&name), Some(&old))]),
                    None => DeleteOutcome::NotFound,
                })
            } else if registry.contains_key(&name) {
                Event::Put(PutOutcome::AlreadyExists(name))
            } else {
                registry.insert(name.clone(), digest.to_owned());
                Event::Put(created(&name, digest))
            };
            let step = publisher.step(event);
            records.extend(step.records);
            command = step.command;
        }
    }
}

#[test]
fn publishing_again_moves_the_floating_tags_and_keeps_the_pinned_one() {
    let tags = get_tags(&Some("test".to_owned()), &Tag::SemVer(Version::new(1, 2, 3)));
    let mut registry = BTreeMap::new();
    registry.insert("unrelated".to_owned(), "sha256:00".to_owned());

    let (phase, records) = publish(&mut registry, tags.clone(), "sha256:11", false);
    assert_eq!(phase, Phase::Done);
    assert_eq!(records.len(), 5);
    for name in ["test-1.2.3", "1.2", "1", "test-active", "latest"] {
        assert_eq!(registry[name], "sha256:11");
    }

    let (phase, records) = publish(&mut registry, tags, "sha256:22", true);
    assert_eq!(phase, Phase::Done);
    for name in ["1.2", "1", "test-active", "latest"] {
        assert_eq!(registry[name], "sha256:22");
    }
    assert_eq!(registry["test-1.2.3"], "sha256:11");
    assert_eq!(registry["unrelated"], "sha256:00");
    assert_eq!(registry.len(), 6);
    assert!(records.contains(&Record::Kept {
        message: "test-1.2.3".to_owned()
    }));
    assert!(records.contains(&Record::Deleted {
        tag: "latest".to_owned(),
        digest: "sha256:11".to_owned()
    }));
    assert!(records.contains(&Record::Added {
        tag: "latest".to_owned(),
        digest: "sha256:22".to_owned()
    }));
    assert_eq!(records.len(), 9);
}

#[test]
fn publishing_a_pinned_tag_that_exists_succeeds() {
    let mut registry = BTreeMap::new();
    registry.insert("test-1.2.3".to_owned(), "sha256:11".to_owned());
    let (phase, records) = publish(
        &mut registry,
        vec![tag("test-1.2.3", false)],
        "sha256:22",
        false,
    );
    assert_eq!(phase, Phase::Done);
    assert_eq!(
        records,
        vec![Record::Kept {
            message: "test-1.2.3".to_owned()
        }]
    );
    assert_eq!(registry["test-1.2.3"], "sha256:11");
}

#[test]
fn manifest_tag_is_the_commit_or_the_version() {
    assert_eq!(manifest_tag(&Tag::Commit(COMMIT.to_owned())), COMMIT);
    assert_eq!(manifest_tag(&Tag::SemVer(Version::new(1, 2, 3))), "1.2.3");
    assert_eq!(
        manifest_tag(&Tag::from_str("release-1.2.3-rc.2").unwrap()),
        "1.2.3"
    );
}

#[test]
fn first_manifest_takes_the_first_image() {
    assert_eq!(
        first_manifest(Ok(vec![
            Some("{\"schemaVersion\":2}".to_owned()),
            Some("other".to_owned()),
            None
        ])),
        Ok("{\"schemaVersion\":2}".to_owned())
    );
    assert_eq!(first_manifest(Ok(vec![Some(String::new())])), Ok(String::new()));
}

#[test]
fn first_manifest_fails_without_an_image_or_a_manifest() {
    assert_eq!(first_manifest(Ok(vec![])), Err(ManifestError::NoImage));
    assert_eq!(
        first_manifest(Ok(vec![None, Some("second".to_owned())])),
        Err(ManifestError::NoManifest)
    );
    assert_eq!(
        first_manifest(Err("repository not found".to_owned())),
        Err(ManifestError::Registry("repository not found".to_owned()))
    );
}
