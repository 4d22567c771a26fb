//! What the registry answers, as plain values. A driver turns each response
//! of the registry client into one of these and hands it to the publish
//! protocol.

use crate::text::text_of;
use vstd::prelude::*;

verus! {

/// How the registry identifies an image: by tag and digest. A response may
/// leave either out.
#[derive(PartialEq, Eq, Debug)]
pub struct ImageId {
    pub tag: Option<String>,
    pub digest: Option<String>,
}

/// The mathematical value of an `ImageId`.
pub struct ImageIdView {
    pub tag: Option<Seq<char>>,
    pub digest: Option<Seq<char>>,
}

impl View for ImageId {
    type V = ImageIdView;

    open spec fn view(&self) -> ImageIdView {
        ImageIdView { tag: text_of(self.tag), digest: text_of(self.digest) }
    }
}

/// The record of an image that the registry has stored.
#[derive(PartialEq, Eq, Debug)]
pub struct Image {
    pub id: Option<ImageId>,
}

/// The mathematical value of an `Image`.
pub struct ImageView {
    pub id: Option<ImageIdView>,
}

impl View for Image {
    type V = ImageView;

    open spec fn view(&self) -> ImageView {
        ImageView {
            id: match self.id {
                Some(id) => Some(id@),
                None => None,
            },
        }
    }
}

/// The mathematical value of a list of image identifiers.
pub open spec fn id_list(ids: Seq<ImageId>) -> Seq<ImageIdView> {
    ids.map_values(|id: ImageId| id@)
}

/// The answer to a request to delete the image under one tag.
#[derive(PartialEq, Eq, Debug)]
pub enum DeleteOutcome {
    /// The images that were deleted.
    Deleted(Vec<ImageId>),
    /// No image carried the tag.
    NotFound,
    /// Any other failure, with the registry's message.
    Fatal(String),
}

/// The mathematical value of a `DeleteOutcome`.
pub enum DeleteOutcomeView {
    Deleted(Seq<ImageIdView>),
    NotFound,
    Fatal(Seq<char>),
}

impl View for DeleteOutcome {
    type V = DeleteOutcomeView;

    open spec fn view(&self) -> DeleteOutcomeView {
        match self {
            DeleteOutcome::Deleted(ids) => DeleteOutcomeView::Deleted(id_list(ids@)),
            DeleteOutcome::NotFound => DeleteOutcomeView::NotFound,
            DeleteOutcome::Fatal(message) => DeleteOutcomeView::Fatal(message@),
        }
    }
}

/// One entry in the list of failures that the registry sends with its
/// answer to a delete.
#[derive(PartialEq, Eq, Debug)]
pub struct DeleteFailure {
    /// Whether the failure says that no image carries the tag.
    pub missing: bool,
    /// The registry's reason, in its own words.
    pub reason: String,
}

/// The mathematical value of a `DeleteFailure`.
pub struct DeleteFailureView {
    pub missing: bool,
    pub reason: Seq<char>,
}

impl View for DeleteFailure {
    type V = DeleteFailureView;

    open spec fn view(&self) -> DeleteFailureView {
        DeleteFailureView { missing: self.missing, reason: self.reason@ }
    }
}

/// The mathematical value of a list of failures.
pub open spec fn failure_list(failures: Seq<DeleteFailure>) -> Seq<DeleteFailureView> {
    failures.map_values(|failure: DeleteFailure| failure@)
}

/// How many failures in front of the list say no more than that the tag is
/// missing.
pub open spec fn missing_prefix(failures: Seq<DeleteFailureView>) -> nat
    decreases failures.len(),
{
    if failures.len() == 0 || !failures.first().missing {
        0
    } else {
        1 + missing_prefix(failures.drop_first())
    }
}

/// The number `k` is the length of that prefix if and only if the first `k`
/// failures report a missing tag and the next one, if any, does not.
pub proof fn lemma_missing_prefix(failures: Seq<DeleteFailureView>, k: int)
    requires
        0 <= k <= failures.len(),
        forall|j: int| 0 <= j < k ==> (#[trigger] failures[j]).missing,
        k < failures.len() ==> !failures[k].missing,
    ensures
        missing_prefix(failures) == k,
    decreases k,
{
    if k > 0 {
        let rest = failures.drop_first();
        assert(forall|j: int| 0 <= j < k - 1 ==> (#[trigger] rest[j]).missing);
        lemma_missing_prefix(rest, k - 1);
    }
}

/// What the registry's answer to a delete amounts to. The first failure
/// that reports anything but a missing tag makes the delete fail with its
/// reason. Else, where nothing was deleted and a missing tag was reported,
/// the tag was not found. Else the listed images were deleted.
pub open spec fn delete_outcome_of(
    deleted: Seq<ImageIdView>,
    failures: Seq<DeleteFailureView>,
) -> DeleteOutcomeView {
    let k = missing_prefix(failures) as int;
    if k < failures.len() {
        DeleteOutcomeView::Fatal(failures[k].reason)
    } else if deleted.len() == 0 && failures.len() > 0 {
        DeleteOutcomeView::NotFound
    } else {
        DeleteOutcomeView::Deleted(deleted)
    }
}

/// Sums up the registry's answer to a delete: the images it lists as
/// deleted and the failures it lists.
pub fn delete_outcome(deleted: Vec<ImageId>, failures: Vec<DeleteFailure>) -> (r: DeleteOutcome)
    ensures
        r@ == delete_outcome_of(id_list(deleted@), failure_list(failures@)),
{
    let ghost all = failure_list(failures@);
    let mut i: usize = 0;
    while i < failures.len()
        invariant
            all == failure_list(failures@),
            i <= failures.len(),
            forall|j: int| 0 <= j < i ==> (#[trigger] all[j]).missing,
        decreases failures.len() - i,
    {
        if !failures[i].missing {
            proof {
                lemma_missing_prefix(all, i as int);
            }
            return DeleteOutcome::Fatal(failures[i].reason.clone());
        }
        i += 1;
    }
    proof {
        lemma_missing_prefix(all, i as int);
    }
    if deleted.len() == 0 && failures.len() > 0 {
        DeleteOutcome::NotFound
    } else {
        DeleteOutcome::Deleted(deleted)
    }
}

/// The answer to a request to store a manifest under one tag.
#[derive(PartialEq, Eq, Debug)]
pub enum PutOutcome {
    /// The manifest was stored; the registry may report the image.
    Created(Option<Image>),
    /// An image already exists under the tag, with the registry's message.
    AlreadyExists(String),
    /// Any other failure, with the registry's message.
    Fatal(String),
}

/// The mathematical value of a `PutOutcome`.
pub enum PutOutcomeView {
    Created(Option<ImageView>),
    AlreadyExists(Seq<char>),
    Fatal(Seq<char>),
}

impl View for PutOutcome {
    type V = PutOutcomeView;

    open spec fn view(&self) -> PutOutcomeView {
        match self {
            PutOutcome::Created(image) => PutOutcomeView::Created(
                match image {
                    Some(image) => Some(image@),
                    None => None,
                },
            ),
            PutOutcome::AlreadyExists(message) => PutOutcomeView::AlreadyExists(message@),
            PutOutcome::Fatal(message) => PutOutcomeView::Fatal(message@),
        }
    }
}

} // verus!
