//! What can go wrong in the model.
use vstd::prelude::*;

use crate::text::{decimal, decimal_text, join, join3};

verus! {

/// What kind of failure an input or output met.
#[derive(Debug, Clone, Copy, PartialEq, Eq, Structural)]
pub enum IoKind {
    NotFound,
    PermissionDenied,
    /// What was read is not what was expected.
    InvalidData,
    /// Any other kind.
    Other,
}

/// A failure of the model. `Ort` and `Io` carry the words of the runtime and of
/// the file system, and `Io` the kind of the failure; they are kept for
/// diagnosis and do not show in `message`.
#[derive(Debug)]
pub enum GigaamError {
    Ort(String),
    Io(IoKind, String),
    Shape,
    OutputNotFound(String),
    AudioTooShort(usize),
}

/// A `GigaamError` with its texts as sequences of characters.
pub enum GigaamErrorView {
    Ort(Seq<char>),
    Io(IoKind, Seq<char>),
    Shape,
    OutputNotFound(Seq<char>),
    AudioTooShort(usize),
}

impl View for GigaamError {
    type V = GigaamErrorView;

    open spec fn view(&self) -> GigaamErrorView {
        match self {
            GigaamError::Ort(m) => GigaamErrorView::Ort(m@),
            GigaamError::Io(kind, m) => GigaamErrorView::Io(*kind, m@),
            GigaamError::Shape => GigaamErrorView::Shape,
            GigaamError::OutputNotFound(n) => GigaamErrorView::OutputNotFound(n@),
            GigaamError::AudioTooShort(n) => GigaamErrorView::AudioTooShort(*n),
        }
    }
}

/// What a user is told of the failure `e`.
pub open spec fn error_text(e: GigaamErrorView) -> Seq<char> {
    match e {
        GigaamErrorView::Ort(_) => "ORT error"@,
        GigaamErrorView::Io(..) => "I/O error"@,
        GigaamErrorView::Shape => "ndarray shape error"@,
        GigaamErrorView::OutputNotFound(name) => "Model output not found: "@ + name,
        GigaamErrorView::AudioTooShort(n) => "Audio too short: need at least "@ + decimal(n as nat)
            + " samples"@,
    }
}

impl GigaamError {
    /// The words for the user.
    pub fn message(&self) -> (r: String)
        ensures
            r@ == error_text(self@),
    {
        match self {
            GigaamError::Ort(_) => "ORT error".to_owned(),
            GigaamError::Io(..) => "I/O error".to_owned(),
            GigaamError::Shape => "ndarray shape error".to_owned(),
            GigaamError::OutputNotFound(name) => join("Model output not found: ", name.as_str()),
            GigaamError::AudioTooShort(n) => join3(
                "Audio too short: need at least ",
                decimal_text(*n).as_str(),
                " samples",
            ),
        }
    }
}

/// The words for a missing output end with its whole name, and those for a
/// recording that is too short hold the number of samples in decimal.
pub proof fn words_name_output_and_samples(name: Seq<char>, n: usize)
    ensures
        error_text(GigaamErrorView::OutputNotFound(name)) == error_text(
            GigaamErrorView::OutputNotFound(Seq::empty()),
        ) + name,
        ({
            let words = error_text(GigaamErrorView::AudioTooShort(n));
            words.subrange(31, 31 + decimal(n as nat).len() as int) == decimal(n as nat)
        }),
{
    reveal_strlit("Audio too short: need at least ");
    let none = error_text(GigaamErrorView::OutputNotFound(Seq::empty()));
    assert(error_text(GigaamErrorView::OutputNotFound(name)) =~= none + name);
    let words = error_text(GigaamErrorView::AudioTooShort(n));
    assert(words.subrange(31, 31 + decimal(n as nat).len() as int) =~= decimal(n as nat));
}

/// Two failures are the same if and only if they are of one kind and carry the
/// same words, name or number.
pub proof fn failures_keep_what_they_carry(words: String, kind: IoKind, n: usize)
    ensures
        GigaamError::Ort(words)@ == GigaamErrorView::Ort(words@),
        GigaamError::Io(kind, words)@ == GigaamErrorView::Io(kind, words@),
        GigaamError::Shape@ == GigaamErrorView::Shape,
        GigaamError::OutputNotFound(words)@ == GigaamErrorView::OutputNotFound(words@),
        GigaamError::AudioTooShort(n)@ == GigaamErrorView::AudioTooShort(n),
{
}

} // verus!
