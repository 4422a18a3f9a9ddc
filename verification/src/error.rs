//! The ways in which a call can fail.

use vstd::prelude::*;

verus! {

/// Why a call produced no text.
///
/// The kinds are distinct so that a caller can tell an image that holds no
/// text from a failure that another attempt might mend.
#[derive(Clone, Debug, PartialEq, Eq)]
pub enum LensError {
    /// The input bytes are not an image in a format that is recognized.
    ImageDecode,
    /// The normalized image could not be written out.
    ImageEncode,
    /// The credential cannot stand in a header.
    Config,
    /// The service answered with a status outside the success class.
    Transport { status: u16, body: String },
    /// The exchange ended without an answer: the service was not reached,
    /// or the time allowed ran out.
    Network { reason: String },
    /// The answer of the service is not a well-formed message.
    WireDecode,
    /// The service recognized no text.
    EmptyResult,
}

/// Model of [`LensError`].
pub ghost enum LensErrorView {
    ImageDecode,
    ImageEncode,
    Config,
    Transport { status: u16, body: Seq<char> },
    Network { reason: Seq<char> },
    WireDecode,
    EmptyResult,
}

impl View for LensError {
    type V = LensErrorView;

    open spec fn view(&self) -> LensErrorView {
        match *self {
            LensError::ImageDecode => LensErrorView::ImageDecode,
            LensError::ImageEncode => LensErrorView::ImageEncode,
            LensError::Config => LensErrorView::Config,
            LensError::Transport { status, body } => LensErrorView::Transport {
                status,
                body: body@,
            },
            LensError::Network { reason } => LensErrorView::Network { reason: reason@ },
            LensError::WireDecode => LensErrorView::WireDecode,
            LensError::EmptyResult => LensErrorView::EmptyResult,
        }
    }
}

/// The model of an outcome: of the text on success, of the error on failure.
pub open spec fn outcome_of(result: Result<String, LensError>) -> Result<Seq<char>, LensErrorView> {
    match result {
        Ok(text) => Ok(text@),
        Err(error) => Err(error@),
    }
}

} // verus!
