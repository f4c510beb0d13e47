//! The delivery of one image: what a request is answered with, and which
//! failure leads to which kind of answer.

use crate::cache::{ImageData, ResultCache};
use crate::catalog::{Catalog, CatalogError, ImageSource};
use crate::index::{parse_index, parsed_index};
use crate::resize::{decoded_size, fitted, resize_image_to_fit, ResizeFailure};
use vstd::prelude::*;
use vstd::string::{StrSliceExecFns, StringExecFns, StringSliceAdditionalSpecFns};

verus! {

/// The widest image that is ever delivered, whatever the display.
pub const MAX_WIDTH: u32 = 1920;

/// The tallest image that is ever delivered, whatever the display.
pub const MAX_HEIGHT: u32 = 1080;

/// How an answer is classified.
#[derive(Debug, Clone, Copy, PartialEq, Eq, Structural)]
pub enum Status {
    Success,
    BadRequest,
    NotFound,
    ServerError,
}

/// Why a request could not be served.
#[derive(Debug, Clone)]
pub enum DeliveryError {
    /// The request does not name a well-formed non-negative index.
    InvalidIndex,
    /// The catalog has no image at the index.
    IndexOutOfRange,
    /// The file of the image could not be read; the message.
    FileReadError(String),
    /// The display area could not be learned; the message.
    ViewportError(String),
    /// The bytes of the file are not a supported image; the decoder's message.
    DecodeError(String),
    /// Resampling or alpha handling failed; the message.
    ResizeError(String),
}

impl DeliveryError {
    /// How an answer with this failure is classified.
    pub open spec fn spec_status(&self) -> Status {
        match self {
            DeliveryError::InvalidIndex => Status::BadRequest,
            DeliveryError::IndexOutOfRange => Status::NotFound,
            DeliveryError::FileReadError(_) => Status::NotFound,
            DeliveryError::ViewportError(_) => Status::ServerError,
            DeliveryError::DecodeError(_) => Status::BadRequest,
            DeliveryError::ResizeError(_) => Status::BadRequest,
        }
    }

    /// The message for the user.
    pub open spec fn spec_message(&self) -> Seq<char> {
        match self {
            DeliveryError::InvalidIndex => "Invalid image index."@,
            DeliveryError::IndexOutOfRange => "Image index out of bounds."@,
            DeliveryError::FileReadError(text) => text@,
            DeliveryError::ViewportError(text) => text@,
            DeliveryError::DecodeError(text) => text@,
            DeliveryError::ResizeError(text) => text@,
        }
    }

    /// How an answer with this failure is classified.
    #[verifier::when_used_as_spec(spec_status)]
    pub fn status(&self) -> (status: Status)
        ensures
            status == self.spec_status(),
            status != Status::Success,
    {
        match self {
            DeliveryError::InvalidIndex => Status::BadRequest,
            DeliveryError::IndexOutOfRange => Status::NotFound,
            DeliveryError::FileReadError(_) => Status::NotFound,
            DeliveryError::ViewportError(_) => Status::ServerError,
            DeliveryError::DecodeError(_) => Status::BadRequest,
            DeliveryError::ResizeError(_) => Status::BadRequest,
        }
    }

    /// The message for the user.
    pub fn message(&self) -> (text: String)
        ensures
            text@ == self.spec_message(),
    {
        match self {
            DeliveryError::InvalidIndex => String::from_str("Invalid image index."),
            DeliveryError::IndexOutOfRange => String::from_str("Image index out of bounds."),
            DeliveryError::FileReadError(text) => text.clone(),
            DeliveryError::ViewportError(text) => text.clone(),
            DeliveryError::DecodeError(text) => text.clone(),
            DeliveryError::ResizeError(text) => text.clone(),
        }
    }
}

/// The failure of a delivery that a failure of the resize engine stands for.
pub open spec fn delivery_error_of(failure: ResizeFailure) -> DeliveryError {
    match failure {
        ResizeFailure::Decode(text) => DeliveryError::DecodeError(text),
        ResizeFailure::Resize(text) => DeliveryError::ResizeError(text),
    }
}

/// An answer: its classification, its payload, and for an image its width
/// and height, which are not part of the payload.
#[derive(Debug, Clone)]
pub struct ImageResponse {
    pub status: Status,
    pub body: Vec<u8>,
    pub dimensions: Option<(u32, u32)>,
}

/// The answer that delivers an image.
pub open spec fn is_success_with(response: ImageResponse, image: (Seq<u8>, u32, u32)) -> bool {
    &&& response.status == Status::Success
    &&& response.body@ == image.0
    &&& response.dimensions == Some((image.1, image.2))
}

/// The answer that reports a failure: its classification, and its message as
/// the payload.
pub open spec fn is_failure_with(response: ImageResponse, error: DeliveryError) -> bool {
    &&& response.status == error.spec_status()
    &&& response.body@ == vstd::utf8::encode_utf8(error.spec_message())
    &&& response.dimensions is None
}

/// The answer that delivers an image: the pixels are the payload, width and
/// height travel beside it.
pub fn success_response(image: ImageData) -> (response: ImageResponse)
    ensures
        is_success_with(response, image@),
{
    let (pixels, width, height) = image;
    ImageResponse { status: Status::Success, body: pixels, dimensions: Some((width, height)) }
}

/// The answer that reports a failure.
pub fn failure_response(error: &DeliveryError) -> (response: ImageResponse)
    ensures
        is_failure_with(response, *error),
{
    let text = error.message();
    ImageResponse { status: error.status(), body: text.as_str().as_bytes_vec(), dimensions: None }
}

/// The bounds that an image is fitted to: the display area, capped at
/// `MAX_WIDTH` by `MAX_HEIGHT`.
pub fn cap_viewport(width: u32, height: u32) -> (bounds: (u32, u32))
    ensures
        bounds.0 == if width < MAX_WIDTH { width } else { MAX_WIDTH },
        bounds.1 == if height < MAX_HEIGHT { height } else { MAX_HEIGHT },
{
    (
        if width < MAX_WIDTH { width } else { MAX_WIDTH },
        if height < MAX_HEIGHT { height } else { MAX_HEIGHT },
    )
}

/// Turns the answer of the resize engine into that of a delivery: an image
/// stays what it is, a failure is classified.
pub fn deliver(
    resized: Result<ImageData, ResizeFailure>,
) -> (produced: Result<ImageData, DeliveryError>)
    ensures
        produced == delivered(resized),
{
    match resized {
        Ok(image) => Ok(image),
        Err(ResizeFailure::Decode(text)) => Err(DeliveryError::DecodeError(text)),
        Err(ResizeFailure::Resize(text)) => Err(DeliveryError::ResizeError(text)),
    }
}

/// What is owed for the bytes of a file that are to fit a box of `max_w` by
/// `max_h`: a decoding failure where they do not decode, else what fitting
/// the decoded image owes, with a failure classified.
pub open spec fn produced_from(
    bytes: Seq<u8>,
    max_w: u32,
    max_h: u32,
    produced: Result<ImageData, DeliveryError>,
) -> bool {
    match decoded_size(bytes) {
        None => produced matches Err(error) && error is DecodeError,
        Some((w, h)) => exists|done: Result<ImageData, ResizeFailure>|
            #[trigger] fitted(bytes, w, h, max_w, max_h, done) && produced == delivered(done),
    }
}

/// The answer of a delivery for an answer of the resize engine.
pub open spec fn delivered(done: Result<ImageData, ResizeFailure>) -> Result<
    ImageData,
    DeliveryError,
> {
    match done {
        Ok(image) => Ok(image),
        Err(failure) => Err(delivery_error_of(failure)),
    }
}

/// What is owed once the file has been read and the display area asked for.
/// A file that could not be read comes first, a display area that could not
/// be learned second.
pub open spec fn processed(
    read: Result<Vec<u8>, String>,
    viewport: Result<(u32, u32), String>,
    produced: Result<ImageData, DeliveryError>,
) -> bool {
    match read {
        Err(text) => produced == Err::<ImageData, DeliveryError>(
            DeliveryError::FileReadError(text),
        ),
        Ok(bytes) => match viewport {
            Err(text) => produced == Err::<ImageData, DeliveryError>(
                DeliveryError::ViewportError(text),
            ),
            Ok((width, height)) => produced_from(
                bytes@,
                if width < MAX_WIDTH { width } else { MAX_WIDTH },
                if height < MAX_HEIGHT { height } else { MAX_HEIGHT },
                produced,
            ),
        },
    }
}

/// Produces the image for a position from what reading its file and asking
/// for the display area gave: the image is fitted to the display area, capped
/// at `MAX_WIDTH` by `MAX_HEIGHT`.
pub fn process_image(
    read: Result<Vec<u8>, String>,
    viewport: Result<(u32, u32), String>,
) -> (produced: Result<ImageData, DeliveryError>)
    ensures
        processed(read, viewport, produced),
{
    let bytes = match read {
        Ok(bytes) => bytes,
        Err(text) => {
            return Err(DeliveryError::FileReadError(text));
        },
    };
    let (width, height) = match viewport {
        Ok(size) => size,
        Err(text) => {
            return Err(DeliveryError::ViewportError(text));
        },
    };
    let (max_width, max_height) = cap_viewport(width, height);
    let ghost source = bytes@;
    let done = resize_image_to_fit(bytes, max_width, max_height);
    proof {
        if let Some((w, h)) = decoded_size(source) {
            assert(fitted(source, w, h, max_width, max_height, done));
        }
    }
    deliver(done)
}

/// How a request ended: the answer, and the position that was served if one
/// was. After a served position the read-ahead is due and the title may be
/// updated; after a failure neither.
#[derive(Debug, Clone)]
pub struct Outcome {
    pub response: ImageResponse,
    pub served: Option<usize>,
}

/// The end of a request for `index` with what was produced for it.
pub open spec fn is_outcome_of(
    outcome: Outcome,
    index: usize,
    produced: Result<ImageData, DeliveryError>,
) -> bool {
    match produced {
        Ok(image) => is_success_with(outcome.response, image@) && outcome.served == Some(index),
        Err(error) => is_failure_with(outcome.response, error) && outcome.served is None,
    }
}

/// Ends a request for `index` with what was produced for it.
pub fn respond(index: usize, produced: Result<ImageData, DeliveryError>) -> (outcome: Outcome)
    ensures
        is_outcome_of(outcome, index, produced),
{
    match produced {
        Ok(image) => Outcome { response: success_response(image), served: Some(index) },
        Err(error) => Outcome { response: failure_response(&error), served: None },
    }
}

/// What a request needs after the cache has been asked.
#[derive(Debug, Clone)]
pub enum RequestStep {
    /// The request is over.
    Respond(Outcome),
    /// The image is not cached: its file is to be located with `locate`,
    /// read, and handed to `complete_request` together with the display area.
    Resolve { index: usize },
}

/// The first step of a request. A malformed path is refused. A cached image
/// is taken out of the cache and served. Any other position has to be
/// located in the catalog. Nothing but a hit changes the cache, and the
/// catalog is not needed for this step.
pub fn generate_image_response(path: &str, cache: &mut ResultCache) -> (step: RequestStep)
    requires
        old(cache).wf(),
    ensures
        final(cache).wf(),
        final(cache).capacity() == old(cache).capacity(),
        match parsed_index(path.spec_bytes()) {
            None => {
                &&& step matches RequestStep::Respond(outcome)
                &&& is_failure_with(outcome.response, DeliveryError::InvalidIndex)
                &&& outcome.served is None
                &&& final(cache)@ == old(cache)@
            },
            Some(index) => if old(cache)@.contains_key(index) {
                &&& step matches RequestStep::Respond(outcome)
                &&& is_success_with(outcome.response, old(cache)@[index])
                &&& outcome.served == Some(index)
                &&& final(cache)@ == old(cache)@.remove(index)
            } else {
                &&& step matches RequestStep::Resolve { index: wanted }
                &&& wanted == index
                &&& final(cache)@ == old(cache)@
            },
        },
{
    let index = match parse_index(path) {
        Some(index) => index,
        None => {
            return RequestStep::Respond(respond(0, Err(DeliveryError::InvalidIndex)));
        },
    };
    match cache.get_and_remove(index) {
        Some(image) => RequestStep::Respond(respond(index, Ok(image))),
        None => RequestStep::Resolve { index },
    }
}

/// Locates the file of a position in the catalog: its directory and name. A
/// position outside the catalog is a failure of the delivery. The cache is
/// not needed for this step.
pub fn locate(index: usize, catalog: &Catalog) -> (located: Result<ImageSource, DeliveryError>)
    ensures
        match located {
            Ok(source) => {
                &&& index < catalog.items().len()
                &&& source.dir@ == catalog.source_dir()
                &&& source.basename@ == catalog.items()[index as int].basename
            },
            Err(error) => index >= catalog.items().len() && error == DeliveryError::IndexOutOfRange,
        },
{
    match catalog.resolve(index) {
        Ok(source) => Ok(source),
        Err(CatalogError::IndexOutOfRange) => Err(DeliveryError::IndexOutOfRange),
    }
}

/// The last step of a request whose image was not cached: the image is
/// produced from the file and served, or the failure is reported. The cache
/// is not touched: only the read-ahead fills it.
pub fn complete_request(
    index: usize,
    read: Result<Vec<u8>, String>,
    viewport: Result<(u32, u32), String>,
) -> (outcome: Outcome)
    ensures
        exists|produced: Result<ImageData, DeliveryError>|
            processed(read, viewport, produced) && #[trigger] is_outcome_of(
                outcome,
                index,
                produced,
            ),
{
    let produced = process_image(read, viewport);
    let outcome = respond(index, produced);
    assert(is_outcome_of(outcome, index, produced));
    outcome
}

} // verus!
