//! On-demand image delivery for photo culling: scale-to-fit resizing, a
//! bounded cache of resized images keyed by catalog position, and the
//! decisions of the request and read-ahead paths.

pub mod cache;
pub mod catalog;
pub mod delivery;
pub mod fit;
pub mod index;
pub mod prefetch;
pub mod resize;

pub use cache::{ImageData, ResultCache};
pub use catalog::{Catalog, CullState, DirEntryInfo, ImageInfo, ImageSource, VoteAction};
pub use delivery::{
    complete_request, generate_image_response, locate, respond, DeliveryError, ImageResponse,
    Outcome, RequestStep, Status,
};
pub use prefetch::{complete_prefetch, Prefetch, PrefetchStep};
pub use resize::{resize_image_to_fit, ResizeFailure};
