//! The read-ahead: after a position has been served, the positions that
//! follow it are produced in the background and put into the cache, so that
//! the next requests are hits.

use crate::cache::{after_insert, ImageData, ResultCache};
use crate::delivery::{process_image, processed, DeliveryError};
use vstd::prelude::*;

verus! {

/// How many positions after the served one are read ahead.
pub const PREFETCH_WINDOW: usize = 5;

/// The read-ahead after one served position: which position is looked at
/// next.
#[derive(Debug, Clone, Copy)]
pub struct Prefetch {
    base: usize,
    offset: usize,
}

/// What the read-ahead does next.
#[derive(Debug, Clone, Copy, PartialEq, Eq, Structural)]
pub enum PrefetchStep {
    /// `target` is not cached: its file is to be located with `locate`, read,
    /// and handed to `complete_prefetch` together with the display area.
    Resolve { target: usize },
    /// `target` is cached already and is passed over.
    Cached { target: usize },
    /// The window is exhausted.
    Done,
}

impl Prefetch {
    /// The position that was served.
    pub closed spec fn base(&self) -> usize {
        self.base
    }

    /// The distance from the served position to the one looked at next.
    pub closed spec fn offset(&self) -> usize {
        self.offset
    }

    /// Nothing is left to look at: the window is exhausted, or the next
    /// position would lie beyond the largest index.
    pub open spec fn exhausted(&self) -> bool {
        self.offset() > PREFETCH_WINDOW || self.base() + self.offset() > usize::MAX
    }

    /// The read-ahead that follows the serving of `served`: it starts with
    /// the position right after it.
    pub fn new(served: usize) -> (prefetch: Prefetch)
        ensures
            prefetch.base() == served,
            prefetch.offset() == 1,
    {
        Prefetch { base: served, offset: 1 }
    }

    /// Looks at the next position of the window and says what is to be done
    /// for it: a position that is cached is passed over, any other is to be
    /// located and fetched. Each call moves on by one position until the
    /// window is exhausted.
    pub fn next(&mut self, cache: &ResultCache) -> (step: PrefetchStep)
        ensures
            final(self).base() == old(self).base(),
            old(self).exhausted() ==> step == PrefetchStep::Done && final(self).offset() == old(
                self,
            ).offset(),
            !old(self).exhausted() ==> {
                let target = (old(self).base() + old(self).offset()) as usize;
                &&& final(self).offset() == old(self).offset() + 1
                &&& step == if cache@.contains_key(target) {
                    PrefetchStep::Cached { target }
                } else {
                    PrefetchStep::Resolve { target }
                }
            },
    {
        if self.offset > PREFETCH_WINDOW {
            return PrefetchStep::Done;
        }
        let target = match self.base.checked_add(self.offset) {
            Some(target) => target,
            None => {
                return PrefetchStep::Done;
            },
        };
        self.offset = self.offset + 1;
        if cache.contains(target) {
            PrefetchStep::Cached { target }
        } else {
            PrefetchStep::Resolve { target }
        }
    }
}

/// What putting `produced` into the cache under `target` owes: an image is
/// inserted there, a failure leaves the cache as it was and is handed back.
pub open spec fn is_stored(
    before: ResultCache,
    after: ResultCache,
    target: usize,
    produced: Result<ImageData, DeliveryError>,
    done: Result<(), DeliveryError>,
) -> bool {
    match produced {
        Ok(image) => {
            &&& done is Ok
            &&& after@ == after_insert(
                before@,
                before.recency(),
                before.capacity(),
                target,
                image@,
            )
        },
        Err(error) => done == Err::<(), DeliveryError>(error) && after@ == before@,
    }
}

/// Puts what was produced for `target` into the cache. A failure is handed
/// back for the log and changes nothing.
pub fn store_prefetched(
    cache: &mut ResultCache,
    target: usize,
    produced: Result<ImageData, DeliveryError>,
) -> (done: Result<(), DeliveryError>)
    requires
        old(cache).wf(),
    ensures
        final(cache).wf(),
        final(cache).capacity() == old(cache).capacity(),
        final(cache)@.dom().finite(),
        final(cache)@.dom().len() <= final(cache).capacity(),
        is_stored(*old(cache), *final(cache), target, produced, done),
{
    match produced {
        Ok(image) => {
            cache.insert(target, image);
            Ok(())
        },
        Err(error) => {
            proof {
                cache.lemma_bounded();
            }
            Err(error)
        },
    }
}

/// Ends the read-ahead of one position: the image is produced from the file
/// exactly as for a request and cached under `target`; a failure is handed
/// back for the log and changes nothing.
pub fn complete_prefetch(
    cache: &mut ResultCache,
    target: usize,
    read: Result<Vec<u8>, String>,
    viewport: Result<(u32, u32), String>,
) -> (done: Result<(), DeliveryError>)
    requires
        old(cache).wf(),
    ensures
        final(cache).wf(),
        final(cache).capacity() == old(cache).capacity(),
        final(cache)@.dom().finite(),
        final(cache)@.dom().len() <= final(cache).capacity(),
        exists|produced: Result<ImageData, DeliveryError>|
            processed(read, viewport, produced) && #[trigger] is_stored(
                *old(cache),
                *final(cache),
                target,
                produced,
                done,
            ),
{
    let produced = process_image(read, viewport);
    let ghost witness = produced;
    let done = store_prefetched(cache, target, produced);
    assert(is_stored(*old(cache), *cache, target, witness, done));
    done
}

} // verus!
