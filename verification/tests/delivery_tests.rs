use image::{DynamicImage, ImageFormat, Rgba, RgbaImage};
use kullflow::cache::ResultCache;
use kullflow::catalog::{Catalog, DirEntryInfo};
use kullflow::delivery::{
    cap_viewport, complete_request, deliver, failure_response, generate_image_response, locate,
    process_image, respond, success_response, DeliveryError, Outcome, RequestStep, Status,
    MAX_HEIGHT, MAX_WIDTH,
};
use kullflow::prefetch::{complete_prefetch, store_prefetched, Prefetch, PrefetchStep, PREFETCH_WINDOW};
use kullflow::resize::ResizeFailure;
use std::io::Cursor;

fn png(width: u32, height: u32) -> Vec<u8> {
    let image = DynamicImage::ImageRgba8(RgbaImage::from_pixel(width, height, Rgba([7, 8, 9, 255])));
    let mut bytes = Cursor::new(Vec::new());
    image.write_to(&mut bytes, ImageFormat::Png).unwrap();
    bytes.into_inner()
}

fn catalog_of(count: usize) -> Catalog {
    let entries: Vec<DirEntryInfo> = (0..count)
        .map(|i| DirEntryInfo { name: Some(format!("img{i}.png")), is_file: true })
        .collect();
    let mut catalog = Catalog::new();
    assert_eq!(catalog.load("/photos", &entries), count);
    catalog
}

fn run_prefetch(served: usize, cache: &mut ResultCache, catalog: &Catalog, file: &[u8]) -> Vec<String> {
    let mut log = Vec::new();
    let mut prefetch = Prefetch::new(served);
    loop {
        match prefetch.next(cache) {
            PrefetchStep::Resolve { target } => match locate(target, catalog) {
                Ok(source) => {
                    assert_eq!(source.basename, format!("img{target}.png"));
                    let done = complete_prefetch(cache, target, Ok(file.to_vec()), Ok((800, 600)));
                    assert!(done.is_ok());
                    log.push(format!("fetched {target}"));
                }
                Err(error) => log.push(format!("failed {target}: {}", error.message())),
            },
            PrefetchStep::Cached { target } => log.push(format!("cached {target}")),
            PrefetchStep::Done => return log,
        }
    }
}

/// The answer to a request that cannot be served from the cache and whose
/// file is never read.
fn refused(path: &str, cache: &mut ResultCache, catalog: &Catalog) -> Outcome {
    match generate_image_response(path, cache) {
        RequestStep::Respond(outcome) => outcome,
        RequestStep::Resolve { index } => match locate(index, catalog) {
            Ok(_) => panic!("the image can be located"),
            Err(error) => respond(index, Err(error)),
        },
    }
}

/// The position and file that a request has located.
fn located(path: &str, cache: &mut ResultCache, catalog: &Catalog) -> (usize, String) {
    match generate_image_response(path, cache) {
        RequestStep::Respond(_) => panic!("the request is not over"),
        RequestStep::Resolve { index } => (index, locate(index, catalog).unwrap().basename),
    }
}

#[test]
fn first_image_is_served_and_the_next_five_are_read_ahead() {
    let catalog = catalog_of(10);
    let mut cache = ResultCache::new(5);
    let file = png(2000, 1100);
    let index = match generate_image_response("/0", &mut cache) {
        RequestStep::Resolve { index } => index,
        RequestStep::Respond(_) => panic!("nothing is cached yet"),
    };
    assert_eq!(index, 0);
    let source = locate(index, &catalog).unwrap();
    assert_eq!(source.dir, "/photos");
    assert_eq!(source.basename, "img0.png");
    let outcome = complete_request(index, Ok(file), Ok((5000, 5000)));
    assert_eq!(outcome.response.status, Status::Success);
    assert_eq!(outcome.response.dimensions, Some((1920, 1056)));
    assert_eq!(outcome.response.body.len(), 1920 * 1056 * 4);
    assert_eq!(outcome.served, Some(0));
    assert!(!cache.contains(0));

    let small = png(20, 10);
    let log = run_prefetch(0, &mut cache, &catalog, &small);
    assert_eq!(log, vec!["fetched 1", "fetched 2", "fetched 3", "fetched 4", "fetched 5"]);
    for index in 1..=5 {
        assert!(cache.contains(index));
    }
    assert!(!cache.contains(0));
    assert!(!cache.contains(6));
}

#[test]
fn index_outside_the_catalog_is_not_found() {
    let catalog = catalog_of(10);
    let mut cache = ResultCache::new(5);
    let outcome = refused("/999", &mut cache, &catalog);
    assert_eq!(outcome.response.status, Status::NotFound);
    assert_eq!(outcome.response.body, b"Image index out of bounds.".to_vec());
    assert_eq!(outcome.response.dimensions, None);
    assert_eq!(outcome.served, None);
    assert_eq!(refused("/10", &mut cache, &catalog).response.status, Status::NotFound);
    assert!(matches!(locate(10, &catalog), Err(DeliveryError::IndexOutOfRange)));
    assert_eq!(located("/9", &mut cache, &catalog), (9, "img9.png".to_string()));
}

#[test]
fn malformed_index_is_a_bad_request() {
    let catalog = catalog_of(10);
    let mut cache = ResultCache::new(5);
    cache.insert(1, (vec![0; 4], 1, 1));
    let outcome = refused("/abc", &mut cache, &catalog);
    assert_eq!(outcome.response.status, Status::BadRequest);
    assert_eq!(outcome.response.body, b"Invalid image index.".to_vec());
    assert_eq!(outcome.response.dimensions, None);
    assert_eq!(outcome.served, None);
    assert!(cache.contains(1));
}

#[test]
fn same_index_twice_is_produced_from_the_file_twice() {
    let catalog = catalog_of(10);
    let mut cache = ResultCache::new(5);
    let file = png(30, 20);
    for _ in 0..2 {
        let (index, name) = located("/4", &mut cache, &catalog);
        assert_eq!(name, "img4.png");
        let outcome = complete_request(index, Ok(file.clone()), Ok((1920, 1080)));
        assert_eq!(outcome.response.status, Status::Success);
        assert_eq!(outcome.response.body, file);
        assert_eq!(outcome.response.dimensions, Some((30, 20)));
        assert!(!cache.contains(4));
    }
}

#[test]
fn read_ahead_image_is_served_from_the_cache_once() {
    let catalog = catalog_of(10);
    let mut cache = ResultCache::new(5);
    let file = png(30, 20);
    assert_eq!(complete_prefetch(&mut cache, 3, Ok(file.clone()), Ok((10, 10))).map_err(|e| e.message()), Ok(()));
    match generate_image_response("/3", &mut cache) {
        RequestStep::Respond(outcome) => {
            assert_eq!(outcome.response.status, Status::Success);
            assert_eq!(outcome.response.dimensions, Some((10, 7)));
            assert_eq!(outcome.response.body.len(), 10 * 7 * 4);
            assert_eq!(outcome.served, Some(3));
        }
        RequestStep::Resolve { .. } => panic!("the image is cached"),
    }
    assert!(!cache.contains(3));
    assert_eq!(located("/3", &mut cache, &catalog), (3, "img3.png".to_string()));
}

#[test]
fn cached_image_is_served_even_outside_the_catalog() {
    let catalog = catalog_of(2);
    let mut cache = ResultCache::new(5);
    cache.insert(7, (vec![1, 2, 3, 4], 1, 1));
    match generate_image_response("/7", &mut cache) {
        RequestStep::Respond(outcome) => {
            assert_eq!(outcome.response.status, Status::Success);
            assert_eq!(outcome.response.body, vec![1, 2, 3, 4]);
            assert_eq!(outcome.served, Some(7));
        }
        RequestStep::Resolve { .. } => panic!("the image is cached"),
    }
    assert!(locate(7, &catalog).is_err());
}

#[test]
fn unreadable_file_is_not_found() {
    let outcome = complete_request(1, Err("No such file".to_string()), Ok((800, 600)));
    assert_eq!(outcome.response.status, Status::NotFound);
    assert_eq!(outcome.response.body, b"No such file".to_vec());
    assert_eq!(outcome.served, None);
    let both = complete_request(1, Err("No such file".to_string()), Err("no window".to_string()));
    assert_eq!(both.response.body, b"No such file".to_vec());
}

#[test]
fn unknown_display_area_is_a_server_error() {
    let outcome = complete_request(1, Ok(png(3, 3)), Err("no window".to_string()));
    assert_eq!(outcome.response.status, Status::ServerError);
    assert_eq!(outcome.response.body, b"no window".to_vec());
    assert_eq!(outcome.served, None);
}

#[test]
fn file_that_is_no_image_is_a_bad_request() {
    let outcome = complete_request(1, Ok(b"plain text".to_vec()), Ok((800, 600)));
    assert_eq!(outcome.response.status, Status::BadRequest);
    assert!(!outcome.response.body.is_empty());
    assert_eq!(outcome.response.dimensions, None);
    assert_eq!(outcome.served, None);
    let produced = process_image(Ok(b"plain text".to_vec()), Ok((800, 600)));
    assert!(matches!(produced, Err(DeliveryError::DecodeError(_))));
}

#[test]
fn failures_of_the_resize_engine_are_classified() {
    let decode = deliver(Err(ResizeFailure::Decode("bad header".to_string()))).unwrap_err();
    assert!(matches!(&decode, DeliveryError::DecodeError(m) if m == "bad header"));
    assert_eq!(decode.status(), Status::BadRequest);
    let resize = deliver(Err(ResizeFailure::Resize("bad size".to_string()))).unwrap_err();
    assert!(matches!(&resize, DeliveryError::ResizeError(m) if m == "bad size"));
    assert_eq!(resize.status(), Status::BadRequest);
    assert_eq!(resize.message(), "bad size");
    assert_eq!(deliver(Ok((vec![1], 2, 3))).unwrap(), (vec![1], 2, 3));
}

#[test]
fn every_failure_has_its_status_and_message() {
    let cases = [
        (DeliveryError::InvalidIndex, Status::BadRequest, "Invalid image index."),
        (DeliveryError::IndexOutOfRange, Status::NotFound, "Image index out of bounds."),
        (DeliveryError::FileReadError("a".to_string()), Status::NotFound, "a"),
        (DeliveryError::ViewportError("b".to_string()), Status::ServerError, "b"),
        (DeliveryError::DecodeError("c".to_string()), Status::BadRequest, "c"),
        (DeliveryError::ResizeError("d".to_string()), Status::BadRequest, "d"),
    ];
    for (error, status, message) in cases {
        assert_eq!(error.status(), status);
        assert_eq!(error.message(), message);
        let response = failure_response(&error);
        assert_eq!(response.status, status);
        assert_eq!(response.body, message.as_bytes().to_vec());
        assert_eq!(response.dimensions, None);
    }
}

#[test]
fn message_is_sent_as_utf8() {
    let response = failure_response(&DeliveryError::FileReadError("données".to_string()));
    assert_eq!(response.body, "données".as_bytes().to_vec());
}

#[test]
fn success_carries_the_size_beside_the_pixels() {
    let response = success_response((vec![1, 2, 3, 4, 5, 6, 7, 8], 2, 1));
    assert_eq!(response.status, Status::Success);
    assert_eq!(response.body, vec![1, 2, 3, 4, 5, 6, 7, 8]);
    assert_eq!(response.dimensions, Some((2, 1)));
    let outcome = respond(9, Ok((vec![0; 4], 1, 1)));
    assert_eq!(outcome.served, Some(9));
    let outcome = respond(9, Err(DeliveryError::IndexOutOfRange));
    assert_eq!(outcome.served, None);
    assert_eq!(outcome.response.status, Status::NotFound);
}

#[test]
fn display_area_is_capped() {
    assert_eq!((MAX_WIDTH, MAX_HEIGHT), (1920, 1080));
    assert_eq!(cap_viewport(800, 600), (800, 600));
    assert_eq!(cap_viewport(1920, 1080), (1920, 1080));
    assert_eq!(cap_viewport(3840, 2160), (1920, 1080));
    assert_eq!(cap_viewport(3840, 600), (1920, 600));
    assert_eq!(cap_viewport(0, 5000), (0, 1080));
}

#[test]
fn image_is_fitted_to_the_smaller_display() {
    let produced = process_image(Ok(png(400, 300)), Ok((200, 100))).unwrap();
    assert_eq!((produced.1, produced.2), (133, 100));
    assert_eq!(produced.0.len(), 133 * 100 * 4);
}

#[test]
fn read_ahead_passes_over_cached_positions() {
    let catalog = catalog_of(10);
    let mut cache = ResultCache::new(5);
    cache.insert(2, (vec![0; 4], 1, 1));
    cache.insert(4, (vec![0; 4], 1, 1));
    let log = run_prefetch(0, &mut cache, &catalog, &png(4, 4));
    assert_eq!(log, vec!["fetched 1", "cached 2", "fetched 3", "cached 4", "fetched 5"]);
}

#[test]
fn read_ahead_reports_positions_outside_the_catalog() {
    let catalog = catalog_of(10);
    let mut cache = ResultCache::new(5);
    let log = run_prefetch(7, &mut cache, &catalog, &png(4, 4));
    assert_eq!(
        log,
        vec![
            "fetched 8",
            "fetched 9",
            "failed 10: Image index out of bounds.",
            "failed 11: Image index out of bounds.",
            "failed 12: Image index out of bounds.",
        ]
    );
    assert!(cache.contains(8) && cache.contains(9));
}

#[test]
fn read_ahead_looks_at_the_window_and_no_further() {
    assert_eq!(PREFETCH_WINDOW, 5);
    let cache = ResultCache::new(5);
    let mut prefetch = Prefetch::new(20);
    let mut targets = Vec::new();
    loop {
        match prefetch.next(&cache) {
            PrefetchStep::Resolve { target } => targets.push(target),
            PrefetchStep::Done => break,
            other => panic!("unexpected step {other:?}"),
        }
    }
    assert_eq!(targets, vec![21, 22, 23, 24, 25]);
    assert_eq!(prefetch.next(&cache), PrefetchStep::Done);
}

#[test]
fn read_ahead_stops_at_the_largest_index() {
    let cache = ResultCache::new(5);
    let mut prefetch = Prefetch::new(usize::MAX - 2);
    assert_eq!(prefetch.next(&cache), PrefetchStep::Resolve { target: usize::MAX - 1 });
    assert_eq!(prefetch.next(&cache), PrefetchStep::Resolve { target: usize::MAX });
    assert_eq!(prefetch.next(&cache), PrefetchStep::Done);
    assert_eq!(prefetch.next(&cache), PrefetchStep::Done);
}

#[test]
fn failed_read_ahead_changes_nothing() {
    let mut cache = ResultCache::new(5);
    cache.insert(1, (vec![0; 4], 1, 1));
    let done = complete_prefetch(&mut cache, 2, Err("gone".to_string()), Ok((800, 600)));
    assert!(matches!(done, Err(DeliveryError::FileReadError(m)) if m == "gone"));
    let done = complete_prefetch(&mut cache, 2, Ok(b"junk".to_vec()), Ok((800, 600)));
    assert!(matches!(done, Err(DeliveryError::DecodeError(_))));
    let done = store_prefetched(&mut cache, 2, Err(DeliveryError::IndexOutOfRange));
    assert!(matches!(done, Err(DeliveryError::IndexOutOfRange)));
    assert!(cache.contains(1));
    assert!(!cache.contains(2));
}

#[test]
fn read_ahead_replaces_an_older_image() {
    let mut cache = ResultCache::new(5);
    cache.insert(2, (vec![0; 4], 1, 1));
    assert!(store_prefetched(&mut cache, 2, Ok((vec![5; 8], 2, 1))).is_ok());
    assert_eq!(cache.get_and_remove(2), Some((vec![5; 8], 2, 1)));
}

#[test]
fn display_larger_than_the_cap_is_capped() {
    let produced = process_image(Ok(png(2560, 1440)), Ok((2560, 1440))).unwrap();
    assert_eq!((produced.1, produced.2), (1920, 1080));
    assert_eq!(produced.0.len(), 8_294_400);
}

#[test]
fn display_below_the_cap_is_the_bound() {
    let produced = process_image(Ok(png(1600, 1200)), Ok((800, 600))).unwrap();
    assert_eq!((produced.1, produced.2), (800, 600));
    assert_eq!(produced.0.len(), 1_920_000);
}
