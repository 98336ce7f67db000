use imgproxy::coordinator::Coordinator;
use imgproxy::memstore::MemStore;
use imgproxy::resolver::{Action, Event, FetchError, ResolveError, Resolver, StoreError};
use imgproxy::size::parse_size;
use imgproxy::transform::transform_to_png;

struct Counters {
    fetches: usize,
    transforms: usize,
}

fn png_of_solid(width: u32, height: u32) -> Vec<u8> {
    let img = image::RgbaImage::from_pixel(width, height, image::Rgba([40u8, 80, 120, 255]));
    let mut out: Vec<u8> = Vec::new();
    image::DynamicImage::ImageRgba8(img)
        .write_to(&mut std::io::Cursor::new(&mut out), image::ImageFormat::Png)
        .unwrap();
    out
}

fn decoded_dimensions(bytes: &[u8]) -> (u32, u32) {
    let img = image::ImageReader::new(std::io::Cursor::new(bytes))
        .with_guessed_format()
        .unwrap()
        .decode()
        .unwrap();
    (img.width(), img.height())
}

/// Drive one resolution to completion against an in-memory store and a
/// scripted origin, counting fetches and transforms.
fn drive(
    root: &str,
    token: &str,
    path: &str,
    store: &mut MemStore,
    origin: &[(String, Vec<u8>)],
    counters: &mut Counters,
) -> Result<Vec<u8>, ResolveError> {
    let size = parse_size(token).unwrap();
    let (mut resolver, mut action) = Resolver::new(root, size, path)?;
    loop {
        let event = match action {
            Action::CheckExists { path } => Event::Exists {
                found: store.exists_at(&path),
            },
            Action::ReadFile { path } => Event::ReadDone {
                read: store.read_all(&path).ok_or(StoreError::Io),
            },
            Action::FetchUrl { url } => {
                counters.fetches += 1;
                let hit = origin.iter().find(|(u, _)| *u == url);
                Event::FetchDone {
                    fetch: hit.map(|(_, b)| b.clone()).ok_or(FetchError::Network),
                }
            }
            Action::WriteNew { path, bytes } => Event::WriteDone {
                write: store.write_new(&path, bytes),
            },
            Action::Transform { src, width, height } => {
                counters.transforms += 1;
                Event::TransformDone {
                    transform: transform_to_png(&src, width, height),
                }
            }
            Action::Finish { result } => return result,
        };
        assert!(resolver.wants(&event));
        action = resolver.step(event);
    }
}

#[test]
fn same_key_twice_is_idempotent_and_fetches_once() {
    let mut store = MemStore::new();
    let origin = vec![(
        "https://cdn.intra.42.fr/users/1/avatar.jpg".to_string(),
        png_of_solid(64, 64),
    )];
    let mut counters = Counters {
        fetches: 0,
        transforms: 0,
    };
    let first = drive(
        "data",
        "50x50",
        "users/1/avatar.jpg",
        &mut store,
        &origin,
        &mut counters,
    )
    .unwrap();
    assert_eq!(counters.fetches, 1);
    assert_eq!(counters.transforms, 1);
    let second = drive(
        "data",
        "50x50",
        "users/1/avatar.jpg",
        &mut store,
        &origin,
        &mut counters,
    )
    .unwrap();
    // Byte-identical output, and no further fetch or transform.
    assert_eq!(first, second);
    assert_eq!(counters.fetches, 1);
    assert_eq!(counters.transforms, 1);
}

#[test]
fn two_sizes_fetch_origin_once() {
    let mut store = MemStore::new();
    let origin = vec![(
        "https://cdn.intra.42.fr/users/1/avatar.jpg".to_string(),
        png_of_solid(64, 64),
    )];
    let mut counters = Counters {
        fetches: 0,
        transforms: 0,
    };
    let a = drive(
        "data",
        "50x50",
        "users/1/avatar.jpg",
        &mut store,
        &origin,
        &mut counters,
    )
    .unwrap();
    let b = drive(
        "data",
        "25x25",
        "users/1/avatar.jpg",
        &mut store,
        &origin,
        &mut counters,
    )
    .unwrap();
    assert_eq!(counters.fetches, 1);
    assert_eq!(counters.transforms, 2);
    assert_eq!(decoded_dimensions(&a), (50, 50));
    assert_eq!(decoded_dimensions(&b), (25, 25));
}

#[test]
fn transformer_is_deterministic() {
    let src = png_of_solid(64, 64);
    let a = transform_to_png(&src, 17, 11).unwrap();
    let b = transform_to_png(&src, 17, 11).unwrap();
    assert_eq!(a, b);
    assert_eq!(decoded_dimensions(&a), (17, 11));
}

#[test]
fn transformer_rejects_garbage() {
    let src = vec![0u8, 1, 2, 3, 4, 5, 6, 7];
    assert!(transform_to_png(&src, 10, 10).is_err());
}

#[test]
fn origin_roundtrip_preserves_image() {
    // Decoding the bytes written to the origin tier reproduces an image with
    // the dimensions of what was fetched.
    let src = png_of_solid(64, 48);
    let mut store = MemStore::new();
    store.write_new("data/a.png", src.clone()).unwrap();
    let back = store.read_all("data/a.png").unwrap();
    assert_eq!(back, src);
    assert_eq!(decoded_dimensions(&back), (64, 48));
}

#[test]
fn concurrent_cold_start_coalesces() {
    let mut coordinator = Coordinator::new();
    let mut store = MemStore::new();
    let origin = vec![(
        "https://cdn.intra.42.fr/users/1/avatar.jpg".to_string(),
        png_of_solid(64, 64),
    )];
    let mut counters = Counters {
        fetches: 0,
        transforms: 0,
    };
    let key = "50x50/users/1/avatar.jpg";
    // Two requests for the same key race on an empty cache: the first to
    // begin leads, the second follows and waits instead of duplicating work.
    let first_leads = coordinator.begin(key);
    let second_leads = coordinator.begin(key);
    assert!(first_leads);
    assert!(!second_leads);
    let first = drive(
        "data",
        "50x50",
        "users/1/avatar.jpg",
        &mut store,
        &origin,
        &mut counters,
    )
    .unwrap();
    coordinator.finish(key);
    // The follower retries once the leader is done and is served warm.
    assert!(coordinator.begin(key));
    let second = drive(
        "data",
        "50x50",
        "users/1/avatar.jpg",
        &mut store,
        &origin,
        &mut counters,
    )
    .unwrap();
    coordinator.finish(key);
    // Both requests succeed with identical bytes and the origin was fetched
    // at most once.
    assert_eq!(first, second);
    assert_eq!(counters.fetches, 1);
}

#[test]
fn literal_proxy_scenario() {
    // GET /proxy/200x100/avatar.png against an origin serving a 400x400
    // opaque image: the response is a 200x100 PNG and the derivative now
    // sits at <data_root>/200x100/avatar.png.
    let mut store = MemStore::new();
    let origin = vec![(
        "https://cdn.intra.42.fr/avatar.png".to_string(),
        png_of_solid(400, 400),
    )];
    let mut counters = Counters {
        fetches: 0,
        transforms: 0,
    };
    let body = drive(
        "data",
        "200x100",
        "avatar.png",
        &mut store,
        &origin,
        &mut counters,
    )
    .unwrap();
    assert_eq!(decoded_dimensions(&body), (200, 100));
    assert!(store.exists_at("data/200x100/avatar.png"));
    assert!(store.exists_at("data/avatar.png"));
    assert_eq!(store.read_all("data/200x100/avatar.png").unwrap(), body);
}

#[test]
fn missing_origin_is_unavailable() {
    let mut store = MemStore::new();
    let origin: Vec<(String, Vec<u8>)> = Vec::new();
    let mut counters = Counters {
        fetches: 0,
        transforms: 0,
    };
    let r = drive(
        "data",
        "50x50",
        "a.png",
        &mut store,
        &origin,
        &mut counters,
    );
    assert_eq!(r.unwrap_err(), ResolveError::OriginUnavailable);
}

#[test]
fn undecodable_origin_is_decode_error() {
    let mut store = MemStore::new();
    let origin = vec![(
        "https://cdn.intra.42.fr/a.png".to_string(),
        vec![9u8, 9, 9, 9],
    )];
    let mut counters = Counters {
        fetches: 0,
        transforms: 0,
    };
    let r = drive(
        "data",
        "50x50",
        "a.png",
        &mut store,
        &origin,
        &mut counters,
    );
    assert_eq!(r.unwrap_err(), ResolveError::Decode);
}

#[test]
fn traversal_path_is_rejected_before_any_io() {
    let size = parse_size("50x50").unwrap();
    let r = Resolver::new("data", size, "../secrets");
    assert_eq!(r.err().unwrap(), ResolveError::Input);
}

#[test]
fn failed_read_surfaces_storage_error() {
    // Drive the machine by hand: the derivative reportedly exists, but the
    // read then fails; the request fails with a storage error.
    let size = parse_size("50x50").unwrap();
    let (mut resolver, action) = Resolver::new("data", size, "a.png").unwrap();
    match action {
        Action::CheckExists { path } => assert_eq!(path, "data/50x50/a.png"),
        _ => panic!("expected an existence check"),
    }
    let next = resolver.step(Event::Exists { found: true });
    match next {
        Action::ReadFile { path } => assert_eq!(path, "data/50x50/a.png"),
        _ => panic!("expected a read"),
    }
    let last = resolver.step(Event::ReadDone {
        read: Err(StoreError::Io),
    });
    match last {
        Action::Finish { result } => assert_eq!(result.unwrap_err(), ResolveError::Storage),
        _ => panic!("expected the resolution to finish"),
    }
}

#[test]
fn losing_exclusive_create_is_benign() {
    // A sibling request wrote the derivative first: the exclusive create
    // loses, yet the request still succeeds with its own identical bytes.
    let mut store = MemStore::new();
    let origin = vec![(
        "https://cdn.intra.42.fr/a.png".to_string(),
        png_of_solid(32, 32),
    )];
    let mut counters = Counters {
        fetches: 0,
        transforms: 0,
    };
    let size = parse_size("10x10").unwrap();
    let (mut resolver, mut action) = Resolver::new("data", size, "a.png").unwrap();
    let mut response: Option<Vec<u8>> = None;
    loop {
        let event = match action {
            Action::CheckExists { path } => Event::Exists {
                found: store.exists_at(&path),
            },
            Action::ReadFile { path } => Event::ReadDone {
                read: store.read_all(&path).ok_or(StoreError::Io),
            },
            Action::FetchUrl { url } => {
                counters.fetches += 1;
                let hit = origin.iter().find(|(u, _)| *u == url);
                Event::FetchDone {
                    fetch: hit.map(|(_, b)| b.clone()).ok_or(FetchError::Network),
                }
            }
            Action::WriteNew { path, bytes } => {
                if path == "data/10x10/a.png" {
                    // The sibling got there first.
                    Event::WriteDone {
                        write: Err(StoreError::AlreadyExists),
                    }
                } else {
                    Event::WriteDone {
                        write: store.write_new(&path, bytes),
                    }
                }
            }
            Action::Transform { src, width, height } => Event::TransformDone {
                transform: transform_to_png(&src, width, height),
            },
            Action::Finish { result } => {
                response = Some(result.unwrap());
                break;
            }
        };
        action = resolver.step(event);
    }
    let body = response.unwrap();
    assert_eq!(decoded_dimensions(&body), (10, 10));
}
