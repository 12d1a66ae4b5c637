use foxglove::buffer::{bytes_from_vec, bytes_to_vec};
use foxglove::fetch_asset::{AssetResponder, FetchAssetResult};
use foxglove::semaphore::Semaphore;
use foxglove::server::Client;

#[test]
fn test_bytes_round_trip() {
    let b = bytes_from_vec(vec![1, 2, 3]);
    assert_eq!(bytes_to_vec(&b), vec![1, 2, 3]);
}

#[test]
fn test_semaphore_limits() {
    let mut sem = Semaphore::new(2);
    let g1 = sem.try_acquire().unwrap();
    let g2 = sem.try_acquire().unwrap();
    assert!(sem.try_acquire().is_none());
    sem.release(g1);
    let g3 = sem.try_acquire().unwrap();
    assert!(sem.try_acquire().is_none());
    sem.release(g2);
    sem.release(g3);
}

#[test]
fn test_asset_responder_success_frame() {
    let mut sem = Semaphore::new(32);
    let guard = sem.try_acquire().unwrap();
    let responder = AssetResponder::new(Client { id: 3 }, 9, guard);
    assert_eq!(responder.client().id, 3);
    let payload = bytes_from_vec(vec![0xCA, 0xFE]);
    let (frame, guard) = responder.respond(FetchAssetResult::Asset(payload));
    assert_eq!(frame, vec![0x04, 0x09, 0x00, 0x00, 0x00, 0x00, 0xCA, 0xFE]);
    sem.release(guard);
}

#[test]
fn test_asset_responder_error_frame() {
    let mut sem = Semaphore::new(1);
    let guard = sem.try_acquire().unwrap();
    let responder = AssetResponder::new(Client { id: 1 }, 2, guard);
    let (frame, guard) = responder.respond(FetchAssetResult::Failure("nope".to_string()));
    assert_eq!(
        frame,
        vec![0x04, 0x02, 0x00, 0x00, 0x00, 0x01, b'n', b'o', b'p', b'e']
    );
    sem.release(guard);
}
