use pinora::desktop_shell::{current_export_asset, records_history};
use pinora::model::{AssetGeneration, AssetRef, ImageId, JobId, JobOwner, PinId, SessionId};

fn asset(image: u64, generation: u64) -> AssetRef {
    AssetRef::new(ImageId::from_raw(image), AssetGeneration::from_raw(generation).expect("generation"))
}

#[test]
fn export_results_are_checked_against_the_current_asset() {
    let pin = PinId::from_raw(1);
    let session = SessionId::from_raw(2);
    let pins = vec![(pin, asset(10, 2))];
    let pending = vec![
        (JobId::from_raw(5), JobOwner::Pin(PinId::from_raw(9)), asset(90, 1)),
        (JobId::from_raw(6), JobOwner::Session(session), asset(20, 1)),
    ];
    assert_eq!(
        current_export_asset(&pins, None, &pending, JobId::from_raw(7), JobOwner::Pin(pin)),
        Some(asset(10, 2))
    );
    assert_eq!(
        current_export_asset(&pins, None, &pending, JobId::from_raw(5), JobOwner::Pin(PinId::from_raw(9))),
        Some(asset(90, 1))
    );
    assert_eq!(
        current_export_asset(&pins, Some((session, asset(21, 3))), &pending, JobId::from_raw(6), JobOwner::Session(session)),
        Some(asset(21, 3))
    );
    assert_eq!(
        current_export_asset(&pins, Some((SessionId::from_raw(3), asset(21, 3))), &pending, JobId::from_raw(6), JobOwner::Session(session)),
        Some(asset(20, 1))
    );
    assert_eq!(
        current_export_asset(&pins, None, &pending, JobId::from_raw(5), JobOwner::Session(session)),
        None
    );
    assert_eq!(
        current_export_asset(&pins, None, &pending, JobId::from_raw(5), JobOwner::History(ImageId::from_raw(90))),
        None
    );
}

#[test]
fn only_matching_saves_enter_the_history() {
    let owner = JobOwner::Session(SessionId::from_raw(2));
    let a = asset(10, 1);
    assert!(records_history(Some((owner, a)), owner, a, owner, a));
    assert!(!records_history(None, owner, a, owner, a));
    assert!(!records_history(Some((owner, asset(10, 2))), owner, a, owner, a));
    assert!(!records_history(Some((owner, a)), JobOwner::Pin(PinId::from_raw(1)), a, owner, a));
}
