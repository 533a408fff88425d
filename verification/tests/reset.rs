use cufx_vio::reset::ResetEpoch;

#[test]
fn test_each_request_bumps_the_epoch_once() {
    let mut epoch = ResetEpoch::new();
    assert_eq!(epoch.requested(), 0);
    epoch.request();
    epoch.request();
    assert_eq!(epoch.requested(), 2);
}
