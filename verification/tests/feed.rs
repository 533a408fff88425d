use cufx_vio::config::ConfigError;
use cufx_vio::feed::ImuFeed;
use cufx_vio::ieee::Single;
use cufx_vio::imu_channel::ImuQueue;
use cufx_vio::payload::{ImuBatch, ImuPayload, ImuSample, Tov};

fn single(x: f32) -> Single {
    Single::from_bits(x.to_bits())
}

fn batch(stamps: &[u64]) -> ImuBatch<4> {
    let mut batch = ImuBatch::<4>::new();
    for &ns in stamps {
        batch
            .push(ImuSample {
                tov: ns,
                imu: ImuPayload {
                    accel_z: single(9.81),
                    gyro_x: single(0.1),
                    ..ImuPayload::default()
                },
            })
            .expect("fits");
    }
    batch
}

#[test]
fn test_imu_feed_pushes_every_sample_into_the_bus() {
    assert!(ImuFeed::<4>::new(None).is_ok(), "no config to reject");
    let mut imu = ImuQueue::new();
    imu.arm();
    let mut b = batch(&[10, 20, 30]);
    b.dropped = 2;
    b.camera_aligned = true;
    ImuFeed::<4>::process(Some(&b), &mut imu);

    let out = imu.drain();
    assert_eq!(
        out.samples.iter().map(|s| s.stamp_ns).collect::<Vec<_>>(),
        [10, 20, 30],
        "per-sample tov survives into the queue"
    );
    assert_eq!(out.dropped, 2);
    assert!(out.aligned);
    assert_eq!(f64::from_bits(out.samples[0].gyro.x.bits), f64::from(0.1f32));
    assert_eq!(f64::from_bits(out.samples[0].accel.z.bits), f64::from(9.81f32));
}

#[test]
fn test_imu_feed_ignores_an_empty_message() {
    let mut imu = ImuQueue::new();
    imu.arm();
    ImuFeed::<4>::process(None, &mut imu);
    assert_eq!(imu.drain().samples.len(), 0);
}

#[test]
fn test_imu_feed_refuses_config_keys() {
    let keys = vec!["capacity".to_string()];
    match ImuFeed::<4>::new(Some(&keys)) {
        Err(ConfigError::UnknownKeys { unknown, task, known }) => {
            assert_eq!(unknown, ["capacity"]);
            assert_eq!(task, "cufx_vio::ImuFeed");
            assert!(known.is_empty());
        }
        _ => panic!("ImuFeed reads no key, so any key is a typo"),
    }
    assert!(ImuFeed::<4>::new(Some(&Vec::new())).is_ok());
}

#[test]
fn test_batch_tov_is_the_range_of_its_samples() {
    let b = batch(&[30, 10, 20]);
    match b.tov() {
        Tov::Range(r) => {
            assert_eq!(r.start, 10);
            assert_eq!(r.end, 30);
        }
        other => panic!("expected a range, got {other:?}"),
    }
    assert_eq!(ImuBatch::<4>::new().tov(), Tov::Absent);
}
