//! The node-side state models: the IMU streaming switches, the logging
//! level store, and the run controller.

use pensel::imu::Imu;
use pensel::logger::{LogLevel, UsbSerialLogger};
use pensel::run::RunController;
use pensel::types::FixedPointVector;

#[test]
fn imu_streams_only_when_enabled() {
    let mut imu = Imu::new();
    let sample = Some(FixedPointVector::new(1, 2, 3));

    assert_eq!(imu.gravity_fixed(sample), None);
    assert_eq!(imu.linear_acceleration_fixed(sample), None);

    imu.set_streaming(true, false);
    assert_eq!(imu.linear_acceleration_fixed(sample), sample);
    assert_eq!(imu.gravity_fixed(sample), None);

    imu.set_streaming(false, true);
    assert_eq!(imu.gravity_fixed(sample), sample);
    assert_eq!(imu.linear_acceleration_fixed(sample), None);

    // a failed sensor read passes through as nothing
    assert_eq!(imu.gravity_fixed(None), None);
}

#[test]
fn logger_levels_round_trip() {
    let mut logger = UsbSerialLogger::new();
    logger.set_level(LogLevel::Debug);
    assert_eq!(logger.get_level(), LogLevel::Debug);

    assert!(logger.enabled(LogLevel::Error));
    assert!(logger.enabled(LogLevel::Debug));
    assert!(!logger.enabled(LogLevel::Trace));

    logger.set_level(LogLevel::Error);
    assert_eq!(logger.get_level(), LogLevel::Error);
    assert!(!logger.enabled(LogLevel::Warn));
}

#[test]
fn run_controller_clears_once() {
    let mut run = RunController::new();
    assert!(run.is_running());
    run.clear();
    assert!(!run.is_running());
    run.clear();
    assert!(!run.is_running());
}
