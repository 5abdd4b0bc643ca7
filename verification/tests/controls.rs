use e7012e_sim::controls::{
    apply_control_update, clamp_pwm_us, throttle_command, ControlInput, ControllerFeedback,
    ThrottleCommand,
};
use e7012e_sim::map::LineKind;
use e7012e_sim::settings::tick_hz_from_setting;

#[test]
fn pwm_is_clamped() {
    assert_eq!(clamp_pwm_us(0), 1000);
    assert_eq!(clamp_pwm_us(999), 1000);
    assert_eq!(clamp_pwm_us(1500), 1500);
    assert_eq!(clamp_pwm_us(2001), 2000);
    assert_eq!(clamp_pwm_us(clamp_pwm_us(65535)), 2000);
}

#[test]
fn control_updates() {
    let c = ControlInput::neutral();
    assert_eq!(c, ControlInput { steer_pwm_us: 1500, throttle_pwm_us: 1500 });
    let c = apply_control_update(c, Some(2500), None);
    assert_eq!(c, ControlInput { steer_pwm_us: 2000, throttle_pwm_us: 1500 });
    let c = apply_control_update(c, None, Some(1200));
    assert_eq!(c, ControlInput { steer_pwm_us: 2000, throttle_pwm_us: 1200 });
}

#[test]
fn throttle_regions() {
    assert_eq!(throttle_command(1500), ThrottleCommand::Coast);
    assert_eq!(throttle_command(1525), ThrottleCommand::Coast);
    assert_eq!(throttle_command(1475), ThrottleCommand::Coast);
    assert_eq!(throttle_command(1526), ThrottleCommand::Accelerate { effort_us: 26 });
    assert_eq!(throttle_command(1474), ThrottleCommand::Brake { effort_us: 26 });
    assert_eq!(throttle_command(2000), ThrottleCommand::Accelerate { effort_us: 500 });
    assert_eq!(throttle_command(2600), ThrottleCommand::Accelerate { effort_us: 500 });
    assert_eq!(throttle_command(0), ThrottleCommand::Brake { effort_us: 500 });
    assert_eq!(throttle_command(1300), ThrottleCommand::Brake { effort_us: 200 });
}

#[test]
fn feedback_records_clamped_widths() {
    let mut f = ControllerFeedback {
        command: ControlInput::neutral(),
        rx_steer_pwm_us: None,
        rx_throttle_pwm_us: None,
        rx_lines: 0,
    };
    f.record_pwm(900, 2100);
    assert_eq!(f.command, ControlInput { steer_pwm_us: 1000, throttle_pwm_us: 2000 });
    assert_eq!(f.rx_steer_pwm_us, Some(1000));
    assert_eq!(f.rx_throttle_pwm_us, Some(2000));
    assert_eq!(f.rx_lines, 1);
    f.rx_lines = u64::MAX;
    f.record_pwm(1500, 1500);
    assert_eq!(f.rx_lines, u64::MAX);
}

#[test]
fn tick_rate_setting() {
    assert_eq!(tick_hz_from_setting(None), 500);
    assert_eq!(tick_hz_from_setting(Some("250")), 250);
    assert_eq!(tick_hz_from_setting(Some("0")), 1);
    assert_eq!(tick_hz_from_setting(Some("5000")), 1000);
    assert_eq!(tick_hz_from_setting(Some("+1000")), 1000);
    assert_eq!(tick_hz_from_setting(Some("fast")), 500);
    assert_eq!(tick_hz_from_setting(Some("99999999999")), 500);
    assert_eq!(tick_hz_from_setting(Some("")), 500);
}

#[test]
fn line_kinds() {
    assert_eq!(LineKind::Generic.as_str(), "generic");
    assert_eq!(LineKind::Vertical.as_str(), "vertical");
    assert_eq!(LineKind::Horizontal.as_str(), "horizontal");
    assert!(!LineKind::Generic.is_axis_aligned());
    assert!(LineKind::Vertical.is_axis_aligned());
    assert!(LineKind::Horizontal.is_axis_aligned());
}
