use clymene::common::ConfigStatus;
use clymene::math::{ceil_power_2, is_power_2, Rectangle, Size};

#[test]
fn power_of_two_detection() {
    assert!(is_power_2(1));
    assert!(is_power_2(2));
    assert!(is_power_2(1024));
    assert!(!is_power_2(0));
    assert!(!is_power_2(3));
    assert!(!is_power_2(1000));
}

#[test]
fn ceil_power_of_two() {
    assert_eq!(ceil_power_2(1), 1);
    assert_eq!(ceil_power_2(3), 4);
    assert_eq!(ceil_power_2(1000), 1024);
    assert_eq!(ceil_power_2(1024), 1024);
    assert_eq!(ceil_power_2(0x8000_0000), 0x8000_0000);
}

#[test]
fn rectangle_with_zero_side_is_none() {
    assert!(Rectangle::with(1, 2, 0, 3).is_none());
    assert_eq!(Rectangle::with(1, 2, 3, 4), Some(Rectangle { x: 1, y: 2, width: 3, height: 4 }));
    assert!(Rectangle::default().is_empty());
    assert!(Size::with(0, 5).is_none());
    assert_eq!(Size::with(5, 6), Some(Size::new(5, 6)));
}

#[test]
fn statuses_combine_over_many_steps() {
    assert_eq!(ConfigStatus::combine_all(&vec![]), ConfigStatus::NotModified);
    assert_eq!(
        ConfigStatus::combine_all(&vec![ConfigStatus::NotModified, ConfigStatus::NotModified]),
        ConfigStatus::NotModified
    );
    assert_eq!(
        ConfigStatus::combine_all(&vec![ConfigStatus::NotModified, ConfigStatus::Modified, ConfigStatus::NotModified]),
        ConfigStatus::Modified
    );
}
