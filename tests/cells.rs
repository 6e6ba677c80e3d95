use rtsc::cell::{Coupler, DataCell, TripleCoupler};
use rtsc::Error;

#[test]
fn test_datacell() {
    let mut cell: DataCell<i32> = DataCell::new();
    cell.set(42);
    assert_eq!(cell.try_get().unwrap(), 42);
}

#[test]
fn test_datacell_close() {
    let mut cell: DataCell<i32> = DataCell::new();
    cell.set(42);
    cell.close();
    assert!(cell.is_closed());
    assert_eq!(cell.try_get().unwrap_err(), Error::ChannelClosed);
}

#[test]
fn test_datacell_try_get() {
    let mut cell: DataCell<i32> = DataCell::new();
    assert_eq!(cell.try_get().unwrap_err(), Error::ChannelEmpty);
    cell.set(42);
    assert_eq!(cell.try_get().unwrap(), 42);
}

#[test]
fn datacell_replace_returns_previous() {
    let mut cell: DataCell<i32> = DataCell::default();
    assert_eq!(cell.replace(1), None);
    assert_eq!(cell.replace(2), Some(1));
    assert_eq!(cell.try_get(), Ok(2));
    assert_eq!(cell.try_get(), Err(Error::ChannelEmpty));
}

#[test]
fn coupler_test_coupler() {
    let mut cell: Coupler<i32, i32> = Coupler::new();
    cell.set_second(33);
    cell.set(42);
    assert_eq!(cell.try_get().unwrap(), (42, Some(33)));
}

#[test]
fn coupler_primary_alone() {
    let mut cell: Coupler<i32, i32> = Coupler::new();
    cell.set(42);
    assert_eq!(cell.try_get().unwrap(), (42, None));
}

#[test]
fn coupler_test_coupler_close() {
    let mut cell = Coupler::<usize, usize>::new();
    cell.set(42);
    cell.close();
    assert!(matches!(cell.try_get().unwrap_err(), Error::ChannelClosed));
}

#[test]
fn coupler_test_coupler_try_get() {
    let mut cell: Coupler<i32, i32> = Coupler::new();
    assert!(matches!(cell.try_get().unwrap_err(), Error::ChannelEmpty));
    cell.set_second(33);
    cell.set(42);
    assert_eq!(cell.try_get().unwrap(), (42, Some(33)));
}

#[test]
fn coupler_last_set_wins_and_keeps_second() {
    let mut cell: Coupler<i32, i32> = Coupler::new();
    cell.set_second(7);
    cell.set(1);
    cell.set(2);
    assert_eq!(cell.replace(3), Some(2));
    assert_eq!(cell.replace_second(8), Some(7));
    assert_eq!(cell.try_get(), Ok((3, Some(8))));
    cell.set(4);
    assert_eq!(cell.try_get(), Ok((4, None)));
}

#[test]
fn triplecoupler_test_coupler() {
    let mut cell = TripleCoupler::new();
    cell.set_second(33);
    cell.set_third(45);
    cell.set(42);
    assert_eq!(cell.try_get().unwrap(), (42, Some(33), Some(45)));
}

#[test]
fn triplecoupler_test_coupler_close() {
    let mut cell = TripleCoupler::<usize, usize, usize>::new();
    cell.set(42);
    cell.close();
    assert_eq!(cell.try_get().unwrap_err(), Error::ChannelClosed);
}

#[test]
fn triplecoupler_test_coupler_try_get() {
    let mut cell = TripleCoupler::new();
    assert_eq!(cell.try_get().unwrap_err(), Error::ChannelEmpty);
    cell.set_second(33);
    cell.set_third(45);
    cell.set(42);
    assert_eq!(cell.try_get().unwrap(), (42, Some(33), Some(45)));
    assert_eq!(cell.replace_third(1), None);
    assert_eq!(cell.replace(5), None);
    assert_eq!(cell.try_get().unwrap(), (5, None, Some(1)));
}

#[test]
fn datacell_last_set_wins_then_empty() {
    let mut cell: DataCell<i32> = DataCell::new();
    cell.set(1);
    cell.set(2);
    cell.set(3);
    assert_eq!(cell.try_get(), Ok(3));
    assert_eq!(cell.try_get(), Err(Error::ChannelEmpty));
}
