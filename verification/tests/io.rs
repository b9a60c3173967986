use idioms::io::PartialWrite;
use std::io::Write;

#[test]
fn test_write() {
    let mut writer = PartialWrite;
    let data = [1, 2, 3, 4, 5, 6, 7, 8];
    let bytes_written = writer.write(&data).unwrap();

    assert_eq!(data.len(), 8);
    assert_eq!(bytes_written, 4);
}

#[test]
#[should_panic]
fn test_write_all() {
    let mut writer = PartialWrite;
    let data = [1, 2, 3, 4, 5, 6, 7, 8];
    writer.write_all(&data).unwrap();
}

#[test]
fn write_of_nothing_and_odd_lengths() {
    let mut writer = PartialWrite;
    assert_eq!(0, writer.write(&[]).unwrap());
    assert_eq!(1, writer.write(&[1, 2, 3]).unwrap());
    assert!(writer.flush().is_ok());
}

#[test]
fn write_all_of_nothing_succeeds() {
    let mut writer = PartialWrite;
    assert!(writer.write_all(&[]).is_ok());
}
