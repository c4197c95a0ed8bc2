use chess::{Coordinate, Error, File, Rank};

#[test]
fn coord_test_get_coordinate_a1_success() {
    let coord = Coordinate::get_coordinate("A1").unwrap();
    assert_eq!(coord.file, File::A);
    assert_eq!(coord.rank, Rank::One);
}

#[test]
fn coord_test_get_coordinate_h8_success() {
    let coord = Coordinate::get_coordinate("H8").unwrap();
    assert_eq!(coord.file, File::H);
    assert_eq!(coord.rank, Rank::Eight);
}

#[test]
fn coord_test_get_coordinate_z5_invalid() {
    assert_eq!(Coordinate::get_coordinate("Z5").err().unwrap(), Error::InvalidPositionString);
}

#[test]
fn coord_test_get_coordinate_empty_string_invalid() {
    assert_eq!(Coordinate::get_coordinate("").err().unwrap(), Error::InvalidPositionString);
}

#[test]
fn coord_test_get_coordinate_a9_invalid() {
    assert_eq!(Coordinate::get_coordinate("a9").err().unwrap(), Error::InvalidPositionString);
}

#[test]
fn coord_test_get_coordinate_1010_invalid() {
    assert_eq!(Coordinate::get_coordinate("1010").err().unwrap(), Error::InvalidPositionString);
}
