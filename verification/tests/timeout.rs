use g_flite::timeout::Timeout;

#[test]
fn valid_input() {
    assert_eq!(
        Timeout::from_str("00:00:10"),
        Ok(Timeout::from_hms(0, 0, 10))
    );
    assert_eq!(
        Timeout::from_str("00:10:00"),
        Ok(Timeout::from_hms(0, 10, 0))
    );
    assert_eq!(
        Timeout::from_str("10:00:00"),
        Ok(Timeout::from_hms(10, 0, 0))
    );
    assert_eq!(
        Timeout::from_str("23:59:59"),
        Ok(Timeout::from_hms(23, 59, 59))
    );
}

#[test]
fn invalid_input() {
    assert_eq!(
        Timeout::from_str("10"),
        Err("Failed parsing Timeout from '10' with error: premature end of input".to_owned())
    );
    assert_eq!(
        Timeout::from_str("10:00"),
        Err(
            "Failed parsing Timeout from '10:00' with error: premature end of input".to_owned()
        )
    );
    assert_eq!(
        Timeout::from_str(""),
        Err("Failed parsing Timeout from '' with error: premature end of input".to_owned())
    );
    assert_eq!(
        Timeout::from_str("24:00:00"),
        Err(
            "Failed parsing Timeout from '24:00:00' with error: input is out of range"
                .to_owned()
        )
    );
    assert_eq!(
        Timeout::from_str("00:00:00"),
        Err("Timeout of '00:00:00' is not allowed".to_owned())
    );
}

#[test]
fn renders_zero_padded() {
    assert_eq!(Timeout::from_hms(0, 10, 0).to_string(), "00:10:00");
    assert_eq!(Timeout::from_hms(23, 59, 59).to_string(), "23:59:59");
    assert_eq!(Timeout::from_hms(9, 5, 3).to_string(), "09:05:03");
}

#[test]
fn round_trips_through_rendering() {
    let t = Timeout::from_hms(1, 2, 3);
    assert_eq!(Timeout::from_str(t.to_string().as_str()), Ok(t));
}
