use pluggable_device::status::{Status, TF_OK, TF_OUT_OF_RANGE};

#[test]
fn a_new_status_reports_success() {
    let status = Status::new();
    assert_eq!(status.code, TF_OK);
    assert_eq!(status.message, "");
    assert!(status.is_ok());
}

#[test]
fn only_the_ok_code_is_success() {
    assert_eq!(TF_OK, 0);
    for code in [1u32, 2, 3, TF_OUT_OF_RANGE, u32::MAX] {
        let status = Status { code, message: String::new() };
        assert!(!status.is_ok());
    }
    assert!(Status { code: TF_OK, message: "a note".to_owned() }.is_ok());
}

#[test]
fn set_replaces_code_and_message() {
    let mut status = Status::new();
    status.set(TF_OUT_OF_RANGE, "too far");
    assert_eq!(status, Status { code: 11, message: "too far".to_owned() });
    status.set_ok();
    assert_eq!(status, Status { code: 0, message: String::new() });
}

#[test]
fn into_result_keeps_the_value_on_success() {
    let status = Status::new();
    assert_eq!(status.into_result((-1, 4)), Ok((-1, 4)));
}

#[test]
fn into_result_keeps_the_status_on_failure() {
    let status = Status { code: 3, message: "no such attribute".to_owned() };
    assert_eq!(
        status.into_result(7u8),
        Err(Status { code: 3, message: "no such attribute".to_owned() })
    );
}
