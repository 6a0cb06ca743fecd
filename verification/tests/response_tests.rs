use nftp::response::{error_response_header, reassemble_u64_from_bytes, ResponseHeader};
use nftp::{MAGIC_0, MAGIC_1, MAGIC_2, MAGIC_3, RC_ERROR};

#[test]
fn reassemble_u64_from_bytes_should_return_the_correct_u64_number() {
    let number = 18_446_744_073_709_551_615u64;
    let bytes = number.to_be_bytes();
    assert_eq!(number, reassemble_u64_from_bytes(&bytes));
}

#[test]
fn response_header_should_return_the_correct_array_of_bytes() {
    let res = ResponseHeader::new(1, 2, 200, Some(18_446_744_073_709_551_615u64));
    let output_bytes = res.get_header();

    assert_eq!(output_bytes.len(), 14);
    assert_eq!(&output_bytes[0..4], b"nFTP");
    assert_eq!((output_bytes[4] & 0b1111_0000) >> 4, 1u8);
    assert_eq!(output_bytes[4] & 0b0000_1111, 2u8);
    assert_eq!(output_bytes[5], 200u8);
    let payload_dim = reassemble_u64_from_bytes(&output_bytes[6..]);
    assert_eq!(payload_dim, 18_446_744_073_709_551_615u64);
}

#[test]
fn response_header_with_none_payload_dim_should_return_the_correct_array_of_bytes() {
    let res = ResponseHeader::new(1, 2, 200, None);
    let output_bytes = res.get_header();

    assert_eq!(output_bytes.len(), 6);
    assert_eq!(&output_bytes[0..4], b"nFTP");
    assert_eq!((output_bytes[4] & 0b1111_0000) >> 4, 1u8);
    assert_eq!(output_bytes[4] & 0b0000_1111, 2u8);
    assert_eq!(output_bytes[5], 200u8);
}

#[test]
fn response_header_after_setting_new_payload_dim_should_contains_the_new_payload_dim() {
    let mut h = ResponseHeader::new(1, 0, 200, Some(18_446_744_073_709_551_615u64));

    let new_payload_dimension = 17_000_744_111_709_555_001u64;
    h.set_new_payload_dim(Some(new_payload_dimension));
    assert_eq!(reassemble_u64_from_bytes(&h.get_header()[6..]), new_payload_dimension);
}

#[test]
fn response_header_after_delete_payload_dim_should_not_contains_payload_dim() {
    let mut h = ResponseHeader::new(1, 0, 200, Some(18_446_744_073_709_551_615u64));

    h.set_new_payload_dim(None);
    assert_eq!(h.get_header().len(), 6);
}

#[test]
fn response_header_without_payload_dim_should_have_len_6_after_setting_none() {
    let mut h = ResponseHeader::new(1, 0, 200, None);

    h.set_new_payload_dim(None);
    assert_eq!(h.get_header().len(), 6);
}

#[test]
fn response_header_without_payload() {
    let mut h = ResponseHeader::new(1, 0, 200, None);

    let new_payload_dimension = 17_000_744_111_709_555_001u64;
    h.set_new_payload_dim(Some(new_payload_dimension));
    assert_eq!(reassemble_u64_from_bytes(&h.get_header()[6..]), new_payload_dimension);
}

#[test]
fn toggling_payload_dim_switches_header_len_and_keeps_prefix() {
    let mut h = ResponseHeader::new(1, 0, 77, Some(42));
    let first_six: Vec<u8> = h.get_header()[0..6].to_vec();
    assert_eq!(h.get_header().len(), 14);

    h.set_new_payload_dim(None);
    assert_eq!(h.get_header().len(), 6);
    assert_eq!(&h.get_header()[0..6], &first_six[..]);

    h.set_new_payload_dim(Some(99));
    assert_eq!(h.get_header().len(), 14);
    assert_eq!(&h.get_header()[0..6], &first_six[..]);
    assert_eq!(reassemble_u64_from_bytes(&h.get_header()[6..]), 99);
}

#[test]
fn set_new_version_and_code_touch_only_their_bytes() {
    let mut h = ResponseHeader::new(1, 0, 1, Some(5));
    h.set_new_version(2, 3);
    h.set_new_response_code(9);
    let bytes = h.get_header();
    assert_eq!(&bytes[0..4], b"nFTP");
    assert_eq!(bytes[4], (2 << 4) | 3);
    assert_eq!(bytes[5], 9);
    assert_eq!(reassemble_u64_from_bytes(&bytes[6..]), 5);
}

#[test]
fn error_frame_is_six_bytes_with_error_code() {
    let h = error_response_header();
    let bytes = h.get_header();
    assert_eq!(bytes.len(), 6);
    assert_eq!(bytes[0], MAGIC_0);
    assert_eq!(bytes[1], MAGIC_1);
    assert_eq!(bytes[2], MAGIC_2);
    assert_eq!(bytes[3], MAGIC_3);
    assert_eq!(bytes[4], 0x10);
    assert_eq!(bytes[5], RC_ERROR);
}
