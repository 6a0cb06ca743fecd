use nftp::errors::NftpError;
use nftp::parser::{path_recognition, protocol_recognition, version_recognition};

#[test]
fn protocol_recognition_should_pass() {
    let mut input_bytes: Vec<u8> = Vec::new();
    input_bytes.extend_from_slice(b"nFTP");
    input_bytes.push(0u8);
    let mut acc_len: usize = 4;
    let mut index: usize = 0;

    assert!(protocol_recognition(&input_bytes, input_bytes.len(), &mut acc_len, &mut index).is_ok());
    assert_eq!(index, 4);
    assert_eq!(acc_len, 5);
}

#[test]
fn protocol_recognition_with_total_len_equal_to_acc_len_should_return_err() {
    let mut input_bytes: Vec<u8> = Vec::new();
    input_bytes.extend_from_slice(b"nFTP");
    let mut acc_len: usize = 4;
    let mut index: usize = 0;

    assert!(protocol_recognition(&input_bytes, input_bytes.len(), &mut acc_len, &mut index).is_err());
}

#[test]
fn protocol_recognition_with_nftp_lowercase_should_return_err() {
    let mut input_bytes: Vec<u8> = Vec::new();
    input_bytes.extend_from_slice(b"nftp");
    input_bytes.push(0u8);
    let mut acc_len: usize = 4;
    let mut index: usize = 0;

    assert!(protocol_recognition(&input_bytes, input_bytes.len(), &mut acc_len, &mut index).is_err());
}

#[test]
fn protocol_recognition_with_error_in_nftp_name_should_return_err() {
    let mut input_bytes: Vec<u8> = Vec::new();
    input_bytes.extend_from_slice(b"nF");
    input_bytes.push(0u8);
    let mut acc_len: usize = 4;
    let mut index: usize = 0;

    assert!(protocol_recognition(&input_bytes, input_bytes.len(), &mut acc_len, &mut index).is_err());
}

#[test]
fn protocol_recognition_reports_protocol_mismatch_without_panicking() {
    // not UTF-8, wrong literal: still a plain ProtocolMismatch
    let input_bytes: Vec<u8> = vec![0xff, 0xfe, 0xfd, 0xfc, 0x00];
    let mut acc_len: usize = 4;
    let mut index: usize = 0;

    let r = protocol_recognition(&input_bytes, input_bytes.len(), &mut acc_len, &mut index);
    assert_eq!(r, Err(NftpError::ProtocolMismatch));
    assert_eq!(acc_len, 4);
    assert_eq!(index, 0);
}

#[test]
fn version_recognition_test() {
    let version_1_0 = 0b0001_0000u8;
    let input_bytes: Vec<u8> = vec![version_1_0];
    let total_len = input_bytes.len();
    let mut acc_len: usize = 0;
    let mut index: usize = 0;

    let version = version_recognition(&input_bytes, total_len, &mut acc_len, &mut index);
    assert!(version.is_ok());
    assert_eq!(version.unwrap().get_version(), 0b0001_0000u8);
}

#[test]
fn version_recognition_version_1_1_should_return_err() {
    let version_1_1 = 0b0001_0001u8;
    let input_bytes: Vec<u8> = vec![version_1_1];
    let total_len = input_bytes.len();
    let mut acc_len: usize = 0;
    let mut index: usize = 0;

    let version = version_recognition(&input_bytes, total_len, &mut acc_len, &mut index);
    assert!(version.is_err());
}

#[test]
fn version_recognition_version_2_0_should_return_err() {
    let version_2_0 = 0b0010_0000u8;
    let input_bytes: Vec<u8> = vec![version_2_0];
    let total_len = input_bytes.len();
    let mut acc_len: usize = 0;
    let mut index: usize = 0;

    let version = version_recognition(&input_bytes, total_len, &mut acc_len, &mut index);
    assert!(version.is_err());
}

#[test]
fn version_recognition_accepts_only_the_1_0_byte() {
    for b in 0..=255u8 {
        let input_bytes: Vec<u8> = vec![b];
        let mut acc_len: usize = 0;
        let mut index: usize = 0;
        let version = version_recognition(&input_bytes, input_bytes.len(), &mut acc_len, &mut index);
        if b == 0x10 {
            assert!(version.is_ok());
        } else {
            assert_eq!(version.err(), Some(NftpError::UnsupportedVersion));
        }
    }
}

#[test]
fn path_recognition_test() {
    let n_path: u8 = 2;
    let path_1_bytes = b"/dir_1/dir_2/dir_3/dir_4/long_long_file.mp4";
    let path_2_bytes = b"/dir_1/dir_2/dir_3/file.txt";

    let mut input_bytes: Vec<u8> = vec![];
    input_bytes.push(n_path);

    input_bytes.extend_from_slice(&43u16.to_be_bytes());
    input_bytes.extend_from_slice(path_1_bytes);

    input_bytes.extend_from_slice(&27u16.to_be_bytes());
    input_bytes.extend_from_slice(path_2_bytes);

    let total_len = input_bytes.len();
    let mut acc_len: usize = 0;
    let mut index: usize = 0;

    let paths = path_recognition(&input_bytes, total_len, &mut acc_len, &mut index);
    assert!(paths.is_ok());
}

#[test]
fn path_recognition_returns_exactly_the_declared_number_of_paths() {
    // three declared paths: "a", "bc", "d"
    let mut input_bytes: Vec<u8> = vec![3u8];
    input_bytes.extend_from_slice(&1u16.to_be_bytes());
    input_bytes.push(b'a');
    input_bytes.extend_from_slice(&2u16.to_be_bytes());
    input_bytes.extend_from_slice(b"bc");
    input_bytes.extend_from_slice(&1u16.to_be_bytes());
    input_bytes.push(b'd');

    let mut acc_len: usize = 0;
    let mut index: usize = 0;
    let paths = path_recognition(&input_bytes, input_bytes.len(), &mut acc_len, &mut index).unwrap();
    assert_eq!(paths.len(), 3);
    assert_eq!(paths[0], b"a".to_vec());
    assert_eq!(paths[1], b"bc".to_vec());
    assert_eq!(paths[2], b"d".to_vec());
}

#[test]
fn path_recognition_fails_when_declared_length_exceeds_buffer() {
    // one path declaring 100 bytes, only 3 present
    let mut input_bytes: Vec<u8> = vec![1u8];
    input_bytes.extend_from_slice(&100u16.to_be_bytes());
    input_bytes.extend_from_slice(b"abc");

    let mut acc_len: usize = 0;
    let mut index: usize = 0;
    let r = path_recognition(&input_bytes, input_bytes.len(), &mut acc_len, &mut index);
    assert_eq!(r.err(), Some(NftpError::Truncated));
}

#[test]
fn path_recognition_rejects_count_zero() {
    let input_bytes: Vec<u8> = vec![0u8, 0, 1, b'a'];
    let mut acc_len: usize = 0;
    let mut index: usize = 0;
    let r = path_recognition(&input_bytes, input_bytes.len(), &mut acc_len, &mut index);
    assert_eq!(r.err(), Some(NftpError::InvalidPathCount));
}

#[test]
fn path_recognition_rejects_count_above_maximum() {
    let input_bytes: Vec<u8> = vec![11u8, 0, 1, b'a'];
    let mut acc_len: usize = 0;
    let mut index: usize = 0;
    let r = path_recognition(&input_bytes, input_bytes.len(), &mut acc_len, &mut index);
    assert_eq!(r.err(), Some(NftpError::InvalidPathCount));
}

#[test]
fn path_recognition_rejects_bytes_that_are_not_utf8() {
    let mut input_bytes: Vec<u8> = vec![1u8];
    input_bytes.extend_from_slice(&2u16.to_be_bytes());
    input_bytes.extend_from_slice(&[0xff, 0xfe]);
    input_bytes.push(0u8);

    let mut acc_len: usize = 0;
    let mut index: usize = 0;
    let r = path_recognition(&input_bytes, input_bytes.len(), &mut acc_len, &mut index);
    assert_eq!(r.err(), Some(NftpError::InvalidEncoding));
}
