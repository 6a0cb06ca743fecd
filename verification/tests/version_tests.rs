use nftp::errors::NftpError;
use nftp::response::reassemble_u64_from_bytes;
use nftp::version::{Get, Instruction, List, Version1_0};
use nftp::{INSTRUCTION_GET, INSTRUCTION_LIST, RC_OK};

#[test]
fn parse_should_return_get() {
    let mut input_bytes: Vec<u8> = Vec::new();
    let path1 = b"/dir_a/dir_b/dir_c/file.txt";
    let path2 = b"/dir_a/dir_b/dir_c/dir_d/dir_e/very_long_file.pdf";
    let mut acc_len: usize = 0;
    let mut index: usize = 0;
    let get_code = 0u8;

    input_bytes.push(get_code);
    input_bytes.push(2u8); // 2 paths

    input_bytes.extend_from_slice(&(path1.len() as u16).to_be_bytes());
    input_bytes.extend_from_slice(path1);

    input_bytes.extend_from_slice(&(path2.len() as u16).to_be_bytes());
    input_bytes.extend_from_slice(path2);

    let res = Version1_0.parse(&input_bytes, input_bytes.len(), &mut acc_len, &mut index);
    assert!(res.is_ok());
    assert_eq!(get_code, res.unwrap().get_istruction_code());
}

#[test]
fn parse_should_return_list() {
    let mut input_bytes: Vec<u8> = Vec::new();
    let mut acc_len: usize = 0;
    let mut index: usize = 0;
    let list_code = 1u8;

    input_bytes.push(list_code);
    input_bytes.push(1u8); // 1 path, present but unused by LIST
    input_bytes.extend_from_slice(&1u16.to_be_bytes());
    input_bytes.push(b'x');

    let res = Version1_0.parse(&input_bytes, input_bytes.len(), &mut acc_len, &mut index);
    assert!(res.is_ok());
    assert_eq!(list_code, res.unwrap().get_istruction_code());
}

#[test]
fn parse_with_inexistent_istruction_should_return_err() {
    let mut input_bytes: Vec<u8> = Vec::new();
    let path = b"/dir_a/dir_b/dir_c/file.txt";
    let mut acc_len: usize = 0;
    let mut index: usize = 0;

    input_bytes.push(100u8); // inexistent istruction
    input_bytes.push(1u8); // 1 path

    input_bytes.extend_from_slice(&(path.len() as u16).to_be_bytes());
    input_bytes.extend_from_slice(path);

    let res = Version1_0.parse(&input_bytes, input_bytes.len(), &mut acc_len, &mut index);
    assert!(res.is_err());
    assert_eq!(res.err(), Some(NftpError::UnknownInstruction));
}

#[test]
fn version_1_0_reports_its_version_byte() {
    assert_eq!(Version1_0.get_version(), 0x10);
}

#[test]
fn instruction_codes_are_get_zero_and_list_one() {
    let g = Get { paths: vec![b"a".to_vec()] };
    let l = List;
    assert_eq!(g.get_istruction_code(), INSTRUCTION_GET);
    assert_eq!(l.get_istruction_code(), INSTRUCTION_LIST);
}

#[test]
fn get_with_zero_paths_fails_invalid_argument() {
    let g = Get { paths: vec![] };
    assert_eq!(g.single_path().err(), Some(NftpError::InvalidArgument));
    assert_eq!(g.response_for_file(true, 3).err(), Some(NftpError::InvalidArgument));
}

#[test]
fn get_with_two_paths_fails_invalid_argument() {
    let g = Get { paths: vec![b"a".to_vec(), b"b".to_vec()] };
    assert_eq!(g.single_path().err(), Some(NftpError::InvalidArgument));
    assert_eq!(g.response_for_file(true, 3).err(), Some(NftpError::InvalidArgument));
}

#[test]
fn get_on_missing_path_fails_not_found() {
    let g = Get { paths: vec![b"gone.txt".to_vec()] };
    assert_eq!(g.single_path().unwrap(), &b"gone.txt".to_vec());
    assert_eq!(g.response_for_file(false, 0).err(), Some(NftpError::NotFound));
}

#[test]
fn get_on_existing_file_builds_header_with_file_length() {
    let g = Get { paths: vec![b"a.txt".to_vec()] };
    let h = g.response_for_file(true, 12345).unwrap();
    let bytes = h.get_header();
    assert_eq!(bytes.len(), 14);
    assert_eq!(&bytes[0..4], b"nFTP");
    assert_eq!(bytes[4], 0x10);
    assert_eq!(bytes[5], RC_OK);
    assert_eq!(reassemble_u64_from_bytes(&bytes[6..]), 12345);
}

#[test]
fn list_response_header_carries_listing_length() {
    let l = List;
    let h = l.response_for_listing(77);
    let bytes = h.get_header();
    assert_eq!(bytes.len(), 14);
    assert_eq!(&bytes[0..4], b"nFTP");
    assert_eq!(bytes[4], 0x10);
    assert_eq!(bytes[5], RC_OK);
    assert_eq!(reassemble_u64_from_bytes(&bytes[6..]), 77);
}

#[test]
fn parsed_get_keeps_paths_in_wire_order() {
    let mut input_bytes: Vec<u8> = vec![0u8, 2u8];
    input_bytes.extend_from_slice(&1u16.to_be_bytes());
    input_bytes.push(b'a');
    input_bytes.extend_from_slice(&1u16.to_be_bytes());
    input_bytes.push(b'b');

    let mut acc_len: usize = 0;
    let mut index: usize = 0;
    let res = Version1_0.parse(&input_bytes, input_bytes.len(), &mut acc_len, &mut index).unwrap();
    match res {
        Instruction::Get(g) => {
            assert_eq!(g.paths, vec![b"a".to_vec(), b"b".to_vec()]);
        },
        Instruction::List(_) => panic!("expected GET"),
    }
}
