use nftp::tree::{tree_serialization, FsNode};

fn file(name: &str) -> FsNode {
    FsNode::File { name: name.as_bytes().to_vec() }
}

fn dir(name: &str, entries: Vec<FsNode>) -> FsNode {
    FsNode::Dir { name: name.as_bytes().to_vec(), entries }
}

/// The tree the filesystem fixture held: a root with nested directories and
/// files at several depths.
fn fixture_tree() -> FsNode {
    dir(
        "root",
        vec![
            dir("dir_1", vec![file("file.txt"), file("file_1.txt")]),
            dir("dir_2", vec![dir("dir_3", vec![dir("dir_4", vec![])])]),
            dir("dir_5", vec![file("file_4.txt")]),
            file("file_3.txt"),
        ],
    )
}

#[test]
fn tree_serialization_each_opening_parenthesis_is_properly_closed() {
    let mut result: Vec<u8> = Vec::new();
    let tree = fixture_tree();
    let mut counter: i64 = 0;

    tree_serialization(&tree, &mut result);

    for byte in result.iter() {
        if *byte == b'{' {
            counter += 1;
        } else if *byte == b'}' {
            counter -= 1;
        }
        assert!(counter >= 0);
    }
    assert_eq!(counter, 0);
}

#[test]
fn tree_serialization_result_contains_all_the_strings_of_the_filesystem() {
    let mut result: Vec<u8> = Vec::new();
    let tree = fixture_tree();

    tree_serialization(&tree, &mut result);
    let result = String::from_utf8(result).unwrap();

    assert!(result.contains("root{"));
    assert!(result.contains("dir_1{"));
    assert!(result.contains("dir_2{dir_3{dir_4{}}}"));
    assert!(result.contains("dir_5{file_4.txt,}"));
    assert!(result.contains("file.txt,"));
    assert!(result.contains("file_1.txt,"));
    assert!(result.contains("file_3.txt,"));
}

#[test]
fn tree_serialization_exact_output_for_small_tree() {
    let tree = dir("r", vec![file("a.txt"), dir("d", vec![file("b")])]);
    let mut result: Vec<u8> = Vec::new();
    tree_serialization(&tree, &mut result);
    assert_eq!(result, b"r{a.txt,d{b,}}".to_vec());
}

#[test]
fn tree_serialization_of_empty_dir_is_name_and_braces() {
    let tree = dir("empty", vec![]);
    let mut result: Vec<u8> = Vec::new();
    tree_serialization(&tree, &mut result);
    assert_eq!(result, b"empty{}".to_vec());
}

#[test]
fn tree_serialization_appends_after_existing_bytes() {
    let tree = file("x");
    let mut result: Vec<u8> = b"pre:".to_vec();
    tree_serialization(&tree, &mut result);
    assert_eq!(result, b"pre:x,".to_vec());
}
