use madsim::fs::{FsError, FsNode, FsSim};

#[test]
fn create_open_read_write() {
    let mut fs = FsNode::new();
    assert_eq!(fs.open("file").err().unwrap(), FsError::NotFound);
    let file = fs.create("file");
    fs.write_all_at(&file, &b"hello".to_vec(), 0).unwrap();

    let mut buf = vec![0u8; 10];
    let read_len = fs.read_at(&file, &mut buf, 2).unwrap();
    assert_eq!(read_len, 3);
    assert_eq!(&buf[..3], b"llo");

    // writing to a read-only file should be denied
    let rofile = fs.open("file").unwrap();
    assert_eq!(
        fs.write_all_at(&rofile, &b"gg".to_vec(), 0).err().unwrap(),
        FsError::PermissionDenied
    );

    // create should truncate existing file
    let file = fs.create("file");
    let read_len = fs.read_at(&file, &mut buf, 0).unwrap();
    assert_eq!(read_len, 0);
}

#[test]
fn read_gets_what_was_written_at_offset() {
    let mut fs = FsNode::new();
    let file = fs.create("data");
    fs.write_all_at(&file, &b"abcd".to_vec(), 0).unwrap();
    fs.write_all_at(&file, &vec![1, 2, 3], 2).unwrap();
    assert_eq!(fs.read("data").unwrap(), vec![b'a', b'b', 1, 2, 3]);
    let mut buf = vec![9u8; 3];
    assert_eq!(fs.read_at(&file, &mut buf, 2).unwrap(), 3);
    assert_eq!(buf, vec![1, 2, 3]);
    assert_eq!(fs.metadata("data").unwrap().len(), 5);
    fs.write_all_at(&file, &vec![7], 1).unwrap();
    assert_eq!(fs.read("data").unwrap(), vec![b'a', 7, 1, 2, 3]);
}

#[test]
fn set_len_truncates_and_extends() {
    let mut fs = FsNode::new();
    let file = fs.create("f");
    fs.write_all_at(&file, &b"abcdef".to_vec(), 0).unwrap();
    fs.set_len(&file, 2);
    assert_eq!(fs.read("f").unwrap(), b"ab".to_vec());
    fs.set_len(&file, 4);
    assert_eq!(fs.read("f").unwrap(), vec![b'a', b'b', 0, 0]);
    assert_eq!(fs.file_metadata(&file).len(), 4);
}

#[test]
fn file_size_per_node() {
    let mut sim = FsSim::new();
    sim.create_node(1);
    assert_eq!(sim.get_file_size(1, "missing"), Err(FsError::NotFound));
    sim.create_node(2);
    assert_eq!(sim.get_file_size(2, "x"), Err(FsError::NotFound));
}
