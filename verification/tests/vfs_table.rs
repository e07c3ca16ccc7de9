//! The virtual file table's collision, capacity and cleanup behaviour.

use mujoco::vfs::AddError;
use mujoco::vfs::Vfs;
use mujoco::vfs::MAX_FILES;

#[test]
fn vfs_new() {
    Vfs::new();
}

#[test]
fn add_contents() {
    let filename = "asdf/dsdfs$@f.123";
    let content = "3klj032#$>>ðŸ˜®f";
    {
        let mut vfs = Vfs::new();
        println!("Attempting to add a file with contents");
        vfs.add_file(filename, content.as_bytes()).unwrap();
        assert_eq!(vfs.get_file(filename).unwrap(), content.as_bytes());
    }
    println!("Was able to add file");
}

#[test]
fn add_multiple() {
    let filename = "asdf/dsdfs$@f.123";
    let content = "3klj032#$>>ðŸ˜®f";
    let mut vfs = Vfs::new();
    println!("Attempting to add a file with contents");
    vfs.add_file(filename, content.as_bytes()).unwrap();
    assert_eq!(vfs.get_file(filename).unwrap(), content.as_bytes());
    println!("Was able to add file");
    let filename2 = "bsdf/esdfs$@f.123";
    let content2 = "58lj032#$>>ðŸ˜®f";
    println!("Attempting to add a file with contents");
    vfs.add_file(filename2, content2.as_bytes()).unwrap();
    assert_eq!(vfs.get_file(filename2).unwrap(), content2.as_bytes());
    println!("Was able to add file");
    let filename3 = "bsdf/fsdfs$@f.123";
    let content3 = "58lj098032#$>>ðŸ˜®f";
    println!("Attempting to add a file with contents");
    vfs.add_file(filename3, content3.as_bytes()).unwrap();
    assert_eq!(vfs.get_file(filename3).unwrap(), content3.as_bytes());
    println!("Was able to add file");
}

#[test]
fn delete_without_add() {
    let mut vfs = Vfs::new();
    assert_eq!(vfs.delete_file("asdf"), false);
}

#[test]
fn add_then_delete() {
    let filename = "file";
    let mut vfs = Vfs::new();
    vfs.add_file(filename, "asdf".as_bytes()).unwrap();
    println!("Trying to delete file");
    assert_eq!(vfs.delete_file(filename), true);
    println!("Done");
}

#[test]
fn add_twice_protected() {
    let filename = "file";
    let mut vfs = Vfs::new();
    vfs.add_file(filename, "asdf".as_bytes()).unwrap();
    let second_add_result = vfs.add_file(filename, "asdf".as_bytes());
    assert_eq!(second_add_result, Err(AddError::RepeatedName));
}

#[test]
fn first_contents_survive_duplicate_add() {
    let mut vfs = Vfs::new();
    vfs.add_file("scene", b"first").unwrap();
    assert_eq!(vfs.add_file("scene", b"second"), Err(AddError::RepeatedName));
    assert_eq!(vfs.get_file("scene").unwrap(), b"first".as_slice());
}

#[test]
fn full_table_reports_vfs_full() {
    let mut vfs = Vfs::new();
    for i in 0..MAX_FILES {
        let name = format!("file{}", i);
        vfs.add_file(&name, b"x").unwrap();
    }
    assert_eq!(vfs.add_file("one-more", b"x"), Err(AddError::VfsFull));
    assert_eq!(vfs.add_file("file0", b"x"), Err(AddError::VfsFull));
}

#[test]
fn staging_cleanup_leaves_no_collision() {
    let mut vfs = Vfs::new();
    let reserved = "from_xml_str";
    vfs.add_file(reserved, b"<scene/>").unwrap();
    assert!(vfs.delete_file(reserved));
    assert!(vfs.get_file(reserved).is_none());
    vfs.add_file(reserved, b"<scene/>").unwrap();
    assert_eq!(vfs.get_file(reserved).unwrap(), b"<scene/>".as_slice());
}

#[test]
fn delete_keeps_other_files() {
    let mut vfs = Vfs::new();
    vfs.add_file("a", b"1").unwrap();
    vfs.add_file("b", b"2").unwrap();
    vfs.add_file("c", b"3").unwrap();
    assert!(vfs.delete_file("b"));
    assert_eq!(vfs.get_file("a").unwrap(), b"1".as_slice());
    assert!(vfs.get_file("b").is_none());
    assert_eq!(vfs.get_file("c").unwrap(), b"3".as_slice());
}
