use unhexo::error::{Error, Operand};
use unhexo::protocol::{Action, Reply, Step};
use unhexo::registry::{FileInfo, HandleRegistry, Opened};

fn opened(handle: u32, size: u64) -> Result<Opened<u32>, String> {
    Ok(Opened { handle, size })
}

#[test]
fn new_registry_is_empty() {
    let registry: HandleRegistry<u32> = HandleRegistry::new();
    assert_eq!(registry.len(), 0);
    assert!(!registry.contains("a.bin"));
    assert_eq!(registry.lookup("a.bin"), None);
}

#[test]
fn open_reports_the_size_and_keeps_the_handle() {
    let mut registry = HandleRegistry::new();
    let info = registry.open("a.bin".to_string(), opened(7, 1234));
    assert_eq!(info, Ok(FileInfo { size: 1234 }));
    assert_eq!(registry.len(), 1);
    assert!(registry.contains("a.bin"));
    assert_eq!(registry.lookup("a.bin"), Some(&7));
    assert_eq!(registry.lookup("b.bin"), None);
}

#[test]
fn open_again_replaces_the_handle() {
    let mut registry = HandleRegistry::new();
    assert_eq!(registry.open("a.bin".to_string(), opened(7, 10)), Ok(FileInfo { size: 10 }));
    assert_eq!(registry.open("b.bin".to_string(), opened(8, 20)), Ok(FileInfo { size: 20 }));
    assert_eq!(registry.open("a.bin".to_string(), opened(9, 30)), Ok(FileInfo { size: 30 }));
    assert_eq!(registry.len(), 2);
    assert_eq!(registry.lookup("a.bin"), Some(&9));
    assert_eq!(registry.lookup("b.bin"), Some(&8));
}

#[test]
fn open_again_drops_the_handle_it_replaces() {
    let first = std::rc::Rc::new(1u8);
    let second = std::rc::Rc::new(2u8);
    let mut registry = HandleRegistry::new();
    let _ = registry.open("a.bin".to_string(), Ok(Opened { handle: first.clone(), size: 0 }));
    assert_eq!(std::rc::Rc::strong_count(&first), 2);
    let _ = registry.open("a.bin".to_string(), Ok(Opened { handle: second.clone(), size: 0 }));
    assert_eq!(std::rc::Rc::strong_count(&first), 1);
    assert_eq!(std::rc::Rc::strong_count(&second), 2);
    registry.close("a.bin");
    assert_eq!(std::rc::Rc::strong_count(&second), 1);
}

#[test]
fn failed_open_is_an_io_error_and_changes_nothing() {
    let mut registry = HandleRegistry::new();
    let _ = registry.open("a.bin".to_string(), opened(7, 10));
    let before = registry.len();
    let info = registry.open(
        "missing.bin".to_string(),
        Err("No such file or directory (os error 2)".to_string()),
    );
    assert_eq!(info, Err(Error::Io("No such file or directory (os error 2)".to_string())));
    assert_eq!(registry.len(), before);
    assert!(!registry.contains("missing.bin"));
    assert_eq!(registry.lookup("a.bin"), Some(&7));
}

#[test]
fn failed_open_of_an_open_path_keeps_the_old_handle() {
    let mut registry = HandleRegistry::new();
    let _ = registry.open("a.bin".to_string(), opened(7, 10));
    let info = registry.open("a.bin".to_string(), Err("Permission denied".to_string()));
    assert_eq!(info, Err(Error::Io("Permission denied".to_string())));
    assert_eq!(registry.len(), 1);
    assert_eq!(registry.lookup("a.bin"), Some(&7));
}

#[test]
fn close_removes_the_handle() {
    let mut registry = HandleRegistry::new();
    let _ = registry.open("a.bin".to_string(), opened(7, 10));
    let _ = registry.open("b.bin".to_string(), opened(8, 10));
    registry.close("a.bin");
    assert_eq!(registry.len(), 1);
    assert!(!registry.contains("a.bin"));
    assert_eq!(registry.lookup("a.bin"), None);
    assert_eq!(registry.lookup("b.bin"), Some(&8));
}

#[test]
fn close_of_a_path_that_is_not_open_does_nothing() {
    let mut registry = HandleRegistry::new();
    registry.close("a.bin");
    assert_eq!(registry.len(), 0);
    let _ = registry.open("b.bin".to_string(), opened(8, 10));
    registry.close("a.bin");
    registry.close("a.bin");
    assert_eq!(registry.len(), 1);
    assert_eq!(registry.lookup("b.bin"), Some(&8));
}

#[test]
fn read_after_close_is_not_open() {
    let mut registry = HandleRegistry::new();
    let _ = registry.open("a.bin".to_string(), opened(7, 10));
    assert!(registry.read_at("a.bin", 0, 4).is_ok());
    registry.close("a.bin");
    match registry.read_at("a.bin", 0, 4) {
        Err(error) => assert_eq!(error, Error::NotOpen(Operand::Only)),
        Ok(_) => panic!("a closed path was read"),
    }
}

#[test]
fn read_of_a_path_never_opened_is_not_open() {
    let registry: HandleRegistry<u32> = HandleRegistry::new();
    match registry.read_at("a.bin", 5, 0) {
        Err(error) => assert_eq!(error, Error::NotOpen(Operand::Only)),
        Ok(_) => panic!("a path that was never opened was read"),
    }
}

#[test]
fn read_at_starts_with_the_seek_on_the_paths_handle() {
    let mut registry = HandleRegistry::new();
    let _ = registry.open("a.bin".to_string(), opened(7, 10));
    let _ = registry.open("b.bin".to_string(), opened(8, 10));
    let (handle, read) = registry.read_at("b.bin", 40, 16).unwrap();
    assert_eq!(*handle, 8);
    assert_eq!(read.request().operand, Operand::Only);
    assert_eq!(read.request().action, Action::Seek(40));
    match read.advance(Reply::Sought) {
        Step::Ask(read) => assert_eq!(read.request().action, Action::Read(16)),
        Step::Done(_) => panic!("the read ended after its seek"),
    }
}

#[test]
fn resolve_picks_the_path_by_operand() {
    let mut registry = HandleRegistry::new();
    let _ = registry.open("l.bin".to_string(), opened(1, 10));
    let _ = registry.open("r.bin".to_string(), opened(2, 10));
    assert_eq!(registry.resolve("l.bin", "r.bin", Operand::Left), Some(&1));
    assert_eq!(registry.resolve("l.bin", "r.bin", Operand::Right), Some(&2));
    assert_eq!(registry.resolve("l.bin", "r.bin", Operand::Only), Some(&1));
    assert_eq!(registry.resolve("l.bin", "x.bin", Operand::Right), None);
    assert_eq!(registry.resolve("x.bin", "r.bin", Operand::Left), None);
    assert_eq!(registry.resolve("x.bin", "r.bin", Operand::Right), Some(&2));
    assert_eq!(registry.resolve("l.bin", "l.bin", Operand::Right), Some(&1));
}

#[test]
fn error_messages_are_the_plain_sentences() {
    assert_eq!(Error::NotOpen(Operand::Only).message(), "File handle not found");
    assert_eq!(Error::NotOpen(Operand::Left).message(), "Left file handle not found");
    assert_eq!(Error::NotOpen(Operand::Right).message(), "Right file handle not found");
    assert_eq!(Error::Io("disk on fire".to_string()).message(), "disk on fire");
    assert_eq!(Error::Io(String::new()).message(), "");
}
