use techclass::error::IpcError;
use techclass::fs_api::{create_dir, read_file, remove_dir, remove_file, write_file, FsAction, FsItemInfo};
use techclass::path::AbsPath;
use techclass::sandbox::{create_path, Probe, Resolution, Resolver, SafePath};

fn root() -> AbsPath {
    AbsPath::parse("/data/config/pluginA").unwrap()
}

fn abs(t: &str) -> AbsPath {
    AbsPath::parse(t).unwrap()
}

fn asks(r: Resolution) -> (Resolver, String) {
    match r {
        Resolution::Probe(s, text) => (s, text),
        Resolution::Done(d) => panic!("expected a question, got {:?}", d.map(|p| p.to_text())),
    }
}

fn done(r: Resolution) -> Result<SafePath, IpcError> {
    match r {
        Resolution::Done(d) => d,
        Resolution::Probe(_, text) => panic!("unexpected question about {}", text),
    }
}

const FILE: FsItemInfo = FsItemInfo { exists: true, is_file: true, is_dir: false };
const DIR: FsItemInfo = FsItemInfo { exists: true, is_file: false, is_dir: true };
const NOTHING: FsItemInfo = FsItemInfo { exists: false, is_file: false, is_dir: false };

#[test]
fn traversal_to_etc_passwd_is_denied() {
    let r = done(create_path(root(), "../../etc/passwd"));
    assert_eq!(r.unwrap_err(), IpcError::PathPermissionDenied("../../etc/passwd".to_string()));
}

#[test]
fn escapes_are_denied_without_asking() {
    for cand in ["..", "a/../../x", "./../pluginA-evil", "/etc/passwd", "notes/../../../x"] {
        let r = done(create_path(root(), cand));
        assert_eq!(r.unwrap_err(), IpcError::PathPermissionDenied(cand.to_string()));
    }
}

#[test]
fn empty_candidate_is_the_root() {
    let p = done(create_path(root(), "")).unwrap();
    assert!(p.is_root());
    assert_eq!(p.to_text(), "/data/config/pluginA");
    assert_eq!(p.root().to_text(), "/data/config/pluginA");
    assert!(p.parent().is_none());
}

#[test]
fn existing_file_is_accepted_at_its_canonical_form() {
    let (s, text) = asks(create_path(root(), "notes/./todo.txt"));
    assert_eq!(text, "/data/config/pluginA/notes/./todo.txt");
    let p = done(s.next(Probe::Found(abs("/data/config/pluginA/notes/todo.txt")))).unwrap();
    assert_eq!(p.to_text(), "/data/config/pluginA/notes/todo.txt");
    assert!(!p.is_root());
}

#[test]
fn dot_and_back_again_is_the_root() {
    let (s, _) = asks(create_path(root(), "."));
    let p = done(s.next(Probe::Found(root()))).unwrap();
    assert!(p.is_root());
    let (s, text) = asks(create_path(root(), "foo/.."));
    assert_eq!(text, "/data/config/pluginA/foo/..");
    let p = done(s.next(Probe::Missing)).unwrap();
    assert!(p.is_root());
}

#[test]
fn link_out_of_the_root_is_denied() {
    let (s, _) = asks(create_path(root(), "link/secret"));
    let r = done(s.next(Probe::Found(abs("/etc/secret"))));
    assert_eq!(r.unwrap_err(), IpcError::PathPermissionDenied("link/secret".to_string()));
}

#[test]
fn new_file_below_a_linked_ancestor_is_denied() {
    let (s, _) = asks(create_path(root(), "link/new/file.txt"));
    let (s, text) = asks(s.next(Probe::Missing));
    assert_eq!(text, "/data/config/pluginA/link/new");
    let (s, text) = asks(s.next(Probe::Missing));
    assert_eq!(text, "/data/config/pluginA/link");
    let r = done(s.next(Probe::Found(abs("/tmp/elsewhere"))));
    assert_eq!(r.unwrap_err(), IpcError::PathPermissionDenied("link/new/file.txt".to_string()));
}

#[test]
fn new_file_below_an_existing_ancestor_is_accepted() {
    let (s, _) = asks(create_path(root(), "a/b/c.txt"));
    let (s, _) = asks(s.next(Probe::Missing));
    let p = done(s.next(Probe::Found(abs("/data/config/pluginA/real/a/b")))).unwrap();
    assert_eq!(p.to_text(), "/data/config/pluginA/real/a/b/c.txt");
}

#[test]
fn failure_of_the_filesystem_is_an_io_error() {
    let (s, _) = asks(create_path(root(), "x"));
    let r = done(s.next(Probe::Failed("permission denied".to_string())));
    assert_eq!(r.unwrap_err(), IpcError::Io("permission denied".to_string()));
}

#[test]
fn new_notes_file_is_written_with_its_directory() {
    let (s, text) = asks(create_path(root(), "notes/todo.txt"));
    assert_eq!(text, "/data/config/pluginA/notes/todo.txt");
    let (s, text) = asks(s.next(Probe::Missing));
    assert_eq!(text, "/data/config/pluginA/notes");
    let p = done(s.next(Probe::Missing)).unwrap();
    assert_eq!(p.to_text(), "/data/config/pluginA/notes/todo.txt");
    assert_eq!(p.parent().unwrap().to_text(), "/data/config/pluginA/notes");
    assert_eq!(
        write_file(&p, NOTHING),
        Ok(FsAction::WriteText {
            dir: "/data/config/pluginA/notes".to_string(),
            file: "/data/config/pluginA/notes/todo.txt".to_string(),
        })
    );
    assert_eq!(read_file(&p, FILE), Ok(FsAction::ReadText("/data/config/pluginA/notes/todo.txt".to_string())));
}

fn resolved(cand: &str) -> SafePath {
    let mut r = create_path(root(), cand);
    loop {
        match r {
            Resolution::Probe(s, _) => r = s.next(Probe::Missing),
            Resolution::Done(d) => return d.unwrap(),
        }
    }
}

#[test]
fn reading_a_directory_is_not_a_file() {
    assert_eq!(read_file(&resolved("dir"), DIR), Err(IpcError::NotFile));
    assert_eq!(read_file(&resolved("absent"), NOTHING), Err(IpcError::NotFile));
}

#[test]
fn removing_a_file_as_a_directory_is_not_a_directory() {
    assert_eq!(remove_dir(&resolved("file"), FILE), Err(IpcError::NotDir));
    assert_eq!(remove_dir(&resolved("absent"), NOTHING), Err(IpcError::NotDir));
    assert_eq!(
        remove_dir(&resolved("dir"), DIR),
        Ok(FsAction::RemoveDirAll("/data/config/pluginA/dir".to_string()))
    );
}

#[test]
fn the_root_is_never_removed() {
    assert_eq!(
        remove_dir(&resolved(""), DIR),
        Err(IpcError::PathPermissionDenied("/data/config/pluginA".to_string()))
    );
    assert_eq!(remove_file(&resolved(""), FILE), Err(IpcError::NotFile));
}

#[test]
fn writing_to_a_directory_is_a_directory() {
    assert_eq!(write_file(&resolved("dir"), DIR), Err(IpcError::IsDir));
    assert_eq!(write_file(&resolved(""), NOTHING), Err(IpcError::IsDir));
}

#[test]
fn removing_a_file() {
    assert_eq!(
        remove_file(&resolved("f.txt"), FILE),
        Ok(FsAction::RemoveFile("/data/config/pluginA/f.txt".to_string()))
    );
    assert_eq!(remove_file(&resolved("d"), DIR), Err(IpcError::NotFile));
    assert_eq!(remove_file(&resolved("gone"), NOTHING), Err(IpcError::NotFile));
}

#[test]
fn creating_a_directory_twice_asks_for_the_same_work() {
    let p = resolved("a/b");
    let first = create_dir(&p);
    let second = create_dir(&p);
    assert_eq!(first, FsAction::CreateDirAll("/data/config/pluginA/a/b".to_string()));
    assert_eq!(first, second);
}
