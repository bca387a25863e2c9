use unshare::chroot::{relative_to, split_components, starts_at_root, Chroot, Pivot};

fn rel(dir: &str, base: &str, absolute: bool) -> Option<String> {
    relative_to(dir.as_bytes(), base.as_bytes(), absolute).map(|p| String::from_utf8(p).unwrap())
}

fn text(bytes: &[u8]) -> String {
    assert_eq!(bytes[bytes.len() - 1], 0);
    String::from_utf8(bytes[..bytes.len() - 1].to_vec()).unwrap()
}

#[test]
fn components_skip_empty_and_dot() {
    assert_eq!(split_components(b"/a/b/c"), vec![b"a".to_vec(), b"b".to_vec(), b"c".to_vec()]);
    assert_eq!(split_components(b"//a///b/"), vec![b"a".to_vec(), b"b".to_vec()]);
    assert_eq!(split_components(b"/a/./b/."), vec![b"a".to_vec(), b"b".to_vec()]);
    assert_eq!(split_components(b"a/../b"), vec![b"a".to_vec(), b"..".to_vec(), b"b".to_vec()]);
    assert_eq!(split_components(b"/"), Vec::<Vec<u8>>::new());
    assert_eq!(split_components(b""), Vec::<Vec<u8>>::new());
    assert_eq!(split_components(b".hidden/.x."), vec![b".hidden".to_vec(), b".x.".to_vec()]);
}

#[test]
fn absolute_paths_start_with_a_slash() {
    assert!(starts_at_root(b"/"));
    assert!(starts_at_root(b"/a"));
    assert!(!starts_at_root(b"a/b"));
    assert!(!starts_at_root(b""));
}

#[test]
fn relative_to_strips_the_prefix() {
    assert_eq!(rel("/a/b/c", "/a", true), Some(String::from("/b/c")));
    assert_eq!(rel("/a/b/c", "/a", false), Some(String::from("b/c")));
    assert_eq!(rel("/a/b/c", "/a/b/c", true), Some(String::from("/")));
    assert_eq!(rel("/a/b/c", "/a/b/c", false), Some(String::from("")));
    assert_eq!(rel("/a/b/c", "/", true), Some(String::from("/a/b/c")));
    assert_eq!(rel("/a/b/c", "/", false), Some(String::from("a/b/c")));
    assert_eq!(rel("/a//b/c/", "/a/", true), Some(String::from("/b/c")));
    assert_eq!(rel("a/b", "a", false), Some(String::from("b")));
}

#[test]
fn relative_to_outside_is_none() {
    assert_eq!(rel("/a/b/c", "/x", true), None);
    assert_eq!(rel("/a/b/c", "/a/c", true), None);
    assert_eq!(rel("/a", "/a/b", true), None);
    assert_eq!(rel("/ab", "/a", true), None);
    assert_eq!(rel("a/b", "/a", true), None);
    assert_eq!(rel("/a/b", "a", true), None);
}

#[test]
fn pivot_paths() {
    let cwd = Some(b"/new/work/dir".to_vec());
    let p = Pivot::resolve(b"/new", b"/new/old", true, &cwd);
    assert_eq!(text(&p.new_root), "/new");
    assert_eq!(text(&p.put_old), "/new/old");
    assert_eq!(text(&p.old_inside), "/old");
    assert_eq!(text(&p.workdir), "/work/dir");
    assert!(p.unmount_old_root);
}

#[test]
fn pivot_workdir_falls_back_to_root() {
    let p = Pivot::resolve(b"/new", b"/new/put/old", false, &Some(b"/elsewhere".to_vec()));
    assert_eq!(text(&p.old_inside), "/put/old");
    assert_eq!(text(&p.workdir), "/");
    assert!(!p.unmount_old_root);
    let p = Pivot::resolve(b"/new", b"/new/put/old", false, &None);
    assert_eq!(text(&p.workdir), "/");
    let p = Pivot::resolve(b"/new/root", b"/new/root", false, &Some(b"/new".to_vec()));
    assert_eq!(text(&p.old_inside), "/");
    assert_eq!(text(&p.workdir), "/");
}

#[test]
fn chroot_paths() {
    let c = Chroot::resolve(b"/jail", &None, &Some(b"/jail/home/me".to_vec()));
    assert_eq!(text(&c.root), "/jail");
    assert_eq!(text(&c.workdir), "/home/me");
    let c = Chroot::resolve(b"/jail", &None, &Some(b"/other".to_vec()));
    assert_eq!(text(&c.workdir), "/");
    let c = Chroot::resolve(b"/jail", &None, &None);
    assert_eq!(text(&c.workdir), "/");
}

#[test]
fn chroot_after_pivot_is_taken_in_the_new_root() {
    let c = Chroot::resolve(b"/jail", &Some(b"/new".to_vec()), &Some(b"/new/jail/srv".to_vec()));
    assert_eq!(text(&c.root), "/jail");
    assert_eq!(text(&c.workdir), "/srv");
    let c = Chroot::resolve(b"/jail", &Some(b"/new".to_vec()), &Some(b"/jail/srv".to_vec()));
    assert_eq!(text(&c.workdir), "/");
}
