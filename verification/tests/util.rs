use cem::util::{format_path, Boo, Moo, ReusableSharedBuffer};

#[test]
fn buffer_is_reused_when_unshared() {
    let mut buffer = ReusableSharedBuffer::new(vec![1u8, 2, 3]);
    {
        let mut guard = buffer.write(|| vec![0u8; 3]);
        assert!(!guard.reallocated());
        guard.push(4);
    }
    assert_eq!(*buffer.get(), vec![1u8, 2, 3, 4]);
}

#[test]
fn buffer_is_reallocated_when_shared() {
    let mut buffer = ReusableSharedBuffer::new(vec![1u8]);
    let handle = buffer.get();
    {
        let mut guard = buffer.write(|| vec![9u8]);
        assert!(guard.reallocated());
        guard.push(10);
    }
    assert_eq!(*handle, vec![1u8]);
    assert_eq!(*buffer.get(), vec![9u8, 10]);
}

#[test]
fn path_below_home_is_shown_with_tilde() {
    let path = format_path("/home/user/projects/scene.cem");
    assert_eq!(path.display_with_home(Some("/home/user")), "~/projects/scene.cem");
    assert_eq!(path.display_with_home(Some("/home/other")), "/home/user/projects/scene.cem");
    assert_eq!(path.display_with_home(None), "/home/user/projects/scene.cem");
    assert_eq!(path.path, "/home/user/projects/scene.cem");
}

#[test]
fn borrowed_or_owned() {
    let x = 5u32;
    let b: Boo<'_, u32> = Boo::from(&x);
    assert_eq!(*b, 5);
    assert_eq!(*b.as_ref(), 5);
    let o: Boo<'_, u32> = Boo::from(6u32);
    assert_eq!(*o, 6);
    let d: Boo<'_, u32> = Boo::default();
    assert_eq!(*d, 0);

    let mut y = 1u32;
    {
        let mut m: Moo<'_, u32> = Moo::from(&mut y);
        *m += 1;
        *m.as_mut() += 1;
        assert_eq!(*m.as_ref(), 3);
    }
    assert_eq!(y, 3);
    let mut owned: Moo<'_, u32> = Moo::from(7u32);
    *owned += 1;
    assert_eq!(*owned, 8);
}

#[test]
fn default_buffer_holds_the_default_value() {
    let mut buffer: ReusableSharedBuffer<Vec<u8>> = ReusableSharedBuffer::default();
    assert!(buffer.get().is_empty());
    let guard = buffer.write(|| vec![7u8]);
    assert!(!guard.reallocated());
}
