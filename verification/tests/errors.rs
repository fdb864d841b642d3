use lwext4_rust::error::{check_status, with_context, EIO, ENOENT, EOK};
use lwext4_rust::{Ext4Error, Ext4Result};

#[test]
fn zero_status_is_success() {
    assert_eq!(check_status(EOK, "ext4_fs_init"), Ok(()));
}

#[test]
fn other_status_is_an_error_with_its_label() {
    assert_eq!(
        check_status(EIO, "ext4_fs_init"),
        Err(Ext4Error { code: 5, context: Some("ext4_fs_init") })
    );
    assert_eq!(
        check_status(-1, "x"),
        Err(Ext4Error { code: -1, context: Some("x") })
    );
}

#[test]
fn relabelling_keeps_the_code() {
    let r: Ext4Result<u8> = Err(Ext4Error::new(ENOENT, None));
    assert_eq!(with_context(r, "lookup"), Err(Ext4Error { code: 2, context: Some("lookup") }));
    let r: Ext4Result<u8> = Ok(3);
    assert_eq!(with_context(r, "lookup"), Ok(3));
}

#[test]
fn error_from_code_has_no_label() {
    let e = Ext4Error::from(17);
    assert_eq!(e.code, 17);
    assert_eq!(e.context, None);
    assert_eq!(Ext4Error::new(ENOENT, Some("x")).code, 2);
}
