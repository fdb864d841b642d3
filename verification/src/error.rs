//! Status codes of the engine and the typed result built from them.

use vstd::prelude::*;

verus! {

/// Status of a call that succeeded.
pub const EOK: i32 = 0;

/// No such file or directory.
pub const ENOENT: i32 = 2;

/// Generic input/output failure.
pub const EIO: i32 = 5;

/// The operation needs something other than a directory.
pub const EISDIR: i32 = 21;

/// The file is too large.
pub const EFBIG: i32 = 27;

/// A name, or a symlink target, is too long.
pub const ENAMETOOLONG: i32 = 36;

/// The directory still has entries.
pub const ENOTEMPTY: i32 = 39;

/// The configuration is not supported.
pub const ENOTSUP: i32 = 95;

/// A non-zero status code together with the label of the step that failed.
#[derive(Clone, Copy, Debug, PartialEq, Eq)]
pub struct Ext4Error {
    pub code: i32,
    pub context: Option<&'static str>,
}

pub type Ext4Result<T = ()> = Result<T, Ext4Error>;

impl Ext4Error {
    pub fn new(code: i32, context: Option<&'static str>) -> (e: Self)
        ensures
            e.code == code,
            e.context == context,
    {
        Ext4Error { code, context }
    }
}

impl From<i32> for Ext4Error {
    fn from(code: i32) -> (e: Self) {
        Ext4Error::new(code, None)
    }
}

impl vstd::std_specs::convert::FromSpecImpl<i32> for Ext4Error {
    open spec fn obeys_from_spec() -> bool {
        true
    }

    open spec fn from_spec(code: i32) -> Self {
        Ext4Error { code, context: None }
    }
}

/// What `check_status` returns for a status code and a label.
pub open spec fn status_result(code: i32, context: &'static str) -> Ext4Result<()> {
    if code == EOK {
        Ok(())
    } else {
        Err(Ext4Error { code, context: Some(context) })
    }
}

/// Turns the status code of an engine call into a result: zero is success,
/// anything else is an error that carries the code and the label.
pub fn check_status(code: i32, context: &'static str) -> (r: Ext4Result<()>)
    ensures
        r == status_result(code, context),
{
    if code != EOK {
        Err(Ext4Error::new(code, Some(context)))
    } else {
        Ok(())
    }
}

/// What `with_context` returns: the value unchanged, or the error with its
/// code kept and its label replaced.
pub open spec fn relabelled<T>(r: Ext4Result<T>, context: &'static str) -> Ext4Result<T> {
    match r {
        Ok(v) => Ok(v),
        Err(e) => Err(Ext4Error { code: e.code, context: Some(context) }),
    }
}

/// Replaces the label of an error, keeping its code; a success passes through.
pub fn with_context<T>(r: Ext4Result<T>, context: &'static str) -> (out: Ext4Result<T>)
    ensures
        out == relabelled(r, context),
{
    match r {
        Ok(v) => Ok(v),
        Err(e) => Err(Ext4Error::new(e.code, Some(context))),
    }
}

} // verus!
