//! Where the fallback log of stage 2 is kept: its file in memory, and the
//! directory on the data partition that it is saved to.
use vstd::prelude::*;

use crate::common::defs::{BALENA_DATA_MP, BALENA_PART_MP, OLD_ROOT_MP};
use crate::common::{file_name, file_name_exec, path_append, path_append_spec, Error, ErrorKind};
use crate::text::{push_chars, push_str, str_chars, string_from_chars};

verus! {

/// The fallback log in memory, as stage 2 opens it for appending.
pub fn fallback_log_file(file_name: &str) -> (r: String)
    ensures
        r@ == path_append_spec("/tmp/"@, file_name@),
{
    path_append("/tmp/", file_name)
}

/// The fallback log in memory, as the copy to disk names it.
pub fn fallback_log_tmp_path(file_name: &str) -> (r: String)
    ensures
        r@ == "/tmp/"@ + file_name@,
{
    let mut v: Vec<char> = Vec::new();
    push_str(&mut v, "/tmp/");
    push_str(&mut v, file_name);
    string_from_chars(v.as_slice())
}

/// Where the fallback log is saved.
#[derive(Debug)]
pub enum FallbackLogTarget {
    /// On the data partition of the freshly written image, mounted first on
    /// the partition mountpoint; the directory there.
    FlashedDataPartition(String),
    /// In a directory of a data partition that is mounted already.
    Dir(String),
    /// Nowhere: no data partition is at hand.
    Nowhere,
}

/// The directory the log goes to: on the new image's data partition once the
/// image was written; else on the data partition mounted at its usual place,
/// or below the old root; else nowhere.
pub open spec fn fallback_target_spec(
    image_flashed: bool,
    data_mp_exists: bool,
    old_root_data_mp_exists: bool,
    dir_name: Seq<char>,
) -> (bool, Option<Seq<char>>) {
    if image_flashed {
        (true, Some(BALENA_PART_MP@ + "/"@ + dir_name))
    } else if data_mp_exists {
        (false, Some(BALENA_DATA_MP@ + "/"@ + dir_name))
    } else if old_root_data_mp_exists {
        (false, Some(OLD_ROOT_MP@ + "/"@ + BALENA_DATA_MP@ + "/"@ + dir_name))
    } else {
        (false, None)
    }
}

pub open spec fn target_model(t: FallbackLogTarget) -> (bool, Option<Seq<char>>) {
    match t {
        FallbackLogTarget::FlashedDataPartition(d) => (true, Some(d@)),
        FallbackLogTarget::Dir(d) => (false, Some(d@)),
        FallbackLogTarget::Nowhere => (false, None),
    }
}

/// Where to save the fallback log (see `fallback_target_spec`).
pub fn fallback_log_target(
    image_flashed: bool,
    data_mp_exists: bool,
    old_root_data_mp_exists: bool,
    dir_name: &str,
) -> (r: FallbackLogTarget)
    ensures
        target_model(r) == fallback_target_spec(
            image_flashed,
            data_mp_exists,
            old_root_data_mp_exists,
            dir_name@,
        ),
{
    let mut v: Vec<char> = Vec::new();
    if image_flashed {
        push_str(&mut v, BALENA_PART_MP);
        push_str(&mut v, "/");
        push_str(&mut v, dir_name);
        FallbackLogTarget::FlashedDataPartition(string_from_chars(v.as_slice()))
    } else if data_mp_exists {
        push_str(&mut v, BALENA_DATA_MP);
        push_str(&mut v, "/");
        push_str(&mut v, dir_name);
        FallbackLogTarget::Dir(string_from_chars(v.as_slice()))
    } else if old_root_data_mp_exists {
        push_str(&mut v, OLD_ROOT_MP);
        push_str(&mut v, "/");
        push_str(&mut v, BALENA_DATA_MP);
        push_str(&mut v, "/");
        push_str(&mut v, dir_name);
        FallbackLogTarget::Dir(string_from_chars(v.as_slice()))
    } else {
        FallbackLogTarget::Nowhere
    }
}

/// The data partition's mountpoint below the old root, which the log may be
/// saved to before the root was moved.
pub fn old_root_data_mp() -> (r: String)
    ensures
        r@ == path_append_spec(OLD_ROOT_MP@, BALENA_DATA_MP@),
{
    path_append(OLD_ROOT_MP, BALENA_DATA_MP)
}

/// Where a file copied into `dest_dir` under its own name lands; a
/// `FileNotFound` error where the source is no file.
pub fn copy_destination(source: &str, source_is_file: bool, dest_dir: &str) -> (r: Result<
    String,
    Error,
>)
    requires
        source_is_file ==> file_name(source@) is Some,
    ensures
        !source_is_file ==> (r matches Err(e) && e.kind == ErrorKind::FileNotFound),
        source_is_file ==> (r matches Ok(t) && t@ == path_append_spec(
            dest_dir@,
            seq!['/'] + file_name(source@)->0,
        )),
{
    if !source_is_file {
        return Err(Error::with_context(ErrorKind::FileNotFound, "source file does not exist"));
    }
    let s = str_chars(source);
    match file_name_exec(s.as_slice()) {
        Some(n) => {
            let mut v: Vec<char> = Vec::new();
            v.push('/');
            push_chars(&mut v, n.as_slice());
            let name = string_from_chars(v.as_slice());
            Ok(path_append(dest_dir, name.as_str()))
        },
        None => Err(Error::with_context(ErrorKind::FileNotFound, "source file has no name")),
    }
}

} // verus!
