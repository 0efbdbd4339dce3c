//! The archiver that links the files to back up into a temporary directory
//! and has `tar` pack that directory.
use vstd::prelude::*;

use crate::common::{path_append, path_append_spec};
use crate::migrator::stage1::exe_copy::parent_of;
use crate::text::{str_chars, string_from_chars};

verus! {

/// An archive being put together in `tmp_dir`, to be written to `archive`.
#[derive(Debug)]
pub struct ExtTarArchiver {
    pub tmp_dir: String,
    pub archive: String,
}

/// Where a file to back up is linked: the directory to create first, where
/// the target has a parent, and the link itself.
#[derive(Debug)]
pub struct LinkPlan {
    pub parent_dir: Option<String>,
    pub link: String,
}

impl ExtTarArchiver {
    /// An archive for `file`, put together in the temporary directory
    /// `tmp_dir`.
    pub fn new(tmp_dir: &str, file: &str) -> (r: ExtTarArchiver)
        ensures
            r.tmp_dir@ == tmp_dir@,
            r.archive@ == file@,
    {
        ExtTarArchiver {
            tmp_dir: string_from_chars(str_chars(tmp_dir).as_slice()),
            archive: string_from_chars(str_chars(file).as_slice()),
        }
    }

    /// Where the file to be found at `target` in the archive is linked: its
    /// parent below the temporary directory, and the target below it.
    pub fn add_file(&self, target: &str) -> (r: LinkPlan)
        ensures
            match parent_of(target@) {
                Some(p) => r.parent_dir matches Some(d) && d@ == path_append_spec(self.tmp_dir@, p),
                None => r.parent_dir is None,
            },
            r.link@ == path_append_spec(self.tmp_dir@, target@),
    {
        let link = path_append(self.tmp_dir.as_str(), target);
        let parent_dir = match crate::migrator::stage1::exe_copy::parent_exec(target) {
            Some(p) => Some(path_append(self.tmp_dir.as_str(), p.as_str())),
            None => None,
        };
        LinkPlan { parent_dir, link }
    }

    /// The arguments of `tar` that pack the temporary directory.
    pub fn finish_args(&self) -> (r: Vec<String>)
        ensures
            r@.len() == 6,
            r@[0]@ == "-h"@,
            r@[1]@ == "-czf"@,
            r@[2]@ == "backup.tgz"@,
            r@[3]@ == "-C"@,
            r@[4]@ == self.tmp_dir@,
            r@[5]@ == "."@,
    {
        let mut r: Vec<String> = Vec::new();
        r.push(string_from_chars(str_chars("-h").as_slice()));
        r.push(string_from_chars(str_chars("-czf").as_slice()));
        r.push(string_from_chars(str_chars("backup.tgz").as_slice()));
        r.push(string_from_chars(str_chars("-C").as_slice()));
        r.push(string_from_chars(str_chars(self.tmp_dir.as_str()).as_slice()));
        r.push(string_from_chars(str_chars(".").as_slice()));
        r
    }
}

} // verus!
