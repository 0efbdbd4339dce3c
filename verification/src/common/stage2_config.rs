//! The configuration that stage 1 hands to stage 2.
use vstd::prelude::*;

use crate::text::{is_prefix, lines, push_chars, push_str, split_lines, starts_with, str_chars, string_from_chars, view_all};

verus! {

/// A partition that stage 2 unmounts before flashing.
#[derive(Debug, Clone)]
pub struct UmountPart {
    pub dev_name: String,
    pub mountpoint: String,
    pub fs_type: String,
}

/// The device that stage 2 logs to.
#[derive(Debug, Clone)]
pub struct LogDevice {
    pub dev_name: String,
    pub fs_type: String,
}

#[derive(Debug, Clone)]
pub struct Stage2Config {
    pub log_dev: Option<LogDevice>,
    pub log_level: String,
    pub fallback_log: bool,
    pub fallback_log_filename: String,
    pub fallback_log_dirname: String,
    pub flash_dev: String,
    pub pretend: bool,
    pub umount_parts: Vec<UmountPart>,
    pub work_dir: String,
    pub image_path: String,
    pub config_path: String,
    pub backup_path: Option<String>,
    pub device_type: String,
    pub tty: String,
    pub api_endpoint: String,
    pub api_key: String,
    pub uuid: String,
    pub report_hup_progress: bool,
    pub change_dt_to: Option<String>,
}

/// A line of the serialized configuration with the API key's value hidden.
pub open spec fn sanitize_line(l: Seq<char>) -> Seq<char> {
    if is_prefix("api_key"@, l) {
        "api_key: <hidden>"@
    } else {
        l
    }
}

/// The lines, sanitized, each followed by a line break.
pub open spec fn sanitize_lines(ls: Seq<Seq<char>>) -> Seq<char>
    decreases ls.len(),
{
    if ls.len() == 0 {
        seq![]
    } else {
        sanitize_lines(ls.drop_last()) + sanitize_line(ls.last()) + seq!['\n']
    }
}

impl Stage2Config {
    pub fn log_dev(&self) -> (r: Option<&LogDevice>)
        ensures
            r matches Some(d) ==> self.log_dev == Some(*d),
            r is None <==> self.log_dev is None,
    {
        if let Some(log_device) = &self.log_dev {
            Some(log_device)
        } else {
            None
        }
    }

    pub fn flash_dev(&self) -> (r: &String)
        ensures
            *r == self.flash_dev,
    {
        &self.flash_dev
    }

    /// Hide the value of the API key in serialized configuration text: every
    /// line that begins with `api_key` becomes `api_key: <hidden>`, each line
    /// ends with a line break.
    pub fn sanitize_text(serialized: &str) -> (r: String)
        ensures
            r@ == sanitize_lines(lines(serialized@)),
    {
        let text = str_chars(serialized);
        let key = str_chars("api_key");
        let ls = split_lines(text.as_slice());
        let mut clean: Vec<char> = Vec::new();
        let mut i: usize = 0;
        while i < ls.len()
            invariant
                i <= ls@.len(),
                key@ == "api_key"@,
                view_all(ls@) == lines(serialized@),
                clean@ == sanitize_lines(view_all(ls@).take(i as int)),
            decreases ls@.len() - i,
        {
            proof {
                assert(view_all(ls@).take(i + 1).drop_last() =~= view_all(ls@).take(i as int));
                assert(view_all(ls@).take(i + 1).last() == ls@[i as int]@);
            }
            if starts_with(ls[i].as_slice(), key.as_slice()) {
                push_str(&mut clean, "api_key: <hidden>");
            } else {
                push_chars(&mut clean, ls[i].as_slice());
            }
            clean.push('\n');
            i = i + 1;
        }
        proof {
            assert(view_all(ls@).take(i as int) =~= view_all(ls@));
        }
        string_from_chars(clean.as_slice())
    }
}

/// Whatever the key's value, no line of the sanitized text holds it: each line
/// that begins with `api_key` becomes the same fixed line.
pub proof fn law_sanitize_hides_key(l1: Seq<char>, l2: Seq<char>)
    requires
        is_prefix("api_key"@, l1),
        is_prefix("api_key"@, l2),
    ensures
        sanitize_line(l1) == sanitize_line(l2),
        sanitize_lines(seq![l1]) == sanitize_lines(seq![l2]),
{
    assert(seq![l1].drop_last() =~= Seq::<Seq<char>>::empty());
    assert(seq![l2].drop_last() =~= Seq::<Seq<char>>::empty());
}

} // verus!
