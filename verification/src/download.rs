//! Where a downloaded file is kept while it is written, and the claim that
//! lets one writer at a time hold it.
use vstd::prelude::*;

use crate::error::{Error, ErrorType};
use crate::path::{join, join_path};
use crate::runtime::Runtime;
use crate::text::{chars_of, dec, dec_int, fmt_i128, fmt_u128, push_all, string_of};

verus! {

/// The cache directory of downloads under a root directory.
pub open spec fn downloads_dir_of(root: Seq<char>) -> Seq<char> {
    join_path(join_path(join_path(root, "var"@), "cache"@), "downloads"@)
}

/// A file being downloaded: named by its UUID with `.file` after it, kept
/// under the downloads directory in `year/month/day`.
#[derive(Debug)]
pub struct DownloadFileSaver {
    pub uuid: String,
    pub file_name: String,
    pub year: i32,
    pub month: u32,
    pub day: u32,
    pub path: String,
    pub claiming: bool,
}

impl DownloadFileSaver {
    /// The file for a UUID (written as text) downloaded on the given day.
    pub fn from_uuid(uuid: &str, runtime: &Runtime, year: i32, month: u32, day: u32) -> (r: DownloadFileSaver)
        ensures
            r.uuid@ == uuid@,
            r.file_name@ == uuid@ + ".file"@,
            r.path@ == join_path(
                join_path(
                    join_path(join_path(downloads_dir_of(runtime@.root_dir), dec_int(year as int)), dec(month as nat)),
                    dec(day as nat),
                ),
                uuid@ + ".file"@,
            ),
            r.year == year,
            r.month == month,
            r.day == day,
            !r.claiming,
    {
        let u = chars_of(uuid);
        let mut f = chars_of(uuid);
        let ext = chars_of(".file");
        push_all(&mut f, &ext);
        let file_name = string_of(&f);
        let base = runtime.cahe_downloads_dir();
        let y = string_of(&fmt_i128(year as i128));
        let m = string_of(&fmt_u128(month as u128));
        let d = string_of(&fmt_u128(day as u128));
        let p1 = join(base.as_str(), y.as_str());
        let p2 = join(p1.as_str(), m.as_str());
        let p3 = join(p2.as_str(), d.as_str());
        let path = join(p3.as_str(), file_name.as_str());
        DownloadFileSaver { uuid: string_of(&u), file_name, year, month, day, path, claiming: false }
    }

    pub fn is_claiming(&self) -> (r: bool)
        ensures
            r == self.claiming,
    {
        self.claiming
    }

    pub fn get_path(&self) -> (r: &str)
        ensures
            r@ == self.path@,
    {
        self.path.as_str()
    }

    pub fn get_file_name(&self) -> (r: &str)
        ensures
            r@ == self.file_name@,
    {
        self.file_name.as_str()
    }

    pub fn get_uuid(&self) -> (r: &str)
        ensures
            r@ == self.uuid@,
    {
        self.uuid.as_str()
    }

    /// Takes the claim on the file: `DeadLock` when it is already claimed,
    /// which leaves it as it was.
    pub fn begin_claim(&mut self) -> (r: Result<(), Error>)
        ensures
            match r {
                Ok(()) => !old(self).claiming && final(self).claiming,
                Err(e) => old(self).claiming && e@ == (
                    ErrorType::DeadLock,
                    "File is already being claimed by another process or thread"@,
                ) && *final(self) == *old(self),
            },
            final(self).path == old(self).path,
            final(self).file_name == old(self).file_name,
            final(self).uuid == old(self).uuid,
    {
        if self.claiming {
            return Err(Error::dead_lock("File is already being claimed by another process or thread"));
        }
        self.claiming = true;
        Ok(())
    }

    /// Gives the claim up.
    pub fn end_claim(&mut self)
        ensures
            !final(self).claiming,
            final(self).path == old(self).path,
            final(self).file_name == old(self).file_name,
            final(self).uuid == old(self).uuid,
    {
        self.claiming = false;
    }
}

} // verus!
