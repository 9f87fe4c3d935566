use vstd::prelude::*;

use crate::options::TreeOptions;
use crate::text::{spec_decimal, usize_to_string};

verus! {

/// The closing report line, in the reference tool's exact shape. With
/// directories-only set, one directory still reports "1 directory, 1 file".
pub open spec fn spec_report(dirs: int, files: int, dirs_only: bool) -> Seq<char> {
    if dirs_only {
        if dirs == 1 {
            "1 directory, 1 file"@
        } else {
            spec_decimal(dirs) + " directories"@
        }
    } else {
        if dirs == 1 && files == 1 {
            "1 directory, 1 file"@
        } else if files == 1 {
            spec_decimal(dirs) + " directories, 1 file"@
        } else if dirs == 1 {
            "1 directory, "@ + spec_decimal(files) + " files"@
        } else {
            spec_decimal(dirs) + " directories, "@ + spec_decimal(files) + " files"@
        }
    }
}

/// Renders the closing report line for the given counts.
pub fn render_report(dirs: usize, files: usize, dirs_only: bool) -> (r: String)
    ensures
        r@ == spec_report(dirs as int, files as int, dirs_only),
{
    if dirs_only {
        if dirs == 1 {
            String::from_str("1 directory, 1 file")
        } else {
            usize_to_string(dirs).concat(" directories")
        }
    } else {
        if dirs == 1 && files == 1 {
            String::from_str("1 directory, 1 file")
        } else if files == 1 {
            usize_to_string(dirs).concat(" directories, 1 file")
        } else if dirs == 1 {
            let n = usize_to_string(files);
            let s = String::from_str("1 directory, ").concat(n.as_str()).concat(" files");
            proof {
                assert(s@ =~= "1 directory, "@ + spec_decimal(files as int) + " files"@);
            }
            s
        } else {
            let n = usize_to_string(files);
            let s = usize_to_string(dirs).concat(" directories, ").concat(n.as_str()).concat(
                " files",
            );
            proof {
                assert(s@ =~= spec_decimal(dirs as int) + " directories, "@ + spec_decimal(
                    files as int,
                ) + " files"@);
            }
            s
        }
    }
}

/// Counting callbacks, for a run whose caller may not want a report at all.
pub trait TreeStats {
    fn count_dir(&mut self);

    fn count_file(&mut self);
}

/// Counters with a report line.
pub struct DefaultTreeStats {
    pub dirs: usize,
    pub files: usize,
}

impl TreeStats for DefaultTreeStats {
    fn count_dir(&mut self) {
        if self.dirs < usize::MAX {
            self.dirs = self.dirs + 1;
        }
    }

    fn count_file(&mut self) {
        if self.files < usize::MAX {
            self.files = self.files + 1;
        }
    }
}

impl DefaultTreeStats {
    pub fn new() -> (r: DefaultTreeStats)
        ensures
            r.dirs == 0,
            r.files == 0,
    {
        DefaultTreeStats { dirs: 0, files: 0 }
    }

    pub fn dirs(&self) -> (r: usize)
        ensures
            r == self.dirs,
    {
        self.dirs
    }

    pub fn files(&self) -> (r: usize)
        ensures
            r == self.files,
    {
        self.files
    }

    /// Renders the closing report line for these counters.
    pub fn write(&self, options: &TreeOptions) -> (r: String)
        ensures
            r@ == spec_report(self.dirs as int, self.files as int, options.list_directories_only),
    {
        render_report(self.dirs, self.files, options.list_directories_only)
    }
}

/// Counters that count nothing, for runs without a report.
pub struct NoopTreeStats;

impl TreeStats for NoopTreeStats {
    fn count_dir(&mut self) {
    }

    fn count_file(&mut self) {
    }
}

} // verus!
