//! The immutable configuration a registry is created from.

use vstd::prelude::*;
use vstd::string::StringExecFns;
use crate::level::Level;

verus! {

/// Configuration for the subsystem, fixed at setup: where log files go,
/// what they are named, how large the write buffer is and which records
/// are kept.
pub struct LogConfig {
    /// Directory the per-thread log files are written into.
    pub path: String,
    /// Basis for log file names: with basename `b`, the file for thread
    /// identity `t` is named `b.t.log`.
    pub file_basename: String,
    /// Size of the writer-side buffer; 0 writes through unbuffered.
    pub buf_size: u32,
    /// Least severe level that is still written.
    pub level: Level,
}

/// Spec-level image of the configuration.
#[verifier::ext_equal]
pub struct ConfigModel {
    pub dir: Seq<char>,
    pub basename: Seq<char>,
    pub buf_size: u32,
    pub level: Level,
}

impl View for LogConfig {
    type V = ConfigModel;

    open spec fn view(&self) -> ConfigModel {
        ConfigModel {
            dir: self.path@,
            basename: self.file_basename@,
            buf_size: self.buf_size,
            level: self.level,
        }
    }
}

/// The target path for one thread: `{path}/{basename}.{identity}.log`.
pub open spec fn spec_target_path(dir: Seq<char>, basename: Seq<char>, identity: Seq<char>) -> Seq<
    char,
> {
    dir + seq!['/'] + basename + seq!['.'] + identity + seq!['.', 'l', 'o', 'g']
}

impl LogConfig {
    /// Builds the path of the log file for the thread identified by
    /// `identity`: `{path}/{basename}.{identity}.log`.
    pub fn target_path(&self, identity: &str) -> (r: String)
        ensures
            r@ == spec_target_path(self.path@, self.file_basename@, identity@),
    {
        let mut s = self.path.clone();
        s.append("/");
        s.append(self.file_basename.as_str());
        s.append(".");
        s.append(identity);
        s.append(".log");
        proof {
            reveal_strlit("/");
            reveal_strlit(".");
            reveal_strlit(".log");
            assert(s@ =~= spec_target_path(self.path@, self.file_basename@, identity@));
        }
        s
    }

    /// The level a numeric code names: 1 is `Error` down to 5 is `Trace`;
    /// `None` for every other code.
    pub fn from_usize(u: usize) -> (r: Option<Level>)
        ensures
            r == if u == 1 {
                Some(Level::Error)
            } else if u == 2 {
                Some(Level::Warn)
            } else if u == 3 {
                Some(Level::Info)
            } else if u == 4 {
                Some(Level::Debug)
            } else if u == 5 {
                Some(Level::Trace)
            } else {
                None::<Level>
            },
    {
        match u {
            1 => Some(Level::Error),
            2 => Some(Level::Warn),
            3 => Some(Level::Info),
            4 => Some(Level::Debug),
            5 => Some(Level::Trace),
            _ => None,
        }
    }
}

/// Law: per-thread files are disjoint by construction — distinct thread
/// identities are given distinct target paths, for any directory and
/// basename.
pub proof fn lemma_target_path_injective(
    dir: Seq<char>,
    basename: Seq<char>,
    id1: Seq<char>,
    id2: Seq<char>,
)
    ensures
        spec_target_path(dir, basename, id1) == spec_target_path(dir, basename, id2) ==> id1
            == id2,
{
    let p1 = spec_target_path(dir, basename, id1);
    let p2 = spec_target_path(dir, basename, id2);
    if p1 == p2 {
        let pre = (dir.len() + 1 + basename.len() + 1) as int;
        assert(p1.len() == dir.len() + 1 + basename.len() + 1 + id1.len() + 4) by {
            assert(seq!['/'].len() == 1);
            assert(seq!['.'].len() == 1);
            assert(seq!['.', 'l', 'o', 'g'].len() == 4);
        }
        assert(p2.len() == dir.len() + 1 + basename.len() + 1 + id2.len() + 4) by {
            assert(seq!['/'].len() == 1);
            assert(seq!['.'].len() == 1);
            assert(seq!['.', 'l', 'o', 'g'].len() == 4);
        }
        assert(id1.len() == id2.len());
        assert(p1.subrange(pre, pre + id1.len() as int) =~= id1);
        assert(p2.subrange(pre, pre + id2.len() as int) =~= id2);
        assert(id1 =~= id2);
    }
}

} // verus!
