//! Snapshots as path-identified values.
//!
//! A snapshot is identified by its path under the backup root; the path is
//! the root, a slash, a constant name prefix, and the creation time in its
//! textual form. Nothing else is persisted, so the type carries the path
//! and the parsed creation time and ties the two together.

use crate::timestamp::spec_parse_rfc3339;
use crate::timestamp::spec_rfc3339;
use crate::timestamp::lemma_parse_determines_text;
use crate::timestamp::lemma_format_parse_roundtrip;
use crate::timestamp::parse_rfc3339;
use crate::timestamp::rfc3339_string;
use crate::timestamp::Timestamp;
use vstd::prelude::*;
use vstd::string::StrSliceExecFns;
use vstd::string::StringExecFns;

verus! {

/// The mathematical content of a snapshot: its path, as characters, and the
/// creation time the path embeds.
pub struct Entry {
    pub path: Seq<char>,
    pub stamp: Timestamp,
}

/// A local snapshot: a path under the backup root together with the
/// creation time spelled out in its final path component.
#[derive(Debug)]
pub struct Snapshot {
    pub path: String,
    pub stamp: Timestamp,
}

impl View for Snapshot {
    type V = Entry;

    open spec fn view(&self) -> Entry {
        Entry { path: self.path@, stamp: self.stamp }
    }
}

/// The directory-entry name of a snapshot created at time `t`: the constant
/// prefix followed by the textual timestamp.
pub open spec fn spec_name(t: Timestamp) -> Seq<char> {
    "pad."@ + spec_rfc3339(t)
}

/// The full path of a snapshot created at time `t` under `root`.
pub open spec fn spec_path(root: Seq<char>, t: Timestamp) -> Seq<char> {
    root + "/"@ + spec_name(t)
}

/// What a catalog guarantees of each entry: a well-formed creation time,
/// and the path that a snapshot of that time gets under `root` — nothing
/// else ever enters a catalog.
pub open spec fn entry_wf(e: Entry, root: Seq<char>) -> bool {
    e.stamp.wf() && e.path == spec_path(root, e.stamp)
}

impl Snapshot {
    /// The path is exactly the one a snapshot of this creation time gets
    /// under `root`: how every snapshot a catalog hands out is shaped.
    pub open spec fn wf_under(self, root: Seq<char>) -> bool {
        self.stamp.wf() && self.path@ == spec_path(root, self.stamp)
    }

    /// An identical snapshot value.
    pub fn duplicate(&self) -> (r: Snapshot)
        ensures
            r@ == self@,
    {
        Snapshot { path: self.path.clone(), stamp: self.stamp }
    }
}

/// Builds the snapshot that a run started at time `t` creates under `root`.
pub fn snapshot_at(root: &str, t: &Timestamp) -> (r: Snapshot)
    requires
        t.wf(),
    ensures
        r@.stamp == *t,
        r@.path =~= spec_path(root@, *t),
        r.wf_under(root@),
{
    let mut path = String::from_str(root);
    path.append("/");
    path.append("pad.");
    let stamp_text = rfc3339_string(t);
    path.append(stamp_text.as_str());
    proof {
        reveal_strlit("/");
        reveal_strlit("pad.");
    }
    Snapshot { path, stamp: *t }
}

/// What a directory-entry name means, if it names a snapshot: the constant
/// prefix followed by a parsable textual timestamp.
pub open spec fn spec_parse_name(name: Seq<char>) -> Option<Timestamp> {
    if name.len() >= 4 && name.subrange(0, 4) == "pad."@ {
        spec_parse_rfc3339(name.subrange(4, name.len() as int))
    } else {
        None
    }
}

/// Reads a directory-entry name as a snapshot name.
pub fn parse_name(name: &str) -> (r: Option<Timestamp>)
    ensures
        r == spec_parse_name(name@),
{
    proof {
        reveal_strlit("pad.");
    }
    let n = name.unicode_len();
    if n < 4 {
        return None;
    }
    if !(name.get_char(0) == 'p' && name.get_char(1) == 'a' && name.get_char(2) == 'd'
        && name.get_char(3) == '.') {
        proof {
            assert(name@.subrange(0, 4) != "pad."@) by {
                if name@.subrange(0, 4) == "pad."@ {
                    assert(name@[0] == "pad."@[0]);
                    assert(name@[1] == "pad."@[1]);
                    assert(name@[2] == "pad."@[2]);
                    assert(name@[3] == "pad."@[3]);
                }
            }
        }
        return None;
    }
    proof {
        assert(name@.subrange(0, 4) =~= "pad."@);
    }
    let rest = name.substring_char(4, n);
    parse_rfc3339(rest)
}

/// A name that reads as a snapshot of time `t` is exactly the name a
/// snapshot of time `t` gets; names and creation times correspond one to
/// one.
pub proof fn lemma_name_determines_stamp(name: Seq<char>, t: Timestamp)
    requires
        spec_parse_name(name) == Some(t),
    ensures
        t.wf(),
        name =~= spec_name(t),
{
    lemma_parse_determines_text(name.subrange(4, name.len() as int), t);
    assert(name =~= name.subrange(0, 4) + name.subrange(4, name.len() as int));
}

/// Under one root, snapshots created at distinct times have distinct paths,
/// and snapshots with the same path have the same creation time.
pub proof fn lemma_path_determines_stamp(root: Seq<char>, t1: Timestamp, t2: Timestamp)
    requires
        t1.wf(),
        t2.wf(),
        spec_path(root, t1) == spec_path(root, t2),
    ensures
        t1 == t2,
{
    let p1 = spec_path(root, t1);
    let p2 = spec_path(root, t2);
    let k = root.len() + "/"@.len() + "pad."@.len();
    assert(spec_rfc3339(t1).len() == 20 && spec_rfc3339(t2).len() == 20);
    assert(p1.subrange(k as int, p1.len() as int) =~= spec_rfc3339(t1));
    assert(p2.subrange(k as int, p2.len() as int) =~= spec_rfc3339(t2));
    lemma_format_parse_roundtrip(t1);
    lemma_format_parse_roundtrip(t2);
}

} // verus!
