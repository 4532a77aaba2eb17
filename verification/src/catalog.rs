//! The snapshot catalog: what is on disk under the backup root, in
//! ascending creation-time order.
//!
//! The directory listing arrives as text in whatever order the external
//! tool produced; the catalog is built by splitting it into lines, reading
//! each line as a snapshot name, and sorting the snapshots by their
//! embedded creation time in-process, so nothing depends on the external
//! sort order. A missing root is a recoverable gap: it is created and an
//! empty catalog is returned; any other listing failure is fatal.

use crate::command::interpret_output;
use crate::command::BackupCommand;
use crate::command::BackupError;
use crate::command::CommandRunner;
use crate::snapshot::entry_wf;
use crate::snapshot::lemma_name_determines_stamp;
use crate::snapshot::parse_name;
use crate::snapshot::snapshot_at;
use crate::snapshot::spec_parse_name;
use crate::snapshot::spec_path;
use crate::snapshot::Entry;
use crate::snapshot::Snapshot;
use crate::timestamp::lemma_key_injective;
use vstd::prelude::*;
use vstd::seq_lib::lemma_multiset_commutative;
use vstd::string::StrSliceExecFns;

verus! {

/// The mathematical content of a snapshot vector.
pub open spec fn views_of(s: Seq<Snapshot>) -> Seq<Entry> {
    s.map_values(|x: Snapshot| x@)
}

/// The position of the first newline in `s`, or its length if none.
pub open spec fn line_end(s: Seq<char>) -> int
    decreases s.len(),
{
    if s.len() == 0 || s[0] == '\n' {
        0
    } else {
        1 + line_end(s.drop_first())
    }
}

/// `line_end` is the one position with no newline before it that is either
/// a newline or the end.
pub proof fn lemma_line_end_at(s: Seq<char>, e: int)
    requires
        0 <= e <= s.len(),
        forall|k: int| 0 <= k < e ==> s[k] != '\n',
        e == s.len() || s[e] == '\n',
    ensures
        line_end(s) == e,
    decreases e,
{
    if e == 0 {
    } else {
        assert(s[0] != '\n');
        let t = s.drop_first();
        assert(forall|k: int| 0 <= k < e - 1 ==> t[k] == s[k + 1] && t[k] != '\n');
        lemma_line_end_at(t, e - 1);
    }
}

/// The lines of `s`: maximal newline-free stretches, with the separating
/// newlines removed. Text with no newline is one line; every newline ends
/// a line and starts the next, so `n` newlines make `n + 1` lines.
pub open spec fn spec_lines(s: Seq<char>) -> Seq<Seq<char>>
    decreases s.len(),
{
    let e = line_end(s);
    if 0 <= e < s.len() {
        seq![s.subrange(0, e)] + spec_lines(s.subrange(e + 1, s.len() as int))
    } else {
        seq![s]
    }
}

/// Splits text into its lines.
pub fn split_lines(s: &str) -> (r: Vec<String>)
    ensures
        r@.map_values(|l: String| l@) == spec_lines(s@),
{
    let n = s.unicode_len();
    let mut lines: Vec<String> = Vec::new();
    proof {
        assert(s@.subrange(0, n as int) =~= s@);
        assert(lines@.map_values(|l: String| l@) =~= Seq::<Seq<char>>::empty());
        assert(Seq::<Seq<char>>::empty() + spec_lines(s@) =~= spec_lines(s@));
    }
    let mut start: usize = 0;
    let mut i: usize = 0;
    while i < n
        invariant
            start <= i <= n,
            n == s@.len(),
            forall|k: int| start <= k < i ==> s@[k] != '\n',
            spec_lines(s@) == lines@.map_values(|l: String| l@) + spec_lines(
                s@.subrange(start as int, n as int),
            ),
        decreases n - i,
    {
        if s.get_char(i) == '\n' {
            let line = s.substring_char(start, i);
            let line_string = line.to_owned();
            let ghost prev = lines@.map_values(|l: String| l@);
            let ghost tail = s@.subrange(start as int, n as int);
            let ghost e = i - start;
            proof {
                assert(forall|k: int| 0 <= k < e ==> tail[k] == s@[k + start] && tail[k] != '\n');
                assert(tail[e] == s@[i as int]);
                lemma_line_end_at(tail, e);
                assert(tail.subrange(0, e) =~= line_string@);
                assert(tail.subrange(e + 1, tail.len() as int) =~= s@.subrange(i + 1, n as int));
            }
            lines.push(line_string);
            proof {
                assert(lines@.map_values(|l: String| l@) =~= prev.push(line_string@));
                assert(prev + spec_lines(tail) =~= prev.push(line_string@) + spec_lines(
                    s@.subrange(i + 1, n as int),
                ));
            }
            start = i + 1;
        }
        i = i + 1;
    }
    let last = s.substring_char(start, n);
    let last_string = last.to_owned();
    let ghost prev = lines@.map_values(|l: String| l@);
    let ghost tail = s@.subrange(start as int, n as int);
    proof {
        assert(forall|k: int| 0 <= k < tail.len() ==> tail[k] == s@[k + start] && tail[k] != '\n');
        lemma_line_end_at(tail, tail.len() as int);
        assert(spec_lines(tail) == seq![tail]);
        assert(tail =~= last_string@);
    }
    lines.push(last_string);
    proof {
        assert(lines@.map_values(|l: String| l@) =~= prev.push(last_string@));
        assert(prev + spec_lines(tail) =~= prev.push(last_string@));
    }
    lines
}

/// The entries one listing line contributes: one, if it names a snapshot;
/// none otherwise — stray entries under the root are no snapshots and do
/// not enter the catalog.
pub open spec fn entry_of(root: Seq<char>, line: Seq<char>) -> Seq<Entry> {
    match spec_parse_name(line) {
        Some(t) => seq![Entry { path: spec_path(root, t), stamp: t }],
        None => Seq::<Entry>::empty(),
    }
}

/// The snapshots that a listing's lines name, in listing order.
pub open spec fn spec_raw_entries(root: Seq<char>, lines: Seq<Seq<char>>) -> Seq<Entry>
    decreases lines.len(),
{
    if lines.len() == 0 {
        Seq::<Entry>::empty()
    } else {
        entry_of(root, lines[0]) + spec_raw_entries(root, lines.drop_first())
    }
}

pub proof fn lemma_raw_entries_push(root: Seq<char>, lines: Seq<Seq<char>>, l: Seq<char>)
    ensures
        spec_raw_entries(root, lines.push(l)) == spec_raw_entries(root, lines) + entry_of(root, l),
    decreases lines.len(),
{
    if lines.len() == 0 {
        assert(lines.push(l)[0] == l);
        assert(lines.push(l).drop_first() =~= Seq::<Seq<char>>::empty());
        assert(spec_raw_entries(root, Seq::<Seq<char>>::empty()) == Seq::<Entry>::empty());
        assert(spec_raw_entries(root, lines.push(l)) == entry_of(root, l) + Seq::<Entry>::empty());
        assert(entry_of(root, l) + Seq::<Entry>::empty() =~= Seq::<Entry>::empty() + entry_of(
            root,
            l,
        ));
    } else {
        assert(lines.push(l)[0] == lines[0]);
        assert(lines.push(l).drop_first() =~= lines.drop_first().push(l));
        lemma_raw_entries_push(root, lines.drop_first(), l);
        let a = entry_of(root, lines[0]);
        let rest = spec_raw_entries(root, lines.drop_first());
        assert(spec_raw_entries(root, lines.push(l)) == a + (rest + entry_of(root, l)));
        assert(a + (rest + entry_of(root, l)) =~= (a + rest) + entry_of(root, l));
    }
}

pub proof fn lemma_raw_entries_wf(root: Seq<char>, lines: Seq<Seq<char>>)
    ensures
        forall|j: int|
            0 <= j < spec_raw_entries(root, lines).len() ==> entry_wf(
                #[trigger] spec_raw_entries(root, lines)[j],
                root,
            ),
    decreases lines.len(),
{
    if lines.len() > 0 {
        lemma_raw_entries_wf(root, lines.drop_first());
        let head = entry_of(root, lines[0]);
        let rest = spec_raw_entries(root, lines.drop_first());
        if spec_parse_name(lines[0]) is Some {
            lemma_name_determines_stamp(lines[0], spec_parse_name(lines[0])->0);
        }
        assert forall|j: int|
            0 <= j < spec_raw_entries(root, lines).len() implies entry_wf(
            #[trigger] spec_raw_entries(root, lines)[j],
            root,
        ) by {
            if j < head.len() {
                assert(spec_raw_entries(root, lines)[j] == head[0]);
            } else {
                assert(spec_raw_entries(root, lines)[j] == rest[j - head.len()]);
            }
        };
    }
}

/// Ascending creation-time order.
pub open spec fn sorted(es: Seq<Entry>) -> bool {
    forall|i: int, j: int|
        0 <= i < j < es.len() ==> #[trigger] es[i].stamp.key() <= #[trigger] es[j].stamp.key()
}

/// Places one snapshot into an already ordered vector, keeping the order
/// and adding exactly that snapshot.
fn insert_sorted(v: &mut Vec<Snapshot>, s: Snapshot)
    requires
        sorted(views_of(old(v)@)),
    ensures
        sorted(views_of(final(v)@)),
        views_of(final(v)@).to_multiset() == views_of(old(v)@).to_multiset().insert(s@),
{
    broadcast use vstd::seq_lib::to_multiset_build;
    broadcast use vstd::multiset::group_multiset_axioms;

    let k = s.stamp.key_u128();
    let mut idx: usize = 0;
    while idx < v.len() && v[idx].stamp.key_u128() <= k
        invariant
            idx <= v.len(),
            v@ == old(v)@,
            k == s.stamp.key(),
            forall|t: int| 0 <= t < idx ==> #[trigger] views_of(v@)[t].stamp.key() <= s@.stamp.key(),
        decreases v.len() - idx,
    {
        idx += 1;
    }
    let ghost vo = views_of(old(v)@);
    proof {
        assert(idx == vo.len() || vo[idx as int].stamp.key() > s@.stamp.key());
    }
    v.insert(idx, s);
    proof {
        let nv = views_of(v@);
        old(v)@.insert_ensures(idx as int, s);
        vo.insert_ensures(idx as int, s@);
        assert(nv =~= vo.insert(idx as int, s@));
        assert forall|a: int, b: int| 0 <= a < b < nv.len() implies #[trigger] nv[a].stamp.key()
            <= #[trigger] nv[b].stamp.key() by {
            if b < idx {
            } else if a < idx && b == idx {
                assert(nv[a] == vo[a] && nv[b] == s@);
            } else if a < idx && b > idx {
                assert(nv[a] == vo[a] && nv[b] == vo[b - 1]);
                assert(vo[a].stamp.key() <= s@.stamp.key());
                assert(b - 1 >= idx);
                assert(idx < vo.len());
                assert(vo[idx as int].stamp.key() <= vo[b - 1].stamp.key());
            } else if a == idx {
                assert(nv[a] == s@ && nv[b] == vo[b - 1]);
                assert(b - 1 >= idx && idx < vo.len());
                assert(vo[idx as int].stamp.key() <= vo[b - 1].stamp.key());
            } else {
                assert(nv[a] == vo[a - 1] && nv[b] == vo[b - 1]);
            }
        };
        let sub0 = vo.subrange(0, idx as int);
        let sub1 = vo.subrange(idx as int, vo.len() as int);
        lemma_multiset_commutative(sub0.push(s@), sub1);
        lemma_multiset_commutative(sub0, sub1);
        assert(vo =~= sub0 + sub1);
        assert(nv.to_multiset() =~= vo.to_multiset().insert(s@));
    }
}

/// Orders snapshots ascending by creation time; the result holds exactly
/// the given snapshots.
pub fn sort_by_time(v: Vec<Snapshot>) -> (r: Vec<Snapshot>)
    ensures
        sorted(views_of(r@)),
        views_of(r@).to_multiset() == views_of(v@).to_multiset(),
{
    broadcast use vstd::seq_lib::to_multiset_build;
    broadcast use vstd::multiset::group_multiset_axioms;

    let mut out: Vec<Snapshot> = Vec::new();
    proof {
        assert(views_of(out@) =~= Seq::<Entry>::empty());
        assert(views_of(v@.subrange(0, 0)) =~= Seq::<Entry>::empty());
    }
    let mut i: usize = 0;
    while i < v.len()
        invariant
            i <= v.len(),
            sorted(views_of(out@)),
            views_of(out@).to_multiset() == views_of(v@.subrange(0, i as int)).to_multiset(),
        decreases v.len() - i,
    {
        let s = v[i].duplicate();
        insert_sorted(&mut out, s);
        proof {
            assert(views_of(v@.subrange(0, i + 1)) =~= views_of(
                v@.subrange(0, i as int),
            ).push(v@[i as int]@));
            assert(views_of(v@.subrange(0, i + 1)).to_multiset() == views_of(
                v@.subrange(0, i as int),
            ).push(v@[i as int]@).to_multiset());
            vstd::seq_lib::to_multiset_build::<Entry>(
                views_of(v@.subrange(0, i as int)),
                v@[i as int]@,
            );
        }
        i += 1;
    }
    proof {
        assert(v@.subrange(0, v@.len() as int) =~= v@);
    }
    out
}

/// An ordered sequence of snapshots, oldest first: what one run observes
/// under the backup root before it creates its own snapshot.
pub struct Catalog {
    pub entries: Vec<Snapshot>,
}

impl View for Catalog {
    type V = Seq<Entry>;

    open spec fn view(&self) -> Seq<Entry> {
        views_of(self.entries@)
    }
}

impl Catalog {
    /// The catalog invariant: ascending creation-time order, and every
    /// entry a well-formed snapshot directly under `root`.
    pub open spec fn wf(self, root: Seq<char>) -> bool {
        sorted(self@) && forall|i: int|
            0 <= i < self@.len() ==> entry_wf(#[trigger] self@[i], root)
    }
}

/// Builds the catalog a directory listing describes: each line that names
/// a snapshot becomes one entry, everything else is dropped, and the
/// entries are ordered ascending by creation time in-process.
pub fn catalog_from_listing(root: &str, listing: &str) -> (c: Catalog)
    ensures
        c.wf(root@),
        c@.to_multiset() == spec_raw_entries(root@, spec_lines(listing@)).to_multiset(),
{
    broadcast use vstd::seq_lib::group_to_multiset_ensures;

    let lines = split_lines(listing);
    let raw = raw_catalog(root, &lines);
    let out = sort_by_time(raw);
    proof {
        lemma_raw_entries_wf(root@, spec_lines(listing@));
        let rv = views_of(raw@);
        let ov = views_of(out@);
        assert forall|i: int| 0 <= i < ov.len() implies entry_wf(#[trigger] ov[i], root@) by {
            assert(ov.to_multiset().count(ov[i]) > 0);
            assert(rv.contains(ov[i]));
        };
    }
    Catalog { entries: out }
}

/// Reads each listing line as a snapshot name; the collected snapshots are
/// the parseable lines, in listing order.
pub fn raw_catalog(root: &str, lines: &Vec<String>) -> (r: Vec<Snapshot>)
    ensures
        views_of(r@) == spec_raw_entries(root@, lines@.map_values(|l: String| l@)),
{
    let ghost lviews = lines@.map_values(|l: String| l@);
    let mut r: Vec<Snapshot> = Vec::new();
    proof {
        assert(views_of(r@) =~= Seq::<Entry>::empty());
        assert(lviews.subrange(0, 0) =~= Seq::<Seq<char>>::empty());
    }
    let mut i: usize = 0;
    while i < lines.len()
        invariant
            i <= lines.len(),
            lviews == lines@.map_values(|l: String| l@),
            views_of(r@) == spec_raw_entries(root@, lviews.subrange(0, i as int)),
        decreases lines.len() - i,
    {
        let ghost prev = views_of(r@);
        match parse_name(lines[i].as_str()) {
            Some(t) => {
                proof {
                    lemma_name_determines_stamp(lviews[i as int], t);
                }
                let snap = snapshot_at(root, &t);
                r.push(snap);
                proof {
                    assert(views_of(r@) =~= prev + entry_of(root@, lviews[i as int]));
                }
            },
            None => {
                proof {
                    assert(prev + entry_of(root@, lviews[i as int]) =~= prev);
                }
            },
        }
        proof {
            assert(lviews.subrange(0, i + 1) =~= lviews.subrange(0, i as int).push(
                lviews[i as int],
            ));
            lemma_raw_entries_push(root@, lviews.subrange(0, i as int), lviews[i as int]);
        }
        i += 1;
    }
    proof {
        assert(lviews.subrange(0, lines@.len() as int) =~= lviews);
    }
    r
}

/// The catalog of a backup root that holds nothing yet: no entries at
/// all. Recovering from a missing root yields exactly this catalog,
/// nothing else.
pub fn empty_catalog() -> (c: Catalog)
    ensures
        c@.len() == 0,
{
    let c = Catalog { entries: Vec::new() };
    proof {
        assert(c@ =~= Seq::<Entry>::empty());
    }
    c
}

/// The catalog component: lists what is under the backup root.
pub struct SnapshotCatalog {
    pub root: String,
}

impl SnapshotCatalog {
    /// Obtains the current catalog. A failed listing is probed as the
    /// recoverable gap of a missing root: the root is created, and if
    /// that succeeds the gap is recovered locally with the empty catalog.
    /// If creating the root fails too, the root was not missing, so the
    /// listing failure itself was fatal and its diagnostic is the one
    /// surfaced. Whatever the runner answers, an `Ok` catalog satisfies
    /// the catalog invariant.
    pub fn list<R: CommandRunner>(&self, runner: &mut R) -> (r: Result<Catalog, BackupError>)
        ensures
            r matches Ok(c) ==> c.wf(self.root@),
            r matches Err(e) ==> e is CommandFailed,
    {
        let out = runner.run(&BackupCommand::ListDir { path: self.root.clone() });
        match interpret_output(out) {
            Ok(listing) => Ok(catalog_from_listing(self.root.as_str(), listing.as_str())),
            Err(listing_diagnostic) => {
                let made = runner.run(&BackupCommand::MakeDir { path: self.root.clone() });
                match interpret_output(made) {
                    Ok(_output) => Ok(empty_catalog()),
                    Err(_mkdir_diagnostic) => Err(
                        BackupError::CommandFailed { diagnostic: listing_diagnostic },
                    ),
                }
            },
        }
    }
}

/// In one directory, entries are distinct; distinct paths embed distinct
/// creation times, so a catalog's order is strict: no two entries ever tie.
pub proof fn lemma_catalog_strictly_ascending(c: Catalog, root: Seq<char>)
    requires
        c.wf(root),
        forall|i: int, j: int|
            #![trigger c@[i].path, c@[j].path]
            0 <= i < j < c@.len() ==> c@[i].path != c@[j].path,
    ensures
        forall|i: int, j: int|
            0 <= i < j < c@.len() ==> #[trigger] c@[i].stamp.key() < #[trigger] c@[j].stamp.key(),
{
    assert forall|i: int, j: int| 0 <= i < j < c@.len() implies #[trigger] c@[i].stamp.key()
        < #[trigger] c@[j].stamp.key() by {
        if c@[i].stamp.key() == c@[j].stamp.key() {
            lemma_key_injective(c@[i].stamp, c@[j].stamp);
        }
    };
}

} // verus!
