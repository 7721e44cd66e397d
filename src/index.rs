//! Decisions of one indexing pass: which walked files to extract, which to
//! skip as unchanged, and which catalog rows to delete afterwards.
use vstd::prelude::*;

verus! {

/// A catalog row as the pass sees it: a path and its recorded modification time.
#[derive(Debug, Clone)]
pub struct CachedMedia {
    /// Path of the file, the catalog's key.
    pub path: String,
    /// Modification time recorded for the file.
    pub mtime: i64,
}

/// What to do with one walked file.
#[derive(Debug, Clone, Copy, PartialEq, Eq, Structural)]
pub enum FileDecision {
    /// Already cataloged and unchanged: leave its row alone.
    Skip,
    /// New or changed: call the plugin's extraction on it.
    Extract,
}

/// Whether a file at `path`, modified at `mtime`, must be extracted, given the
/// still unconfirmed rows `pending`: unless a row for it records a time at or
/// after `mtime`.
pub open spec fn needs_extraction(pending: Set<(Seq<char>, i64)>, path: Seq<char>, mtime: i64) -> bool {
    !(exists|m: i64| #[trigger] pending.contains((path, m)) && m >= mtime)
}

/// Whether some row of `pending` is for `path`.
pub open spec fn has_path(pending: Set<(Seq<char>, i64)>, path: Seq<char>) -> bool {
    exists|m: i64| #[trigger] pending.contains((path, m))
}

/// Whether `path` is listed in `paths`.
pub open spec fn lists(paths: Seq<String>, path: Seq<char>) -> bool {
    exists|k: int| 0 <= k < paths.len() && #[trigger] paths[k]@ == path
}

/// `pending` once the rows of `path` are confirmed present.
pub open spec fn confirm(pending: Set<(Seq<char>, i64)>, path: Seq<char>) -> Set<(Seq<char>, i64)> {
    pending.filter(|e: (Seq<char>, i64)| e.0 != path)
}

/// The working set of one pass over a plugin's catalog table: the rows read
/// before the walk, each marked once the walk has met its path.
pub struct IndexPass {
    cached: Vec<CachedMedia>,
    confirmed: Vec<bool>,
}

impl IndexPass {
    /// Internal consistency: one mark per row.
    pub closed spec fn wf(&self) -> bool {
        self.confirmed@.len() == self.cached@.len()
    }

    /// The rows whose path the walk has not met yet.
    pub closed spec fn pending(&self) -> Set<(Seq<char>, i64)> {
        Set::new(
            |e: (Seq<char>, i64)|
                exists|i: int|
                    0 <= i < self.cached@.len() && !self.confirmed@[i] && e == (
                        #[trigger] self.cached@[i].path@,
                        self.cached@[i].mtime,
                    ),
        )
    }

    /// Starts a pass over the rows `cached`; none is confirmed yet.
    pub fn new(cached: Vec<CachedMedia>) -> (r: IndexPass)
        ensures
            r.wf(),
            r.pending() == Set::new(
                |e: (Seq<char>, i64)|
                    exists|i: int|
                        0 <= i < cached@.len() && e == (
                            #[trigger] cached@[i].path@,
                            cached@[i].mtime,
                        ),
            ),
    {
        let mut confirmed: Vec<bool> = Vec::new();
        let n = cached.len();
        while confirmed.len() < n
            invariant
                confirmed@.len() <= n,
                n == cached@.len(),
                forall|j: int| 0 <= j < confirmed@.len() ==> !#[trigger] confirmed@[j],
            decreases n - confirmed@.len(),
        {
            confirmed.push(false);
        }
        let r = IndexPass { cached, confirmed };
        assert(r.pending() =~= Set::new(
            |e: (Seq<char>, i64)|
                exists|i: int|
                    0 <= i < r.cached@.len() && e == (
                        #[trigger] r.cached@[i].path@,
                        r.cached@[i].mtime,
                    ),
        ));
        r
    }

    /// Decides on a walked file and confirms its rows present, whatever the
    /// decision, so that the final deletion keeps them.
    pub fn check_file(&mut self, path: &String, mtime: i64) -> (r: FileDecision)
        requires
            old(self).wf(),
        ensures
            final(self).wf(),
            (r == FileDecision::Extract) == needs_extraction(old(self).pending(), path@, mtime),
            final(self).pending() == confirm(old(self).pending(), path@),
    {
        let ghost before = self.confirmed@;
        let ghost old_pending = self.pending();
        let n = self.cached.len();
        let mut skip = false;
        let mut i: usize = 0;
        while i < n
            invariant
                n == self.cached@.len(),
                self.confirmed@.len() == n,
                before.len() == n,
                i <= n,
                old_pending == Set::new(
                    |e: (Seq<char>, i64)|
                        exists|k: int|
                            0 <= k < self.cached@.len() && !before[k] && e == (
                                #[trigger] self.cached@[k].path@,
                                self.cached@[k].mtime,
                            ),
                ),
                forall|j: int| i <= j < n ==> #[trigger] self.confirmed@[j] == before[j],
                forall|j: int|
                    0 <= j < i ==> #[trigger] self.confirmed@[j] == (before[j]
                        || self.cached@[j].path@ == path@),
                skip == exists|j: int|
                    0 <= j < i && !before[j] && #[trigger] self.cached@[j].path@ == path@
                        && self.cached@[j].mtime >= mtime,
            decreases n - i,
        {
            let ghost skip_before = skip;
            let matches = !self.confirmed[i] && self.cached[i].path == *path;
            if matches {
                if self.cached[i].mtime >= mtime {
                    skip = true;
                }
                self.confirmed.set(i, true);
            }
            proof {
                let ii = i as int;
                if skip_before {
                    let w = choose|j: int|
                        0 <= j < ii && !before[j] && #[trigger] self.cached@[j].path@ == path@
                            && self.cached@[j].mtime >= mtime;
                    assert(0 <= w < ii + 1 && !before[w] && self.cached@[w].path@ == path@
                        && self.cached@[w].mtime >= mtime);
                } else if skip {
                    assert(!before[ii] && self.cached@[ii].path@ == path@ && self.cached@[ii].mtime
                        >= mtime);
                } else {
                    assert forall|j: int|
                        0 <= j < ii + 1 && !before[j] && #[trigger] self.cached@[j].path@ == path@
                            implies self.cached@[j].mtime < mtime by {
                        if j < ii {
                        } else {
                            assert(j == ii);
                        }
                    }
                }
            }
            i = i + 1;
        }
        let ghost new_pending = self.pending();
        assert(new_pending =~= confirm(old_pending, path@)) by {
            assert forall|e: (Seq<char>, i64)| new_pending.contains(e) implies confirm(
                old_pending,
                path@,
            ).contains(e) by {
                let k = choose|k: int|
                    0 <= k < self.cached@.len() && !self.confirmed@[k] && e == (
                        #[trigger] self.cached@[k].path@,
                        self.cached@[k].mtime,
                    );
                assert(old_pending.contains(e)) by {
                    assert(!before[k]);
                }
            }
            assert forall|e: (Seq<char>, i64)| confirm(old_pending, path@).contains(
                e,
            ) implies new_pending.contains(e) by {
                assert(old_pending.contains(e));
                let k = choose|k: int|
                    0 <= k < self.cached@.len() && !before[k] && e == (
                        #[trigger] self.cached@[k].path@,
                        self.cached@[k].mtime,
                    );
                assert(!self.confirmed@[k]);
            }
        }
        if skip {
            proof {
                let j = choose|j: int|
                    0 <= j < n && !before[j] && #[trigger] self.cached@[j].path@ == path@
                        && self.cached@[j].mtime >= mtime;
                let m = self.cached@[j].mtime;
                assert(old_pending.contains((path@, m)));
            }
            FileDecision::Skip
        } else {
            proof {
                assert forall|m: i64| #[trigger] old_pending.contains((path@, m)) implies m
                    < mtime by {
                    let k = choose|k: int|
                        0 <= k < self.cached@.len() && !before[k] && (path@, m) == (
                            #[trigger] self.cached@[k].path@,
                            self.cached@[k].mtime,
                        );
                    assert(k < n);
                }
            }
            FileDecision::Extract
        }
    }

    /// The paths of the rows that the walk never met: the rows to delete.
    pub fn remaining(&self) -> (r: Vec<String>)
        requires
            self.wf(),
        ensures
            forall|p: Seq<char>| #[trigger] lists(r@, p) <==> has_path(self.pending(), p),
    {
        let mut out: Vec<String> = Vec::new();
        let n = self.cached.len();
        let mut i: usize = 0;
        while i < n
            invariant
                n == self.cached@.len(),
                self.confirmed@.len() == n,
                i <= n,
                forall|p: Seq<char>|
                    #[trigger] lists(out@, p) ==> exists|j: int|
                        0 <= j < i && !self.confirmed@[j] && #[trigger] self.cached@[j].path@ == p,
                forall|j: int|
                    0 <= j < i && !self.confirmed@[j] ==> lists(
                        out@,
                        #[trigger] self.cached@[j].path@,
                    ),
            decreases n - i,
        {
            let ghost out_before = out@;
            let ghost ii = i as int;
            if !self.confirmed[i] {
                out.push(self.cached[i].path.clone());
                proof {
                    lemma_lists_push(out_before, out@.last(), out@);
                    assert(out@ == out_before.push(out@.last()));
                }
            }
            proof {
                assert forall|p: Seq<char>| #[trigger] lists(out@, p) implies exists|j: int|
                    0 <= j < ii + 1 && !self.confirmed@[j] && #[trigger] self.cached@[j].path@
                        == p by {
                    if lists(out_before, p) {
                        let j = choose|j: int|
                            0 <= j < ii && !self.confirmed@[j] && #[trigger] self.cached@[j].path@
                                == p;
                        assert(0 <= j < ii + 1);
                    } else {
                        assert(self.cached@[ii].path@ == p);
                    }
                }
                assert forall|j: int| 0 <= j < ii + 1 && !self.confirmed@[j] implies lists(
                    out@,
                    #[trigger] self.cached@[j].path@,
                ) by {
                    if j < ii {
                        assert(lists(out_before, self.cached@[j].path@));
                    }
                }
            }
            i = i + 1;
        }
        proof {
            assert forall|p: Seq<char>| #[trigger] lists(out@, p) implies has_path(
                self.pending(),
                p,
            ) by {
                let j = choose|j: int|
                    0 <= j < n && !self.confirmed@[j] && #[trigger] self.cached@[j].path@ == p;
                assert(self.pending().contains((p, self.cached@[j].mtime)));
            }
            assert forall|p: Seq<char>| has_path(self.pending(), p) implies #[trigger] lists(
                out@,
                p,
            ) by {
                let m = choose|m: i64| #[trigger] self.pending().contains((p, m));
                let j = choose|j: int|
                    0 <= j < self.cached@.len() && !self.confirmed@[j] && (p, m) == (
                        #[trigger] self.cached@[j].path@,
                        self.cached@[j].mtime,
                    );
                assert(lists(out@, self.cached@[j].path@));
            }
        }
        out
    }
}

proof fn lemma_lists_push(s: Seq<String>, x: String, t: Seq<String>)
    requires
        t == s.push(x),
    ensures
        forall|p: Seq<char>| #[trigger] lists(t, p) <==> (lists(s, p) || x@ == p),
{
    assert forall|p: Seq<char>| #[trigger] lists(t, p) implies (lists(s, p) || x@ == p) by {
        let k = choose|k: int| 0 <= k < t.len() && #[trigger] t[k]@ == p;
        if k < s.len() {
            assert(t[k] == s[k]);
        }
    }
    assert forall|p: Seq<char>| lists(s, p) || x@ == p implies #[trigger] lists(t, p) by {
        if lists(s, p) {
            let k = choose|k: int| 0 <= k < s.len() && #[trigger] s[k]@ == p;
            assert(t[k] == s[k]);
        } else {
            assert(t[s.len() as int] == x);
        }
    }
}

/// The media type registered for the extension of `file_name`, if any.
pub uninterp spec fn mime_of(file_name: Seq<char>) -> Option<Seq<char>>;

/// Relies on `mime_db::lookup`: the media type registered for the text after
/// the name's last `.`, which depends on the name alone; none for an empty name.
#[verifier::external_body]
fn lookup_mime(file_name: &str) -> (r: Option<&'static str>)
    ensures
        match r {
            Some(m) => mime_of(file_name@) == Some(m@),
            None => mime_of(file_name@) is None,
        },
        file_name@.len() == 0 ==> r is None,
{
    mime_db::lookup(file_name)
}

/// Whether the format `mime`, if known, is among the `supported` ones.
pub fn is_supported_format(mime: Option<&str>, supported: &Vec<String>) -> (r: bool)
    ensures
        r == (mime matches Some(m) && lists(supported@, m@)),
{
    match mime {
        None => false,
        Some(m) => {
            let n = supported.len();
            let mut i: usize = 0;
            while i < n
                invariant
                    n == supported@.len(),
                    i <= n,
                    mime == Some(m),
                    forall|k: int| 0 <= k < i ==> #[trigger] supported@[k]@ != m@,
                decreases n - i,
            {
                if crate::media::str_equal(supported[i].as_str(), m) {
                    assert(supported@[i as int]@ == m@);
                    return true;
                }
                i = i + 1;
            }
            false
        },
    }
}

/// Whether a walked file named `file_name` is a candidate for extraction: its
/// format, looked up from its name, is among the `supported` ones.
pub fn is_candidate(file_name: &str, supported: &Vec<String>) -> (r: bool)
    ensures
        r == (mime_of(file_name@) matches Some(m) && lists(supported@, m)),
{
    let mime = lookup_mime(file_name);
    is_supported_format(mime, supported)
}

/// The rows of a catalog table as `(path, mtime)` pairs.
pub open spec fn rows_of<D>(table: Map<Seq<char>, (i64, D)>) -> Set<(Seq<char>, i64)> {
    Set::new(|e: (Seq<char>, i64)| table.contains_key(e.0) && table[e.0].0 == e.1)
}

/// Whether the pass that starts from `table` extracts the walked file `p`.
pub open spec fn extracts<D>(
    table: Map<Seq<char>, (i64, D)>,
    files: Map<Seq<char>, i64>,
    extracted: Map<Seq<char>, D>,
    p: Seq<char>,
) -> bool {
    needs_extraction(rows_of(table), p, files[p]) && extracted.contains_key(p)
}

/// A catalog table after one pass: `files` maps each walked, supported path
/// to its modification time, and `extracted` what the plugin's extraction
/// returns for the paths on which it succeeds. A walked file keeps its row
/// when unchanged, gets a new row when extracted, and keeps any stale row when
/// extraction fails; rows of paths that were not walked are deleted.
pub open spec fn pass_outcome<D>(
    table: Map<Seq<char>, (i64, D)>,
    files: Map<Seq<char>, i64>,
    extracted: Map<Seq<char>, D>,
) -> Map<Seq<char>, (i64, D)> {
    Map::new(
        |p: Seq<char>|
            files.contains_key(p) && (extracts(table, files, extracted, p) || table.contains_key(
                p,
            )),
        |p: Seq<char>|
            if extracts(table, files, extracted, p) {
                (files[p], extracted[p])
            } else {
                table[p]
            },
    )
}

proof fn lemma_needs_rows<D>(table: Map<Seq<char>, (i64, D)>, p: Seq<char>, f: i64)
    ensures
        needs_extraction(rows_of(table), p, f) == !(table.contains_key(p) && table[p].0 >= f),
{
    if table.contains_key(p) && table[p].0 >= f {
        assert(rows_of(table).contains((p, table[p].0)));
    }
}

/// A second pass over an unchanged tree leaves the table as the first left
/// it; and when every extraction of the first pass succeeded, the second pass
/// extracts nothing.
pub proof fn lemma_pass_idempotent<D>(
    table: Map<Seq<char>, (i64, D)>,
    files: Map<Seq<char>, i64>,
    extracted: Map<Seq<char>, D>,
)
    ensures
        pass_outcome(pass_outcome(table, files, extracted), files, extracted) == pass_outcome(
            table,
            files,
            extracted,
        ),
        (forall|p: Seq<char>|
            files.contains_key(p) && #[trigger] needs_extraction(rows_of(table), p, files[p])
                ==> extracted.contains_key(p)) ==> forall|p: Seq<char>|
            files.contains_key(p) ==> !#[trigger] needs_extraction(
                rows_of(pass_outcome(table, files, extracted)),
                p,
                files[p],
            ),
{
    let t1 = pass_outcome(table, files, extracted);
    let t2 = pass_outcome(t1, files, extracted);
    assert forall|p: Seq<char>| #[trigger] t2.contains_key(p) == t1.contains_key(p) && (
    t1.contains_key(p) ==> t2[p] == t1[p]) by {
        if files.contains_key(p) {
            lemma_needs_rows(table, p, files[p]);
            lemma_needs_rows(t1, p, files[p]);
            if extracts(table, files, extracted, p) {
                assert(t1.contains_key(p));
                assert(t1[p] == (files[p], extracted[p]));
                assert(!extracts(t1, files, extracted, p));
            } else {
                assert(t1.contains_key(p) == table.contains_key(p));
                if t1.contains_key(p) {
                    assert(t1[p] == table[p]);
                }
                assert(!extracts(t1, files, extracted, p));
            }
        }
    }
    assert(t2 =~= t1);
    if forall|p: Seq<char>|
        files.contains_key(p) && #[trigger] needs_extraction(rows_of(table), p, files[p])
            ==> extracted.contains_key(p) {
        assert forall|p: Seq<char>| files.contains_key(p) implies !#[trigger] needs_extraction(
            rows_of(t1),
            p,
            files[p],
        ) by {
            lemma_needs_rows(table, p, files[p]);
            lemma_needs_rows(t1, p, files[p]);
        }
    }
}

/// `pending` once the rows of every path of `paths` are confirmed, in order.
pub open spec fn confirm_all(pending: Set<(Seq<char>, i64)>, paths: Seq<Seq<char>>) -> Set<
    (Seq<char>, i64),
>
    decreases paths.len(),
{
    if paths.len() == 0 {
        pending
    } else {
        confirm(confirm_all(pending, paths.drop_last()), paths.last())
    }
}

/// After a walk, the rows left to delete are exactly those whose path the
/// walk never met, whatever the order of the walk.
pub proof fn lemma_walk_leaves_unmet(pending: Set<(Seq<char>, i64)>, paths: Seq<Seq<char>>)
    ensures
        confirm_all(pending, paths) == pending.filter(
            |e: (Seq<char>, i64)| !paths.contains(e.0),
        ),
    decreases paths.len(),
{
    if paths.len() == 0 {
        assert(confirm_all(pending, paths) =~= pending.filter(
            |e: (Seq<char>, i64)| !paths.contains(e.0),
        ));
    } else {
        let init = paths.drop_last();
        lemma_walk_leaves_unmet(pending, init);
        assert forall|e: (Seq<char>, i64)| #[trigger] confirm_all(pending, paths).contains(e) == (
        pending.contains(e) && !paths.contains(e.0)) by {
            if paths.contains(e.0) {
                let k = choose|k: int| 0 <= k < paths.len() && paths[k] == e.0;
                if k < paths.len() - 1 {
                    assert(init[k] == e.0);
                }
            }
            if init.contains(e.0) {
                let k = choose|k: int| 0 <= k < init.len() && init[k] == e.0;
                assert(paths[k] == e.0);
            }
            if e.0 == paths.last() {
                assert(paths[paths.len() - 1] == e.0);
            }
        }
        assert(confirm_all(pending, paths) =~= pending.filter(
            |e: (Seq<char>, i64)| !paths.contains(e.0),
        ));
    }
}

/// Decisions on two different walked files do not depend on the order in
/// which they are taken, nor does the working set left behind.
pub proof fn lemma_check_order_independent(
    pending: Set<(Seq<char>, i64)>,
    a: Seq<char>,
    ma: i64,
    b: Seq<char>,
    mb: i64,
)
    requires
        a != b,
    ensures
        needs_extraction(confirm(pending, b), a, ma) == needs_extraction(pending, a, ma),
        needs_extraction(confirm(pending, a), b, mb) == needs_extraction(pending, b, mb),
        confirm(confirm(pending, a), b) == confirm(confirm(pending, b), a),
{
    assert(confirm(confirm(pending, a), b) =~= confirm(confirm(pending, b), a));
    if !needs_extraction(pending, a, ma) {
        let m = choose|m: i64| #[trigger] pending.contains((a, m)) && m >= ma;
        assert(confirm(pending, b).contains((a, m)));
    }
    if !needs_extraction(pending, b, mb) {
        let m = choose|m: i64| #[trigger] pending.contains((b, m)) && m >= mb;
        assert(confirm(pending, a).contains((b, m)));
    }
}

} // verus!
