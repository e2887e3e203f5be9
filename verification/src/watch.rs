//! The set of watched paths.
//!
//! A path is the sequence of bytes that the system resolved it to. Two paths
//! are the same exactly when their bytes are: no prefix and no pattern counts.

use vstd::prelude::*;
use vstd::string::*;

verus! {

/// The bytes of each path of `v`, in order.
pub open spec fn path_views(v: Seq<Vec<u8>>) -> Seq<Seq<u8>> {
    Seq::new(v.len(), |i: int| v[i]@)
}

/// `s` without its repetitions: each path stands where it first stood.
pub open spec fn distinct(s: Seq<Seq<u8>>) -> Seq<Seq<u8>>
    decreases s.len(),
{
    if s.len() == 0 {
        Seq::empty()
    } else {
        let before = distinct(s.drop_last());
        if before.contains(s.last()) {
            before
        } else {
            before.push(s.last())
        }
    }
}

/// Whether two paths are the same, byte for byte.
pub fn same_path(a: &Vec<u8>, b: &Vec<u8>) -> (same: bool)
    ensures
        same == (a@ == b@),
{
    if a.len() != b.len() {
        return false;
    }
    let mut i: usize = 0;
    while i < a.len()
        invariant
            a.len() == b.len(),
            i <= a.len(),
            a@.take(i as int) == b@.take(i as int),
        decreases a.len() - i,
    {
        if a[i] != b[i] {
            return false;
        }
        assert(a@.take(i + 1) =~= a@.take(i as int).push(a@[i as int]));
        assert(b@.take(i + 1) =~= b@.take(i as int).push(b@[i as int]));
        i += 1;
    }
    assert(a@ =~= a@.take(a.len() as int));
    assert(b@ =~= b@.take(b.len() as int));
    true
}

/// Whether `path` is one of `paths`.
pub fn holds_path(paths: &Vec<Vec<u8>>, path: &Vec<u8>) -> (found: bool)
    ensures
        found == path_views(paths@).contains(path@),
{
    let mut i: usize = 0;
    while i < paths.len()
        invariant
            i <= paths.len(),
            forall|k: int| 0 <= k < i ==> path_views(paths@)[k] != path@,
        decreases paths.len() - i,
    {
        if same_path(&paths[i], path) {
            assert(path_views(paths@)[i as int] == path@);
            return true;
        }
        i += 1;
    }
    false
}

/// Why a set of watched paths could not be made.
#[derive(Debug, Clone, PartialEq, Eq)]
pub enum StartupError {
    /// The path given at `index` could not be resolved.
    Unresolved { index: usize },
    /// The system refused to watch the path that stands at `index` in the set.
    Refused { index: usize },
}

impl StartupError {
    /// The text shown for this error.
    pub open spec fn text(&self) -> Seq<char> {
        match self {
            StartupError::Unresolved { .. } => "Could not resolve a path to watch"@,
            StartupError::Refused { .. } => "Could not watch a path"@,
        }
    }

    /// Renders the error for a reader.
    pub fn message(&self) -> (m: String)
        ensures
            m@ == self.text(),
    {
        match self {
            StartupError::Unresolved { .. } => "Could not resolve a path to watch".to_owned(),
            StartupError::Refused { .. } => "Could not watch a path".to_owned(),
        }
    }
}

/// The paths to watch, fixed once made. Each stands once, in the order in
/// which it was first given.
#[derive(Debug, PartialEq, Eq)]
pub struct WatchSet {
    paths: Vec<Vec<u8>>,
}

impl View for WatchSet {
    type V = Seq<Seq<u8>>;

    closed spec fn view(&self) -> Seq<Seq<u8>> {
        path_views(self.paths@)
    }
}

/// The paths of `resolved` up to its first gap.
pub open spec fn resolved_paths(resolved: Seq<Option<Vec<u8>>>) -> Seq<Seq<u8>> {
    Seq::new(resolved.len(), |i: int| resolved[i]->Some_0@)
}

/// Whether `index` is the first place of `resolved` that holds no path.
pub open spec fn first_gap(resolved: Seq<Option<Vec<u8>>>, index: int) -> bool {
    &&& 0 <= index < resolved.len()
    &&& resolved[index] is None
    &&& forall|k: int| 0 <= k < index ==> resolved[k] is Some
}

impl WatchSet {
    /// Whether no path stands twice.
    pub open spec fn wf(&self) -> bool {
        self@.no_duplicates()
    }

    #[verifier::type_invariant]
    pub open spec fn inv(self) -> bool {
        self.wf()
    }

    /// The set of the given paths. A path given twice is kept once.
    pub fn new(paths: &Vec<Vec<u8>>) -> (set: WatchSet)
        ensures
            set.wf(),
            set@ == distinct(path_views(paths@)),
    {
        let mut kept: Vec<Vec<u8>> = Vec::new();
        let mut i: usize = 0;
        assert(path_views(paths@).take(0) =~= Seq::<Seq<u8>>::empty());
        assert(path_views(kept@) =~= Seq::<Seq<u8>>::empty());
        while i < paths.len()
            invariant
                i <= paths.len(),
                path_views(kept@) == distinct(path_views(paths@).take(i as int)),
                path_views(kept@).no_duplicates(),
            decreases paths.len() - i,
        {
            let ghost before = path_views(kept@);
            assert(path_views(paths@).take(i + 1).drop_last() =~= path_views(paths@).take(
                i as int,
            ));
            if !holds_path(&kept, &paths[i]) {
                let path: Vec<u8> = paths[i].clone();
                assert(path@ == paths[i as int]@);
                kept.push(path);
                assert(path_views(kept@) =~= before.push(path@));
            }
            i += 1;
        }
        assert(path_views(paths@).take(paths.len() as int) =~= path_views(paths@));
        WatchSet { paths: kept }
    }

    /// The set of the paths that a start-up resolved, if it resolved them
    /// all; else the place of the first that it could not resolve.
    pub fn from_resolved(resolved: &Vec<Option<Vec<u8>>>) -> (r: Result<WatchSet, StartupError>)
        ensures
            match r {
                Ok(set) => {
                    &&& forall|k: int| 0 <= k < resolved@.len() ==> resolved@[k] is Some
                    &&& set.wf()
                    &&& set@ == distinct(resolved_paths(resolved@))
                },
                Err(StartupError::Unresolved { index }) => first_gap(resolved@, index as int),
                Err(StartupError::Refused { .. }) => false,
            },
    {
        let mut paths: Vec<Vec<u8>> = Vec::new();
        let mut i: usize = 0;
        while i < resolved.len()
            invariant
                i <= resolved.len(),
                forall|k: int| 0 <= k < i ==> resolved@[k] is Some,
                path_views(paths@) == resolved_paths(resolved@).take(i as int),
            decreases resolved.len() - i,
        {
            match &resolved[i] {
                None => {
                    return Err(StartupError::Unresolved { index: i });
                },
                Some(path) => {
                    let ghost before = path_views(paths@);
                    let copy: Vec<u8> = path.clone();
                    assert(copy@ == resolved@[i as int]->Some_0@);
                    paths.push(copy);
                    assert(path_views(paths@) =~= before.push(copy@));
                    assert(before.push(copy@) =~= resolved_paths(resolved@).take(i + 1));
                },
            }
            i += 1;
        }
        assert(resolved_paths(resolved@).take(resolved.len() as int) =~= resolved_paths(
            resolved@,
        ));
        Ok(WatchSet::new(&paths))
    }

    /// Whether `path` is watched.
    pub fn contains(&self, path: &Vec<u8>) -> (found: bool)
        ensures
            found == self@.contains(path@),
    {
        holds_path(&self.paths, path)
    }

    /// How many paths are watched.
    pub fn len(&self) -> (n: usize)
        ensures
            n == self@.len(),
    {
        self.paths.len()
    }

    /// The watched path at `index`, if there is one.
    pub fn get(&self, index: usize) -> (r: Option<&Vec<u8>>)
        ensures
            r is Some <==> index < self@.len(),
            r is Some ==> r->Some_0@ == self@[index as int],
    {
        if index < self.paths.len() {
            Some(&self.paths[index])
        } else {
            None
        }
    }
}

/// A path stands in `distinct(s)` exactly when it stands in `s`.
pub proof fn lemma_distinct_keeps_members(s: Seq<Seq<u8>>, path: Seq<u8>)
    ensures
        distinct(s).contains(path) <==> s.contains(path),
    decreases s.len(),
{
    if s.len() > 0 {
        let init = s.drop_last();
        lemma_distinct_keeps_members(init, path);
        lemma_distinct_keeps_members(init, s.last());
        let before = distinct(init);
        if s.contains(path) {
            let k = choose|k: int| 0 <= k < s.len() && s[k] == path;
            if k < init.len() {
                assert(init[k] == path);
                let j = choose|j: int| 0 <= j < before.len() && before[j] == path;
                assert(distinct(s)[j] == path);
            } else if before.contains(path) {
            } else {
                assert(distinct(s)[before.len() as int] == path);
            }
        }
        if distinct(s).contains(path) {
            let j = choose|j: int| 0 <= j < distinct(s).len() && distinct(s)[j] == path;
            if j < before.len() {
                assert(before[j] == path);
                let k = choose|k: int| 0 <= k < init.len() && init[k] == path;
                assert(s[k] == path);
            } else {
                assert(s[s.len() - 1] == path);
            }
        }
    }
}

/// No path stands twice in `distinct(s)`.
pub proof fn lemma_distinct_has_no_duplicates(s: Seq<Seq<u8>>)
    ensures
        distinct(s).no_duplicates(),
    decreases s.len(),
{
    if s.len() > 0 {
        lemma_distinct_has_no_duplicates(s.drop_last());
    }
}

/// A path given once more changes nothing: the set made of `s` and then
/// `path` again is the set made of `s`.
pub proof fn lemma_repeated_path_is_kept_once(s: Seq<Seq<u8>>, path: Seq<u8>)
    requires
        s.contains(path),
    ensures
        distinct(s.push(path)) == distinct(s),
{
    lemma_distinct_keeps_members(s, path);
    assert(s.push(path).drop_last() =~= s);
}

/// Where no path is given twice, the set keeps them all as they stand.
pub proof fn lemma_distinct_of_distinct(s: Seq<Seq<u8>>)
    requires
        s.no_duplicates(),
    ensures
        distinct(s) == s,
    decreases s.len(),
{
    if s.len() > 0 {
        let init = s.drop_last();
        lemma_distinct_of_distinct(init);
        lemma_distinct_keeps_members(init, s.last());
        if init.contains(s.last()) {
            let k = choose|k: int| 0 <= k < init.len() && init[k] == s.last();
            assert(s[k] == s[s.len() - 1]);
        }
        assert(init.push(s.last()) =~= s);
    } else {
        assert(distinct(s) =~= s);
    }
}

} // verus!
