//! Locating the directory that holds a song's custom instrument sounds.
//!
//! The caller walks a directory tree and reports each entry to an
//! [`InstrumentLocator`]. The locator keeps, for every directory in which at
//! least one of the wanted sound files was seen, the set of wanted names seen
//! there. It answers at once when one directory holds all of them; when the
//! walk ends without that, the directory that holds the most is chosen.

use vstd::prelude::*;

use crate::paths::{opt_view, path_file_name, path_file_name_of, plain_component, portable_path};

verus! {

/// How deep below the starting directory the walk looks.
pub const MAX_LOCATING_DEPTH: usize = 5;

/// Why an entry of the walk cannot be judged.
#[derive(Clone, Copy, Debug, PartialEq, Eq, Structural)]
pub enum LocateError {
    /// The entry's file name is not valid Unicode.
    InvalidFileName,
}

/// The number of `true` flags in `flags`.
pub open spec fn count_true(flags: Seq<bool>) -> nat
    decreases flags.len(),
{
    if flags.len() == 0 {
        0
    } else {
        count_true(flags.drop_last()) + if flags.last() {
            1nat
        } else {
            0nat
        }
    }
}

/// The names whose flag is set.
pub open spec fn flagged_names(names: Seq<Seq<char>>, flags: Seq<bool>) -> Set<Seq<char>> {
    Set::new(
        |x: Seq<char>|
            exists|k: int| 0 <= k < flags.len() && k < names.len() && flags[k] && names[k] == x,
    )
}

/// The names among `bases` that are present.
pub open spec fn present_names(bases: Seq<Option<String>>) -> Set<Seq<char>> {
    Set::new(
        |x: Seq<char>|
            exists|i: int| #![trigger bases[i]] 0 <= i < bases.len() && (bases[i] matches Some(s) && s@ == x),
    )
}

/// A single path component: not empty, and free of `/`.
pub open spec fn plain_name(n: Seq<char>) -> bool {
    n.len() > 0 && !n.contains('/')
}

pub open spec fn plain_name_or_none(o: Option<String>) -> bool {
    o matches Some(n) ==> plain_name(n@)
}

/// The contents of each string.
pub open spec fn string_views(v: Seq<String>) -> Seq<Seq<char>> {
    v.map_values(|s: String| s@)
}

/// The file names of the given instrument sound files, each once.
pub open spec fn wanted_names(files: Seq<String>) -> Set<Seq<char>> {
    Set::new(
        |x: Seq<char>|
            exists|i: int|
                #![trigger files[i]]
                0 <= i < files.len() && path_file_name_of(files[i]@) == Some(x),
    )
}

/// What an instrument file is named once it is looked for in a located
/// directory: its file name where it has one, else as it was.
pub open spec fn base_name_or_self(file: Seq<char>) -> Seq<char> {
    match path_file_name_of(file) {
        Some(b) => b,
        None => file,
    }
}

pub open spec fn result_view(r: Result<Option<String>, LocateError>) -> Result<
    Option<Seq<char>>,
    LocateError,
> {
    match r {
        Ok(o) => Ok(opt_view(o)),
        Err(e) => Err(e),
    }
}

/// What a locator knows: the names of the wanted sound files, and for each
/// directory in which some of them were seen, which ones.
pub struct LocatorView {
    pub names: Set<Seq<char>>,
    pub found: Map<Seq<char>, Set<Seq<char>>>,
}

impl LocatorView {
    /// The wanted names seen so far in `dir` (none for a directory not yet met).
    pub open spec fn found_in(self, dir: Seq<char>) -> Set<Seq<char>> {
        if self.found.contains_key(dir) {
            self.found[dir]
        } else {
            Set::empty()
        }
    }
}

/// What one entry of the walk does to what the locator knows, and what the
/// locator answers: `Ok(Some(dir))` when the entry completes `dir`,
/// `Ok(None)` to go on, `Err` for a file whose name cannot be read.
/// Directories and files of other names change nothing.
pub open spec fn observe_spec(
    v: LocatorView,
    is_file: bool,
    name: Option<Seq<char>>,
    parent: Seq<char>,
) -> (LocatorView, Result<Option<Seq<char>>, LocateError>) {
    if !is_file {
        (v, Ok(None))
    } else {
        match name {
            None => (v, Err(LocateError::InvalidFileName)),
            Some(x) => if !v.names.contains(x) {
                (v, Ok(None))
            } else {
                let before = v.found_in(parent);
                let after = before.insert(x);
                let next = LocatorView { names: v.names, found: v.found.insert(parent, after) };
                (next, if !before.contains(x) && after == v.names {
                    Ok(Some(parent))
                } else {
                    Ok(None)
                })
            },
        }
    }
}

/// Tracks, over a walk of a directory tree, which of the wanted instrument
/// sound files each directory holds.
pub struct InstrumentLocator {
    names: Vec<String>,
    dirs: Vec<String>,
    seen: Vec<Vec<bool>>,
    found: Vec<usize>,
}

impl InstrumentLocator {
    pub closed spec fn names_view(&self) -> Seq<Seq<char>> {
        string_views(self.names@)
    }

    pub closed spec fn dirs_view(&self) -> Seq<Seq<char>> {
        string_views(self.dirs@)
    }

    /// The locator's own bookkeeping is consistent.
    pub closed spec fn wf(&self) -> bool {
        &&& self.names_view().no_duplicates()
        &&& self.dirs_view().no_duplicates()
        &&& self.seen@.len() == self.dirs@.len()
        &&& self.found@.len() == self.dirs@.len()
        &&& forall|i: int|
            #![trigger self.seen@[i]]
            0 <= i < self.dirs@.len() ==> {
                &&& self.seen@[i]@.len() == self.names@.len()
                &&& self.found@[i] == count_true(self.seen@[i]@)
                &&& count_true(self.seen@[i]@) >= 1
            }
    }
}

impl View for InstrumentLocator {
    type V = LocatorView;

    closed spec fn view(&self) -> LocatorView {
        LocatorView {
            names: self.names_view().to_set(),
            found: Map::new(
                |d: Seq<char>| self.dirs_view().contains(d),
                |d: Seq<char>|
                    flagged_names(self.names_view(), self.seen@[self.dirs_view().index_of(d)]@),
            ),
        }
    }
}

proof fn lemma_count_true_bound(flags: Seq<bool>)
    ensures
        count_true(flags) <= flags.len(),
    decreases flags.len(),
{
    if flags.len() > 0 {
        lemma_count_true_bound(flags.drop_last());
    }
}

proof fn lemma_count_true_all_false(flags: Seq<bool>)
    requires
        forall|i: int| 0 <= i < flags.len() ==> !flags[i],
    ensures
        count_true(flags) == 0,
    decreases flags.len(),
{
    if flags.len() > 0 {
        lemma_count_true_all_false(flags.drop_last());
    }
}

proof fn lemma_count_true_set(flags: Seq<bool>, k: int)
    requires
        0 <= k < flags.len(),
        !flags[k],
    ensures
        count_true(flags.update(k, true)) == count_true(flags) + 1,
    decreases flags.len(),
{
    let up = flags.update(k, true);
    if k == flags.len() - 1 {
        assert(up.drop_last() =~= flags.drop_last());
    } else {
        assert(up.drop_last() =~= flags.drop_last().update(k, true));
        lemma_count_true_set(flags.drop_last(), k);
    }
}

proof fn lemma_flagged_names_len(names: Seq<Seq<char>>, flags: Seq<bool>)
    requires
        names.no_duplicates(),
        flags.len() == names.len(),
    ensures
        flagged_names(names, flags).finite(),
        flagged_names(names, flags).len() == count_true(flags),
    decreases flags.len(),
{
    if flags.len() == 0 {
        assert(flagged_names(names, flags) =~= Set::empty());
    } else {
        let n = flags.len() - 1;
        let names0 = names.drop_last();
        let flags0 = flags.drop_last();
        lemma_flagged_names_len(names0, flags0);
        let rest = flagged_names(names0, flags0);
        assert(!rest.contains(names[n])) by {
            if rest.contains(names[n]) {
                let k = choose|k: int|
                    0 <= k < flags0.len() && k < names0.len() && flags0[k] && names0[k] == names[n];
                assert(names[k] == names[n]);
            }
        }
        if flags[n] {
            assert(flagged_names(names, flags) =~= rest.insert(names[n])) by {
                assert forall|x: Seq<char>| #[trigger]
                    flagged_names(names, flags).contains(x) implies rest.insert(names[n]).contains(
                    x,
                ) by {
                    let k = choose|k: int|
                        0 <= k < flags.len() && k < names.len() && flags[k] && names[k] == x;
                    if k < n {
                        assert(flags0[k] && names0[k] == x);
                    }
                }
                assert forall|x: Seq<char>| #[trigger]
                    rest.insert(names[n]).contains(x) implies flagged_names(
                    names,
                    flags,
                ).contains(x) by {
                    if x != names[n] {
                        let k = choose|k: int|
                            0 <= k < flags0.len() && k < names0.len() && flags0[k] && names0[k]
                                == x;
                        assert(flags[k] && names[k] == x);
                    }
                }
            }
        } else {
            assert(flagged_names(names, flags) =~= rest) by {
                assert forall|x: Seq<char>| #[trigger]
                    flagged_names(names, flags).contains(x) implies rest.contains(x) by {
                    let k = choose|k: int|
                        0 <= k < flags.len() && k < names.len() && flags[k] && names[k] == x;
                    assert(k < n);
                    assert(flags0[k] && names0[k] == x);
                }
                assert forall|x: Seq<char>| #[trigger]
                    rest.contains(x) implies flagged_names(names, flags).contains(x) by {
                    let k = choose|k: int|
                        0 <= k < flags0.len() && k < names0.len() && flags0[k] && names0[k] == x;
                    assert(flags[k] && names[k] == x);
                }
            }
        }
    }
}

proof fn lemma_flagged_names_subset(names: Seq<Seq<char>>, flags: Seq<bool>)
    ensures
        flagged_names(names, flags).subset_of(names.to_set()),
{
    assert forall|x: Seq<char>| #[trigger]
        flagged_names(names, flags).contains(x) implies names.to_set().contains(x) by {
        let k = choose|k: int|
            0 <= k < flags.len() && k < names.len() && flags[k] && names[k] == x;
        assert(names.contains(x));
    }
}

proof fn lemma_flagged_names_set(names: Seq<Seq<char>>, flags: Seq<bool>, k: int)
    requires
        0 <= k < flags.len(),
        flags.len() == names.len(),
    ensures
        flagged_names(names, flags.update(k, true)) =~= flagged_names(names, flags).insert(
            names[k],
        ),
{
    let up = flags.update(k, true);
    assert forall|x: Seq<char>| #[trigger]
        flagged_names(names, up).contains(x) implies flagged_names(names, flags).insert(
        names[k],
    ).contains(x) by {
        let j = choose|j: int| 0 <= j < up.len() && j < names.len() && up[j] && names[j] == x;
        if j != k {
            assert(flags[j] && names[j] == x);
        }
    }
    assert forall|x: Seq<char>| #[trigger]
        flagged_names(names, flags).insert(names[k]).contains(x) implies flagged_names(
        names,
        up,
    ).contains(x) by {
        if x == names[k] {
            assert(up[k] && names[k] == x);
        } else {
            let j = choose|j: int|
                0 <= j < flags.len() && j < names.len() && flags[j] && names[j] == x;
            assert(up[j] && names[j] == x);
        }
    }
}

/// With all names flagged exactly when the count reaches their number, the
/// flagged names are all of them.
proof fn lemma_flagged_names_complete(names: Seq<Seq<char>>, flags: Seq<bool>)
    requires
        names.no_duplicates(),
        flags.len() == names.len(),
    ensures
        (count_true(flags) == names.len()) == (flagged_names(names, flags) == names.to_set()),
{
    lemma_flagged_names_len(names, flags);
    lemma_flagged_names_subset(names, flags);
    names.unique_seq_to_set();
    vstd::seq_lib::seq_to_set_is_finite(names);
    if count_true(flags) == names.len() {
        vstd::set_lib::lemma_subset_equality(flagged_names(names, flags), names.to_set());
    }
}

proof fn lemma_index_of_distinct(s: Seq<Seq<char>>, i: int)
    requires
        s.no_duplicates(),
        0 <= i < s.len(),
    ensures
        s.contains(s[i]),
        s.index_of(s[i]) == i,
{
    assert(s.contains(s[i]));
    let j = s.index_of(s[i]);
    assert(0 <= j < s.len() && s[j] == s[i]);
}

proof fn lemma_present_names_step(bases: Seq<Option<String>>, i: int)
    requires
        0 <= i < bases.len(),
    ensures
        present_names(bases.take(i + 1)) == match bases[i] {
            Some(s) => present_names(bases.take(i)).insert(s@),
            None => present_names(bases.take(i)),
        },
{
    let a = bases.take(i + 1);
    let b = bases.take(i);
    let target = match bases[i] {
        Some(s) => present_names(b).insert(s@),
        None => present_names(b),
    };
    assert forall|x: Seq<char>| #[trigger] present_names(a).contains(x) implies target.contains(x) by {
        let j = choose|j: int| #![trigger a[j]] 0 <= j < a.len() && (a[j] matches Some(s) && s@ == x);
        if j < i {
            assert(b[j] == a[j]);
        }
    }
    assert forall|x: Seq<char>| #[trigger] target.contains(x) implies present_names(a).contains(x) by {
        if present_names(b).contains(x) {
            let j = choose|j: int| #![trigger b[j]] 0 <= j < b.len() && (b[j] matches Some(s) && s@ == x);
            assert(a[j] == b[j]);
        } else {
            assert(a[i] == bases[i]);
        }
    }
    assert(present_names(a) =~= target);
}

/// A vector of `n` unset flags.
fn unset_flags(n: usize) -> (res: Vec<bool>)
    ensures
        res@.len() == n,
        forall|i: int| 0 <= i < n ==> !res@[i],
{
    let mut res: Vec<bool> = Vec::new();
    while res.len() < n
        invariant
            res@.len() <= n,
            forall|i: int| 0 <= i < res@.len() ==> !res@[i],
        decreases n - res@.len(),
    {
        res.push(false);
    }
    res
}

/// The position of `needle` among `items`, compared by content.
fn position_of(items: &Vec<String>, needle: &String) -> (res: Option<usize>)
    ensures
        res matches Some(k) ==> k < items@.len() && items@[k as int]@ == needle@,
        res is None ==> forall|k: int| 0 <= k < items@.len() ==> items@[k]@ != needle@,
{
    let mut k: usize = 0;
    while k < items.len()
        invariant
            k <= items@.len(),
            forall|j: int| 0 <= j < k ==> items@[j]@ != needle@,
        decreases items@.len() - k,
    {
        if items[k] == *needle {
            return Some(k);
        }
        k = k + 1;
    }
    None
}

/// The file names of the given instrument sound files (`None` for a path
/// that has no file name). A file given by a bare name keeps that name.
pub fn instrument_base_names(files: &Vec<String>) -> (res: Vec<Option<String>>)
    ensures
        res@.len() == files@.len(),
        forall|i: int|
            0 <= i < res@.len() ==> opt_view(#[trigger] res@[i]) == path_file_name_of(files@[i]@),
        forall|i: int|
            0 <= i < res@.len() && portable_path(files@[i]@) ==> plain_name_or_none(
                #[trigger] res@[i],
            ),
        forall|i: int|
            0 <= i < res@.len() && plain_component(files@[i]@) ==> (#[trigger] res@[i]) is Some
                && res@[i]->0@ == files@[i]@,
{
    let mut res: Vec<Option<String>> = Vec::new();
    let mut i: usize = 0;
    while i < files.len()
        invariant
            i <= files@.len(),
            res@.len() == i,
            forall|j: int|
                0 <= j < res@.len() ==> opt_view(#[trigger] res@[j]) == path_file_name_of(
                    files@[j]@,
                ),
            forall|j: int|
                0 <= j < res@.len() && portable_path(files@[j]@) ==> plain_name_or_none(
                    #[trigger] res@[j],
                ),
            forall|j: int|
                0 <= j < res@.len() && plain_component(files@[j]@) ==> (#[trigger] res@[j]) is Some
                    && res@[j]->0@ == files@[j]@,
        decreases files@.len() - i,
    {
        res.push(path_file_name(files[i].as_str()));
        i = i + 1;
    }
    res
}

impl InstrumentLocator {
    /// A locator that looks for the names present among `bases`, each once,
    /// and has seen nothing yet.
    pub fn from_names(bases: &Vec<Option<String>>) -> (res: InstrumentLocator)
        ensures
            res.wf(),
            res@.names == present_names(bases@),
            res@.names.finite(),
            res@.names.len() <= bases@.len(),
            res@.found.is_empty(),
    {
        let mut names: Vec<String> = Vec::new();
        let mut i: usize = 0;
        assert(string_views(names@).to_set() =~= present_names(bases@.take(0)));
        while i < bases.len()
            invariant
                i <= bases@.len(),
                string_views(names@).no_duplicates(),
                string_views(names@).to_set() == present_names(bases@.take(i as int)),
                names@.len() <= i,
            decreases bases@.len() - i,
        {
            let ghost before = string_views(names@);
            proof {
                lemma_present_names_step(bases@, i as int);
            }
            match &bases[i] {
                Some(name) => {
                    if position_of(&names, name).is_none() {
                        names.push(name.clone());
                        let ghost after = string_views(names@);
                        assert(after =~= before.push(name@));
                        assert(after.to_set() =~= before.to_set().insert(name@)) by {
                            assert forall|x: Seq<char>| #[trigger]
                                after.to_set().contains(x) implies before.to_set().insert(
                                name@,
                            ).contains(x) by {
                                let k = choose|k: int| 0 <= k < after.len() && after[k] == x;
                                if k < before.len() {
                                    assert(before.contains(x));
                                }
                            }
                            assert forall|x: Seq<char>| #[trigger]
                                before.to_set().insert(name@).contains(x) implies after.to_set().contains(
                                x,
                            ) by {
                                if x == name@ {
                                    assert(after[before.len() as int] == x);
                                } else {
                                    let k = choose|k: int| 0 <= k < before.len() && before[k] == x;
                                    assert(after[k] == x);
                                }
                            }
                        }
                    } else {
                        assert(before.to_set().insert(name@) =~= before.to_set()) by {
                            let k = choose|k: int| 0 <= k < names@.len() && names@[k]@ == name@;
                            assert(before[k] == name@);
                        }
                    }
                },
                None => {},
            }
            i = i + 1;
        }
        let res = InstrumentLocator {
            names,
            dirs: Vec::new(),
            seen: Vec::new(),
            found: Vec::new(),
        };
        assert(bases@.take(bases@.len() as int) =~= bases@);
        assert(res@.found =~= Map::empty());
        proof {
            string_views(res.names@).unique_seq_to_set();
            vstd::seq_lib::seq_to_set_is_finite(string_views(res.names@));
        }
        res
    }

    /// A locator that looks for the file names of the given instrument sound
    /// files, each once, and has seen nothing yet. A file given by a bare
    /// name is looked for under that name.
    pub fn new(instrument_files: &Vec<String>) -> (res: InstrumentLocator)
        ensures
            res.wf(),
            res@.found.is_empty(),
            res@.names == wanted_names(instrument_files@),
            forall|i: int|
                0 <= i < instrument_files@.len() && plain_component(instrument_files@[i]@)
                    ==> res@.names.contains(#[trigger] instrument_files@[i]@),
            res@.names.finite(),
            res@.names.len() <= instrument_files@.len(),
    {
        let bases = instrument_base_names(instrument_files);
        let res = InstrumentLocator::from_names(&bases);
        assert forall|x: Seq<char>| #[trigger] present_names(bases@).contains(x)
            == wanted_names(instrument_files@).contains(x) by {
            if present_names(bases@).contains(x) {
                let i = choose|i: int|
                    #![trigger bases@[i]]
                    0 <= i < bases@.len() && (bases@[i] matches Some(s) && s@ == x);
                assert(opt_view(bases@[i]) == path_file_name_of(instrument_files@[i]@));
            }
            if wanted_names(instrument_files@).contains(x) {
                let i = choose|i: int|
                    #![trigger instrument_files@[i]]
                    0 <= i < instrument_files@.len() && path_file_name_of(instrument_files@[i]@)
                        == Some(x);
                assert(opt_view(bases@[i]) == path_file_name_of(instrument_files@[i]@));
            }
        }
        assert(res@.names =~= wanted_names(instrument_files@));
        assert forall|i: int|
            0 <= i < instrument_files@.len() && plain_component(instrument_files@[i]@)
                implies res@.names.contains(#[trigger] instrument_files@[i]@) by {
            assert(bases@[i] is Some && bases@[i]->0@ == instrument_files@[i]@);
            assert(present_names(bases@).contains(instrument_files@[i]@));
        }
        res
    }

    /// Reports one entry of the walk: whether it is a file, its file name
    /// (`None` where the name is not valid Unicode) and the directory that
    /// holds it. Answers with the directory once it holds every wanted name.
    pub fn observe(&mut self, is_file: bool, name: Option<String>, parent: String) -> (res: Result<
        Option<String>,
        LocateError,
    >)
        requires
            old(self).wf(),
        ensures
            final(self).wf(),
            (final(self)@, result_view(res)) == observe_spec(
                old(self)@,
                is_file,
                opt_view(name),
                parent@,
            ),
    {
        if !is_file {
            return Ok(None);
        }
        let name = match name {
            Some(n) => n,
            None => {
                return Err(LocateError::InvalidFileName);
            },
        };
        let k = match position_of(&self.names, &name) {
            Some(k) => k,
            None => {
                assert(!old(self)@.names.contains(name@)) by {
                    if old(self)@.names.contains(name@) {
                        let j = choose|j: int|
                            0 <= j < self.names_view().len() && self.names_view()[j] == name@;
                        assert(self.names@[j]@ == name@);
                    }
                }
                return Ok(None);
            },
        };
        let ghost v0 = old(self)@;
        let ghost names_v = self.names_view();
        let ghost old_dirs = self.dirs@;
        let ghost old_seen = self.seen@;
        let ghost old_found = self.found@;
        assert(names_v[k as int] == name@);
        assert(v0.names.contains(name@));
        let ghost before = v0.found_in(parent@);
        proof {
            self.lemma_found_map();
        }
        let ghost mut fresh = false;
        let i = match position_of(&self.dirs, &parent) {
            Some(i) => {
                assert(self.dirs_view()[i as int] == parent@);
                i
            },
            None => {
                assert(!self.dirs_view().contains(parent@)) by {
                    if self.dirs_view().contains(parent@) {
                        let j = choose|j: int|
                            0 <= j < self.dirs_view().len() && self.dirs_view()[j] == parent@;
                        assert(self.dirs@[j]@ == parent@);
                    }
                }
                let n = self.names.len();
                self.dirs.push(parent.clone());
                self.seen.push(unset_flags(n));
                self.found.push(0);
                proof {
                    fresh = true;
                    assert(self.dirs_view() =~= string_views(old_dirs).push(parent@));
                    lemma_count_true_all_false(self.seen@[self.dirs@.len() - 1]@);
                    assert(flagged_names(names_v, self.seen@[self.dirs@.len() - 1]@) =~= Set::empty());
                }
                self.dirs.len() - 1
            },
        };
        proof {
            assert(self.dirs@[i as int]@ == parent@);
            assert(self.dirs@.len() == old_dirs.len() || (self.dirs@.len() == old_dirs.len() + 1
                && i == old_dirs.len()));
            assert(forall|j: int| 0 <= j < old_dirs.len() ==> self.dirs@[j] == old_dirs[j]);
            assert(self.dirs_view().no_duplicates());
            self.lemma_found_map();
            assert(before == flagged_names(names_v, self.seen@[i as int]@));
            assert(count_true(self.seen@[i as int]@) == self.found@[i as int]) by {
                if fresh {
                    lemma_count_true_all_false(self.seen@[i as int]@);
                }
            }
            assert(fresh ==> !self.seen@[i as int]@[k as int]);
            assert(flagged_names(names_v, self.seen@[i as int]@).contains(name@)
                == self.seen@[i as int]@[k as int]) by {
                let flags = self.seen@[i as int]@;
                if flagged_names(names_v, flags).contains(name@) {
                    let j = choose|j: int|
                        0 <= j < flags.len() && j < names_v.len() && flags[j] && names_v[j] == name@;
                    assert(names_v[j] == names_v[k as int]);
                }
            }
        }
        if self.seen[i][k] {
            proof {
                assert(!fresh);
                assert(before.insert(name@) =~= before);
                assert(v0.found.insert(parent@, before) =~= v0.found);
            }
            return Ok(None);
        }
        let ghost flags0 = self.seen@[i as int]@;
        proof {
            lemma_count_true_set(flags0, k as int);
            lemma_count_true_bound(flags0.update(k as int, true));
        }
        let mut flags = self.seen[i].clone();
        proof {
            assert(flags@ =~= flags0);
        }
        flags.set(k, true);
        self.seen.set(i, flags);
        let count = self.found[i] + 1;
        self.found.set(i, count);
        proof {
            let seen1 = self.seen@[i as int]@;
            assert(seen1 == flags0.update(k as int, true));
            lemma_flagged_names_set(names_v, flags0, k as int);
            lemma_flagged_names_complete(names_v, seen1);
            assert(self.dirs_view().no_duplicates());
            assert forall|j: int|
                #![trigger self.seen@[j]]
                0 <= j < self.dirs@.len() implies {
                    &&& self.seen@[j]@.len() == self.names@.len()
                    &&& self.found@[j] == count_true(self.seen@[j]@)
                    &&& count_true(self.seen@[j]@) >= 1
                } by {
                if j != i {
                    assert(self.seen@[j] == old_seen[j]);
                    assert(self.found@[j] == old_found[j]);
                }
            }
            assert(self.wf());
            self.lemma_found_map();
            let after = before.insert(name@);
            assert(flagged_names(names_v, seen1) == after);
            assert(self@.names == v0.names);
            assert(self@.found =~= v0.found.insert(parent@, after)) by {
                assert forall|d: Seq<char>| #[trigger]
                    self@.found.contains_key(d) == v0.found.insert(parent@, after).contains_key(d) by {
                    if d == parent@ {
                        assert(self.dirs_view()[i as int] == d);
                    } else if self@.found.contains_key(d) {
                        let j = choose|j: int|
                            0 <= j < self.dirs_view().len() && self.dirs_view()[j] == d;
                        if j < old_dirs.len() {
                            assert(string_views(old_dirs)[j] == d);
                        }
                    }
                    if v0.found.contains_key(d) {
                        let j = choose|j: int|
                            0 <= j < string_views(old_dirs).len() && string_views(old_dirs)[j] == d;
                        assert(self.dirs_view()[j] == d);
                    }
                }
                assert forall|d: Seq<char>| #[trigger]
                    self@.found.contains_key(d) implies self@.found[d]
                    == v0.found.insert(parent@, after)[d] by {
                    if d != parent@ {
                        let j = choose|j: int|
                            0 <= j < string_views(old_dirs).len() && string_views(old_dirs)[j] == d;
                        assert(self.dirs@[j]@ == d);
                        assert(j != i);
                        assert(self.seen@[j] == old_seen[j]);
                    }
                }
            }
        }
        if count == self.names.len() {
            Ok(Some(parent))
        } else {
            Ok(None)
        }
    }

    proof fn lemma_found_map(&self)
        requires
            self.dirs_view().no_duplicates(),
            self.seen@.len() == self.dirs@.len(),
        ensures
            forall|d: Seq<char>| #[trigger]
                self@.found.contains_key(d) == self.dirs_view().contains(d),
            forall|j: int|
                #![trigger self.dirs@[j]]
                0 <= j < self.dirs@.len() ==> self@.found.contains_key(self.dirs@[j]@)
                    && self@.found[self.dirs@[j]@] == flagged_names(
                    self.names_view(),
                    self.seen@[j]@,
                ),
    {
        assert forall|j: int|
            #![trigger self.dirs@[j]]
            0 <= j < self.dirs@.len() implies self@.found.contains_key(self.dirs@[j]@)
                && self@.found[self.dirs@[j]@] == flagged_names(
                self.names_view(),
                self.seen@[j]@,
            ) by {
            assert(self.dirs_view()[j] == self.dirs@[j]@);
            lemma_index_of_distinct(self.dirs_view(), j);
        }
    }
}

impl InstrumentLocator {
    /// The directory to use when the walk ended without one that holds every
    /// wanted name: one that holds the most of them, or `None` where no
    /// wanted file was seen at all. Among directories that hold equally many,
    /// any may be chosen.
    pub fn best_directory(&self) -> (res: Option<String>)
        requires
            self.wf(),
        ensures
            res is None <==> self@.found.is_empty(),
            res matches Some(d) ==> self@.found.contains_key(d@) && forall|e: Seq<char>|
                #[trigger] self@.found.contains_key(e) ==> self@.found[e].len()
                    <= self@.found[d@].len(),
    {
        proof {
            self.lemma_found_map();
            assert forall|j: int| 0 <= j < self.dirs@.len() implies #[trigger] self@.found[self.dirs@[j]@].len()
                == self.found@[j] by {
                lemma_flagged_names_len(self.names_view(), self.seen@[j]@);
            }
        }
        if self.dirs.len() == 0 {
            assert(self@.found =~= Map::empty());
            return None;
        }
        let mut best: usize = 0;
        let mut j: usize = 1;
        while j < self.dirs.len()
            invariant
                self.wf(),
                1 <= j <= self.dirs@.len(),
                best < j,
                forall|m: int| 0 <= m < j ==> self.found@[m] <= self.found@[best as int],
            decreases self.dirs@.len() - j,
        {
            if self.found[j] >= self.found[best] {
                best = j;
            }
            j = j + 1;
        }
        let res = self.dirs[best].clone();
        proof {
            assert(self@.found.contains_key(self.dirs@[best as int]@));
            assert forall|e: Seq<char>| #[trigger] self@.found.contains_key(e) implies self@.found[e].len()
                <= self@.found[res@].len() by {
                let m = choose|m: int| 0 <= m < self.dirs_view().len() && self.dirs_view()[m] == e;
                assert(self.dirs@[m]@ == e);
            }
        }
        Some(res)
    }
}

/// What a locator knows stays consistent: every directory it keeps holds at
/// least one of the wanted names and none but wanted names, so never more of
/// them than there are.
pub proof fn found_within_wanted(locator: &InstrumentLocator)
    requires
        locator.wf(),
    ensures
        locator@.names.finite(),
        forall|d: Seq<char>| #[trigger] locator@.found.contains_key(d) ==> {
            &&& locator@.found[d].subset_of(locator@.names)
            &&& locator@.found[d].finite()
            &&& 1 <= locator@.found[d].len() <= locator@.names.len()
        },
{
    let names = locator.names_view();
    names.unique_seq_to_set();
    vstd::seq_lib::seq_to_set_is_finite(names);
    locator.lemma_found_map();
    assert forall|d: Seq<char>| #[trigger] locator@.found.contains_key(d) implies {
        &&& locator@.found[d].subset_of(locator@.names)
        &&& locator@.found[d].finite()
        &&& 1 <= locator@.found[d].len() <= locator@.names.len()
    } by {
        let m = choose|m: int| 0 <= m < locator.dirs_view().len() && locator.dirs_view()[m] == d;
        assert(locator.dirs@[m]@ == d);
        lemma_flagged_names_len(names, locator.seen@[m]@);
        lemma_flagged_names_subset(names, locator.seen@[m]@);
        vstd::set_lib::lemma_len_subset(locator@.found[d], locator@.names);
    }
}

/// An entry answers with a directory only when it is the entry's own
/// directory and that directory now holds every wanted name, the entry's
/// name being one it did not hold before.
pub proof fn answer_means_complete(
    v: LocatorView,
    is_file: bool,
    name: Option<Seq<char>>,
    parent: Seq<char>,
    dir: Seq<char>,
)
    requires
        observe_spec(v, is_file, name, parent).1 == Ok::<Option<Seq<char>>, LocateError>(
            Some(dir),
        ),
    ensures
        dir == parent,
        is_file,
        name matches Some(x) && v.names.contains(x) && !v.found_in(dir).contains(x),
        observe_spec(v, is_file, name, parent).0.found_in(dir) == v.names,
{
}

/// The wanted names seen in a directory are never forgotten, and the set of
/// wanted names never changes.
pub proof fn found_only_grows(
    v: LocatorView,
    is_file: bool,
    name: Option<Seq<char>>,
    parent: Seq<char>,
    dir: Seq<char>,
)
    ensures
        observe_spec(v, is_file, name, parent).0.names == v.names,
        v.found_in(dir).subset_of(observe_spec(v, is_file, name, parent).0.found_in(dir)),
{
}

/// Directories, files whose name is not wanted, and files whose name could
/// not be read leave what the locator knows unchanged; only a file that
/// cannot be read is an error.
pub proof fn other_entries_change_nothing(
    v: LocatorView,
    is_file: bool,
    name: Option<Seq<char>>,
    parent: Seq<char>,
)
    requires
        !is_file || name is None || (name matches Some(x) && !v.names.contains(x)),
    ensures
        observe_spec(v, is_file, name, parent).0 == v,
        (observe_spec(v, is_file, name, parent).1 is Err) <==> (is_file && name is None),
{
}

/// A wanted file newly seen in a directory is counted there: the directory
/// then holds the names it held and this one, it becomes known if it was not,
/// and no other directory changes.
pub proof fn new_wanted_file_is_counted(
    v: LocatorView,
    x: Seq<char>,
    parent: Seq<char>,
    d: Seq<char>,
)
    requires
        v.names.contains(x),
        !v.found_in(parent).contains(x),
    ensures
        observe_spec(v, true, Some(x), parent).0.found_in(parent) == v.found_in(parent).insert(x),
        observe_spec(v, true, Some(x), parent).0.found.contains_key(parent),
        d != parent ==> observe_spec(v, true, Some(x), parent).0.found_in(d) == v.found_in(d),
        d != parent ==> observe_spec(v, true, Some(x), parent).0.found.contains_key(d)
            == v.found.contains_key(d),
        observe_spec(v, true, Some(x), parent).0.names == v.names,
{
}

/// What the locator knows after a run of entries, whatever it answered on
/// the way.
pub open spec fn walk(v: LocatorView, entries: Seq<(bool, Option<Seq<char>>, Seq<char>)>) -> LocatorView
    decreases entries.len(),
{
    if entries.len() == 0 {
        v
    } else {
        let e = entries.last();
        observe_spec(walk(v, entries.drop_last()), e.0, e.1, e.2).0
    }
}

/// The wanted names met as files in directory `d` among `entries`.
pub open spec fn wanted_seen_in(
    names: Set<Seq<char>>,
    entries: Seq<(bool, Option<Seq<char>>, Seq<char>)>,
    d: Seq<char>,
) -> Set<Seq<char>> {
    Set::new(
        |x: Seq<char>|
            names.contains(x) && exists|i: int|
                #![trigger entries[i]]
                0 <= i < entries.len() && entries[i] == (true, Some(x), d),
    )
}

/// After a walk, a directory holds exactly the wanted names it held before
/// and every wanted name met as a file in it during the walk, each counted
/// once however often it was met; the set of wanted names never changes.
pub proof fn walk_counts_every_wanted_file(
    v: LocatorView,
    entries: Seq<(bool, Option<Seq<char>>, Seq<char>)>,
    d: Seq<char>,
)
    ensures
        walk(v, entries).names == v.names,
        walk(v, entries).found_in(d) == v.found_in(d).union(wanted_seen_in(v.names, entries, d)),
    decreases entries.len(),
{
    if entries.len() == 0 {
        assert(wanted_seen_in(v.names, entries, d) =~= Set::empty());
        assert(v.found_in(d).union(Set::empty()) =~= v.found_in(d));
    } else {
        let prefix = entries.drop_last();
        let e = entries.last();
        walk_counts_every_wanted_file(v, prefix, d);
        let w = walk(v, prefix);
        let w2 = walk(v, entries);
        assert(w2 == observe_spec(w, e.0, e.1, e.2).0);
        let before = wanted_seen_in(v.names, prefix, d);
        let after = wanted_seen_in(v.names, entries, d);
        let counted = e.0 && (e.1 matches Some(y) && v.names.contains(y)) && e.2 == d;
        if counted {
            let y = e.1->0;
            assert(w2.found_in(d) =~= w.found_in(d).insert(y));
            assert(after =~= before.insert(y)) by {
                assert forall|x: Seq<char>| #[trigger] after.contains(x) implies before.insert(y).contains(x) by {
                    let i = choose|i: int|
                        #![trigger entries[i]]
                        0 <= i < entries.len() && entries[i] == (true, Some(x), d);
                    if i < prefix.len() {
                        assert(prefix[i] == entries[i]);
                    }
                }
                assert forall|x: Seq<char>| #[trigger] before.insert(y).contains(x) implies after.contains(x) by {
                    if x == y {
                        assert(entries[entries.len() - 1] == (true, Some(x), d));
                    } else {
                        let i = choose|i: int|
                            #![trigger prefix[i]]
                            0 <= i < prefix.len() && prefix[i] == (true, Some(x), d);
                        assert(entries[i] == prefix[i]);
                    }
                }
            }
            assert(w2.found_in(d) =~= v.found_in(d).union(after));
        } else {
            assert(w2.found_in(d) =~= w.found_in(d)) by {
                if e.0 && (e.1 matches Some(y) && v.names.contains(y)) {
                    assert(e.2 != d);
                }
            }
            assert(after =~= before) by {
                assert forall|x: Seq<char>| #[trigger] after.contains(x) implies before.contains(x) by {
                    let i = choose|i: int|
                        #![trigger entries[i]]
                        0 <= i < entries.len() && entries[i] == (true, Some(x), d);
                    if i < prefix.len() {
                        assert(prefix[i] == entries[i]);
                    } else {
                        assert(entries[i] == e);
                    }
                }
                assert forall|x: Seq<char>| #[trigger] before.contains(x) implies after.contains(x) by {
                    let i = choose|i: int|
                        #![trigger prefix[i]]
                        0 <= i < prefix.len() && prefix[i] == (true, Some(x), d);
                    assert(entries[i] == prefix[i]);
                }
            }
        }
    }
}

/// Seeing a wanted file a second time in the same directory changes nothing
/// and answers nothing.
pub proof fn repeated_entry_changes_nothing(
    v: LocatorView,
    name: Seq<char>,
    parent: Seq<char>,
)
    requires
        v.found_in(parent).contains(name),
        v.found.contains_key(parent),
    ensures
        observe_spec(v, true, Some(name), parent).0 == v,
        observe_spec(v, true, Some(name), parent).1 == Ok::<Option<Seq<char>>, LocateError>(None),
{
    let before = v.found_in(parent);
    assert(before.insert(name) =~= before);
    assert(v.found.insert(parent, before) =~= v.found);
}

/// Replaces each instrument file name by its base name where it has one.
pub fn adopt_base_names(files: &mut Vec<String>, bases: Vec<Option<String>>)
    requires
        old(files)@.len() == bases@.len(),
    ensures
        final(files)@.len() == old(files)@.len(),
        forall|i: int|
            0 <= i < bases@.len() ==> #[trigger] final(files)@[i]@ == match bases@[i] {
                Some(b) => b@,
                None => old(files)@[i]@,
            },
{
    let mut i: usize = 0;
    while i < bases.len()
        invariant
            i <= bases@.len(),
            files@.len() == bases@.len(),
            forall|j: int|
                0 <= j < i ==> #[trigger] files@[j]@ == match bases@[j] {
                    Some(b) => b@,
                    None => old(files)@[j]@,
                },
            forall|j: int| i <= j < bases@.len() ==> #[trigger] files@[j] == old(files)@[j],
        decreases bases@.len() - i,
    {
        match &bases[i] {
            Some(b) => {
                files.set(i, b.clone());
            },
            None => {},
        }
        i = i + 1;
    }
}

/// The directory from which the custom instrument sounds are loaded: the one
/// located, where one was, else `base_dir`. Where one was located, each
/// instrument's file name is cut down to its base name, so that the sounds
/// are found directly in that directory.
pub fn settle_instrument_dir(
    base_dir: String,
    located: Option<String>,
    files: &mut Vec<String>,
) -> (res: String)
    ensures
        res@ == match located {
            Some(d) => d@,
            None => base_dir@,
        },
        final(files)@.len() == old(files)@.len(),
        located is None ==> final(files)@ == old(files)@,
        located is Some ==> forall|i: int|
            0 <= i < final(files)@.len() ==> #[trigger] final(files)@[i]@ == base_name_or_self(
                old(files)@[i]@,
            ),
{
    match located {
        Some(dir) => {
            let bases = instrument_base_names(files);
            let ghost before = files@;
            adopt_base_names(files, bases);
            proof {
                assert forall|i: int| 0 <= i < files@.len() implies #[trigger] files@[i]@
                    == base_name_or_self(before[i]@) by {
                    assert(opt_view(bases@[i]) == path_file_name_of(before[i]@));
                }
            }
            dir
        },
        None => base_dir,
    }
}

} // verus!
