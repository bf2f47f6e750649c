//! Diagnostics reported on files, and their grouping by file.

use vstd::prelude::*;

verus! {

/// A problem that outside tooling reports on a file.
#[derive(Debug)]
pub struct Diagnostic {
    fs_file_path: String,
    message: String,
}

/// The mathematical content of a [`Diagnostic`].
pub struct DiagnosticView {
    pub fs_file_path: Seq<char>,
    pub message: Seq<char>,
}

impl View for Diagnostic {
    type V = DiagnosticView;

    closed spec fn view(&self) -> DiagnosticView {
        DiagnosticView { fs_file_path: self.fs_file_path@, message: self.message@ }
    }
}

impl DeepView for Diagnostic {
    type V = DiagnosticView;

    open spec fn deep_view(&self) -> DiagnosticView {
        self@
    }
}

impl Clone for Diagnostic {
    fn clone(&self) -> (copy: Self)
        ensures
            copy@ == self@,
    {
        Diagnostic { fs_file_path: self.fs_file_path.clone(), message: self.message.clone() }
    }
}

impl Diagnostic {
    pub fn new(fs_file_path: String, message: String) -> (diagnostic: Self)
        ensures
            diagnostic@ == (DiagnosticView { fs_file_path: fs_file_path@, message: message@ }),
    {
        Diagnostic { fs_file_path, message }
    }

    pub fn fs_file_path(&self) -> (path: &str)
        ensures
            path@ == self@.fs_file_path,
    {
        self.fs_file_path.as_str()
    }

    pub fn message(&self) -> (text: &str)
        ensures
            text@ == self@.message,
    {
        self.message.as_str()
    }
}

/// The records of `records` that are about the file `path`, in the order
/// in which `records` holds them.
pub open spec fn records_for(records: Seq<DiagnosticView>, path: Seq<char>) -> Seq<DiagnosticView>
    decreases records.len(),
{
    if records.len() == 0 {
        Seq::empty()
    } else {
        let earlier = records_for(records.drop_last(), path);
        if records.last().fs_file_path == path {
            earlier.push(records.last())
        } else {
            earlier
        }
    }
}

/// Whether some record of `records` is about the file `path`.
pub open spec fn mentions(records: Seq<DiagnosticView>, path: Seq<char>) -> bool {
    exists|i: int| 0 <= i < records.len() && (#[trigger] records[i]).fs_file_path == path
}

/// The grouping of `records` by file: each file that a record is about
/// maps to all the records about it, in the order in which they stand in
/// `records`.
pub open spec fn grouped(records: Seq<DiagnosticView>) -> Map<Seq<char>, Seq<DiagnosticView>> {
    Map::new(|path: Seq<char>| mentions(records, path), |path: Seq<char>| records_for(records, path))
}

/// The diagnostics of one file.
#[derive(Debug)]
pub struct FileDiagnostics {
    fs_file_path: String,
    diagnostics: Vec<Diagnostic>,
}

impl FileDiagnostics {
    pub closed spec fn path(&self) -> Seq<char> {
        self.fs_file_path@
    }

    pub closed spec fn records(&self) -> Seq<DiagnosticView> {
        self.diagnostics.deep_view()
    }

    pub fn fs_file_path(&self) -> (path: &str)
        ensures
            path@ == self.path(),
    {
        self.fs_file_path.as_str()
    }

    pub fn diagnostics(&self) -> (diagnostics: &Vec<Diagnostic>)
        ensures
            diagnostics.deep_view() == self.records(),
    {
        &self.diagnostics
    }
}

/// Whether no two of `groups` are about the same file.
pub open spec fn one_file_each(groups: Seq<FileDiagnostics>) -> bool {
    forall|a: int, b: int|
        0 <= a < b < groups.len() ==> (#[trigger] groups[a]).path() != (#[trigger] groups[b]).path()
}

/// Whether `groups` is the grouping of `records`: no two groups are about
/// the same file, each group holds exactly the records of its file, and
/// every file that a record is about has a group.
pub open spec fn groups_match(groups: Seq<FileDiagnostics>, records: Seq<DiagnosticView>) -> bool {
    &&& one_file_each(groups)
    &&& forall|k: int|
        0 <= k < groups.len() ==> {
            &&& mentions(records, (#[trigger] groups[k]).path())
            &&& groups[k].records() == records_for(records, groups[k].path())
        }
    &&& forall|i: int|
        0 <= i < records.len() ==> exists|k: int|
            0 <= k < groups.len() && (#[trigger] groups[k]).path() == (
            #[trigger] records[i]).fs_file_path
}

/// The map from `groups`: each group's file maps to the group's records.
pub open spec fn map_of(groups: Seq<FileDiagnostics>) -> Map<Seq<char>, Seq<DiagnosticView>> {
    Map::new(
        |path: Seq<char>| exists|k: int| 0 <= k < groups.len() && (#[trigger] groups[k]).path() == path,
        |path: Seq<char>|
            groups[choose|k: int| 0 <= k < groups.len() && (#[trigger] groups[k]).path() == path].records(),
    )
}

/// Groups that match a list of records are, as a map, its grouping.
pub proof fn lemma_groups_are_grouping(groups: Seq<FileDiagnostics>, records: Seq<DiagnosticView>)
    requires
        groups_match(groups, records),
    ensures
        map_of(groups) == grouped(records),
{
    assert forall|path: Seq<char>| map_of(groups).dom().contains(path) implies grouped(
        records,
    ).dom().contains(path) by {
        let k = choose|k: int| 0 <= k < groups.len() && (#[trigger] groups[k]).path() == path;
    }
    assert forall|path: Seq<char>| grouped(records).dom().contains(path) implies map_of(
        groups,
    ).dom().contains(path) by {
        let i = choose|i: int| 0 <= i < records.len() && (#[trigger] records[i]).fs_file_path == path;
    }
    assert forall|path: Seq<char>| map_of(groups).dom().contains(path) implies map_of(groups)[path]
        == grouped(records)[path] by {
        let k = choose|k: int| 0 <= k < groups.len() && (#[trigger] groups[k]).path() == path;
    }
}

/// Groups that are about different files make a map with one key for each
/// group.
pub proof fn lemma_one_key_for_each_group(groups: Seq<FileDiagnostics>)
    requires
        one_file_each(groups),
    ensures
        map_of(groups).dom().finite(),
        map_of(groups).dom().len() == groups.len(),
    decreases groups.len(),
{
    if groups.len() == 0 {
        assert(map_of(groups).dom() =~= Set::<Seq<char>>::empty());
    } else {
        let earlier = groups.drop_last();
        let last = groups.last().path();
        lemma_one_key_for_each_group(earlier);
        assert forall|path: Seq<char>| map_of(groups).dom().contains(path) implies map_of(
            earlier,
        ).dom().insert(last).contains(path) by {
            let k = choose|k: int| 0 <= k < groups.len() && (#[trigger] groups[k]).path() == path;
            if k < earlier.len() {
                assert(earlier[k].path() == path);
            }
        }
        assert forall|path: Seq<char>| map_of(earlier).dom().insert(last).contains(
            path,
        ) implies map_of(groups).dom().contains(path) by {
            if path != last {
                let k = choose|k: int| 0 <= k < earlier.len() && (#[trigger] earlier[k]).path() == path;
                assert(groups[k].path() == path);
            }
        }
        assert(map_of(groups).dom() =~= map_of(earlier).dom().insert(last));
    }
}

/// Diagnostics grouped by the file they are about. Files stand in the
/// order in which they were first met; the diagnostics of a file stand in
/// the order in which they were reported, repeats included.
#[derive(Debug)]
pub struct DiagnosticMap {
    groups: Vec<FileDiagnostics>,
}

impl View for DiagnosticMap {
    type V = Map<Seq<char>, Seq<DiagnosticView>>;

    closed spec fn view(&self) -> Map<Seq<char>, Seq<DiagnosticView>> {
        map_of(self.groups@)
    }
}

impl DiagnosticMap {
    #[verifier::type_invariant]
    closed spec fn one_group_per_file(self) -> bool {
        one_file_each(self.groups@)
    }

    /// The groups, one for each file.
    pub closed spec fn entries(&self) -> Seq<FileDiagnostics> {
        self.groups@
    }

    /// Groups `records` by the file each is about.
    pub fn group_by_file(records: &Vec<Diagnostic>) -> (map: Self)
        ensures
            map@ == grouped(records.deep_view()),
            groups_match(map.entries(), records.deep_view()),
    {
        let mut groups: Vec<FileDiagnostics> = Vec::new();
        let mut i: usize = 0;
        while i < records.len()
            invariant
                i <= records.len(),
                groups_match(groups@, records.deep_view().take(i as int)),
            decreases records.len() - i,
        {
            let ghost before = records.deep_view().take(i as int);
            let ghost after = records.deep_view().take(i + 1);
            let ghost old_groups = groups@;
            let record = records[i].clone();
            proof {
                assert(after.drop_last() =~= before);
                assert forall|path: Seq<char>| mentions(before, path) implies mentions(
                    after,
                    path,
                ) by {
                    let m = choose|m: int|
                        0 <= m < before.len() && (#[trigger] before[m]).fs_file_path == path;
                    assert(after[m].fs_file_path == path);
                }
                assert(mentions(after, record@.fs_file_path)) by {
                    assert(after[i as int].fs_file_path == record@.fs_file_path);
                }
            }
            match position_of(&groups, &record.fs_file_path) {
                Some(k) => {
                    groups[k].diagnostics.push(record);
                    proof {
                        assert forall|j: int| 0 <= j < groups@.len() implies {
                            &&& (#[trigger] groups@[j]).path() == old_groups[j].path()
                            &&& mentions(after, groups@[j].path())
                            &&& groups@[j].records() == records_for(after, groups@[j].path())
                        } by {
                            assert(mentions(before, old_groups[j].path()));
                        }
                        assert forall|m: int| 0 <= m < after.len() implies exists|j: int|
                            0 <= j < groups@.len() && (#[trigger] groups@[j]).path() == (
                            #[trigger] after[m]).fs_file_path by {
                            if m < before.len() {
                                let j = choose|j: int|
                                    0 <= j < old_groups.len() && (#[trigger] old_groups[j]).path()
                                        == before[m].fs_file_path;
                                assert(groups@[j].path() == after[m].fs_file_path);
                            } else {
                                assert(groups@[k as int].path() == after[m].fs_file_path);
                            }
                        }
                    }
                },
                None => {
                    let path = record.fs_file_path.clone();
                    let mut diagnostics: Vec<Diagnostic> = Vec::new();
                    diagnostics.push(record);
                    let group = FileDiagnostics { fs_file_path: path, diagnostics };
                    proof {
                        lemma_no_records_for_unmentioned(before, record@.fs_file_path);
                    }
                    groups.push(group);
                    proof {
                        assert forall|j: int| 0 <= j < groups@.len() implies {
                            &&& mentions(after, (#[trigger] groups@[j]).path())
                            &&& groups@[j].records() == records_for(after, groups@[j].path())
                        } by {
                            if j < old_groups.len() {
                                assert(groups@[j] == old_groups[j]);
                            }
                        }
                        assert forall|m: int| 0 <= m < after.len() implies exists|j: int|
                            0 <= j < groups@.len() && (#[trigger] groups@[j]).path() == (
                            #[trigger] after[m]).fs_file_path by {
                            if m < before.len() {
                                let j = choose|j: int|
                                    0 <= j < old_groups.len() && (#[trigger] old_groups[j]).path()
                                        == before[m].fs_file_path;
                                assert(groups@[j] == old_groups[j]);
                            } else {
                                assert(groups@[old_groups.len() as int].path()
                                    == after[m].fs_file_path);
                            }
                        }
                        assert forall|a: int, b: int| 0 <= a < b < groups@.len() implies (
                        #[trigger] groups@[a]).path() != (#[trigger] groups@[b]).path() by {
                            assert(groups@[a] == old_groups[a]);
                        }
                    }
                },
            }
            i += 1;
        }
        proof {
            assert(records.deep_view().take(records.len() as int) =~= records.deep_view());
            lemma_groups_are_grouping(groups@, records.deep_view());
        }
        DiagnosticMap { groups }
    }

    /// The number of files that have diagnostics.
    pub fn len(&self) -> (count: usize)
        ensures
            count == self.entries().len(),
            self@.dom().finite(),
            count == self@.dom().len(),
    {
        proof {
            use_type_invariant(self);
            lemma_one_key_for_each_group(self.groups@);
        }
        self.groups.len()
    }

    pub fn is_empty(&self) -> (empty: bool)
        ensures
            empty == (self.entries().len() == 0),
            empty == (self@ == Map::<Seq<char>, Seq<DiagnosticView>>::empty()),
    {
        proof {
            if self.groups@.len() == 0 {
                assert(self@ =~= Map::<Seq<char>, Seq<DiagnosticView>>::empty());
            } else {
                assert(self@.dom().contains(self.groups@[0].path()));
            }
        }
        self.groups.len() == 0
    }

    /// The groups, one for each file, in the order in which the files were
    /// first met.
    pub fn groups(&self) -> (groups: &Vec<FileDiagnostics>)
        ensures
            groups@ == self.entries(),
            self@ == map_of(groups@),
            one_file_each(groups@),
    {
        proof {
            use_type_invariant(self);
        }
        &self.groups
    }

    /// The diagnostics of the file `path`, if it has any.
    pub fn get(&self, path: &String) -> (found: Option<&Vec<Diagnostic>>)
        ensures
            match found {
                Some(diagnostics) => self@.dom().contains(path@) && diagnostics.deep_view()
                    == self@[path@],
                None => !self@.dom().contains(path@),
            },
    {
        proof {
            use_type_invariant(self);
        }
        match position_of(&self.groups, path) {
            Some(k) => {
                proof {
                    let chosen = choose|j: int|
                        0 <= j < self.groups@.len() && (#[trigger] self.groups@[j]).path() == path@;
                }
                Some(&self.groups[k].diagnostics)
            },
            None => None,
        }
    }
}

/// A file that no record is about has no records.
proof fn lemma_no_records_for_unmentioned(records: Seq<DiagnosticView>, path: Seq<char>)
    requires
        !mentions(records, path),
    ensures
        records_for(records, path) == Seq::<DiagnosticView>::empty(),
    decreases records.len(),
{
    if records.len() > 0 {
        assert forall|i: int| 0 <= i < records.drop_last().len() implies (
        #[trigger] records.drop_last()[i]).fs_file_path != path by {
            assert(records[i].fs_file_path != path);
        }
        lemma_no_records_for_unmentioned(records.drop_last(), path);
    }
}

fn position_of(groups: &Vec<FileDiagnostics>, path: &String) -> (found: Option<usize>)
    ensures
        match found {
            Some(k) => k < groups@.len() && groups@[k as int].path() == path@,
            None => forall|j: int| 0 <= j < groups@.len() ==> (#[trigger] groups@[j]).path() != path@,
        },
{
    let mut k: usize = 0;
    while k < groups.len()
        invariant
            k <= groups.len(),
            forall|j: int| 0 <= j < k ==> (#[trigger] groups@[j]).path() != path@,
        decreases groups.len() - k,
    {
        if groups[k].fs_file_path == *path {
            return Some(k);
        }
        k += 1;
    }
    None
}

} // verus!
