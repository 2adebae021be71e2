//! The list of run configurations that the operator chooses from.
use vstd::prelude::*;

use crate::client_config::{items_view, DefaultConfigItem, ItemModel};

verus! {

/// A `*.json` file found in a search directory.
#[derive(Debug, Clone, PartialEq, Eq)]
pub struct FoundFile {
    /// Name of the search directory that holds the file.
    pub dir_name: String,
    /// Path of the file relative to that directory.
    pub name: String,
    /// Full path of the file.
    pub path: String,
}

/// One selectable entry: a concrete file, or (with no path) the synthetic
/// entry that leads to the default host/port entries.
#[derive(Debug, Clone, PartialEq, Eq)]
pub struct Candidate {
    pub label: String,
    pub source_path: Option<String>,
}

/// What the operator's choice leads to.
#[derive(Debug, Clone, PartialEq, Eq)]
pub enum Selection {
    /// Nothing was chosen: leave without launching.
    Exit,
    /// The synthetic entry: pick one of the default host/port entries.
    Defaults,
    /// A concrete run configuration file.
    File(String),
}

pub type FileModel = (Seq<char>, Seq<char>, Seq<char>);

pub type CandidateModel = (Seq<char>, Option<Seq<char>>);

impl View for FoundFile {
    type V = FileModel;

    open spec fn view(&self) -> FileModel {
        (self.dir_name@, self.name@, self.path@)
    }
}

impl View for Candidate {
    type V = CandidateModel;

    open spec fn view(&self) -> CandidateModel {
        (
            self.label@,
            match self.source_path {
                Some(p) => Some(p@),
                None => None,
            },
        )
    }
}

pub open spec fn candidates_view(v: Seq<Candidate>) -> Seq<CandidateModel> {
    v.map_values(|c: Candidate| c@)
}

pub open spec fn files_view(v: Seq<FoundFile>) -> Seq<FileModel> {
    v.map_values(|f: FoundFile| f@)
}

pub open spec fn labels_of(c: Seq<CandidateModel>) -> Seq<Seq<char>> {
    c.map_values(|m: CandidateModel| m.0)
}

pub open spec fn paths_of(c: Seq<CandidateModel>) -> Seq<Option<Seq<char>>> {
    c.map_values(|m: CandidateModel| m.1)
}

/// `<dir>/<name>` for file `f`.
pub open spec fn dir_label(f: FileModel) -> Seq<char> {
    f.0 + seq!['/'] + f.1
}

/// The label of file `f`, given the labels already taken: the first of its
/// relative name, `<dir>/<name>` and its full path that is still free; `None`
/// where all three are taken.
pub open spec fn label_for(taken: Seq<Seq<char>>, f: FileModel) -> Option<Seq<char>> {
    if !taken.contains(f.1) {
        Some(f.1)
    } else if !taken.contains(dir_label(f)) {
        Some(dir_label(f))
    } else if !taken.contains(f.2) {
        Some(f.2)
    } else {
        None
    }
}

/// The candidates for `files`, in the order given. A file whose path is
/// already listed, or for which no free label is left, is left out.
pub open spec fn collected(files: Seq<FileModel>) -> Seq<CandidateModel>
    decreases files.len(),
{
    if files.len() == 0 {
        seq![]
    } else {
        let prev = collected(files.drop_last());
        let f = files.last();
        if paths_of(prev).contains(Some(f.2)) {
            prev
        } else {
            match label_for(labels_of(prev), f) {
                Some(l) => prev.push((l, Some(f.2))),
                None => prev,
            }
        }
    }
}

/// Labels are unique within one candidate list.
pub proof fn lemma_collected_labels_distinct(files: Seq<FileModel>)
    ensures
        labels_of(collected(files)).no_duplicates(),
    decreases files.len(),
{
    if files.len() > 0 {
        let prev = collected(files.drop_last());
        lemma_collected_labels_distinct(files.drop_last());
        let f = files.last();
        if !paths_of(prev).contains(Some(f.2)) {
            match label_for(labels_of(prev), f) {
                Some(l) => {
                    let ls = labels_of(prev);
                    assert(labels_of(prev.push((l, Some(f.2)))) =~= ls.push(l));
                    assert forall|i: int, j: int|
                        0 <= i < ls.push(l).len() && 0 <= j < ls.push(l).len() && i != j
                            implies ls.push(l)[i] != ls.push(l)[j] by {
                        if i < ls.len() && j < ls.len() {
                        } else if i == ls.len() {
                            assert(ls[j] != l);
                        } else {
                            assert(ls[i] != l);
                        }
                    }
                },
                None => {},
            }
        }
    }
}

pub open spec fn default_label() -> Seq<char> {
    seq!['D', 'e', 'f', 'a', 'u', 'l', 't']
}

/// Tests whether `label` is one of the labels of `cands`.
fn label_taken(cands: &Vec<Candidate>, label: &String) -> (r: bool)
    ensures
        r == labels_of(candidates_view(cands@)).contains(label@),
{
    let ghost labels = labels_of(candidates_view(cands@));
    let mut i: usize = 0;
    while i < cands.len()
        invariant
            i <= cands@.len(),
            labels == labels_of(candidates_view(cands@)),
            forall|k: int| 0 <= k < i ==> labels[k] != label@,
        decreases cands.len() - i,
    {
        if cands[i].label == *label {
            assert(labels[i as int] == label@);
            return true;
        }
        i = i + 1;
    }
    false
}

/// Tests whether `path` is the source of one of `cands`.
fn path_taken(cands: &Vec<Candidate>, path: &String) -> (r: bool)
    ensures
        r == paths_of(candidates_view(cands@)).contains(Some(path@)),
{
    let ghost paths = paths_of(candidates_view(cands@));
    let mut i: usize = 0;
    while i < cands.len()
        invariant
            i <= cands@.len(),
            paths == paths_of(candidates_view(cands@)),
            forall|k: int| 0 <= k < i ==> paths[k] != Some(path@),
        decreases cands.len() - i,
    {
        let same = match &cands[i].source_path {
            Some(p) => *p == *path,
            None => false,
        };
        if same {
            assert(paths[i as int] == Some(path@));
            return true;
        }
        i = i + 1;
    }
    false
}

/// Builds the candidate list from the files found, in order: each is
/// labelled by its relative name, or by `<dir>/<name>` where an earlier file
/// already took that name, or by its full path where that is taken too. A
/// file whose path is already listed is left out. The labels are distinct.
pub fn collect_candidates(files: &Vec<FoundFile>) -> (r: Vec<Candidate>)
    ensures
        candidates_view(r@) == collected(files_view(files@)),
        labels_of(candidates_view(r@)).no_duplicates(),
{
    let mut out: Vec<Candidate> = Vec::new();
    let mut i: usize = 0;
    while i < files.len()
        invariant
            i <= files@.len(),
            candidates_view(out@) == collected(files_view(files@).take(i as int)),
        decreases files.len() - i,
    {
        let f = &files[i];
        let ghost prev = candidates_view(out@);
        let ghost old_out = out@;
        proof {
            let t = files_view(files@).take(i + 1);
            assert(t.drop_last() =~= files_view(files@).take(i as int));
            assert(t.last() == f@);
        }
        if !path_taken(&out, &f.path) {
            let mut joined = f.dir_name.clone();
            proof {
                reveal_strlit("/");
            }
            joined.append("/");
            joined.append(f.name.as_str());
            assert(joined@ =~= dir_label(f@));
            let label: Option<String> = if !label_taken(&out, &f.name) {
                Some(f.name.clone())
            } else if !label_taken(&out, &joined) {
                Some(joined)
            } else if !label_taken(&out, &f.path) {
                Some(f.path.clone())
            } else {
                None
            };
            match label {
                Some(l) => {
                    assert(label_for(labels_of(prev), f@) == Some(l@));
                    let c = Candidate { label: l, source_path: Some(f.path.clone()) };
                    out.push(c);
                    assert(candidates_view(out@) =~= candidates_view(old_out).push(c@));
                },
                None => {},
            }
        }
        i = i + 1;
    }
    assert(files_view(files@).take(files@.len() as int) =~= files_view(files@));
    proof {
        lemma_collected_labels_distinct(files_view(files@));
    }
    out
}

/// Puts the synthetic `Default` entry, with no path, in front of `found`.
pub fn with_default_entry(found: Vec<Candidate>) -> (r: Vec<Candidate>)
    ensures
        candidates_view(r@) == seq![(default_label(), None::<Seq<char>>)] + candidates_view(
            found@,
        ),
{
    proof {
        reveal_strlit("Default");
    }
    let mut r = found;
    let d = Candidate { label: String::from_str("Default"), source_path: None };
    assert(d@ =~= (default_label(), None::<Seq<char>>));
    r.insert(0, d);
    assert(candidates_view(r@) =~= seq![(default_label(), None::<Seq<char>>)] + candidates_view(
        found@,
    ));
    r
}

/// What choosing `selected` among `cands` leads to: `Exit` where nothing (or
/// no listed entry) was chosen, `Defaults` for an entry without a path, the
/// entry's file otherwise.
pub fn resolve_selection(cands: &Vec<Candidate>, selected: Option<usize>) -> (r: Selection)
    ensures
        match selected {
            Some(i) if i < cands@.len() => match cands@[i as int].source_path {
                None => r is Defaults,
                Some(p) => r matches Selection::File(f) && f@ == p@,
            },
            _ => r is Exit,
        },
{
    match selected {
        Some(i) if i < cands.len() => match &cands[i].source_path {
            None => Selection::Defaults,
            Some(p) => Selection::File(p.clone()),
        },
        _ => Selection::Exit,
    }
}

/// The default host/port entries to choose from: those of the settings, then
/// those read from the ssh configuration where it could be read.
pub fn collect_defaults(
    settings_defaults: &Vec<DefaultConfigItem>,
    ssh: Option<Vec<DefaultConfigItem>>,
) -> (r: Vec<DefaultConfigItem>)
    ensures
        items_view(r@) == items_view(settings_defaults@) + match ssh {
            Some(s) => items_view(s@),
            None => Seq::<ItemModel>::empty(),
        },
{
    let mut r: Vec<DefaultConfigItem> = Vec::new();
    let mut i: usize = 0;
    while i < settings_defaults.len()
        invariant
            i <= settings_defaults@.len(),
            items_view(r@) == items_view(settings_defaults@.take(i as int)),
        decreases settings_defaults.len() - i,
    {
        let it = DefaultConfigItem {
            name: settings_defaults[i].name.clone(),
            ip: settings_defaults[i].ip.clone(),
            port: settings_defaults[i].port,
        };
        let ghost old_r = r@;
        r.push(it);
        assert(it@ == settings_defaults@[i as int]@);
        assert(settings_defaults@.take(i + 1) =~= settings_defaults@.take(i as int).push(
            settings_defaults@[i as int],
        ));
        assert(items_view(r@) =~= items_view(old_r).push(it@));
        assert(items_view(r@) =~= items_view(settings_defaults@.take(i + 1)));
        i = i + 1;
    }
    assert(settings_defaults@.take(settings_defaults@.len() as int) =~= settings_defaults@);
    match ssh {
        Some(mut extra) => {
            let ghost e = extra@;
            let ghost base = r@;
            r.append(&mut extra);
            assert(items_view(r@) =~= items_view(base) + items_view(e));
        },
        None => {
            assert(items_view(r@) =~= items_view(settings_defaults@) + Seq::<ItemModel>::empty());
        },
    }
    r
}

/// No files give no candidates.
pub proof fn lemma_collected_empty()
    ensures
        collected(Seq::<FileModel>::empty()) == Seq::<CandidateModel>::empty(),
{
}

/// Two files of the same name, found at two different paths, get two
/// distinct labels: the first its bare name, the second that name under its
/// directory's name.
pub proof fn lemma_same_name_disambiguated(first: FileModel, second: FileModel)
    requires
        first.1 == second.1,
        first.2 != second.2,
    ensures
        collected(seq![first, second]).len() == 2,
        collected(seq![first, second])[0].0 == first.1,
        collected(seq![first, second])[1].0 == dir_label(second),
        collected(seq![first, second])[0].0 != collected(seq![first, second])[1].0,
{
    let files = seq![first, second];
    assert(files.drop_last() =~= seq![first]);
    assert(seq![first].drop_last() =~= Seq::<FileModel>::empty());
    let one = collected(seq![first]);
    let none = Seq::<CandidateModel>::empty();
    assert(collected(Seq::<FileModel>::empty()) == none);
    assert(labels_of(none) =~= Seq::<Seq<char>>::empty());
    assert(paths_of(none) =~= Seq::<Option<Seq<char>>>::empty());
    assert(!labels_of(none).contains(first.1));
    assert(!paths_of(none).contains(Some(first.2)));
    assert(seq![first].last() == first);
    assert(one =~= seq![(first.1, Some(first.2))]);
    assert(labels_of(one) =~= seq![first.1]);
    assert(paths_of(one) =~= seq![Some(first.2)]);
    assert(labels_of(one).contains(second.1)) by {
        assert(labels_of(one)[0] == second.1);
    }
    assert(dir_label(second).len() > first.1.len());
    assert(!labels_of(one).contains(dir_label(second)));
    assert(!paths_of(one).contains(Some(second.2)));
}

} // verus!
