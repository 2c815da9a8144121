//! File overrides and the codec between their stored shapes and their layers.
//!
//! An override is stored either as one bare path or as a list of lists, each with
//! the layer's id (or nothing) in front and the layer's paths behind. It is read
//! from both shapes and written in the second only.

use vstd::prelude::*;

verus! {

/// One step of an override: the paths it reads, and an id where other tables
/// refer to it.
#[derive(Clone, Debug)]
pub struct FileLayer {
    pub id: Option<String>,
    pub paths: Vec<String>,
}

/// The override of one game path: its layers, bottom first.
#[derive(Clone, Debug)]
pub struct PenumbraFile(pub Vec<FileLayer>);

/// An override as it is stored.
#[derive(Clone, Debug)]
pub enum Paths {
    /// One bare path.
    Simple(String),
    /// One list per layer: the id or nothing, then the paths.
    Complex(Vec<Vec<Option<String>>>),
}

/// Why stored data is no override.
#[derive(Clone, Copy, Debug, PartialEq, Eq, Structural)]
pub enum SchemaError {
    /// The list of this layer is empty: it has no place for the id.
    EmptyLayer { layer: usize },
    /// In the list of this layer, nothing stands at this position behind the id.
    AbsentPath { layer: usize, position: usize },
}

pub ghost struct FileLayerView {
    pub id: Option<Seq<char>>,
    pub paths: Seq<Seq<char>>,
}

pub ghost enum PathsView {
    Simple(Seq<char>),
    Complex(Seq<Seq<Option<Seq<char>>>>),
}

/// The characters of a string that may be absent.
pub open spec fn text(s: Option<String>) -> Option<Seq<char>> {
    match s {
        Some(s) => Some(s@),
        None => None,
    }
}

/// The characters of each string of a list.
pub open spec fn texts(v: Seq<String>) -> Seq<Seq<char>> {
    Seq::new(v.len(), |i: int| v[i]@)
}

/// One stored list as a value.
pub open spec fn entry_view(e: Vec<Option<String>>) -> Seq<Option<Seq<char>>> {
    Seq::new(e@.len(), |j: int| text(e@[j]))
}

impl View for FileLayer {
    type V = FileLayerView;

    open spec fn view(&self) -> FileLayerView {
        FileLayerView { id: text(self.id), paths: texts(self.paths@) }
    }
}

impl View for PenumbraFile {
    type V = Seq<FileLayerView>;

    open spec fn view(&self) -> Seq<FileLayerView> {
        Seq::new(self.0@.len(), |i: int| self.0@[i]@)
    }
}

impl View for Paths {
    type V = PathsView;

    open spec fn view(&self) -> PathsView {
        match self {
            Paths::Simple(s) => PathsView::Simple(s@),
            Paths::Complex(w) => PathsView::Complex(
                Seq::new(w@.len(), |i: int| entry_view(w@[i])),
            ),
        }
    }
}

/// A stored list is a layer: it has the place for the id, and a path at every
/// position behind it.
pub open spec fn entry_well_formed(e: Seq<Option<Seq<char>>>) -> bool {
    e.len() >= 1 && forall|j: int| 1 <= j < e.len() ==> (#[trigger] e[j]) is Some
}

/// The layer that a well-formed list stands for.
pub open spec fn decoded_entry(e: Seq<Option<Seq<char>>>) -> FileLayerView {
    FileLayerView { id: e[0], paths: Seq::new((e.len() - 1) as nat, |j: int| e[j + 1]->Some_0) }
}

/// The list that a layer is stored as.
pub open spec fn encoded_layer(l: FileLayerView) -> Seq<Option<Seq<char>>> {
    Seq::new(
        l.paths.len() + 1,
        |j: int|
            if j == 0 {
                l.id
            } else {
                Some(l.paths[j - 1])
            },
    )
}

/// The lists that an override is stored as.
pub open spec fn encoded(f: Seq<FileLayerView>) -> Seq<Seq<Option<Seq<char>>>> {
    Seq::new(f.len(), |i: int| encoded_layer(f[i]))
}

/// Stored data `w` decodes to `r`: to the layers that it holds where every list
/// is a layer, and else to the error that names its first fault.
pub open spec fn decodes_to(w: PathsView, r: Result<Seq<FileLayerView>, SchemaError>) -> bool {
    match w {
        PathsView::Simple(s) => r == Ok::<Seq<FileLayerView>, SchemaError>(
            seq![FileLayerView { id: None, paths: seq![s] }],
        ),
        PathsView::Complex(w) => match r {
            Ok(f) => {
                &&& forall|i: int| 0 <= i < w.len() ==> entry_well_formed(#[trigger] w[i])
                &&& f == Seq::new(w.len(), |i: int| decoded_entry(w[i]))
            },
            Err(SchemaError::EmptyLayer { layer }) => {
                &&& layer < w.len()
                &&& w[layer as int].len() == 0
                &&& forall|i: int| 0 <= i < layer ==> entry_well_formed(#[trigger] w[i])
            },
            Err(SchemaError::AbsentPath { layer, position }) => {
                &&& layer < w.len()
                &&& 1 <= position < w[layer as int].len()
                &&& w[layer as int][position as int] is None
                &&& forall|j: int| 1 <= j < position ==> (#[trigger] w[layer as int][j]) is Some
                &&& forall|i: int| 0 <= i < layer ==> entry_well_formed(#[trigger] w[i])
            },
        },
    }
}

/// The view of an outcome of decoding.
pub open spec fn decode_view(r: Result<PenumbraFile, SchemaError>) -> Result<
    Seq<FileLayerView>,
    SchemaError,
> {
    match r {
        Ok(f) => Ok(f@),
        Err(e) => Err(e),
    }
}

/// Reads one stored list as a layer.
fn decode_entry(e: &Vec<Option<String>>, layer: usize) -> (r: Result<FileLayer, SchemaError>)
    ensures
        match r {
            Ok(l) => entry_well_formed(entry_view(*e)) && l@ == decoded_entry(entry_view(*e)),
            Err(SchemaError::EmptyLayer { layer: at }) => at == layer && e@.len() == 0,
            Err(SchemaError::AbsentPath { layer: at, position }) => {
                &&& at == layer
                &&& 1 <= position < e@.len()
                &&& e@[position as int] is None
                &&& forall|j: int| 1 <= j < position ==> (#[trigger] entry_view(*e)[j]) is Some
            },
        },
{
    if e.len() == 0 {
        return Err(SchemaError::EmptyLayer { layer });
    }
    let id = e[0].clone();
    let mut paths: Vec<String> = Vec::new();
    let mut j: usize = 1;
    while j < e.len()
        invariant
            1 <= j <= e@.len(),
            paths@.len() == j - 1,
            forall|k: int| 1 <= k < j ==> (#[trigger] e@[k]) is Some,
            forall|k: int| 0 <= k < j - 1 ==> (#[trigger] paths@[k])@ == e@[k + 1]->Some_0@,
        decreases e@.len() - j,
    {
        match &e[j] {
            Some(p) => {
                paths.push(p.clone());
            },
            None => {
                return Err(SchemaError::AbsentPath { layer, position: j });
            },
        }
        j += 1;
    }
    let l = FileLayer { id, paths };
    assert(l@.paths =~= decoded_entry(entry_view(*e)).paths);
    Ok(l)
}

impl PenumbraFile {
    /// Reads an override from either stored shape. A bare path is one layer
    /// without an id.
    pub fn decode(wire: &Paths) -> (r: Result<PenumbraFile, SchemaError>)
        ensures
            decodes_to(wire@, decode_view(r)),
    {
        match wire {
            Paths::Simple(s) => {
                let mut paths: Vec<String> = Vec::new();
                paths.push(s.clone());
                let mut layers: Vec<FileLayer> = Vec::new();
                layers.push(FileLayer { id: None, paths });
                let f = PenumbraFile(layers);
                assert(f@[0].paths =~= seq![s@]);
                assert(f@ =~= seq![FileLayerView { id: None, paths: seq![s@] }]);
                Ok(f)
            },
            Paths::Complex(w) => {
                let mut layers: Vec<FileLayer> = Vec::new();
                let mut i: usize = 0;
                while i < w.len()
                    invariant
                        i <= w@.len(),
                        layers@.len() == i,
                        wire@ == PathsView::Complex(Seq::new(w@.len(), |k: int| entry_view(w@[k]))),
                        forall|k: int| 0 <= k < i ==> entry_well_formed(#[trigger] wire@->Complex_0[k]),
                        forall|k: int|
                            0 <= k < i ==> (#[trigger] layers@[k])@ == decoded_entry(
                                wire@->Complex_0[k],
                            ),
                    decreases w@.len() - i,
                {
                    match decode_entry(&w[i], i) {
                        Ok(l) => {
                            layers.push(l);
                        },
                        Err(e) => {
                            assert(wire@->Complex_0[i as int] == entry_view(w@[i as int]));
                            return Err(e);
                        },
                    }
                    i += 1;
                }
                let f = PenumbraFile(layers);
                assert(f@ =~= Seq::new(
                    wire@->Complex_0.len(),
                    |k: int| decoded_entry(wire@->Complex_0[k]),
                ));
                Ok(f)
            },
        }
    }

    /// Writes an override in its list shape: one list per layer, the id or
    /// nothing in front.
    pub fn encode(&self) -> (wire: Paths)
        ensures
            wire@ == PathsView::Complex(encoded(self@)),
    {
        let mut lists: Vec<Vec<Option<String>>> = Vec::new();
        let mut i: usize = 0;
        while i < self.0.len()
            invariant
                i <= self.0@.len(),
                lists@.len() == i,
                forall|k: int|
                    0 <= k < i ==> entry_view(#[trigger] lists@[k]) == encoded_layer(self.0@[k]@),
            decreases self.0@.len() - i,
        {
            let layer = &self.0[i];
            let mut list: Vec<Option<String>> = Vec::new();
            list.push(layer.id.clone());
            let mut j: usize = 0;
            while j < layer.paths.len()
                invariant
                    j <= layer.paths@.len(),
                    list@.len() == j + 1,
                    text(list@[0]) == text(layer.id),
                    forall|k: int|
                        1 <= k < j + 1 ==> text(#[trigger] list@[k]) == Some(layer.paths@[k - 1]@),
                decreases layer.paths@.len() - j,
            {
                list.push(Some(layer.paths[j].clone()));
                j += 1;
            }
            assert(entry_view(list) =~= encoded_layer(layer@));
            lists.push(list);
            i += 1;
        }
        let wire = Paths::Complex(lists);
        assert(wire@->Complex_0 =~= encoded(self@));
        wire
    }
}

/// Stored data decodes to one outcome only: the layers, or the error of the first
/// fault.
pub proof fn decoding_is_single_valued(
    w: PathsView,
    r1: Result<Seq<FileLayerView>, SchemaError>,
    r2: Result<Seq<FileLayerView>, SchemaError>,
)
    requires
        decodes_to(w, r1),
        decodes_to(w, r2),
    ensures
        r1 == r2,
{
    if let PathsView::Complex(lists) = w {
        match (r1, r2) {
            (Ok(_), Ok(_)) => {},
            (Ok(_), Err(e)) => {
                lemma_fault_is_no_layer(lists, e);
            },
            (Err(e), Ok(_)) => {
                lemma_fault_is_no_layer(lists, e);
            },
            (Err(e1), Err(e2)) => {
                lemma_fault_is_no_layer(lists, e1);
                lemma_fault_is_no_layer(lists, e2);
                let l1 = fault_layer(e1);
                let l2 = fault_layer(e2);
                // the earlier of two faulty lists would be well formed
                assert(l1 == l2);
                if let SchemaError::AbsentPath { layer, position: one } = e1 {
                    if let SchemaError::AbsentPath { layer: _, position: other } = e2 {
                        assert(lists[layer as int][one as int] is None);
                        assert(lists[layer as int][other as int] is None);
                        assert(one == other);
                    }
                }
            },
        }
    }
}

/// The layer that an error names.
pub open spec fn fault_layer(e: SchemaError) -> usize {
    match e {
        SchemaError::EmptyLayer { layer } => layer,
        SchemaError::AbsentPath { layer, .. } => layer,
    }
}

proof fn lemma_fault_is_no_layer(lists: Seq<Seq<Option<Seq<char>>>>, e: SchemaError)
    requires
        decodes_to(PathsView::Complex(lists), Err(e)),
    ensures
        fault_layer(e) < lists.len(),
        !entry_well_formed(lists[fault_layer(e) as int]),
        forall|i: int| 0 <= i < fault_layer(e) ==> entry_well_formed(#[trigger] lists[i]),
{
    if let SchemaError::AbsentPath { layer, position } = e {
        assert(lists[layer as int][position as int] is None);
    }
}

/// What was written is read back as it was: the lists of any override decode to
/// that override.
pub proof fn encode_then_decode(f: Seq<FileLayerView>)
    ensures
        decodes_to(PathsView::Complex(encoded(f)), Ok(f)),
{
    let w = encoded(f);
    assert forall|i: int| 0 <= i < w.len() implies decoded_entry(#[trigger] w[i]) == f[i] by {
        assert(decoded_entry(w[i]).paths =~= f[i].paths);
    }
    assert(f =~= Seq::new(w.len(), |i: int| decoded_entry(w[i])));
}

/// What was read from lists is written as those lists.
pub proof fn decode_then_encode(w: Seq<Seq<Option<Seq<char>>>>, f: Seq<FileLayerView>)
    requires
        decodes_to(PathsView::Complex(w), Ok(f)),
    ensures
        encoded(f) == w,
{
    assert forall|i: int| 0 <= i < w.len() implies #[trigger] encoded(f)[i] == w[i] by {
        assert(entry_well_formed(w[i]));
        assert(encoded_layer(decoded_entry(w[i])) =~= w[i]);
    }
    assert(encoded(f) =~= w);
}

/// A bare path is not written back as it was read: it comes out as one list, with
/// nothing in the place of the id and the path behind it.
pub proof fn bare_path_is_stored_as_list(s: Seq<char>, f: Seq<FileLayerView>)
    requires
        decodes_to(PathsView::Simple(s), Ok(f)),
    ensures
        f == seq![FileLayerView { id: None, paths: seq![s] }],
        encoded(f) == seq![seq![None, Some(s)]],
{
    assert(encoded_layer(f[0]) =~= seq![None, Some(s)]);
    assert(encoded(f) =~= seq![seq![None, Some(s)]]);
}

} // verus!
