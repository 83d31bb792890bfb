//! The asset files a config names: vector files with the layers to read,
//! raster files and JSON text files, and the plan for loading them.
use vstd::prelude::*;
use std::path::Path;
use crate::text::{split_on, split_seq, string_views};
use crate::derive_rules::opt_text;

verus! {

/// The extension std's `Path::extension` finds in a file name, if any.
pub uninterp spec fn path_extension(name: Seq<char>) -> Option<Seq<char>>;

/// The stem std's `Path::file_stem` finds in a file name, if any.
pub uninterp spec fn path_file_stem(name: Seq<char>) -> Option<Seq<char>>;

/// Reads the extension of a file name with `std::path::Path::extension`;
/// trusted to give `path_extension` of the name. A name is valid UTF-8, so
/// the part of it that is the extension is too and is kept as it is.
#[verifier::external_body]
fn extension_of(name: &str) -> (r: Option<String>)
    ensures
        opt_text(r) == path_extension(name@),
{
    Path::new(name).extension().map(|e| e.to_string_lossy().into_owned())
}

/// Reads the stem of a file name with `std::path::Path::file_stem`;
/// trusted to give `path_file_stem` of the name, kept as it is for the same
/// reason as the extension.
#[verifier::external_body]
fn file_stem_of(name: &str) -> (r: Option<String>)
    ensures
        opt_text(r) == path_file_stem(name@),
{
    Path::new(name).file_stem().map(|e| e.to_string_lossy().into_owned())
}

/// A JSON file whose content is kept as text.
#[derive(Clone, Debug)]
pub struct JsonStringFile {
    pub name: String,
    pub content: String,
}

impl JsonStringFile {
    /// The file's path, which is its name.
    pub fn path(&self) -> (r: &str)
        ensures
            r@ == self.name@,
    {
        self.name.as_str()
    }
}

/// A raster image file.
#[derive(Clone, Debug)]
pub struct RasterFile {
    pub name: String,
}

impl RasterFile {
    /// The file's path, which is its name.
    pub fn path(&self) -> (r: &str)
        ensures
            r@ == self.name@,
    {
        self.name.as_str()
    }
}

/// A vector file and the comma-separated names of the layers to read.
#[derive(Clone, Debug)]
pub struct PolylineLayerFile {
    pub name: String,
    pub layers: String,
}

impl PolylineLayerFile {
    pub fn new(name: String, layers: String) -> (r: PolylineLayerFile)
        ensures
            r.name@ == name@,
            r.layers@ == layers@,
    {
        PolylineLayerFile { name, layers }
    }

    /// The file's path, which is its name.
    pub fn path(&self) -> (r: &str)
        ensures
            r@ == self.name@,
    {
        self.name.as_str()
    }
}

/// The asset files a config names.
#[derive(Clone, Debug)]
pub struct AssetFilenames {
    pub vector_files: Vec<PolylineLayerFile>,
    pub raster_files: Vec<RasterFile>,
    /// loaded as plain text
    pub json_files: Vec<JsonStringFile>,
}

/// The control form of the asset files: every field is taken as written.
pub type ControlAssetFilenames = AssetFilenames;

/// The lazy control form of the asset files, the same as the control form.
pub type ControlLazyAssetFilenames = AssetFilenames;

/// No asset files, the default of the control form.
pub fn _empty_filenames() -> (r: ControlAssetFilenames)
    ensures
        r.vector_files@.len() == 0,
        r.raster_files@.len() == 0,
        r.json_files@.len() == 0,
{
    AssetFilenames::empty()
}

/// No asset files, the default of the lazy control form.
pub fn _empty_filenames_lazy() -> (r: ControlLazyAssetFilenames)
    ensures
        r.vector_files@.len() == 0,
        r.raster_files@.len() == 0,
        r.json_files@.len() == 0,
{
    AssetFilenames::empty()
}

/// One vector file to hand to the loaders that match its extension.
pub struct VectorLoad {
    /// the key the loaded asset is stored under
    pub stem: String,
    pub extension: String,
    pub layers: Vec<String>,
    /// the path to load
    pub name: String,
}

/// One raster file to hand to the loaders that match its extension.
pub struct RasterLoad {
    pub stem: String,
    pub extension: String,
    pub name: String,
}

/// The model of a vector load.
pub struct VectorLoadModel {
    pub stem: Seq<char>,
    pub extension: Seq<char>,
    pub layers: Seq<Seq<char>>,
    pub name: Seq<char>,
}

/// The model of a raster load.
pub struct RasterLoadModel {
    pub stem: Seq<char>,
    pub extension: Seq<char>,
    pub name: Seq<char>,
}

impl View for VectorLoad {
    type V = VectorLoadModel;

    open spec fn view(&self) -> VectorLoadModel {
        VectorLoadModel {
            stem: self.stem@,
            extension: self.extension@,
            layers: string_views(self.layers@),
            name: self.name@,
        }
    }
}

impl View for RasterLoad {
    type V = RasterLoadModel;

    open spec fn view(&self) -> RasterLoadModel {
        RasterLoadModel { stem: self.stem@, extension: self.extension@, name: self.name@ }
    }
}

/// A file's stem, empty where it has none.
pub open spec fn stem_or_empty(name: Seq<char>) -> Seq<char> {
    match path_file_stem(name) {
        Some(s) => s,
        None => Seq::empty(),
    }
}

/// The loads of the vector files that have an extension, in order; files
/// without one are passed over.
pub open spec fn vector_plan(files: Seq<PolylineLayerFile>) -> Seq<VectorLoadModel>
    decreases files.len(),
{
    if files.len() == 0 {
        Seq::empty()
    } else {
        let rest = vector_plan(files.drop_last());
        let f = files.last();
        match path_extension(f.name@) {
            Some(ext) => rest.push(VectorLoadModel {
                stem: stem_or_empty(f.name@),
                extension: ext,
                layers: split_seq(f.layers@, ','),
                name: f.name@,
            }),
            None => rest,
        }
    }
}

/// The loads of the raster files that have an extension, in order.
pub open spec fn raster_plan(files: Seq<RasterFile>) -> Seq<RasterLoadModel>
    decreases files.len(),
{
    if files.len() == 0 {
        Seq::empty()
    } else {
        let rest = raster_plan(files.drop_last());
        let f = files.last();
        match path_extension(f.name@) {
            Some(ext) => rest.push(RasterLoadModel { stem: stem_or_empty(f.name@), extension: ext, name: f.name@ }),
            None => rest,
        }
    }
}

/// The stem of a file name, empty where it has none.
fn stem_text(name: &str) -> (r: String)
    ensures
        r@ == stem_or_empty(name@),
{
    match file_stem_of(name) {
        Some(s) => s,
        None => String::new(),
    }
}

impl AssetFilenames {
    /// No asset files.
    pub fn empty() -> (r: AssetFilenames)
        ensures
            r.vector_files@.len() == 0,
            r.raster_files@.len() == 0,
            r.json_files@.len() == 0,
    {
        AssetFilenames { vector_files: Vec::new(), raster_files: Vec::new(), json_files: Vec::new() }
    }

    /// What to load of the vector files: for each with an extension, the
    /// stem it is stored under, the extension the loaders are matched on,
    /// and its layer names split at commas.
    pub fn vector_loads(&self) -> (r: Vec<VectorLoad>)
        ensures
            r@.map_values(|l: VectorLoad| l@) == vector_plan(self.vector_files@),
    {
        let mut out: Vec<VectorLoad> = Vec::new();
        let mut i: usize = 0;
        while i < self.vector_files.len()
            invariant
                i <= self.vector_files@.len(),
                out@.map_values(|l: VectorLoad| l@) == vector_plan(self.vector_files@.take(i as int)),
            decreases self.vector_files@.len() - i,
        {
            let f = &self.vector_files[i];
            proof {
                assert(self.vector_files@.take(i as int + 1).drop_last() =~= self.vector_files@.take(i as int));
            }
            match extension_of(f.name.as_str()) {
                Some(ext) => {
                    let load = VectorLoad {
                        stem: stem_text(f.name.as_str()),
                        extension: ext,
                        layers: split_on(f.layers.as_str(), ','),
                        name: f.name.clone(),
                    };
                    let ghost prev = out@;
                    out.push(load);
                    proof {
                        assert(out@.map_values(|l: VectorLoad| l@) =~= prev.map_values(|l: VectorLoad| l@).push(load@));
                    }
                },
                None => {},
            }
            i = i + 1;
        }
        proof { assert(self.vector_files@.take(self.vector_files@.len() as int) =~= self.vector_files@); }
        out
    }

    /// What to load of the raster files, as for the vector files.
    pub fn raster_loads(&self) -> (r: Vec<RasterLoad>)
        ensures
            r@.map_values(|l: RasterLoad| l@) == raster_plan(self.raster_files@),
    {
        let mut out: Vec<RasterLoad> = Vec::new();
        let mut i: usize = 0;
        while i < self.raster_files.len()
            invariant
                i <= self.raster_files@.len(),
                out@.map_values(|l: RasterLoad| l@) == raster_plan(self.raster_files@.take(i as int)),
            decreases self.raster_files@.len() - i,
        {
            let f = &self.raster_files[i];
            proof {
                assert(self.raster_files@.take(i as int + 1).drop_last() =~= self.raster_files@.take(i as int));
            }
            match extension_of(f.name.as_str()) {
                Some(ext) => {
                    let load = RasterLoad { stem: stem_text(f.name.as_str()), extension: ext, name: f.name.clone() };
                    let ghost prev = out@;
                    out.push(load);
                    proof {
                        assert(out@.map_values(|l: RasterLoad| l@) =~= prev.map_values(|l: RasterLoad| l@).push(load@));
                    }
                },
                None => {},
            }
            i = i + 1;
        }
        proof { assert(self.raster_files@.take(self.raster_files@.len() as int) =~= self.raster_files@); }
        out
    }
}

/// Whether a raster file has an extension, so that it is loaded.
pub open spec fn raster_loadable(f: RasterFile) -> bool {
    path_extension(f.name@) is Some
}

/// Whether a vector file has an extension, so that it is loaded.
pub open spec fn vector_loadable(f: PolylineLayerFile) -> bool {
    path_extension(f.name@) is Some
}

/// The test of which raster files are loaded.
pub open spec fn raster_pred() -> spec_fn(RasterFile) -> bool {
    |f: RasterFile| raster_loadable(f)
}

/// The test of which vector files are loaded.
pub open spec fn vector_pred() -> spec_fn(PolylineLayerFile) -> bool {
    |f: PolylineLayerFile| vector_loadable(f)
}

/// The raster loads are the raster files that have an extension, in order,
/// each handed to the loader by the path it was configured with; every
/// load's extension and stem are those of that path.
pub proof fn law_raster_loads_name_their_files(files: Seq<RasterFile>)
    ensures
        raster_plan(files).map_values(|l: RasterLoadModel| l.name)
            == files.filter(raster_pred()).map_values(|f: RasterFile| f.name@),
        forall|k: int| 0 <= k < raster_plan(files).len() ==> {
            let l = #[trigger] raster_plan(files)[k];
            &&& path_extension(l.name) == Some(l.extension)
            &&& l.stem == (match path_file_stem(l.name) { Some(t) => t, None => Seq::<char>::empty() })
        },
    decreases files.len(),
{
    reveal(Seq::filter);
    if files.len() > 0 {
        law_raster_loads_name_their_files(files.drop_last());
        let rest = raster_plan(files.drop_last());
        let kept = files.drop_last().filter(raster_pred());
        assert(files.filter(raster_pred())
            == (if raster_loadable(files.last()) { kept.push(files.last()) } else { kept }));
        if raster_loadable(files.last()) {
            assert(raster_plan(files).map_values(|l: RasterLoadModel| l.name)
                =~= rest.map_values(|l: RasterLoadModel| l.name).push(files.last().name@));
            assert(kept.push(files.last()).map_values(|f: RasterFile| f.name@)
                =~= kept.map_values(|f: RasterFile| f.name@).push(files.last().name@));
            assert forall|k: int| 0 <= k < raster_plan(files).len() implies {
                let l = #[trigger] raster_plan(files)[k];
                &&& path_extension(l.name) == Some(l.extension)
                &&& l.stem == (match path_file_stem(l.name) { Some(t) => t, None => Seq::<char>::empty() })
            } by {
                if k < rest.len() {
                    assert(raster_plan(files)[k] == rest[k]);
                }
            }
        }
    } else {
        assert(raster_plan(files).map_values(|l: RasterLoadModel| l.name) =~= Seq::<Seq<char>>::empty());
        assert(files.filter(raster_pred()).map_values(|f: RasterFile| f.name@) =~= Seq::<Seq<char>>::empty());
    }
}

/// The vector loads are the vector files that have an extension, in order,
/// each handed to the loader by its configured path with its layer list
/// split at commas; every load's extension and stem are those of that path.
pub proof fn law_vector_loads_name_their_files(files: Seq<PolylineLayerFile>)
    ensures
        vector_plan(files).map_values(|l: VectorLoadModel| (l.name, l.layers))
            == files.filter(vector_pred())
                .map_values(|f: PolylineLayerFile| (f.name@, split_seq(f.layers@, ','))),
        forall|k: int| 0 <= k < vector_plan(files).len() ==> {
            let l = #[trigger] vector_plan(files)[k];
            &&& path_extension(l.name) == Some(l.extension)
            &&& l.stem == (match path_file_stem(l.name) { Some(t) => t, None => Seq::<char>::empty() })
        },
    decreases files.len(),
{
    reveal(Seq::filter);
    if files.len() > 0 {
        law_vector_loads_name_their_files(files.drop_last());
        let rest = vector_plan(files.drop_last());
        let kept = files.drop_last().filter(vector_pred());
        let last = files.last();
        assert(files.filter(vector_pred())
            == (if vector_loadable(last) { kept.push(last) } else { kept }));
        if vector_loadable(last) {
            assert(vector_plan(files).map_values(|l: VectorLoadModel| (l.name, l.layers))
                =~= rest.map_values(|l: VectorLoadModel| (l.name, l.layers)).push((last.name@, split_seq(last.layers@, ','))));
            assert(kept.push(last).map_values(|f: PolylineLayerFile| (f.name@, split_seq(f.layers@, ',')))
                =~= kept.map_values(|f: PolylineLayerFile| (f.name@, split_seq(f.layers@, ','))).push((last.name@, split_seq(last.layers@, ','))));
            assert forall|k: int| 0 <= k < vector_plan(files).len() implies {
                let l = #[trigger] vector_plan(files)[k];
                &&& path_extension(l.name) == Some(l.extension)
                &&& l.stem == (match path_file_stem(l.name) { Some(t) => t, None => Seq::<char>::empty() })
            } by {
                if k < rest.len() {
                    assert(vector_plan(files)[k] == rest[k]);
                }
            }
        }
    } else {
        assert(vector_plan(files).map_values(|l: VectorLoadModel| (l.name, l.layers)) =~= Seq::<(Seq<char>, Seq<Seq<char>>)>::empty());
        assert(files.filter(vector_pred()).map_values(|f: PolylineLayerFile| (f.name@, split_seq(f.layers@, ','))) =~= Seq::<(Seq<char>, Seq<Seq<char>>)>::empty());
    }
}

} // verus!
