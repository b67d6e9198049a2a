//! Path → layer classification.
//!
//! Compiles each layer's `paths` and `exempt_files` globs once, then
//! classifies files by first match in declaration order.

use vstd::prelude::*;

use crate::config::{Config, Layer};
use crate::glob::fs_path::{self, list_error, list_valid, set_matches, strings_view, GlobError, GlobSet};

verus! {

pub struct CompiledLayer<'a> {
    pub layer: &'a Layer,
    pub paths: GlobSet,
    pub exempt: GlobSet,
}

pub struct LayerSet<'a> {
    pub layers: Vec<CompiledLayer<'a>>,
}

/// A layer whose `paths` or `exempt_files` holds a glob that `globset` rejects.
#[derive(Debug)]
pub struct LayerError {
    /// The layer's name.
    pub layer: String,
    /// `true` when the glob stands in `exempt_files`, `false` for `paths`.
    pub in_exempt_files: bool,
    pub glob: GlobError,
}

impl LayerError {
    /// ``layer `<name>` has invalid `paths`: <glob error>`` (or `exempt_files`).
    pub open spec fn message_spec(&self) -> Seq<char> {
        "layer `"@ + self.layer@ + (if self.in_exempt_files {
            "` has invalid `exempt_files`: "@
        } else {
            "` has invalid `paths`: "@
        }) + self.glob.message_spec()
    }

    pub fn message(&self) -> (r: String)
        ensures
            r@ == self.message_spec(),
    {
        let mut m = String::from_str("layer `");
        m.append(self.layer.as_str());
        if self.in_exempt_files {
            m.append("` has invalid `exempt_files`: ");
        } else {
            m.append("` has invalid `paths`: ");
        }
        let g = self.glob.message();
        m.append(g.as_str());
        m
    }
}

/// The layer's `paths` and `exempt_files` each build into a glob set.
pub open spec fn layer_globs_valid(l: Layer) -> bool {
    list_valid(strings_view(l.paths@)) && list_valid(strings_view(l.exempt_files@))
}

/// Every layer's globs are accepted.
pub open spec fn layers_valid(cfg: Config) -> bool {
    forall|i: int| 0 <= i < cfg.layers@.len() ==> layer_globs_valid(#[trigger] cfg.layers@[i])
}

/// `e` reports why the first layer whose globs do not build fails, `paths`
/// before `exempt_files`.
pub open spec fn layer_build_error(cfg: Config, e: LayerError) -> bool {
    exists|k: int|
        0 <= k < cfg.layers@.len() && (forall|j: int|
            0 <= j < k ==> layer_globs_valid(#[trigger] cfg.layers@[j])) && !layer_globs_valid(
            #[trigger] cfg.layers@[k],
        ) && e.layer@ == cfg.layers@[k].name@ && (!e.in_exempt_files ==> list_error(
            strings_view(cfg.layers@[k].paths@),
            e.glob,
        )) && (e.in_exempt_files ==> list_valid(strings_view(cfg.layers@[k].paths@)) && list_error(
            strings_view(cfg.layers@[k].exempt_files@),
            e.glob,
        ))
}

/// The layer at `i` is the first of `cfg` whose `paths` match `rel_path`.
pub open spec fn config_first_match(cfg: Config, rel_path: Seq<char>, i: int) -> bool {
    &&& 0 <= i < cfg.layers@.len()
    &&& set_matches(strings_view(cfg.layers@[i].paths@), rel_path)
    &&& forall|j: int|
        0 <= j < i ==> !set_matches(strings_view(#[trigger] cfg.layers@[j].paths@), rel_path)
}

/// `rel_path` is listed under `exempt_files` of the layer at `i` of `cfg`.
pub open spec fn config_exempt_at(cfg: Config, i: int, rel_path: Seq<char>) -> bool {
    set_matches(strings_view(cfg.layers@[i].exempt_files@), rel_path)
}

impl<'a> LayerSet<'a> {
    /// A set compiled from `cfg` classifies as `cfg` describes.
    pub proof fn lemma_first_match(&self, cfg: &'a Config, rel_path: Seq<char>, i: int)
        requires
            self.compiles(cfg),
        ensures
            self.first_match(rel_path, i) == config_first_match(*cfg, rel_path, i),
    {
        if 0 <= i < self.layers@.len() {
            assert(self.layers@[i].paths.globs() == strings_view(cfg.layers@[i].paths@));
            assert forall|j: int| 0 <= j < i implies self.layers@[j].paths.globs() == strings_view(
                cfg.layers@[j].paths@,
            ) by {
                assert(self.layers@[j].paths.globs() == strings_view(cfg.layers@[j].paths@));
            }
            if self.first_match(rel_path, i) {
                assert forall|j: int| 0 <= j < i implies !set_matches(
                    strings_view(#[trigger] cfg.layers@[j].paths@),
                    rel_path,
                ) by {
                    assert(!set_matches(self.layers@[j].paths.globs(), rel_path));
                }
            }
            if config_first_match(*cfg, rel_path, i) {
                assert forall|j: int| 0 <= j < i implies !set_matches(
                    #[trigger] self.layers@[j].paths.globs(),
                    rel_path,
                ) by {
                    assert(!set_matches(strings_view(cfg.layers@[j].paths@), rel_path));
                }
            }
        }
    }

    /// The set compiles the layers of `cfg`, in declaration order.
    pub open spec fn compiles(&self, cfg: &'a Config) -> bool {
        &&& self.layers@.len() == cfg.layers@.len()
        &&& forall|i: int|
            0 <= i < self.layers@.len() ==> {
                let c = #[trigger] self.layers@[i];
                &&& *c.layer == cfg.layers@[i]
                &&& c.paths.globs() == strings_view(cfg.layers@[i].paths@)
                &&& c.exempt.globs() == strings_view(cfg.layers@[i].exempt_files@)
            }
    }

    /// The layer at `i` is the first whose `paths` match `rel_path`.
    pub open spec fn first_match(&self, rel_path: Seq<char>, i: int) -> bool {
        &&& 0 <= i < self.layers@.len()
        &&& set_matches(self.layers@[i].paths.globs(), rel_path)
        &&& forall|j: int| 0 <= j < i ==> !set_matches(#[trigger] self.layers@[j].paths.globs(), rel_path)
    }

    /// At most one layer is the first to match a path.
    pub proof fn lemma_first_match_unique(&self, rel_path: Seq<char>, i: int, j: int)
        requires
            self.first_match(rel_path, i),
            self.first_match(rel_path, j),
        ensures
            i == j,
    {
        if i < j {
            assert(!set_matches(self.layers@[i].paths.globs(), rel_path));
        } else if j < i {
            assert(!set_matches(self.layers@[j].paths.globs(), rel_path));
        }
    }

    /// Compile every layer's glob sets up front.
    pub fn build(cfg: &'a Config) -> (r: Result<LayerSet<'a>, LayerError>)
        ensures
            match r {
                Ok(set) => set.compiles(cfg) && layers_valid(*cfg),
                Err(e) => layer_build_error(*cfg, e),
            },
    {
        let mut layers: Vec<CompiledLayer<'a>> = Vec::new();
        let mut i: usize = 0;
        while i < cfg.layers.len()
            invariant
                i <= cfg.layers@.len(),
                layers@.len() == i,
                forall|j: int| 0 <= j < i ==> layer_globs_valid(#[trigger] cfg.layers@[j]),
                forall|j: int|
                    0 <= j < i ==> {
                        let c = #[trigger] layers@[j];
                        &&& *c.layer == cfg.layers@[j]
                        &&& c.paths.globs() == strings_view(cfg.layers@[j].paths@)
                        &&& c.exempt.globs() == strings_view(cfg.layers@[j].exempt_files@)
                    },
            decreases cfg.layers@.len() - i,
        {
            let layer = &cfg.layers[i];
            let paths = match fs_path::build_set(layer.paths.as_slice()) {
                Ok(s) => s,
                Err(g) => {
                    return Err(
                        LayerError { layer: layer.name.clone(), in_exempt_files: false, glob: g },
                    );
                },
            };
            let exempt = match fs_path::build_set(layer.exempt_files.as_slice()) {
                Ok(s) => s,
                Err(g) => {
                    return Err(
                        LayerError { layer: layer.name.clone(), in_exempt_files: true, glob: g },
                    );
                },
            };
            layers.push(CompiledLayer { layer, paths, exempt });
            i = i + 1;
        }
        Ok(LayerSet { layers })
    }

    /// First layer in declaration order whose `paths` matches `rel_path`.
    pub fn classify(&self, rel_path: &str) -> (r: Option<&'a Layer>)
        ensures
            match r {
                Some(l) => exists|i: int| self.first_match(rel_path@, i) && *l == *self.layers@[i].layer,
                None => forall|i: int|
                    0 <= i < self.layers@.len() ==> !set_matches(
                        #[trigger] self.layers@[i].paths.globs(),
                        rel_path@,
                    ),
            },
    {
        let mut i: usize = 0;
        while i < self.layers.len()
            invariant
                i <= self.layers@.len(),
                forall|j: int|
                    0 <= j < i ==> !set_matches(#[trigger] self.layers@[j].paths.globs(), rel_path@),
            decreases self.layers@.len() - i,
        {
            if fs_path::matches(&self.layers[i].paths, rel_path) {
                assert(self.first_match(rel_path@, i as int));
                return Some(self.layers[i].layer);
            }
            i = i + 1;
        }
        None
    }

    /// Like [`LayerSet::classify`], but gives the position of the layer in
    /// declaration order.
    pub fn classify_index(&self, rel_path: &str) -> (r: Option<usize>)
        ensures
            match r {
                Some(i) => self.first_match(rel_path@, i as int),
                None => forall|i: int|
                    0 <= i < self.layers@.len() ==> !set_matches(
                        #[trigger] self.layers@[i].paths.globs(),
                        rel_path@,
                    ),
            },
    {
        let mut i: usize = 0;
        while i < self.layers.len()
            invariant
                i <= self.layers@.len(),
                forall|j: int|
                    0 <= j < i ==> !set_matches(#[trigger] self.layers@[j].paths.globs(), rel_path@),
            decreases self.layers@.len() - i,
        {
            if fs_path::matches(&self.layers[i].paths, rel_path) {
                assert(self.first_match(rel_path@, i as int));
                return Some(i);
            }
            i = i + 1;
        }
        None
    }

    /// Is `rel_path` listed under `exempt_files` of the layer at
    /// `layer_index` (the position [`LayerSet::classify_index`] gives)? A
    /// position past the last layer names no layer, and exempts nothing.
    pub fn is_exempt(&self, layer_index: usize, rel_path: &str) -> (r: bool)
        ensures
            r == (layer_index < self.layers@.len() && set_matches(
                self.layers@[layer_index as int].exempt.globs(),
                rel_path@,
            )),
    {
        if layer_index < self.layers.len() {
            fs_path::matches(&self.layers[layer_index].exempt, rel_path)
        } else {
            false
        }
    }
}

} // verus!
