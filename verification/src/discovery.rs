//! Model discovery: uniform ingestion of models from directories,
//! URLs, explicit identifiers and the remote catalog into a registry of
//! per-model request buffers.
//!
//! Filesystem and network questions are answered by the host: a
//! directory source arrives as the list of its immediate entries, a
//! catalog source as the models it returned.  Registration itself is
//! then a pure, verified function of those values.

use vstd::prelude::*;
use crate::errors::EngineError;
use crate::inference::InferenceRequest;
use crate::mlflow::MLFlowClientTrait;
use crate::mlflow::MLFlowModel;
use crate::model_id::ModelId;
use crate::model_id::find_name;
use crate::model_id::lemma_find_name_absent;
use crate::model_id::lemma_find_name_found;
use crate::model_id::lemma_find_name_missing;
use crate::model_id::spec_id_from_path;
use crate::model_id::spec_id_from_url;
use crate::ring::CircularBuffer;
use crate::ring::pushed_contents;

verus! {

/// Where models may be discovered.  A path is scanned when it is a
/// directory, otherwise read as a model file; a URL contributes its
/// final segment; an identifier is taken as given; a catalog source
/// fetches one model by name or lists all of them.
pub enum ModelSource {
    Path(String),
    Url(String),
    Id(String),
    MLFlow { base_url: String, api_token: Option<String>, model_name: Option<String> },
}

/// A discovery source with its outside questions answered by the host:
/// whether a path is a directory, what the directory holds, and what
/// the remote catalog returned.  Registration is a pure function of
/// these values.
pub enum ResolvedSource {
    /// A path that is not a directory.
    File(String),
    /// The immediate entries of a directory, as paths.
    Dir(Vec<String>),
    Url(String),
    Id(String),
    /// Models fetched from the remote catalog.
    RegistryModels(Vec<MLFlowModel>),
}

/// The names that registering `ids` against the registry names
/// `existing` leaves registered: discovery is additive, and an already
/// known name changes nothing.
pub open spec fn register_names(existing: Seq<Seq<char>>, ids: Seq<Seq<char>>) -> Seq<Seq<char>>
    decreases ids.len(),
{
    if ids.len() == 0 {
        existing
    } else {
        let next = if existing.contains(ids[0]) {
            existing
        } else {
            existing.push(ids[0])
        };
        register_names(next, ids.drop_first())
    }
}

/// Identities a directory listing yields: one per entry whose path
/// carries a valid model file name.
pub open spec fn dir_ids(paths: Seq<Seq<char>>) -> Seq<Seq<char>>
    decreases paths.len(),
{
    if paths.len() == 0 {
        Seq::empty()
    } else {
        let head: Seq<Seq<char>> = match spec_id_from_path(paths[0]) {
            Some(id) => seq![id],
            None => Seq::empty(),
        };
        head + dir_ids(paths.drop_first())
    }
}

/// Identities one resolved source yields, in order.
pub open spec fn ids_of_source(source: ResolvedSource) -> Seq<Seq<char>> {
    match source {
        ResolvedSource::File(p) => match spec_id_from_path(p@) {
            Some(id) => seq![id],
            None => Seq::empty(),
        },
        ResolvedSource::Dir(entries) => dir_ids(entries@.map_values(|e: String| e@)),
        ResolvedSource::Url(u) => match spec_id_from_url(u@) {
            Some(id) => seq![id],
            None => Seq::empty(),
        },
        ResolvedSource::Id(s) => seq![s@],
        ResolvedSource::RegistryModels(models) => models@.map_values(|m: MLFlowModel| m.name@),
    }
}

/// Identities a whole list of resolved sources yields, in order.
pub open spec fn ids_of_sources(sources: Seq<ResolvedSource>) -> Seq<Seq<char>>
    decreases sources.len(),
{
    if sources.len() == 0 {
        Seq::empty()
    } else {
        ids_of_source(sources[0]) + ids_of_sources(sources.drop_first())
    }
}

/// Registry of discovered models, each with its own request buffer.
pub struct ModelDiscoveryService {
    models: Vec<(ModelId, CircularBuffer<InferenceRequest>)>,
    models_buffer_capacity: usize,
}

/// The discovery registry under its historical name.
pub type ModelManager = ModelDiscoveryService;

impl ModelDiscoveryService {
    pub closed spec fn spec_entries(&self) -> Seq<(ModelId, CircularBuffer<InferenceRequest>)> {
        self.models@
    }

    pub closed spec fn spec_buffer_capacity(&self) -> int {
        self.models_buffer_capacity as int
    }

    /// The registered names, in registration order.
    pub open spec fn spec_names(&self) -> Seq<Seq<char>> {
        self.spec_entries().map_values(|e: (ModelId, CircularBuffer<InferenceRequest>)| e.0@)
    }

    pub open spec fn spec_contains(&self, name: Seq<char>) -> bool {
        find_name(self.spec_entries(), name) >= 0
    }

    pub open spec fn wf(&self) -> bool {
        &&& 1 <= self.spec_buffer_capacity()
        &&& forall|i: int, j: int|
            0 <= i < j < self.spec_entries().len() ==> (#[trigger] self.spec_entries()[i]).0@ != (
            #[trigger] self.spec_entries()[j]).0@
        &&& forall|i: int|
            0 <= i < self.spec_entries().len() ==> {
                let e = #[trigger] self.spec_entries()[i];
                &&& e.1.wf()
                &&& e.1.spec_capacity() == self.spec_buffer_capacity()
            }
    }

    pub fn new(models_buffer_capacity: usize) -> (r: Self)
        requires
            1 <= models_buffer_capacity,
        ensures
            r.wf(),
            r.spec_entries().len() == 0,
            r.spec_buffer_capacity() == models_buffer_capacity,
    {
        ModelDiscoveryService { models: Vec::new(), models_buffer_capacity }
    }

    fn find_entry(&self, name: &str) -> (r: Option<usize>)
        ensures
            match r {
                Some(i) => i < self.spec_entries().len() && self.spec_entries()[i as int].0@
                    == name@ && find_name(self.spec_entries(), name@) == i,
                None => find_name(self.spec_entries(), name@) == -1,
            },
    {
        let mut i: usize = 0;
        let total = self.models.len();
        while i < total
            invariant
                i <= total,
                total == self.spec_entries().len(),
                forall|j: int| 0 <= j < i ==> (#[trigger] self.spec_entries()[j]).0@ != name@,
            decreases total - i,
        {
            if crate::inference::str_eq(self.models[i].0.name(), name) {
                proof {
                    lemma_find_name_found(self.spec_entries(), name@, i as int);
                }
                return Some(i);
            }
            i = i + 1;
        }
        proof {
            lemma_find_name_missing(self.spec_entries(), name@);
        }
        None
    }

    /// Registers a model: a fresh empty buffer for a new name, a no-op
    /// for a name already registered.
    pub fn register_model(&mut self, model_id: ModelId)
        requires
            old(self).wf(),
        ensures
            final(self).wf(),
            final(self).spec_buffer_capacity() == old(self).spec_buffer_capacity(),
            final(self).spec_names() == register_names(old(self).spec_names(), seq![model_id@]),
            old(self).spec_contains(model_id@) ==> final(self).spec_entries() == old(
                self,
            ).spec_entries(),
            !old(self).spec_contains(model_id@) ==> ({
                let entries = final(self).spec_entries();
                let prev = old(self).spec_entries();
                &&& entries.len() == prev.len() + 1
                &&& forall|j: int| 0 <= j < prev.len() ==> entries[j] == prev[j]
                &&& entries.last().0@ == model_id@
                &&& entries.last().1@ == Seq::<InferenceRequest>::empty()
                &&& entries.last().1.spec_capacity() == old(self).spec_buffer_capacity()
            }),
    {
        proof {
            lemma_contains_matches_find(old(self).spec_entries(), model_id@);
            lemma_register_single(old(self).spec_names(), model_id@);
        }
        match self.find_entry(model_id.0.as_str()) {
            Some(_) => {},
            None => {
                let buffer = CircularBuffer::new(self.models_buffer_capacity);
                self.models.push((model_id, buffer));
                proof {
                    lemma_find_name_absent(old(self).spec_entries(), self.spec_entries().last().0@);
                    assert forall|i: int, j: int|
                        0 <= i < j < self.spec_entries().len() implies (
                    #[trigger] self.spec_entries()[i]).0@ != (
                    #[trigger] self.spec_entries()[j]).0@ by {
                        if j == self.spec_entries().len() - 1 {
                            assert(old(self).spec_entries()[i].0@
                                != self.spec_entries().last().0@);
                        }
                    }
                    assert(self.spec_names() =~= old(self).spec_names().push(
                        self.spec_entries().last().0@,
                    ));
                }
            },
        }
    }

    /// Pushes a request into its model's buffer, registering the model
    /// first when it is unknown; the buffer overwrites its oldest entry
    /// when full.
    pub fn add_request(&mut self, model_id: ModelId, req: InferenceRequest)
        requires
            old(self).wf(),
        ensures
            final(self).wf(),
            final(self).spec_buffer_capacity() == old(self).spec_buffer_capacity(),
            final(self).spec_names() == register_names(old(self).spec_names(), seq![model_id@]),
            old(self).spec_contains(model_id@) ==> ({
                let i = find_name(old(self).spec_entries(), model_id@);
                let entries = final(self).spec_entries();
                let prev = old(self).spec_entries()[i];
                &&& entries.len() == old(self).spec_entries().len()
                &&& entries[i].0 == prev.0
                &&& entries[i].1@ == pushed_contents(
                    prev.1@,
                    prev.1.spec_cursor(),
                    prev.1.spec_capacity(),
                    req,
                )
                &&& forall|j: int|
                    0 <= j < entries.len() && j != i ==> entries[j] == old(self).spec_entries()[j]
            }),
            !old(self).spec_contains(model_id@) ==> ({
                let entries = final(self).spec_entries();
                &&& entries.len() == old(self).spec_entries().len() + 1
                &&& entries.last().0@ == model_id@
                &&& entries.last().1@ == seq![req]
                &&& forall|j: int|
                    0 <= j < entries.len() - 1 ==> entries[j] == old(self).spec_entries()[j]
            }),
    {
        proof {
            lemma_contains_matches_find(old(self).spec_entries(), model_id@);
            lemma_register_single(old(self).spec_names(), model_id@);
        }
        match self.find_entry(model_id.0.as_str()) {
            Some(i) => {
                let buffer = &mut self.models[i].1;
                buffer.push(req);
                proof {
                    assert(self.spec_names() =~= old(self).spec_names());
                }
            },
            None => {
                let mut buffer = CircularBuffer::new(self.models_buffer_capacity);
                buffer.push(req);
                self.models.push((model_id, buffer));
                proof {
                    assert(self.spec_entries().last().1@ =~= seq![req]);
                    lemma_find_name_absent(old(self).spec_entries(), self.spec_entries().last().0@);
                    assert forall|i: int, j: int|
                        0 <= i < j < self.spec_entries().len() implies (
                    #[trigger] self.spec_entries()[i]).0@ != (
                    #[trigger] self.spec_entries()[j]).0@ by {
                        if j == self.spec_entries().len() - 1 {
                            assert(old(self).spec_entries()[i].0@
                                != self.spec_entries().last().0@);
                        }
                    }
                    assert(self.spec_names() =~= old(self).spec_names().push(
                        self.spec_entries().last().0@,
                    ));
                }
            },
        }
    }

    /// Every registered identity, in registration order.
    pub fn get_models(&self) -> (r: Vec<ModelId>)
        ensures
            r@.len() == self.spec_entries().len(),
            forall|i: int|
                0 <= i < r@.len() ==> (#[trigger] r@[i])@ == self.spec_entries()[i].0@,
    {
        let mut out: Vec<ModelId> = Vec::new();
        let total = self.models.len();
        let mut i: usize = 0;
        while i < total
            invariant
                i <= total,
                total == self.spec_entries().len(),
                out@.len() == i,
                forall|m: int|
                    0 <= m < i ==> (#[trigger] out@[m])@ == self.spec_entries()[m].0@,
            decreases total - i,
        {
            let id = self.models[i].0.clone();
            out.push(id);
            i = i + 1;
        }
        out
    }
}

impl ModelDiscoveryService {
    /// Registers every directory entry whose path names a model file,
    /// in listing order, and returns their identities — also those that
    /// were already registered.
    pub fn register_from_dir_listing(&mut self, entries: &Vec<String>) -> (r: Vec<ModelId>)
        requires
            old(self).wf(),
        ensures
            final(self).wf(),
            final(self).spec_buffer_capacity() == old(self).spec_buffer_capacity(),
            r@.map_values(|id: ModelId| id@) == dir_ids(entries@.map_values(|e: String| e@)),
            final(self).spec_names() == register_names(
                old(self).spec_names(),
                dir_ids(entries@.map_values(|e: String| e@)),
            ),
    {
        let ghost all_paths = entries@.map_values(|e: String| e@);
        let mut out: Vec<ModelId> = Vec::new();
        let total = entries.len();
        let mut i: usize = 0;
        proof {
            assert(all_paths.take(0) =~= Seq::<Seq<char>>::empty());
        }
        while i < total
            invariant
                i <= total,
                total == entries@.len(),
                all_paths == entries@.map_values(|e: String| e@),
                self.wf(),
                self.spec_buffer_capacity() == old(self).spec_buffer_capacity(),
                out@.map_values(|id: ModelId| id@) == dir_ids(all_paths.take(i as int)),
                self.spec_names() == register_names(
                    old(self).spec_names(),
                    dir_ids(all_paths.take(i as int)),
                ),
            decreases total - i,
        {
            proof {
                assert(all_paths.take(i + 1) =~= all_paths.take(i as int).push(all_paths[i as int]));
                lemma_dir_ids_snoc(all_paths.take(i as int), all_paths[i as int]);
            }
            let ghost names_before = self.spec_names();
            match ModelId::from_path(entries[i].as_str()) {
                Some(id) => {
                    let key = id.clone();
                    self.register_model(key);
                    out.push(id);
                    proof {
                        lemma_register_names_app(
                            old(self).spec_names(),
                            dir_ids(all_paths.take(i as int)),
                            seq![out@.last()@],
                        );
                        assert(dir_ids(all_paths.take(i as int)) + seq![out@.last()@] =~= dir_ids(
                            all_paths.take(i + 1),
                        ));
                        assert(out@.map_values(|id: ModelId| id@) =~= dir_ids(
                            all_paths.take(i + 1),
                        ));
                    }
                },
                None => {
                    proof {
                        assert(dir_ids(all_paths.take(i as int)) + Seq::<Seq<char>>::empty()
                            =~= dir_ids(all_paths.take(i + 1)));
                        assert(dir_ids(all_paths.take(i + 1)) == dir_ids(
                            all_paths.take(i as int),
                        ));
                    }
                },
            }
            i = i + 1;
        }
        proof {
            assert(all_paths.take(total as int) =~= all_paths);
        }
        out
    }

    /// Registers every model the remote catalog returned, in catalog
    /// order, and returns their identities — also those that were
    /// already registered.  Everything promised here holds whatever the
    /// catalog answered.
    pub fn register_from_registry_models(&mut self, models: &Vec<MLFlowModel>) -> (r: Vec<ModelId>)
        requires
            old(self).wf(),
        ensures
            final(self).wf(),
            final(self).spec_buffer_capacity() == old(self).spec_buffer_capacity(),
            r@.map_values(|id: ModelId| id@) == models@.map_values(|m: MLFlowModel| m.name@),
            final(self).spec_names() == register_names(
                old(self).spec_names(),
                models@.map_values(|m: MLFlowModel| m.name@),
            ),
    {
        let ghost all_names = models@.map_values(|m: MLFlowModel| m.name@);
        let mut out: Vec<ModelId> = Vec::new();
        let total = models.len();
        let mut i: usize = 0;
        proof {
            assert(all_names.take(0) =~= Seq::<Seq<char>>::empty());
        }
        while i < total
            invariant
                i <= total,
                total == models@.len(),
                all_names == models@.map_values(|m: MLFlowModel| m.name@),
                self.wf(),
                self.spec_buffer_capacity() == old(self).spec_buffer_capacity(),
                out@.map_values(|id: ModelId| id@) == all_names.take(i as int),
                self.spec_names() == register_names(
                    old(self).spec_names(),
                    all_names.take(i as int),
                ),
            decreases total - i,
        {
            let id = ModelId::from_string(models[i].name.clone());
            let key = id.clone();
            self.register_model(key);
            out.push(id);
            proof {
                lemma_register_names_app(
                    old(self).spec_names(),
                    all_names.take(i as int),
                    seq![out@.last()@],
                );
                assert(all_names.take(i as int) + seq![out@.last()@] =~= all_names.take(i + 1));
                assert(out@.map_values(|id: ModelId| id@) =~= all_names.take(i + 1));
            }
            i = i + 1;
        }
        proof {
            assert(all_names.take(total as int) =~= all_names);
        }
        out
    }

    /// Turns a list of resolved sources into registrations, in order,
    /// and returns every identity the sources yielded — also those that
    /// were already registered.  Discovery is additive: names already
    /// in the registry keep their buffers.
    pub fn discover_models(&mut self, sources: &Vec<ResolvedSource>) -> (r: Vec<ModelId>)
        requires
            old(self).wf(),
        ensures
            final(self).wf(),
            final(self).spec_buffer_capacity() == old(self).spec_buffer_capacity(),
            r@.map_values(|id: ModelId| id@) == ids_of_sources(sources@),
            final(self).spec_names() == register_names(
                old(self).spec_names(),
                ids_of_sources(sources@),
            ),
    {
        let mut out: Vec<ModelId> = Vec::new();
        let total = sources.len();
        let mut i: usize = 0;
        proof {
            assert(sources@.take(0) =~= Seq::<ResolvedSource>::empty());
        }
        while i < total
            invariant
                i <= total,
                total == sources@.len(),
                self.wf(),
                self.spec_buffer_capacity() == old(self).spec_buffer_capacity(),
                out@.map_values(|id: ModelId| id@) == ids_of_sources(sources@.take(i as int)),
                self.spec_names() == register_names(
                    old(self).spec_names(),
                    ids_of_sources(sources@.take(i as int)),
                ),
            decreases total - i,
        {
            proof {
                assert(sources@.take(i + 1) =~= sources@.take(i as int).push(sources@[i as int]));
                lemma_ids_of_sources_snoc(sources@.take(i as int), sources@[i as int]);
            }
            let ghost before_ids = ids_of_sources(sources@.take(i as int));
            let ghost step_ids = ids_of_source(sources@[i as int]);
            let mut step: Vec<ModelId> = Vec::new();
            match &sources[i] {
                ResolvedSource::File(p) => {
                    match ModelId::from_path(p.as_str()) {
                        Some(id) => {
                            let key = id.clone();
                            self.register_model(key);
                            step.push(id);
                            proof {
                                assert(step@.map_values(|id: ModelId| id@) =~= step_ids);
                                lemma_register_names_app(
                                    old(self).spec_names(),
                                    before_ids,
                                    step_ids,
                                );
                            }
                        },
                        None => {
                            proof {
                                assert(step@.map_values(|id: ModelId| id@) =~= step_ids);
                                lemma_register_names_app(
                                    old(self).spec_names(),
                                    before_ids,
                                    step_ids,
                                );
                            }
                        },
                    }
                },
                ResolvedSource::Dir(entries) => {
                    let mut found = self.register_from_dir_listing(entries);
                    step.append(&mut found);
                    proof {
                        assert(step@.map_values(|id: ModelId| id@) =~= step_ids);
                        lemma_register_names_app(old(self).spec_names(), before_ids, step_ids);
                    }
                },
                ResolvedSource::Url(u) => {
                    match ModelId::from_url(u.as_str()) {
                        Some(id) => {
                            let key = id.clone();
                            self.register_model(key);
                            step.push(id);
                            proof {
                                assert(step@.map_values(|id: ModelId| id@) =~= step_ids);
                                lemma_register_names_app(
                                    old(self).spec_names(),
                                    before_ids,
                                    step_ids,
                                );
                            }
                        },
                        None => {
                            proof {
                                assert(step@.map_values(|id: ModelId| id@) =~= step_ids);
                                lemma_register_names_app(
                                    old(self).spec_names(),
                                    before_ids,
                                    step_ids,
                                );
                            }
                        },
                    }
                },
                ResolvedSource::Id(s) => {
                    let id = ModelId::from_string(s.clone());
                    let key = id.clone();
                    self.register_model(key);
                    step.push(id);
                    proof {
                        assert(step@.map_values(|id: ModelId| id@) =~= step_ids);
                        lemma_register_names_app(old(self).spec_names(), before_ids, step_ids);
                    }
                },
                ResolvedSource::RegistryModels(models) => {
                    let mut found = self.register_from_registry_models(models);
                    step.append(&mut found);
                    proof {
                        assert(step@.map_values(|id: ModelId| id@) =~= step_ids);
                        lemma_register_names_app(old(self).spec_names(), before_ids, step_ids);
                    }
                },
            }
            let mut step_out = step;
            out.append(&mut step_out);
            proof {
                assert(out@.map_values(|id: ModelId| id@) =~= ids_of_sources(
                    sources@.take(i + 1),
                ));
            }
            i = i + 1;
        }
        proof {
            assert(sources@.take(total as int) =~= sources@);
        }
        out
    }

    /// Discovers models from the remote catalog: one model fetched by
    /// name, or the whole listing.  Whatever the client answered, every
    /// returned identity is registered afterwards and nothing else
    /// changes; a client failure leaves the registry untouched.
    pub fn discover_from_mlflow<C: MLFlowClientTrait>(
        &mut self,
        client: &C,
        model_name: Option<&str>,
    ) -> (r: Result<Vec<ModelId>, EngineError>)
        requires
            old(self).wf(),
        ensures
            final(self).wf(),
            final(self).spec_buffer_capacity() == old(self).spec_buffer_capacity(),
            r matches Err(_) ==> *final(self) == *old(self),
            r matches Ok(ids) ==> final(self).spec_names() == register_names(
                old(self).spec_names(),
                ids@.map_values(|id: ModelId| id@),
            ),
    {
        match model_name {
            Some(name) => {
                match client.get_model(name) {
                    Err(e) => Err(e),
                    Ok(None) => {
                        let out: Vec<ModelId> = Vec::new();
                        proof {
                            assert(out@.map_values(|id: ModelId| id@) =~= Seq::<
                                Seq<char>,
                            >::empty());
                        }
                        Ok(out)
                    },
                    Ok(Some(model)) => {
                        let id = ModelId::from_string(model.name);
                        let key = id.clone();
                        self.register_model(key);
                        let mut out: Vec<ModelId> = Vec::new();
                        out.push(id);
                        proof {
                            assert(out@.map_values(|id: ModelId| id@) =~= seq![out@.last()@]);
                        }
                        Ok(out)
                    },
                }
            },
            None => {
                match client.list_models() {
                    Err(e) => Err(e),
                    Ok(models) => Ok(self.register_from_registry_models(&models)),
                }
            },
        }
    }
}

proof fn lemma_dir_ids_snoc(paths: Seq<Seq<char>>, x: Seq<char>)
    ensures
        dir_ids(paths.push(x)) == dir_ids(paths) + (match spec_id_from_path(x) {
            Some(id) => seq![id],
            None => Seq::<Seq<char>>::empty(),
        }),
    decreases paths.len(),
{
    let tail: Seq<Seq<char>> = match spec_id_from_path(x) {
        Some(id) => seq![id],
        None => Seq::<Seq<char>>::empty(),
    };
    if paths.len() == 0 {
        assert(paths.push(x)[0] == x);
        assert(paths.push(x).drop_first() =~= Seq::<Seq<char>>::empty());
        assert(dir_ids(Seq::<Seq<char>>::empty()) =~= Seq::<Seq<char>>::empty());
        assert(dir_ids(paths) + tail =~= tail);
        assert(dir_ids(paths.push(x)) =~= tail);
    } else {
        assert(paths.push(x)[0] == paths[0]);
        assert(paths.push(x).drop_first() =~= paths.drop_first().push(x));
        lemma_dir_ids_snoc(paths.drop_first(), x);
        let head: Seq<Seq<char>> = match spec_id_from_path(paths[0]) {
            Some(id) => seq![id],
            None => Seq::<Seq<char>>::empty(),
        };
        assert(head + (dir_ids(paths.drop_first()) + tail) =~= (head + dir_ids(
            paths.drop_first(),
        )) + tail);
    }
}

proof fn lemma_ids_of_sources_snoc(sources: Seq<ResolvedSource>, x: ResolvedSource)
    ensures
        ids_of_sources(sources.push(x)) == ids_of_sources(sources) + ids_of_source(x),
    decreases sources.len(),
{
    if sources.len() == 0 {
        assert(sources.push(x)[0] == x);
        assert(sources.push(x).drop_first() =~= Seq::<ResolvedSource>::empty());
        assert(ids_of_sources(Seq::<ResolvedSource>::empty()) =~= Seq::<Seq<char>>::empty());
        assert(ids_of_sources(sources) + ids_of_source(x) =~= ids_of_source(x));
        assert(ids_of_sources(sources.push(x)) =~= ids_of_source(x));
    } else {
        assert(sources.push(x)[0] == sources[0]);
        assert(sources.push(x).drop_first() =~= sources.drop_first().push(x));
        lemma_ids_of_sources_snoc(sources.drop_first(), x);
        assert(ids_of_source(sources[0]) + (ids_of_sources(sources.drop_first()) + ids_of_source(
            x,
        )) =~= (ids_of_source(sources[0]) + ids_of_sources(sources.drop_first())) + ids_of_source(
            x,
        ));
    }
}

/// Appending identity lists registers them one list after the other.
proof fn lemma_register_names_app(existing: Seq<Seq<char>>, a: Seq<Seq<char>>, b: Seq<Seq<char>>)
    ensures
        register_names(existing, a + b) == register_names(register_names(existing, a), b),
    decreases a.len(),
{
    if a.len() == 0 {
        assert(a + b =~= b);
    } else {
        let next = if existing.contains(a[0]) {
            existing
        } else {
            existing.push(a[0])
        };
        assert((a + b)[0] == a[0]);
        assert((a + b).drop_first() =~= a.drop_first() + b);
        lemma_register_names_app(next, a.drop_first(), b);
    }
}

/// A name once registered stays registered through further
/// registrations.
proof fn lemma_register_names_mono(existing: Seq<Seq<char>>, ids: Seq<Seq<char>>, x: Seq<char>)
    requires
        existing.contains(x),
    ensures
        register_names(existing, ids).contains(x),
    decreases ids.len(),
{
    if ids.len() > 0 {
        let next = if existing.contains(ids[0]) {
            existing
        } else {
            existing.push(ids[0])
        };
        if !existing.contains(ids[0]) {
            let j = choose|j: int| 0 <= j < existing.len() && existing[j] == x;
            assert(next[j] == x);
        }
        lemma_register_names_mono(next, ids.drop_first(), x);
    }
}

/// After registering `ids`, every one of them is registered.
proof fn lemma_register_names_registers_all(existing: Seq<Seq<char>>, ids: Seq<Seq<char>>)
    ensures
        forall|k: int|
            0 <= k < ids.len() ==> register_names(existing, ids).contains(#[trigger] ids[k]),
    decreases ids.len(),
{
    if ids.len() > 0 {
        let next = if existing.contains(ids[0]) {
            existing
        } else {
            existing.push(ids[0])
        };
        assert(next.contains(ids[0])) by {
            if !existing.contains(ids[0]) {
                assert(next[existing.len() as int] == ids[0]);
            }
        }
        lemma_register_names_mono(next, ids.drop_first(), ids[0]);
        lemma_register_names_registers_all(next, ids.drop_first());
        assert forall|k: int|
            0 <= k < ids.len() implies register_names(existing, ids).contains(
            #[trigger] ids[k]) by {
            if k > 0 {
                assert(ids.drop_first()[k - 1] == ids[k]);
            }
        }
    }
}

/// Registering names that are all present already changes nothing.
proof fn lemma_register_names_noop(existing: Seq<Seq<char>>, ids: Seq<Seq<char>>)
    requires
        forall|k: int| 0 <= k < ids.len() ==> existing.contains(#[trigger] ids[k]),
    ensures
        register_names(existing, ids) == existing,
    decreases ids.len(),
{
    if ids.len() > 0 {
        assert(existing.contains(ids[0]));
        assert forall|k: int|
            0 <= k < ids.drop_first().len() implies existing.contains(
            #[trigger] ids.drop_first()[k]) by {
            assert(ids.drop_first()[k] == ids[k + 1]);
        }
        lemma_register_names_noop(existing, ids.drop_first());
    }
}

/// Discovery idempotence: running the same discovery twice on the same
/// registry leaves exactly the registration set of running it once.
pub proof fn lemma_discovery_idempotent(existing: Seq<Seq<char>>, ids: Seq<Seq<char>>)
    ensures
        register_names(register_names(existing, ids), ids) == register_names(existing, ids),
{
    lemma_register_names_registers_all(existing, ids);
    lemma_register_names_noop(register_names(existing, ids), ids);
}

/// `find_name` agrees with membership of the name list.
proof fn lemma_contains_matches_find<V>(s: Seq<(ModelId, V)>, name: Seq<char>)
    ensures
        s.map_values(|e: (ModelId, V)| e.0@).contains(name) <==> find_name(s, name) >= 0,
{
    let names = s.map_values(|e: (ModelId, V)| e.0@);
    crate::model_id::lemma_find_name_range(s, name);
    if find_name(s, name) >= 0 {
        lemma_find_name_index(s, name);
        assert(names[find_name(s, name)] == name);
    } else {
        lemma_find_name_absent(s, name);
        if names.contains(name) {
            let j = choose|j: int| 0 <= j < names.len() && names[j] == name;
            assert(s[j].0@ == name);
        }
    }
}

/// A non-negative `find_name` result points at an entry of that name.
proof fn lemma_find_name_index<V>(s: Seq<(ModelId, V)>, name: Seq<char>)
    requires
        find_name(s, name) >= 0,
    ensures
        0 <= find_name(s, name) < s.len(),
        s[find_name(s, name)].0@ == name,
    decreases s.len(),
{
    if s.len() > 0 && s[0].0@ != name {
        crate::model_id::lemma_find_name_range(s.drop_first(), name);
        lemma_find_name_index(s.drop_first(), name);
    }
}

/// Registering a single name appends it unless it is already there.
proof fn lemma_register_single(existing: Seq<Seq<char>>, id: Seq<char>)
    ensures
        register_names(existing, seq![id]) == if existing.contains(id) {
            existing
        } else {
            existing.push(id)
        },
{
    let ids = seq![id];
    assert(ids.drop_first() =~= Seq::<Seq<char>>::empty());
    let next = if existing.contains(id) {
        existing
    } else {
        existing.push(id)
    };
    assert(ids[0] == id);
    assert(register_names(existing, ids) == register_names(next, ids.drop_first()));
    assert(register_names(next, Seq::<Seq<char>>::empty()) == next);
}

} // verus!
