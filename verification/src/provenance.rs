//! The dataset registry: datasets by id, with owner-gated changes and a
//! version that counts them.

use vstd::prelude::*;
use crate::text::{
    clone_texts, distinct, first_index, lemma_first_index, position, text_of, texts_of,
};

verus! {

/// Who may read a dataset.
#[derive(Clone, Copy, PartialEq, Eq, Structural, Debug)]
pub enum AccessLevel {
    Public,
    Restricted,
    Private,
}

/// Why a change to a dataset was refused. A refused change changes nothing.
#[derive(Clone, Copy, PartialEq, Eq, Structural, Debug)]
pub enum ProvenanceError {
    /// No dataset has the given id.
    NotFound,
    /// The caller is not the owner.
    Unauthorized,
}

/// A registered dataset.
#[derive(Debug, PartialEq, Eq)]
pub struct Dataset {
    /// A content identifier or any other unique id.
    pub id: String,
    pub owner: String,
    pub title: String,
    pub description: String,
    /// The ids of the datasets that this one was derived from.
    pub lineage: Vec<String>,
    /// When the dataset was registered.
    pub timestamp: u64,
    /// When the dataset was last changed.
    pub updated: u64,
    pub integrity_hash: String,
    pub access_level: AccessLevel,
    /// One at registration, and one more with every update of the metadata.
    pub version: u32,
}

/// What a [`Dataset`] is, mathematically.
pub struct DatasetView {
    pub id: Seq<char>,
    pub owner: Seq<char>,
    pub title: Seq<char>,
    pub description: Seq<char>,
    pub lineage: Seq<Seq<char>>,
    pub timestamp: nat,
    pub updated: nat,
    pub integrity_hash: Seq<char>,
    pub access_level: AccessLevel,
    pub version: nat,
}

impl DatasetView {
    /// A dataset as it is at registration: public, without an integrity
    /// hash, at version one.
    pub open spec fn fresh(
        owner: Seq<char>,
        id: Seq<char>,
        title: Seq<char>,
        description: Seq<char>,
        lineage: Seq<Seq<char>>,
        now: nat,
    ) -> DatasetView {
        DatasetView {
            id,
            owner,
            title,
            description,
            lineage,
            timestamp: now,
            updated: now,
            integrity_hash: Seq::empty(),
            access_level: AccessLevel::Public,
            version: 1,
        }
    }

    /// The dataset after an update at `now`: each given value replaces the
    /// old one, and the version goes up by one.
    pub open spec fn revised(
        self,
        title: Option<Seq<char>>,
        description: Option<Seq<char>>,
        integrity_hash: Option<Seq<char>>,
        access_level: Option<AccessLevel>,
        now: nat,
    ) -> DatasetView {
        DatasetView {
            title: title.unwrap_or(self.title),
            description: description.unwrap_or(self.description),
            integrity_hash: integrity_hash.unwrap_or(self.integrity_hash),
            access_level: access_level.unwrap_or(self.access_level),
            updated: now,
            version: self.version + 1,
            ..self
        }
    }

    /// The dataset after it was handed to `new_owner` at `now`. The version
    /// stays.
    pub open spec fn handed_to(self, new_owner: Seq<char>, now: nat) -> DatasetView {
        DatasetView { owner: new_owner, updated: now, ..self }
    }

    /// The outcome of a change asked for by `caller`: refused unless the
    /// caller is the owner.
    pub open spec fn change_outcome(self, caller: Seq<char>) -> Result<(), ProvenanceError> {
        if caller == self.owner {
            Ok(())
        } else {
            Err(ProvenanceError::Unauthorized)
        }
    }
}

impl View for Dataset {
    type V = DatasetView;

    open spec fn view(&self) -> DatasetView {
        DatasetView {
            id: self.id@,
            owner: self.owner@,
            title: self.title@,
            description: self.description@,
            lineage: texts_of(self.lineage@),
            timestamp: self.timestamp as nat,
            updated: self.updated as nat,
            integrity_hash: self.integrity_hash@,
            access_level: self.access_level,
            version: self.version as nat,
        }
    }
}

impl Clone for Dataset {
    fn clone(&self) -> (copy: Self)
        ensures
            copy@ == self@,
    {
        Dataset {
            id: self.id.clone(),
            owner: self.owner.clone(),
            title: self.title.clone(),
            description: self.description.clone(),
            lineage: clone_texts(&self.lineage),
            timestamp: self.timestamp,
            updated: self.updated,
            integrity_hash: self.integrity_hash.clone(),
            access_level: self.access_level,
            version: self.version,
        }
    }
}

impl Dataset {
    /// Creates the dataset as it is at registration.
    pub fn new(
        owner: String,
        id: String,
        title: String,
        description: String,
        lineage: Vec<String>,
        now: u64,
    ) -> (dataset: Self)
        ensures
            dataset@ == DatasetView::fresh(
                owner@,
                id@,
                title@,
                description@,
                texts_of(lineage@),
                now as nat,
            ),
    {
        Dataset {
            id,
            owner,
            title,
            description,
            lineage,
            timestamp: now,
            updated: now,
            integrity_hash: String::new(),
            access_level: AccessLevel::Public,
            version: 1,
        }
    }

    /// Updates the metadata on behalf of `caller`, who must be the owner.
    pub fn update(
        &mut self,
        caller: &String,
        title: Option<String>,
        description: Option<String>,
        integrity_hash: Option<String>,
        access_level: Option<AccessLevel>,
        now: u64,
    ) -> (outcome: Result<(), ProvenanceError>)
        requires
            old(self)@.change_outcome(caller@) is Ok ==> old(self).version < u32::MAX,
        ensures
            outcome == old(self)@.change_outcome(caller@),
            outcome is Ok ==> final(self)@ == old(self)@.revised(
                text_of(title),
                text_of(description),
                text_of(integrity_hash),
                access_level,
                now as nat,
            ),
            outcome is Err ==> *final(self) == *old(self),
    {
        if *caller != self.owner {
            return Err(ProvenanceError::Unauthorized);
        }
        if let Some(t) = title {
            self.title = t;
        }
        if let Some(d) = description {
            self.description = d;
        }
        if let Some(h) = integrity_hash {
            self.integrity_hash = h;
        }
        if let Some(a) = access_level {
            self.access_level = a;
        }
        self.updated = now;
        self.version = self.version + 1;
        Ok(())
    }

    /// Hands the dataset to `new_owner` on behalf of `caller`, who must be
    /// the owner.
    pub fn transfer(&mut self, caller: &String, new_owner: String, now: u64) -> (outcome: Result<
        (),
        ProvenanceError,
    >)
        ensures
            outcome == old(self)@.change_outcome(caller@),
            outcome is Ok ==> final(self)@ == old(self)@.handed_to(new_owner@, now as nat),
            outcome is Err ==> *final(self) == *old(self),
    {
        if *caller != self.owner {
            return Err(ProvenanceError::Unauthorized);
        }
        self.owner = new_owner;
        self.updated = now;
        Ok(())
    }
}

/// The views of the given datasets, in the same order.
pub open spec fn dataset_views(datasets: Seq<Dataset>) -> Seq<DatasetView> {
    datasets.map_values(|d: Dataset| d@)
}

/// The ids of the given datasets, in the same order.
pub open spec fn dataset_ids(datasets: Seq<DatasetView>) -> Seq<Seq<char>> {
    datasets.map_values(|d: DatasetView| d.id)
}

/// The datasets among the given ones that `owner` owns, in the same order.
pub open spec fn owned_by(datasets: Seq<DatasetView>, owner: Seq<char>) -> Seq<DatasetView>
    decreases datasets.len(),
{
    if datasets.len() == 0 {
        Seq::empty()
    } else if datasets.last().owner == owner {
        owned_by(datasets.drop_last(), owner).push(datasets.last())
    } else {
        owned_by(datasets.drop_last(), owner)
    }
}

/// What the registry is, mathematically.
pub struct ProvenanceView {
    /// The datasets, in the order in which their ids were first registered.
    pub datasets: Seq<DatasetView>,
    /// The number of registrations ever made.
    pub dataset_count: nat,
}

impl ProvenanceView {
    /// The registry before anything has happened.
    pub open spec fn empty() -> ProvenanceView {
        ProvenanceView { datasets: Seq::empty(), dataset_count: 0 }
    }

    /// The invariant of the registry: no id is held by two datasets.
    pub open spec fn wf(self) -> bool {
        distinct(dataset_ids(self.datasets))
    }

    /// The place of the dataset with the given id, if there is one.
    pub open spec fn find(self, id: Seq<char>) -> Option<int> {
        first_index(dataset_ids(self.datasets), id)
    }

    /// The dataset with the given id, if there is one.
    pub open spec fn get(self, id: Seq<char>) -> Option<DatasetView> {
        match self.find(id) {
            Some(i) => Some(self.datasets[i]),
            None => None,
        }
    }

    /// The registry after `dataset` was registered: it takes the place of
    /// the dataset that had its id, or the last place if there was none.
    /// Either way one more registration is counted.
    pub open spec fn register(self, dataset: DatasetView) -> ProvenanceView {
        ProvenanceView {
            datasets: match self.find(dataset.id) {
                Some(i) => self.datasets.update(i, dataset),
                None => self.datasets.push(dataset),
            },
            dataset_count: self.dataset_count + 1,
        }
    }

    /// The outcome of a change to the dataset `id` asked for by `caller`.
    pub open spec fn change_outcome(self, caller: Seq<char>, id: Seq<char>) -> Result<
        (),
        ProvenanceError,
    > {
        match self.get(id) {
            Some(d) => d.change_outcome(caller),
            None => Err(ProvenanceError::NotFound),
        }
    }

    /// The registry with `dataset` in the place of the dataset `id`.
    pub open spec fn replace(self, id: Seq<char>, dataset: DatasetView) -> ProvenanceView {
        ProvenanceView { datasets: self.datasets.update(self.find(id).unwrap(), dataset), ..self }
    }

    /// The registry after an attempted update of the dataset `id`.
    pub open spec fn after_update(
        self,
        caller: Seq<char>,
        id: Seq<char>,
        title: Option<Seq<char>>,
        description: Option<Seq<char>>,
        integrity_hash: Option<Seq<char>>,
        access_level: Option<AccessLevel>,
        now: nat,
    ) -> ProvenanceView {
        if self.change_outcome(caller, id) is Ok {
            let dataset = self.get(id).unwrap();
            self.replace(
                id,
                dataset.revised(title, description, integrity_hash, access_level, now),
            )
        } else {
            self
        }
    }

    /// The registry after an attempted transfer of the dataset `id`.
    pub open spec fn after_transfer(
        self,
        caller: Seq<char>,
        id: Seq<char>,
        new_owner: Seq<char>,
        now: nat,
    ) -> ProvenanceView {
        if self.change_outcome(caller, id) is Ok {
            self.replace(id, self.get(id).unwrap().handed_to(new_owner, now))
        } else {
            self
        }
    }
}

/// The dataset registry. Datasets are never removed.
pub struct DaicProvenance {
    keys: Vec<String>,
    datasets: Vec<Dataset>,
    dataset_count: u64,
}

impl View for DaicProvenance {
    type V = ProvenanceView;

    closed spec fn view(&self) -> ProvenanceView {
        ProvenanceView {
            datasets: dataset_views(self.datasets@),
            dataset_count: self.dataset_count as nat,
        }
    }
}

impl DaicProvenance {
    /// The invariant that every operation keeps: no id is held twice, and
    /// the keys are the ids of the datasets.
    pub closed spec fn wf(&self) -> bool {
        &&& self@.wf()
        &&& texts_of(self.keys@) == dataset_ids(self@.datasets)
    }

    /// A well-formed registry has a well-formed view.
    pub proof fn lemma_wf_view(&self)
        requires
            self.wf(),
        ensures
            self@.wf(),
            self@.dataset_count <= u64::MAX,
    {
    }

    /// An empty registry.
    pub fn new() -> (registry: Self)
        ensures
            registry.wf(),
            registry@ == ProvenanceView::empty(),
    {
        let registry = DaicProvenance { keys: Vec::new(), datasets: Vec::new(), dataset_count: 0 };
        assert(registry@.datasets =~= Seq::empty());
        assert(texts_of(registry.keys@) =~= dataset_ids(registry@.datasets));
        registry
    }

    /// Rebuilds a registry from stored datasets and a stored count of
    /// registrations.
    ///
    /// The parts are accepted exactly when no id is held by two datasets.
    pub fn from_parts(datasets: Vec<Dataset>, dataset_count: u64) -> (registry: Option<Self>)
        ensures
            registry is Some <==> (ProvenanceView {
                datasets: dataset_views(datasets@),
                dataset_count: dataset_count as nat,
            }).wf(),
            registry is Some ==> registry->0.wf() && registry->0@ == (ProvenanceView {
                datasets: dataset_views(datasets@),
                dataset_count: dataset_count as nat,
            }),
    {
        let ghost ids = dataset_ids(dataset_views(datasets@));
        let mut keys: Vec<String> = Vec::new();
        let n: usize = datasets.len();
        let mut i: usize = 0;
        while i < n
            invariant
                n == datasets@.len(),
                ids == dataset_ids(dataset_views(datasets@)),
                i <= n,
                texts_of(keys@) == ids.take(i as int),
                distinct(ids.take(i as int)),
            decreases n - i,
        {
            proof {
                lemma_first_index(ids.take(i as int), ids[i as int]);
            }
            if position(&keys, &datasets[i].id).is_some() {
                return None;
            }
            keys.push(datasets[i].id.clone());
            assert(texts_of(keys@) =~= ids.take(i + 1));
            i = i + 1;
        }
        assert(ids.take(n as int) =~= ids);
        Some(DaicProvenance { keys, datasets, dataset_count })
    }

    /// The place of the dataset with the given id, if there is one.
    fn slot(&self, id: &String) -> (slot: Option<usize>)
        requires
            self.wf(),
        ensures
            match slot {
                Some(i) => self@.find(id@) == Some(i as int) && i < self.datasets@.len()
                    && self.datasets@[i as int]@ == self@.datasets[i as int]
                    && self@.datasets[i as int].id == id@,
                None => self@.find(id@) is None,
            },
    {
        proof {
            lemma_first_index(dataset_ids(self@.datasets), id@);
        }
        position(&self.keys, id)
    }

    /// Registers a dataset owned by `owner`, at version one. A dataset that
    /// had the same id is replaced, whoever owned it.
    pub fn register_dataset(
        &mut self,
        owner: String,
        id: String,
        title: String,
        description: String,
        lineage: Vec<String>,
        now: u64,
    )
        requires
            old(self).wf(),
            old(self)@.dataset_count < u64::MAX,
        ensures
            final(self).wf(),
            final(self)@ == old(self)@.register(
                DatasetView::fresh(
                    owner@,
                    id@,
                    title@,
                    description@,
                    texts_of(lineage@),
                    now as nat,
                ),
            ),
    {
        let slot = self.slot(&id);
        let key = id.clone();
        let dataset = Dataset::new(owner, id, title, description, lineage, now);
        proof {
            lemma_first_index(dataset_ids(self@.datasets), key@);
        }
        match slot {
            Some(i) => {
                self.datasets.set(i, dataset);
                assert(self@.datasets =~= old(self)@.datasets.update(i as int, dataset@));
                assert(dataset_ids(self@.datasets) =~= dataset_ids(old(self)@.datasets));
            },
            None => {
                self.keys.push(key);
                self.datasets.push(dataset);
                assert(self@.datasets =~= old(self)@.datasets.push(dataset@));
                assert(dataset_ids(self@.datasets) =~= dataset_ids(old(self)@.datasets).push(
                    key@,
                ));
                assert(texts_of(self.keys@) =~= texts_of(old(self).keys@).push(key@));
            },
        }
        self.dataset_count = self.dataset_count + 1;
    }

    /// Updates the metadata of a dataset on behalf of `caller`, who must be
    /// its owner. Each given value replaces the old one; the version goes up
    /// by one even if no value is given.
    pub fn update_dataset(
        &mut self,
        caller: &String,
        id: String,
        title: Option<String>,
        description: Option<String>,
        integrity_hash: Option<String>,
        access_level: Option<AccessLevel>,
        now: u64,
    ) -> (outcome: Result<(), ProvenanceError>)
        requires
            old(self).wf(),
            old(self)@.change_outcome(caller@, id@) is Ok ==> old(self)@.get(id@).unwrap().version
                < u32::MAX,
        ensures
            final(self).wf(),
            outcome == old(self)@.change_outcome(caller@, id@),
            final(self)@ == old(self)@.after_update(
                caller@,
                id@,
                text_of(title),
                text_of(description),
                text_of(integrity_hash),
                access_level,
                now as nat,
            ),
            outcome is Err ==> final(self)@ == old(self)@,
    {
        let i: usize = match self.slot(&id) {
            Some(i) => i,
            None => { return Err(ProvenanceError::NotFound); },
        };
        let mut dataset = self.datasets[i].clone();
        match dataset.update(caller, title, description, integrity_hash, access_level, now) {
            Ok(()) => {
                self.datasets.set(i, dataset);
                assert(self@.datasets =~= old(self)@.datasets.update(i as int, dataset@));
                assert(dataset_ids(self@.datasets) =~= dataset_ids(old(self)@.datasets));
                Ok(())
            },
            Err(e) => Err(e),
        }
    }

    /// Hands a dataset to `new_owner` on behalf of `caller`, who must be its
    /// owner. The version stays.
    pub fn transfer_ownership(
        &mut self,
        caller: &String,
        id: String,
        new_owner: String,
        now: u64,
    ) -> (outcome: Result<(), ProvenanceError>)
        requires
            old(self).wf(),
        ensures
            final(self).wf(),
            outcome == old(self)@.change_outcome(caller@, id@),
            final(self)@ == old(self)@.after_transfer(caller@, id@, new_owner@, now as nat),
            outcome is Err ==> final(self)@ == old(self)@,
    {
        let i: usize = match self.slot(&id) {
            Some(i) => i,
            None => { return Err(ProvenanceError::NotFound); },
        };
        let mut dataset = self.datasets[i].clone();
        match dataset.transfer(caller, new_owner, now) {
            Ok(()) => {
                self.datasets.set(i, dataset);
                assert(self@.datasets =~= old(self)@.datasets.update(i as int, dataset@));
                assert(dataset_ids(self@.datasets) =~= dataset_ids(old(self)@.datasets));
                Ok(())
            },
            Err(e) => Err(e),
        }
    }

    /// The dataset with the given id, if there is one.
    pub fn get_dataset(&self, id: String) -> (found: Option<Dataset>)
        requires
            self.wf(),
        ensures
            found is Some <==> self@.get(id@) is Some,
            found is Some ==> found->0@ == self@.get(id@).unwrap(),
    {
        match self.slot(&id) {
            Some(i) => Some(self.datasets[i].clone()),
            None => None,
        }
    }

    /// All datasets, in the order in which their ids were first registered.
    pub fn get_all_datasets(&self) -> (all: Vec<Dataset>)
        ensures
            dataset_views(all@) == self@.datasets,
    {
        let mut all: Vec<Dataset> = Vec::new();
        let n: usize = self.datasets.len();
        let mut i: usize = 0;
        while i < n
            invariant
                n == self.datasets@.len(),
                i <= n,
                dataset_views(all@) == dataset_views(self.datasets@).take(i as int),
            decreases n - i,
        {
            let copy = self.datasets[i].clone();
            let ghost before = dataset_views(all@);
            all.push(copy);
            assert(dataset_views(all@) =~= before.push(copy@));
            assert(dataset_views(all@) =~= dataset_views(self.datasets@).take(i + 1));
            i = i + 1;
        }
        assert(dataset_views(self.datasets@).take(n as int) =~= dataset_views(self.datasets@));
        all
    }

    /// The datasets that `owner` owns, in the order in which their ids were
    /// first registered.
    pub fn get_datasets_by_owner(&self, owner: String) -> (owned: Vec<Dataset>)
        ensures
            dataset_views(owned@) == owned_by(self@.datasets, owner@),
    {
        let ghost views = dataset_views(self.datasets@);
        let mut owned: Vec<Dataset> = Vec::new();
        let n: usize = self.datasets.len();
        let mut i: usize = 0;
        while i < n
            invariant
                n == self.datasets@.len(),
                views == dataset_views(self.datasets@),
                i <= n,
                dataset_views(owned@) == owned_by(views.take(i as int), owner@),
            decreases n - i,
        {
            assert(views.take(i + 1).drop_last() =~= views.take(i as int));
            if self.datasets[i].owner == owner {
                let copy = self.datasets[i].clone();
                let ghost before = dataset_views(owned@);
                owned.push(copy);
                assert(dataset_views(owned@) =~= before.push(copy@));
            }
            i = i + 1;
        }
        assert(views.take(n as int) =~= views);
        owned
    }

    /// The number of registrations ever made, replacements included.
    pub fn get_dataset_count(&self) -> (count: u64)
        ensures
            count == self@.dataset_count,
    {
        self.dataset_count
    }
}

} // verus!
