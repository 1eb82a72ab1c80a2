//! The catalog store: an in-memory collection of artifacts owned by the
//! store, kept in ascending identifier order.
//!
//! The store assigns identifiers itself, starting at 1 and never reusing
//! one, even after a removal. A record with a blank name is rejected. All
//! contracts speak of [`CatalogStore::arts`], the sequence of artifact
//! models in storage order, and [`CatalogStore::next`], the identifier the
//! next successful insertion will return.

use crate::errors::CatalogError;
use crate::model::{Artifact, ArtifactDetails, ArtifactModel, DetailsModel};
use crate::text::{contains_ci, contains_ci_str, is_blank, is_blank_str};
use vstd::prelude::*;

verus! {

/// The first artifact in `s` whose identifier is `id`, if any.
pub open spec fn lookup(s: Seq<ArtifactModel>, id: u64) -> Option<ArtifactModel>
    decreases s.len(),
{
    if s.len() == 0 {
        None
    } else if s[0].id == id {
        Some(s[0])
    } else {
        lookup(s.drop_first(), id)
    }
}

/// `s` with the first artifact whose identifier is `id` taken out.
pub open spec fn without_id(s: Seq<ArtifactModel>, id: u64) -> Seq<ArtifactModel>
    decreases s.len(),
{
    if s.len() == 0 {
        s
    } else if s[0].id == id {
        s.drop_first()
    } else {
        seq![s[0]] + without_id(s.drop_first(), id)
    }
}

/// `a` with `note` appended to its note list; nothing else changes.
pub open spec fn note_appended(a: ArtifactModel, note: Seq<char>) -> ArtifactModel {
    ArtifactModel {
        id: a.id,
        details: DetailsModel { notes: a.details.notes.push(note), ..a.details },
    }
}

/// `s` with `note` appended to the first artifact whose identifier is `id`.
pub open spec fn with_note(s: Seq<ArtifactModel>, id: u64, note: Seq<char>) -> Seq<ArtifactModel>
    decreases s.len(),
{
    if s.len() == 0 {
        s
    } else if s[0].id == id {
        seq![note_appended(s[0], note)] + s.drop_first()
    } else {
        seq![s[0]] + with_note(s.drop_first(), id, note)
    }
}

/// An artifact in `s` matches the search pattern when its name contains the
/// pattern case-insensitively.
pub open spec fn name_matches(a: ArtifactModel, pattern: Seq<char>) -> bool {
    contains_ci(pattern, a.details.name)
}

/// An artifact matches a site search when its site name contains the
/// pattern case-insensitively.
pub open spec fn site_matches(a: ArtifactModel, pattern: Seq<char>) -> bool {
    contains_ci(pattern, a.details.site)
}

/// The artifacts of `s` whose names contain `pattern` case-insensitively,
/// in their order in `s`.
pub open spec fn by_name(s: Seq<ArtifactModel>, pattern: Seq<char>) -> Seq<ArtifactModel> {
    s.filter(|a: ArtifactModel| name_matches(a, pattern))
}

/// The artifacts of `s` whose material model is exactly `m`, in their order
/// in `s`.
pub open spec fn by_material(s: Seq<ArtifactModel>, m: crate::model::MaterialModel) -> Seq<
    ArtifactModel,
> {
    s.filter(|a: ArtifactModel| a.details.material == m)
}

/// The artifacts of `s` of exactly the period `p`, in their order in `s`.
pub open spec fn by_period(s: Seq<ArtifactModel>, p: crate::model::Period) -> Seq<ArtifactModel> {
    s.filter(|a: ArtifactModel| a.details.period == p)
}

/// The artifacts of `s` whose site names contain `pattern`
/// case-insensitively, in their order in `s`.
pub open spec fn by_site(s: Seq<ArtifactModel>, pattern: Seq<char>) -> Seq<ArtifactModel> {
    s.filter(|a: ArtifactModel| site_matches(a, pattern))
}

/// No identifier occurs twice in `s`.
pub open spec fn unique_ids(s: Seq<ArtifactModel>) -> bool {
    forall|i: int, j: int|
        0 <= i < j < s.len() ==> (#[trigger] s[i]).id != (#[trigger] s[j]).id
}

/// The in-memory catalog store.
pub struct CatalogStore {
    artifacts: Vec<Artifact>,
    next_id: u64,
}

impl CatalogStore {
    /// The artifacts currently held, in storage order, which is ascending
    /// identifier order.
    pub closed spec fn arts(&self) -> Seq<ArtifactModel> {
        self.artifacts@.map_values(|a: Artifact| a@)
    }

    /// The identifier the next successful insertion will assign.
    pub closed spec fn next(&self) -> u64 {
        self.next_id
    }

    /// The store's invariant: identifiers start at 1, strictly increase
    /// along the storage order, stay below the next identifier to be
    /// assigned, and every held name is non-blank.
    pub open spec fn wf(&self) -> bool {
        &&& 1 <= self.next()
        &&& forall|i: int|
            0 <= i < self.arts().len() ==> (#[trigger] self.arts()[i]).id < self.next()
        &&& forall|i: int, j: int|
            0 <= i < j < self.arts().len() ==> (#[trigger] self.arts()[i]).id < (
            #[trigger] self.arts()[j]).id
        &&& forall|i: int|
            0 <= i < self.arts().len() ==> !is_blank((#[trigger] self.arts()[i]).details.name)
    }

    /// An empty store; the first insertion will assign identifier 1.
    pub fn new() -> (s: CatalogStore)
        ensures
            s.wf(),
            s.arts() == Seq::<ArtifactModel>::empty(),
            s.next() == 1,
    {
        let s = CatalogStore { artifacts: Vec::new(), next_id: 1 };
        proof {
            assert(s.arts() =~= Seq::<ArtifactModel>::empty());
        }
        s
    }

    /// The identifier the next successful insertion will assign.
    pub fn next_identifier(&self) -> (id: u64)
        ensures
            id == self.next(),
    {
        self.next_id
    }

    /// How many artifacts the store holds.
    pub fn count(&self) -> (n: usize)
        ensures
            n == self.arts().len(),
    {
        self.artifacts.len()
    }

    /// Stores `details` under a fresh identifier and returns it; a blank
    /// name is rejected and the store is left unchanged, no identifier
    /// consumed.
    pub fn insert(&mut self, details: ArtifactDetails) -> (r: Result<u64, CatalogError>)
        requires
            old(self).wf(),
            old(self).next() < u64::MAX,
        ensures
            final(self).wf(),
            is_blank(details@.name) ==> {
                &&& r == Err::<u64, CatalogError>(CatalogError::EmptyName)
                &&& final(self).arts() == old(self).arts()
                &&& final(self).next() == old(self).next()
            },
            !is_blank(details@.name) ==> {
                &&& r == Ok::<u64, CatalogError>(old(self).next())
                &&& final(self).arts() == old(self).arts().push(
                    ArtifactModel { id: old(self).next(), details: details@ },
                )
                &&& final(self).next() == old(self).next() + 1
            },
    {
        if is_blank_str(details.name.as_str()) {
            return Err(CatalogError::EmptyName);
        }
        let id = self.next_id;
        let ghost prev = self.arts();
        self.artifacts.push(Artifact { id, details });
        self.next_id = self.next_id + 1;
        proof {
            assert(self.arts() =~= prev.push(
                ArtifactModel { id, details: details@ },
            ));
        }
        Ok(id)
    }

    /// The index of the artifact holding `id`, with everything before it
    /// holding other identifiers.
    fn find_index(&self, id: u64) -> (r: Option<usize>)
        ensures
            match r {
                Some(j) => {
                    &&& j < self.arts().len()
                    &&& self.arts()[j as int].id == id
                    &&& forall|k: int| 0 <= k < j ==> (#[trigger] self.arts()[k]).id != id
                },
                None => forall|k: int|
                    0 <= k < self.arts().len() ==> (#[trigger] self.arts()[k]).id != id,
            },
    {
        let mut j: usize = 0;
        while j < self.artifacts.len()
            invariant
                j <= self.arts().len(),
                self.arts().len() == self.artifacts@.len(),
                forall|k: int| 0 <= k < j ==> (#[trigger] self.arts()[k]).id != id,
            decreases self.artifacts@.len() - j,
        {
            if self.artifacts[j].id == id {
                return Some(j);
            }
            j = j + 1;
        }
        None
    }

    /// Returns the artifact holding `id`, or reports that the store holds
    /// no such identifier.
    pub fn get_by_id(&self, id: u64) -> (r: Result<&Artifact, CatalogError>)
        ensures
            match r {
                Ok(a) => lookup(self.arts(), id) == Some(a@),
                Err(e) => {
                    &&& e == CatalogError::NotFound(id)
                    &&& lookup(self.arts(), id) is None
                },
            },
    {
        match self.find_index(id) {
            Some(j) => {
                proof {
                    lemma_lookup_found(self.arts(), id, j as int);
                }
                Ok(&self.artifacts[j])
            },
            None => {
                proof {
                    lemma_lookup_none(self.arts(), id);
                }
                Err(CatalogError::NotFound(id))
            },
        }
    }

    /// Deletes the artifact holding `id` and hands it to the caller; its
    /// identifier is never assigned again.
    pub fn remove(&mut self, id: u64) -> (r: Result<Artifact, CatalogError>)
        requires
            old(self).wf(),
        ensures
            final(self).wf(),
            final(self).next() == old(self).next(),
            match r {
                Ok(a) => {
                    &&& lookup(old(self).arts(), id) == Some(a@)
                    &&& final(self).arts() == without_id(old(self).arts(), id)
                },
                Err(e) => {
                    &&& e == CatalogError::NotFound(id)
                    &&& lookup(old(self).arts(), id) is None
                    &&& final(self).arts() == old(self).arts()
                },
            },
    {
        match self.find_index(id) {
            Some(j) => {
                let ghost prev = self.arts();
                proof {
                    lemma_lookup_found(prev, id, j as int);
                    lemma_without_id_at(prev, id, j as int);
                }
                let a = self.artifacts.remove(j);
                proof {
                    assert(self.arts() =~= prev.remove(j as int));
                }
                Ok(a)
            },
            None => {
                proof {
                    lemma_lookup_none(self.arts(), id);
                }
                Err(CatalogError::NotFound(id))
            },
        }
    }

    /// Appends `note` to the note list of the artifact holding `id`; the
    /// note list is append-only and nothing else of the artifact changes.
    pub fn append_note(&mut self, id: u64, note: &str) -> (r: Result<(), CatalogError>)
        requires
            old(self).wf(),
        ensures
            final(self).wf(),
            final(self).next() == old(self).next(),
            match r {
                Ok(_) => {
                    &&& lookup(old(self).arts(), id) is Some
                    &&& final(self).arts() == with_note(old(self).arts(), id, note@)
                },
                Err(e) => {
                    &&& e == CatalogError::NotFound(id)
                    &&& lookup(old(self).arts(), id) is None
                    &&& final(self).arts() == old(self).arts()
                },
            },
    {
        match self.find_index(id) {
            Some(j) => {
                let ghost prev = self.arts();
                proof {
                    lemma_lookup_found(prev, id, j as int);
                    lemma_with_note_at(prev, id, note@, j as int);
                }
                let text = note.to_owned();
                self.artifacts[j].details.notes.push(text);
                proof {
                    assert(self.artifacts@[j as int]@.details.notes =~= prev[j as int].details.notes.push(note@));
                    assert(self.artifacts@[j as int]@ =~~= note_appended(prev[j as int], note@));
                    assert(self.arts() =~= prev.update(
                        j as int,
                        note_appended(prev[j as int], note@),
                    ));
                }
                Ok(())
            },
            None => {
                proof {
                    lemma_lookup_none(self.arts(), id);
                }
                Err(CatalogError::NotFound(id))
            },
        }
    }

    /// Every artifact whose name contains `pattern` case-insensitively, in
    /// ascending identifier order.
    pub fn find_by_name(&self, pattern: &str) -> (r: Vec<Artifact>)
        ensures
            r@.map_values(|a: Artifact| a@) == by_name(self.arts(), pattern@),
    {
        let mut out: Vec<Artifact> = Vec::new();
        let mut i: usize = 0;
        proof {
            assert(out@.map_values(|a: Artifact| a@) =~= Seq::<ArtifactModel>::empty());
            assert(self.arts().take(0) =~= Seq::<ArtifactModel>::empty());
            assert(by_name(Seq::<ArtifactModel>::empty(), pattern@) =~= Seq::<ArtifactModel>::empty());
        }
        while i < self.artifacts.len()
            invariant
                i <= self.arts().len(),
                self.arts().len() == self.artifacts@.len(),
                out@.map_values(|a: Artifact| a@) == by_name(self.arts().take(i as int), pattern@),
            decreases self.artifacts@.len() - i,
        {
            let a = &self.artifacts[i];
            proof {
                lemma_by_name_step(self.arts(), pattern@, i as int);
            }
            if contains_ci_str(pattern, a.details.name.as_str()) {
                let copy = a.clone();
                out.push(copy);
                proof {
                    assert(out@.map_values(|x: Artifact| x@) =~= by_name(
                        self.arts().take(i as int),
                        pattern@,
                    ).push(self.arts()[i as int]));
                }
            }
            i = i + 1;
        }
        proof {
            assert(self.arts().take(self.arts().len() as int) =~= self.arts());
        }
        out
    }

    /// Every artifact of exactly the given material, the open-ended case
    /// compared by its label, in ascending identifier order.
    pub fn find_by_material(&self, material: &crate::model::Material) -> (r: Vec<Artifact>)
        ensures
            r@.map_values(|a: Artifact| a@) == by_material(self.arts(), material@),
    {
        let mut out: Vec<Artifact> = Vec::new();
        let mut i: usize = 0;
        proof {
            assert(out@.map_values(|a: Artifact| a@) =~= Seq::<ArtifactModel>::empty());
            assert(self.arts().take(0) =~= Seq::<ArtifactModel>::empty());
            assert(by_material(Seq::<ArtifactModel>::empty(), material@) =~= Seq::<ArtifactModel>::empty());
        }
        while i < self.artifacts.len()
            invariant
                i <= self.arts().len(),
                self.arts().len() == self.artifacts@.len(),
                out@.map_values(|a: Artifact| a@) == by_material(self.arts().take(i as int), material@),
            decreases self.artifacts@.len() - i,
        {
            let a = &self.artifacts[i];
            proof {
                lemma_by_material_step(self.arts(), material@, i as int);
            }
            if a.details.material == *material {
                let copy = a.clone();
                out.push(copy);
                proof {
                    assert(out@.map_values(|x: Artifact| x@) =~= by_material(
                        self.arts().take(i as int),
                        material@,
                    ).push(self.arts()[i as int]));
                }
            }
            i = i + 1;
        }
        proof {
            assert(self.arts().take(self.arts().len() as int) =~= self.arts());
        }
        out
    }

    /// Every artifact of exactly the given period, in ascending identifier
    /// order.
    pub fn find_by_period(&self, period: crate::model::Period) -> (r: Vec<Artifact>)
        ensures
            r@.map_values(|a: Artifact| a@) == by_period(self.arts(), period),
    {
        let mut out: Vec<Artifact> = Vec::new();
        let mut i: usize = 0;
        proof {
            assert(out@.map_values(|a: Artifact| a@) =~= Seq::<ArtifactModel>::empty());
            assert(self.arts().take(0) =~= Seq::<ArtifactModel>::empty());
            assert(by_period(Seq::<ArtifactModel>::empty(), period) =~= Seq::<ArtifactModel>::empty());
        }
        while i < self.artifacts.len()
            invariant
                i <= self.arts().len(),
                self.arts().len() == self.artifacts@.len(),
                out@.map_values(|a: Artifact| a@) == by_period(self.arts().take(i as int), period),
            decreases self.artifacts@.len() - i,
        {
            let a = &self.artifacts[i];
            proof {
                lemma_by_period_step(self.arts(), period, i as int);
            }
            if a.details.period == period {
                let copy = a.clone();
                out.push(copy);
                proof {
                    assert(out@.map_values(|x: Artifact| x@) =~= by_period(
                        self.arts().take(i as int),
                        period,
                    ).push(self.arts()[i as int]));
                }
            }
            i = i + 1;
        }
        proof {
            assert(self.arts().take(self.arts().len() as int) =~= self.arts());
        }
        out
    }

    /// Every artifact whose site name contains `pattern`
    /// case-insensitively, in ascending identifier order.
    pub fn find_by_site(&self, pattern: &str) -> (r: Vec<Artifact>)
        ensures
            r@.map_values(|a: Artifact| a@) == by_site(self.arts(), pattern@),
    {
        let mut out: Vec<Artifact> = Vec::new();
        let mut i: usize = 0;
        proof {
            assert(out@.map_values(|a: Artifact| a@) =~= Seq::<ArtifactModel>::empty());
            assert(self.arts().take(0) =~= Seq::<ArtifactModel>::empty());
            assert(by_site(Seq::<ArtifactModel>::empty(), pattern@) =~= Seq::<ArtifactModel>::empty());
        }
        while i < self.artifacts.len()
            invariant
                i <= self.arts().len(),
                self.arts().len() == self.artifacts@.len(),
                out@.map_values(|a: Artifact| a@) == by_site(self.arts().take(i as int), pattern@),
            decreases self.artifacts@.len() - i,
        {
            let a = &self.artifacts[i];
            proof {
                lemma_by_site_step(self.arts(), pattern@, i as int);
            }
            if contains_ci_str(pattern, a.details.site.as_str()) {
                let copy = a.clone();
                out.push(copy);
                proof {
                    assert(out@.map_values(|x: Artifact| x@) =~= by_site(
                        self.arts().take(i as int),
                        pattern@,
                    ).push(self.arts()[i as int]));
                }
            }
            i = i + 1;
        }
        proof {
            assert(self.arts().take(self.arts().len() as int) =~= self.arts());
        }
        out
    }

    /// Serializes the whole store, ascending by identifier, to the JSON
    /// export text. The verified encoder is total, so the export never
    /// reports an error.
    pub fn export(&self) -> (r: Result<String, CatalogError>)
        ensures
            r is Ok,
            r matches Ok(text) ==> text@ == crate::json::json_catalog(self.arts()),
    {
        let text = crate::json::render_catalog(&self.artifacts);
        proof {
            assert(crate::stats::models(self.artifacts@) =~= self.arts());
        }
        Ok(text)
    }

    /// The aggregate report over the store's current contents.
    pub fn statistics(&self) -> (r: crate::stats::StatisticsReport)
        ensures
            crate::stats::report_describes(r, self.arts()),
    {
        let r = crate::stats::generate_report(&self.artifacts);
        proof {
            assert(crate::stats::models(self.artifacts@) =~= self.arts());
        }
        r
    }

    /// A copy of every artifact, in ascending identifier order.
    pub fn list_all(&self) -> (r: Vec<Artifact>)
        ensures
            r@.map_values(|a: Artifact| a@) == self.arts(),
    {
        let mut out: Vec<Artifact> = Vec::new();
        let mut i: usize = 0;
        while i < self.artifacts.len()
            invariant
                i <= self.arts().len(),
                self.arts().len() == self.artifacts@.len(),
                out@.len() == i as int,
                forall|k: int| 0 <= k < i ==> (#[trigger] out@[k])@ == self.arts()[k],
            decreases self.artifacts@.len() - i,
        {
            let copy = self.artifacts[i].clone();
            out.push(copy);
            i = i + 1;
        }
        proof {
            assert(out@.map_values(|a: Artifact| a@) =~= self.arts());
        }
        out
    }
}

/// One step of a filtered scan: selecting from a prefix one element longer
/// either appends that element or leaves the selection as it was.
proof fn lemma_by_name_step(s: Seq<ArtifactModel>, pattern: Seq<char>, i: int)
    requires
        0 <= i < s.len(),
    ensures
        by_name(s.take(i + 1), pattern) == if name_matches(s[i], pattern) {
            by_name(s.take(i), pattern).push(s[i])
        } else {
            by_name(s.take(i), pattern)
        },
{
    let t = s.take(i + 1);
    assert(t.drop_last() =~= s.take(i));
    assert(t.last() == s[i]);
    reveal_with_fuel(Seq::filter, 2);
    assert(by_name(t, pattern) == if name_matches(s[i], pattern) {
        by_name(s.take(i), pattern).push(s[i])
    } else {
        by_name(s.take(i), pattern)
    });
}

/// One step of a filtered scan: selecting from a prefix one element longer
/// either appends that element or leaves the selection as it was.
proof fn lemma_by_material_step(s: Seq<ArtifactModel>, m: crate::model::MaterialModel, i: int)
    requires
        0 <= i < s.len(),
    ensures
        by_material(s.take(i + 1), m) == if s[i].details.material == m {
            by_material(s.take(i), m).push(s[i])
        } else {
            by_material(s.take(i), m)
        },
{
    let t = s.take(i + 1);
    assert(t.drop_last() =~= s.take(i));
    assert(t.last() == s[i]);
    reveal_with_fuel(Seq::filter, 2);
    assert(by_material(t, m) == if s[i].details.material == m {
        by_material(s.take(i), m).push(s[i])
    } else {
        by_material(s.take(i), m)
    });
}

/// One step of a filtered scan: selecting from a prefix one element longer
/// either appends that element or leaves the selection as it was.
proof fn lemma_by_period_step(s: Seq<ArtifactModel>, p: crate::model::Period, i: int)
    requires
        0 <= i < s.len(),
    ensures
        by_period(s.take(i + 1), p) == if s[i].details.period == p {
            by_period(s.take(i), p).push(s[i])
        } else {
            by_period(s.take(i), p)
        },
{
    let t = s.take(i + 1);
    assert(t.drop_last() =~= s.take(i));
    assert(t.last() == s[i]);
    reveal_with_fuel(Seq::filter, 2);
    assert(by_period(t, p) == if s[i].details.period == p {
        by_period(s.take(i), p).push(s[i])
    } else {
        by_period(s.take(i), p)
    });
}

/// One step of a filtered scan: selecting from a prefix one element longer
/// either appends that element or leaves the selection as it was.
proof fn lemma_by_site_step(s: Seq<ArtifactModel>, pattern: Seq<char>, i: int)
    requires
        0 <= i < s.len(),
    ensures
        by_site(s.take(i + 1), pattern) == if site_matches(s[i], pattern) {
            by_site(s.take(i), pattern).push(s[i])
        } else {
            by_site(s.take(i), pattern)
        },
{
    let t = s.take(i + 1);
    assert(t.drop_last() =~= s.take(i));
    assert(t.last() == s[i]);
    reveal_with_fuel(Seq::filter, 2);
    assert(by_site(t, pattern) == if site_matches(s[i], pattern) {
        by_site(s.take(i), pattern).push(s[i])
    } else {
        by_site(s.take(i), pattern)
    });
}

/// When everything before position `j` misses `id` and position `j` holds
/// it, the lookup finds exactly that artifact.
proof fn lemma_lookup_found(s: Seq<ArtifactModel>, id: u64, j: int)
    requires
        0 <= j < s.len(),
        s[j].id == id,
        forall|k: int| 0 <= k < j ==> (#[trigger] s[k]).id != id,
    ensures
        lookup(s, id) == Some(s[j]),
    decreases j,
{
    if j > 0 {
        assert forall|k: int| 0 <= k < j - 1 implies (#[trigger] s.drop_first()[k]).id != id by {
            assert(s.drop_first()[k] == s[k + 1]);
        }
        lemma_lookup_found(s.drop_first(), id, j - 1);
    }
}

/// When no position holds `id`, the lookup finds nothing.
proof fn lemma_lookup_none(s: Seq<ArtifactModel>, id: u64)
    requires
        forall|k: int| 0 <= k < s.len() ==> (#[trigger] s[k]).id != id,
    ensures
        lookup(s, id) is None,
    decreases s.len(),
{
    if s.len() > 0 {
        assert forall|k: int| 0 <= k < s.drop_first().len() implies (#[trigger] s.drop_first()[k]).id
            != id by {
            assert(s.drop_first()[k] == s[k + 1]);
        }
        lemma_lookup_none(s.drop_first(), id);
    }
}

/// Removing the first holder of `id` is removing position `j`, when `j` is
/// the first position that holds it.
proof fn lemma_without_id_at(s: Seq<ArtifactModel>, id: u64, j: int)
    requires
        0 <= j < s.len(),
        s[j].id == id,
        forall|k: int| 0 <= k < j ==> (#[trigger] s[k]).id != id,
    ensures
        without_id(s, id) == s.remove(j),
    decreases j,
{
    if j == 0 {
        assert(without_id(s, id) =~= s.remove(0));
    } else {
        assert forall|k: int| 0 <= k < j - 1 implies (#[trigger] s.drop_first()[k]).id != id by {
            assert(s.drop_first()[k] == s[k + 1]);
        }
        lemma_without_id_at(s.drop_first(), id, j - 1);
        assert(without_id(s, id) =~= s.remove(j));
    }
}

/// Appending a note to the first holder of `id` is updating position `j`,
/// when `j` is the first position that holds it.
proof fn lemma_with_note_at(s: Seq<ArtifactModel>, id: u64, note: Seq<char>, j: int)
    requires
        0 <= j < s.len(),
        s[j].id == id,
        forall|k: int| 0 <= k < j ==> (#[trigger] s[k]).id != id,
    ensures
        with_note(s, id, note) == s.update(j, note_appended(s[j], note)),
    decreases j,
{
    if j == 0 {
        assert(with_note(s, id, note) =~= s.update(0, note_appended(s[0], note)));
    } else {
        assert forall|k: int| 0 <= k < j - 1 implies (#[trigger] s.drop_first()[k]).id != id by {
            assert(s.drop_first()[k] == s[k + 1]);
        }
        lemma_with_note_at(s.drop_first(), id, note, j - 1);
        assert(with_note(s, id, note) =~= s.update(j, note_appended(s[j], note)));
    }
}


/// A successful lookup returns an artifact bearing the looked-up
/// identifier, drawn from the sequence itself.
proof fn lemma_lookup_member(s: Seq<ArtifactModel>, id: u64)
    requires
        lookup(s, id) is Some,
    ensures
        lookup(s, id)->Some_0.id == id,
        exists|i: int| 0 <= i < s.len() && #[trigger] s[i] == lookup(s, id)->Some_0,
    decreases s.len(),
{
    if s.len() == 0 {
    } else if s[0].id == id {
        assert(s[0] == lookup(s, id)->Some_0);
    } else {
        lemma_lookup_member(s.drop_first(), id);
        let i = choose|i: int|
            0 <= i < s.drop_first().len() && #[trigger] s.drop_first()[i] == lookup(
                s.drop_first(),
                id,
            )->Some_0;
        assert(s[i + 1] == lookup(s, id)->Some_0);
    }
}

/// Law: in a well-formed store every held identifier lies strictly below
/// the identifier the next insertion assigns. Since a successful insertion
/// returns exactly that next identifier, each one returned is strictly
/// greater than every identifier the store has ever assigned.
pub proof fn lemma_fresh_id_exceeds_held(s: CatalogStore)
    requires
        s.wf(),
    ensures
        forall|i: int| 0 <= i < s.arts().len() ==> (#[trigger] s.arts()[i]).id < s.next(),
{
}

/// Law: a well-formed store holds each identifier at most once.
pub proof fn lemma_wf_unique_ids(s: CatalogStore)
    requires
        s.wf(),
    ensures
        unique_ids(s.arts()),
{
}

/// Law: an identifier the store resolves lies strictly below the next one
/// to be assigned; insertions only ever return the next identifier and then
/// raise it, so an identifier freed by a removal is never assigned again.
pub proof fn lemma_resolved_id_below_next(s: CatalogStore, id: u64)
    requires
        s.wf(),
        lookup(s.arts(), id) is Some,
    ensures
        id < s.next(),
{
    lemma_lookup_member(s.arts(), id);
}

/// Law: storing a record under an identifier the sequence does not hold
/// makes the lookup of that identifier find exactly the new record. With
/// the insertion contract this says a lookup straight after an insertion
/// succeeds and returns the inserted record under the assigned identifier.
pub proof fn lemma_lookup_after_insert(s: Seq<ArtifactModel>, a: ArtifactModel)
    requires
        forall|i: int| 0 <= i < s.len() ==> (#[trigger] s[i]).id != a.id,
    ensures
        lookup(s.push(a), a.id) == Some(a),
{
    assert forall|k: int| 0 <= k < s.len() implies (#[trigger] s.push(a)[k]).id != a.id by {
        assert(s.push(a)[k] == s[k]);
    }
    assert(s.push(a)[s.len() as int] == a);
    lemma_lookup_found(s.push(a), a.id, s.len() as int);
}

/// Law: removing an identifier from a duplicate-free sequence leaves no
/// artifact bearing it, so a lookup straight after the removal fails.
pub proof fn lemma_lookup_after_remove(s: Seq<ArtifactModel>, id: u64)
    requires
        unique_ids(s),
    ensures
        lookup(without_id(s, id), id) is None,
    decreases s.len(),
{
    if s.len() == 0 {
    } else if s[0].id == id {
        assert forall|k: int| 0 <= k < s.drop_first().len() implies (#[trigger] s.drop_first()[k]).id
            != id by {
            assert(s.drop_first()[k] == s[k + 1]);
        }
        lemma_lookup_none(s.drop_first(), id);
    } else {
        assert(unique_ids(s.drop_first())) by {
            assert forall|i: int, j: int|
                0 <= i < j < s.drop_first().len() implies (#[trigger] s.drop_first()[i]).id != (
            #[trigger] s.drop_first()[j]).id by {
                assert(s.drop_first()[i] == s[i + 1]);
                assert(s.drop_first()[j] == s[j + 1]);
            }
        }
        lemma_lookup_after_remove(s.drop_first(), id);
        let w = without_id(s, id);
        assert(w == seq![s[0]] + without_id(s.drop_first(), id));
        assert(w[0] == s[0]);
        assert(w.drop_first() =~= without_id(s.drop_first(), id));
        assert(lookup(w, id) == lookup(without_id(s.drop_first(), id), id));
    }
}

/// Law: annotating is strictly additive. When the identifier resolves, the
/// annotated sequence resolves it to the same artifact with exactly the one
/// note appended at the end; every other identifier resolves as before; and
/// when it does not resolve, nothing changes at all.
pub proof fn lemma_append_note_additive(s: Seq<ArtifactModel>, id: u64, note: Seq<char>)
    ensures
        lookup(s, id) is Some ==> lookup(with_note(s, id, note), id) == Some(
            note_appended(lookup(s, id)->Some_0, note),
        ),
        lookup(s, id) is None ==> with_note(s, id, note) == s,
        forall|other: u64|
            other != id ==> #[trigger] lookup(with_note(s, id, note), other) == lookup(s, other),
    decreases s.len(),
{
    if s.len() == 0 {
        assert(with_note(s, id, note) =~= s);
    } else if s[0].id == id {
        let w = with_note(s, id, note);
        assert(w == seq![note_appended(s[0], note)] + s.drop_first());
        assert(w[0] == note_appended(s[0], note));
        assert(w[0].id == id);
        assert(lookup(w, id) == Some(note_appended(s[0], note)));
        assert(w.drop_first() =~= s.drop_first());
        assert forall|other: u64| other != id implies #[trigger] lookup(w, other) == lookup(
            s,
            other,
        ) by {
            assert(lookup(w, other) == lookup(w.drop_first(), other));
            assert(lookup(s, other) == lookup(s.drop_first(), other));
        }
    } else {
        lemma_append_note_additive(s.drop_first(), id, note);
        let w = with_note(s, id, note);
        assert(w == seq![s[0]] + with_note(s.drop_first(), id, note));
        assert(w[0] == s[0]);
        assert(w.drop_first() =~= with_note(s.drop_first(), id, note));
        assert(lookup(w, id) == lookup(with_note(s.drop_first(), id, note), id));
        assert(lookup(s, id) == lookup(s.drop_first(), id));
        if lookup(s, id) is None {
            assert(w =~= s);
        }
        assert forall|other: u64| other != id implies #[trigger] lookup(w, other) == lookup(
            s,
            other,
        ) by {
            if s[0].id == other {
                assert(lookup(w, other) == Some(w[0]));
                assert(lookup(s, other) == Some(s[0]));
            } else {
                assert(lookup(w, other) == lookup(w.drop_first(), other));
                assert(lookup(s, other) == lookup(s.drop_first(), other));
            }
        }
    }
}

/// Law: the empty pattern is contained in every name, so a name search
/// with the empty pattern selects the whole sequence.
pub proof fn lemma_empty_pattern_selects_all(s: Seq<ArtifactModel>)
    ensures
        by_name(s, Seq::<char>::empty()) == s,
    decreases s.len(),
{
    reveal_with_fuel(Seq::filter, 2);
    if s.len() == 0 {
        assert(by_name(s, Seq::<char>::empty()) =~= s);
    } else {
        lemma_empty_pattern_selects_all(s.drop_last());
        crate::text::lemma_empty_pattern_matches(s.last().details.name);
        assert(by_name(s, Seq::<char>::empty()) == by_name(
            s.drop_last(),
            Seq::<char>::empty(),
        ).push(s.last()));
        assert(s.drop_last().push(s.last()) =~= s);
    }
}

} // verus!
