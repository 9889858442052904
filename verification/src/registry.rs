//! Schema resolution: subject names, the schema identity a caller supplies,
//! and the process-wide cache of resolved schema ids. The registry itself
//! is an outside service; the resolver decides, from its cache, whether a
//! round trip is needed and which operation to ask for, and records the
//! answer. Cached resolutions are keyed by subject, and for supplied
//! documents by subject and document content, so an identical document is
//! never registered twice by the same resolver.

use vstd::prelude::*;

use crate::codec::clone_bytes;
use crate::validate::bytes_eq;

verus! {

/// How the registry subject is derived.
pub enum SubjectStrategy {
    /// Subject is the topic name with the value suffix.
    TopicName { topic: Vec<u8> },
    /// Subject is the record type name itself.
    RecordName { record: Vec<u8> },
    /// Subject joins topic and record name.
    TopicRecordName { topic: Vec<u8>, record: Vec<u8> },
}

/// Mathematical image of a SubjectStrategy.
pub enum SubjectStrategyV {
    TopicName { topic: Seq<u8> },
    RecordName { record: Seq<u8> },
    TopicRecordName { topic: Seq<u8>, record: Seq<u8> },
}

impl View for SubjectStrategy {
    type V = SubjectStrategyV;

    open spec fn view(&self) -> SubjectStrategyV {
        match self {
            SubjectStrategy::TopicName { topic } => SubjectStrategyV::TopicName { topic: topic@ },
            SubjectStrategy::RecordName { record } => SubjectStrategyV::RecordName {
                record: record@,
            },
            SubjectStrategy::TopicRecordName { topic, record } => {
                SubjectStrategyV::TopicRecordName { topic: topic@, record: record@ }
            },
        }
    }
}

/// The ASCII bytes of the value-side subject suffix, "-value".
pub open spec fn value_suffix() -> Seq<u8> {
    seq![45u8, 118u8, 97u8, 108u8, 117u8, 101u8]
}

/// The registry subject a strategy names.
pub open spec fn subject_of(s: SubjectStrategyV) -> Seq<u8> {
    match s {
        SubjectStrategyV::TopicName { topic } => topic + value_suffix(),
        SubjectStrategyV::RecordName { record } => record,
        SubjectStrategyV::TopicRecordName { topic, record } => topic + seq![45u8] + record,
    }
}

/// Compute the registry subject for a strategy.
pub fn compute_subject(strategy: &SubjectStrategy) -> (r: Vec<u8>)
    ensures
        r@ == subject_of(strategy@),
{
    match strategy {
        SubjectStrategy::TopicName { topic } => {
            let mut r = clone_bytes(topic);
            r.push(45);
            r.push(118);
            r.push(97);
            r.push(108);
            r.push(117);
            r.push(101);
            assert(r@ =~= topic@ + value_suffix());
            r
        },
        SubjectStrategy::RecordName { record } => clone_bytes(record),
        SubjectStrategy::TopicRecordName { topic, record } => {
            let mut r = clone_bytes(topic);
            r.push(45);
            let mut k: usize = 0;
            while k < record.len()
                invariant
                    k <= record@.len(),
                    r@ == topic@ + seq![45u8] + record@.subrange(0, k as int),
                decreases record@.len() - k,
            {
                r.push(record[k]);
                k = k + 1;
                assert(r@ =~= topic@ + seq![45u8] + record@.subrange(0, k as int));
            }
            assert(record@.subrange(0, record@.len() as int) =~= record@);
            r
        },
    }
}

/// The schema identity a caller supplies: a subject strategy, and for
/// registration the schema document itself. A supplied document is never
/// empty.
pub struct SchemaIdentity {
    pub strategy: SubjectStrategy,
    pub document: Option<Vec<u8>>,
}

/// Mathematical image of a SchemaIdentity.
pub struct SchemaIdentityV {
    pub strategy: SubjectStrategyV,
    pub document: Option<Seq<u8>>,
}

impl View for SchemaIdentity {
    type V = SchemaIdentityV;

    open spec fn view(&self) -> SchemaIdentityV {
        SchemaIdentityV {
            strategy: self.strategy@,
            document: match self.document {
                Some(ref d) => Some(d@),
                None => None,
            },
        }
    }
}

impl SchemaIdentity {
    /// A by-value identity always carries a non-empty schema document.
    pub open spec fn wf(self) -> bool {
        match self@.document {
            Some(d) => d.len() > 0,
            None => true,
        }
    }
}

/// The subject an identity resolves under.
pub open spec fn identity_subject(id: SchemaIdentityV) -> Seq<u8> {
    subject_of(id.strategy)
}

/// A successful resolution: the registry-assigned schema id and the
/// subject it was resolved under. Immutable once created.
pub struct ResolvedSchema {
    pub schema_id: u32,
    pub subject: Vec<u8>,
}

/// One cached resolution.
pub struct CacheEntry {
    pub subject: Vec<u8>,
    pub document: Option<Vec<u8>>,
    pub id: u32,
}

/// Mathematical image of a CacheEntry.
pub struct CacheEntryV {
    pub subject: Seq<u8>,
    pub document: Option<Seq<u8>>,
    pub id: u32,
}

impl View for CacheEntry {
    type V = CacheEntryV;

    open spec fn view(&self) -> CacheEntryV {
        CacheEntryV {
            subject: self.subject@,
            document: match self.document {
                Some(ref d) => Some(d@),
                None => None,
            },
            id: self.id,
        }
    }
}

/// The first cached id under the key, front to back.
pub open spec fn cache_lookup(
    c: Seq<CacheEntryV>,
    subject: Seq<u8>,
    document: Option<Seq<u8>>,
) -> Option<u32>
    decreases c.len(),
{
    if c.len() == 0 {
        None
    } else if c[0].subject == subject && c[0].document == document {
        Some(c[0].id)
    } else {
        cache_lookup(c.skip(1), subject, document)
    }
}

/// A freshly recorded resolution, in front of the older entries.
pub open spec fn cache_store(
    c: Seq<CacheEntryV>,
    subject: Seq<u8>,
    document: Option<Seq<u8>>,
    id: u32,
) -> Seq<CacheEntryV> {
    seq![CacheEntryV { subject, document, id }] + c
}

/// Recording a resolution makes every later lookup under the same key —
/// in particular a second resolution of an identical supplied document —
/// return the same id from the cache, with no further registry traffic.
pub proof fn lemma_repeat_resolution_cached(
    c: Seq<CacheEntryV>,
    subject: Seq<u8>,
    document: Option<Seq<u8>>,
    id: u32,
)
    ensures
        cache_lookup(cache_store(c, subject, document, id), subject, document) == Some(id),
{
}

/// What the resolver decides for one identity: a cached answer, or the
/// registry operation that is needed.
pub enum ResolveStep {
    /// The cache already holds the id; no registry round trip.
    Resolved(ResolvedSchema),
    /// Ask the registry for the latest id under the subject.
    NeedLookup { subject: Vec<u8> },
    /// Register the supplied document under the subject.
    NeedRegister { subject: Vec<u8>, document: Vec<u8> },
}

/// The schema resolver: the process-wide cache of resolved ids.
pub struct Resolver {
    pub cache: Vec<CacheEntry>,
}

impl View for Resolver {
    type V = Seq<CacheEntryV>;

    open spec fn view(&self) -> Seq<CacheEntryV> {
        self.cache@.map_values(|e: CacheEntry| e@)
    }
}

/// True exactly when the two optional documents hold the same bytes.
fn doc_eq(a: &Option<Vec<u8>>, b: &Option<Vec<u8>>) -> (r: bool)
    ensures
        r == ({
            let av = match a {
                Some(ref d) => Some(d@),
                None => None,
            };
            let bv = match b {
                Some(ref d) => Some(d@),
                None => None,
            };
            av == bv
        }),
{
    match a {
        None => match b {
            None => true,
            Some(_) => false,
        },
        Some(da) => match b {
            None => false,
            Some(db) => bytes_eq(da, db),
        },
    }
}

impl Resolver {
    /// A resolver with an empty cache.
    pub fn new() -> (r: Resolver)
        ensures
            r@.len() == 0,
    {
        Resolver { cache: Vec::new() }
    }

    /// The first cached id under the key from position k on.
    fn lookup_from(&self, subject: &Vec<u8>, document: &Option<Vec<u8>>, k: usize) -> (r: Option<
        u32,
    >)
        requires
            k <= self.cache@.len(),
        ensures
            r == cache_lookup(
                self@.skip(k as int),
                subject@,
                match document {
                    Some(ref d) => Some(d@),
                    None => None,
                },
            ),
        decreases self.cache@.len() - k,
    {
        if k == self.cache.len() {
            assert(self@.skip(k as int) =~= Seq::<CacheEntryV>::empty());
            None
        } else {
            assert(self@.skip(k as int)[0] == self.cache@[k as int]@);
            assert(self@.skip(k as int).skip(1) =~= self@.skip(k as int + 1));
            if bytes_eq(&self.cache[k].subject, subject) && doc_eq(
                &self.cache[k].document,
                document,
            ) {
                Some(self.cache[k].id)
            } else {
                self.lookup_from(subject, document, k + 1)
            }
        }
    }

    /// What one identity needs: the cached resolution, or the registry
    /// operation to perform. The cache is consulted under the identity's
    /// subject and document key.
    pub fn resolve_step(&self, identity: &SchemaIdentity) -> (r: ResolveStep)
        ensures
            ({
                let subj = identity_subject(identity@);
                let key = identity@.document;
                match r {
                    ResolveStep::Resolved(rs) => {
                        &&& cache_lookup(self@, subj, key) == Some(rs.schema_id)
                        &&& rs.subject@ == subj
                    },
                    ResolveStep::NeedLookup { subject } => {
                        &&& cache_lookup(self@, subj, key) is None
                        &&& identity@.document is None
                        &&& subject@ == subj
                    },
                    ResolveStep::NeedRegister { subject, document } => {
                        &&& cache_lookup(self@, subj, key) is None
                        &&& identity@.document == Some(document@)
                        &&& subject@ == subj
                    },
                }
            }),
    {
        let subject = compute_subject(&identity.strategy);
        assert(self@.skip(0) =~= self@);
        match self.lookup_from(&subject, &identity.document, 0) {
            Some(id) => ResolveStep::Resolved(ResolvedSchema { schema_id: id, subject }),
            None => match &identity.document {
                None => ResolveStep::NeedLookup { subject },
                Some(doc) => ResolveStep::NeedRegister { subject, document: clone_bytes(doc) },
            },
        }
    }

    /// Record a registry answer for an identity. The resolution is cached
    /// under the identity's key, so an identical identity resolves from
    /// the cache from now on.
    pub fn record_resolution(&mut self, identity: &SchemaIdentity, id: u32) -> (r: ResolvedSchema)
        ensures
            final(self)@ == cache_store(
                old(self)@,
                identity_subject(identity@),
                identity@.document,
                id,
            ),
            cache_lookup(final(self)@, identity_subject(identity@), identity@.document) == Some(
                id,
            ),
            r.schema_id == id,
            r.subject@ == identity_subject(identity@),
    {
        let subject = compute_subject(&identity.strategy);
        let document = match &identity.document {
            Some(d) => Some(clone_bytes(d)),
            None => None,
        };
        let entry_subject = clone_bytes(&subject);
        self.cache.insert(0, CacheEntry { subject: entry_subject, document, id });
        proof {
            assert(self.cache@[0]@ == CacheEntryV {
                subject: identity_subject(identity@),
                document: identity@.document,
                id,
            });
            assert(self@ =~= cache_store(
                old(self)@,
                identity_subject(identity@),
                identity@.document,
                id,
            )) by {
                assert forall|j: int| 0 <= j < self@.len() implies self@[j] == cache_store(
                    old(self)@,
                    identity_subject(identity@),
                    identity@.document,
                    id,
                )[j] by {
                    if j > 0 {
                        assert(self.cache@[j] == old(self).cache@[j - 1]);
                    }
                }
            };
            lemma_repeat_resolution_cached(
                old(self)@,
                identity_subject(identity@),
                identity@.document,
                id,
            );
        }
        ResolvedSchema { schema_id: id, subject }
    }

    /// The cache with every resolution under the subject dropped.
    pub open spec fn spec_invalidate(c: Seq<CacheEntryV>, subject: Seq<u8>) -> Seq<CacheEntryV>
        decreases c.len(),
    {
        if c.len() == 0 {
            Seq::empty()
        } else if c[0].subject == subject {
            Self::spec_invalidate(c.skip(1), subject)
        } else {
            seq![c[0]] + Self::spec_invalidate(c.skip(1), subject)
        }
    }

    /// Forget every cached resolution under a subject, the explicit
    /// invalidation hook for schema evolution under a live producer.
    pub fn invalidate(&mut self, subject: &Vec<u8>)
        ensures
            final(self)@ == Self::spec_invalidate(old(self)@, subject@),
    {
        let kept = Self::invalidate_from(&self.cache, subject, 0);
        assert(old(self)@.skip(0) =~= old(self)@);
        self.cache = kept;
    }

    /// The entries from position k on whose subject differs.
    fn invalidate_from(cache: &Vec<CacheEntry>, subject: &Vec<u8>, k: usize) -> (r: Vec<CacheEntry>)
        requires
            k <= cache@.len(),
        ensures
            r@.map_values(|e: CacheEntry| e@) == Self::spec_invalidate(
                cache@.map_values(|e: CacheEntry| e@).skip(k as int),
                subject@,
            ),
        decreases cache@.len() - k,
    {
        let ghost cv = cache@.map_values(|e: CacheEntry| e@);
        if k == cache.len() {
            let r: Vec<CacheEntry> = Vec::new();
            assert(cv.skip(k as int) =~= Seq::<CacheEntryV>::empty());
            assert(r@.map_values(|e: CacheEntry| e@) =~= Seq::<CacheEntryV>::empty());
            r
        } else {
            assert(cv.skip(k as int)[0] == cache@[k as int]@);
            assert(cv.skip(k as int).skip(1) =~= cv.skip(k as int + 1));
            let rest = Self::invalidate_from(cache, subject, k + 1);
            if bytes_eq(&cache[k].subject, subject) {
                rest
            } else {
                let ghost old_rest = rest@;
                let mut rest = rest;
                let entry = CacheEntry {
                    subject: clone_bytes(&cache[k].subject),
                    document: match &cache[k].document {
                        Some(d) => Some(clone_bytes(d)),
                        None => None,
                    },
                    id: cache[k].id,
                };
                rest.insert(0, entry);
                proof {
                    assert(rest@ =~= seq![rest@[0]] + old_rest);
                    assert(rest@[0]@ == cv.skip(k as int)[0]);
                    assert(rest@.map_values(|e: CacheEntry| e@) =~= seq![cv.skip(k as int)[0]]
                        + old_rest.map_values(|e: CacheEntry| e@));
                }
                rest
            }
        }
    }
}

/// Invalidation is complete: afterwards nothing resolves under the
/// subject, whatever document the lookup carries.
pub proof fn lemma_invalidate(c: Seq<CacheEntryV>, subject: Seq<u8>, document: Option<Seq<u8>>)
    ensures
        cache_lookup(Resolver::spec_invalidate(c, subject), subject, document) is None,
    decreases c.len(),
{
    if c.len() > 0 {
        lemma_invalidate(c.skip(1), subject, document);
        if c[0].subject != subject {
            let rest = Resolver::spec_invalidate(c.skip(1), subject);
            assert((seq![c[0]] + rest).skip(1) =~= rest);
        }
    }
}

} // verus!
