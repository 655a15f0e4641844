//! The npm registry as the launcher reads it: the URLs of the dsh package,
//! the parts of its metadata that the logic uses, the checks on what came
//! back, and a five-minute cache of fetched metadata.
//!
//! The HTTP requests and the JSON parsing happen outside; they hand over
//! the values below.
use vstd::prelude::*;

use crate::error::{Fault, LauncherError};
use crate::text::{chars_of, extend, join, join_exec, string_of, str_eq, trail_count2, trail_len, slice_of};

verus! {

broadcast use vstd::string::group_string_axioms;

/// The npm registry.
pub const DEFAULT_REGISTRY_NPMJS: &'static str = "https://registry.npmjs.org";

/// The npmmirror registry (the state's default).
pub const DEFAULT_REGISTRY_NPMMIRROR: &'static str = "https://registry.npmmirror.com";

/// How long fetched metadata stays fresh, in milliseconds.
pub const REGISTRY_CACHE_TTL_MS: u64 = 300000;

/// The dsh package (its scope is fixed).
pub const DSH_PACKAGE_NAME: &'static str = "@deepseek-ai/dsh";

/// `s` without its trailing slashes.
pub open spec fn trim_end_slashes_spec(s: Seq<char>) -> Seq<char> {
    s.take(s.len() - trail_len(s, |x: char| x == '/' || x == '/'))
}

fn trim_end_slashes(s: &str) -> (r: Vec<char>)
    ensures
        r@ == trim_end_slashes_spec(s@),
{
    let c = chars_of(s);
    let n = trail_count2(&c, '/', '/');
    let r = slice_of(&c, 0, c.len() - n);
    assert(r@ =~= s@.take(s@.len() - n));
    r
}

/// `{registry}/@deepseek-ai/dsh`, without doubled slashes at the joint.
pub fn metadata_url(registry: &str) -> (r: String)
    ensures
        r@ == trim_end_slashes_spec(registry@) + "/@deepseek-ai/dsh"@,
{
    let mut u = trim_end_slashes(registry);
    extend(&mut u, &chars_of("/@deepseek-ai/dsh"));
    string_of(&u)
}

/// `{registry}/@deepseek-ai/dsh/{version}`.
pub fn manifest_url(registry: &str, version: &str) -> (r: String)
    ensures
        r@ == trim_end_slashes_spec(registry@) + "/@deepseek-ai/dsh/"@ + version@,
{
    let mut u = trim_end_slashes(registry);
    extend(&mut u, &chars_of("/@deepseek-ai/dsh/"));
    extend(&mut u, &chars_of(version));
    string_of(&u)
}

/// A version's `dist` object.
#[derive(Debug, Clone, PartialEq, Eq)]
pub struct DistInfo {
    /// `sha512-<base64>`.
    pub integrity: String,
    /// The tarball's URL.
    pub tarball: String,
}

/// A version's `engines` object (only `node` is read; missing is empty).
#[derive(Debug, Clone, PartialEq, Eq)]
pub struct EnginesField {
    pub node: String,
}

/// One version's manifest.
#[derive(Debug, Clone, PartialEq, Eq)]
pub struct PackageManifest {
    pub version: String,
    pub engines: EnginesField,
    pub dist: DistInfo,
}

/// The `dist-tags` object (only `latest` is read).
#[derive(Debug, Clone, PartialEq, Eq)]
pub struct DistTags {
    pub latest: String,
}

/// The package metadata. `versions` holds each version key once, in key
/// order, with its manifest or the text of the error its JSON gave.
#[derive(Debug, Clone, PartialEq, Eq)]
pub struct PackageMetadata {
    pub name: String,
    pub dist_tags: DistTags,
    pub versions: Vec<(String, Result<PackageManifest, String>)>,
}

/// The metadata as values.
pub ghost struct MetadataView {
    pub name: Seq<char>,
    pub latest: Seq<char>,
    pub versions: Seq<(String, Result<PackageManifest, String>)>,
}

impl View for PackageMetadata {
    type V = MetadataView;

    open spec fn view(&self) -> MetadataView {
        MetadataView {
            name: self.name@,
            latest: self.dist_tags.latest@,
            versions: self.versions@,
        }
    }
}

impl DistInfo {
    pub fn copy(&self) -> (r: Self)
        ensures
            r == *self,
    {
        DistInfo { integrity: self.integrity.clone(), tarball: self.tarball.clone() }
    }
}

impl PackageManifest {
    /// A copy of the manifest.
    pub fn copy(&self) -> (r: Self)
        ensures
            r == *self,
    {
        PackageManifest {
            version: self.version.clone(),
            engines: EnginesField { node: self.engines.node.clone() },
            dist: self.dist.copy(),
        }
    }
}

/// The version keys.
pub open spec fn version_keys(v: Seq<(String, Result<PackageManifest, String>)>) -> Seq<Seq<char>> {
    v.map_values(|e: (String, Result<PackageManifest, String>)| e.0@)
}

/// The index of the first entry for `version`.
pub open spec fn entry_index(
    v: Seq<(String, Result<PackageManifest, String>)>,
    version: Seq<char>,
    i: int,
) -> Option<int>
    decreases v.len() - i,
{
    if i < 0 || i >= v.len() {
        None
    } else if v[i].0@ == version {
        Some(i)
    } else {
        entry_index(v, version, i + 1)
    }
}

/// The error for a version the metadata does not list.
pub open spec fn missing_version_fault(m: MetadataView, version: Seq<char>) -> Fault {
    Fault::DshRegistry(
        "version "@ + version + " not found in "@ + m.name + " (available: "@ + join(
            version_keys(m.versions),
            ", "@,
        ) + ")"@,
    )
}

/// What `manifest_for` gives.
pub open spec fn manifest_for_spec(m: MetadataView, version: Seq<char>) -> Result<
    PackageManifest,
    Fault,
> {
    match entry_index(m.versions, version, 0) {
        None => Err(missing_version_fault(m, version)),
        Some(i) => match m.versions[i].1 {
            Ok(x) => Ok(x),
            Err(t) => Err(Fault::DshRegistry(t@)),
        },
    }
}

impl PackageMetadata {
    /// The manifest of `version`: missing from the metadata, or present
    /// with JSON that did not parse, is an error.
    pub fn manifest_for(&self, version: &str) -> (r: Result<PackageManifest, LauncherError>)
        ensures
            match manifest_for_spec(self@, version@) {
                Ok(m) => r == Ok::<PackageManifest, LauncherError>(m),
                Err(f) => r matches Err(e) && e@ == f,
            },
    {
        let mut i: usize = 0;
        while i < self.versions.len()
            invariant
                i <= self.versions.len(),
                entry_index(self.versions@, version@, 0) == entry_index(
                    self.versions@,
                    version@,
                    i as int,
                ),
            decreases self.versions.len() - i,
        {
            if str_eq(self.versions[i].0.as_str(), version) {
                return match &self.versions[i].1 {
                    Ok(m) => Ok(m.copy()),
                    Err(t) => Err(LauncherError::DshRegistry(t.clone())),
                };
            }
            i += 1;
        }
        let mut keys: Vec<Vec<char>> = Vec::new();
        for j in 0..self.versions.len()
            invariant
                keys@.map_values(|p: Vec<char>| p@) == version_keys(self.versions@).take(j as int),
        {
            let ghost before = keys@.map_values(|p: Vec<char>| p@);
            keys.push(chars_of(self.versions[j].0.as_str()));
            assert(keys@.map_values(|p: Vec<char>| p@) =~= before.push(self.versions@[j as int].0@));
            assert(keys@.map_values(|p: Vec<char>| p@) =~= version_keys(self.versions@).take(
                j + 1,
            ));
        }
        assert(version_keys(self.versions@).take(self.versions.len() as int) =~= version_keys(
            self.versions@,
        ));
        let mut m = chars_of("version ");
        extend(&mut m, &chars_of(version));
        extend(&mut m, &chars_of(" not found in "));
        extend(&mut m, &chars_of(self.name.as_str()));
        extend(&mut m, &chars_of(" (available: "));
        extend(&mut m, &join_exec(&keys, &chars_of(", ")));
        extend(&mut m, &chars_of(")"));
        Err(LauncherError::DshRegistry(string_of(&m)))
    }

    /// A copy of the metadata.
    pub fn copy(&self) -> (r: Self)
        ensures
            r@ == self@,
    {
        let mut versions: Vec<(String, Result<PackageManifest, String>)> = Vec::new();
        for i in 0..self.versions.len()
            invariant
                versions@ == self.versions@.take(i as int),
        {
            let entry = match &self.versions[i].1 {
                Ok(m) => Ok(m.copy()),
                Err(t) => Err(t.clone()),
            };
            versions.push((self.versions[i].0.clone(), entry));
            assert(versions@ =~= self.versions@.take(i + 1));
        }
        assert(self.versions@.take(self.versions.len() as int) =~= self.versions@);
        PackageMetadata {
            name: self.name.clone(),
            dist_tags: DistTags { latest: self.dist_tags.latest.clone() },
            versions,
        }
    }
}

/// Metadata for another package is refused.
pub fn check_metadata_name(metadata: &PackageMetadata) -> (r: Result<(), LauncherError>)
    ensures
        metadata.name@ == "@deepseek-ai/dsh"@ ==> r is Ok,
        metadata.name@ != "@deepseek-ai/dsh"@ ==> (r matches Err(e) && e@ == Fault::DshRegistry(
            "registry returned wrong package name: expected @deepseek-ai/dsh, got "@
                + metadata.name@,
        )),
{
    if str_eq(metadata.name.as_str(), DSH_PACKAGE_NAME) {
        return Ok(());
    }
    let mut m = chars_of("registry returned wrong package name: expected @deepseek-ai/dsh, got ");
    extend(&mut m, &chars_of(metadata.name.as_str()));
    Err(LauncherError::DshRegistry(string_of(&m)))
}

/// A manifest for another version than the one requested is refused.
pub fn check_manifest_version(manifest: &PackageManifest, version: &str) -> (r: Result<
    (),
    LauncherError,
>)
    ensures
        manifest.version@ == version@ ==> r is Ok,
        manifest.version@ != version@ ==> (r matches Err(e) && e@ == Fault::DshRegistry(
            "registry returned version "@ + manifest.version@ + " but requested "@ + version@,
        )),
{
    if str_eq(manifest.version.as_str(), version) {
        return Ok(());
    }
    let mut m = chars_of("registry returned version ");
    extend(&mut m, &chars_of(manifest.version.as_str()));
    extend(&mut m, &chars_of(" but requested "));
    extend(&mut m, &chars_of(version));
    Err(LauncherError::DshRegistry(string_of(&m)))
}

// ---------------------------------------------------------------------------
// Cache
// ---------------------------------------------------------------------------

/// Fetched metadata by registry, with the time (milliseconds on a monotonic
/// clock) it was fetched. Only successful fetches are put in.
pub struct RegistryCache {
    entries: Vec<(String, PackageMetadata, u64)>,
}

/// Metadata fetched at `fetched` is still fresh at `now`.
pub open spec fn is_fresh(fetched: u64, now: u64) -> bool {
    (if now >= fetched {
        now - fetched
    } else {
        0
    }) < REGISTRY_CACHE_TTL_MS
}

/// The cache as a map from registry to metadata and fetch time.
pub open spec fn cache_map(e: Seq<(String, PackageMetadata, u64)>) -> Map<
    Seq<char>,
    (MetadataView, u64),
>
    decreases e.len(),
{
    if e.len() == 0 {
        Map::empty()
    } else {
        cache_map(e.drop_last()).insert(e.last().0@, (e.last().1@, e.last().2))
    }
}

/// Each registry occurs once.
pub open spec fn keys_unique(e: Seq<(String, PackageMetadata, u64)>) -> bool {
    forall|i: int, j: int| 0 <= i < j < e.len() ==> e[i].0@ != e[j].0@
}

impl View for RegistryCache {
    type V = Map<Seq<char>, (MetadataView, u64)>;

    closed spec fn view(&self) -> Map<Seq<char>, (MetadataView, u64)> {
        cache_map(self.entries@)
    }
}

proof fn lemma_cache_map_lookup(e: Seq<(String, PackageMetadata, u64)>, i: int)
    requires
        keys_unique(e),
        0 <= i < e.len(),
    ensures
        cache_map(e).contains_key(e[i].0@),
        cache_map(e)[e[i].0@] == (e[i].1@, e[i].2),
    decreases e.len(),
{
    if i < e.len() - 1 {
        lemma_cache_map_lookup(e.drop_last(), i);
    }
}

proof fn lemma_cache_map_absent(e: Seq<(String, PackageMetadata, u64)>, k: Seq<char>)
    requires
        forall|i: int| 0 <= i < e.len() ==> e[i].0@ != k,
    ensures
        !cache_map(e).contains_key(k),
    decreases e.len(),
{
    if e.len() > 0 {
        lemma_cache_map_absent(e.drop_last(), k);
    }
}

proof fn lemma_cache_map_domain(e: Seq<(String, PackageMetadata, u64)>)
    ensures
        cache_map(e).dom().finite(),
        forall|k: Seq<char>| #[trigger]
            cache_map(e).contains_key(k) ==> exists|i: int| 0 <= i < e.len() && e[i].0@ == k,
    decreases e.len(),
{
    if e.len() > 0 {
        lemma_cache_map_domain(e.drop_last());
        assert forall|k: Seq<char>| #[trigger] cache_map(e).contains_key(k) implies exists|i: int|
            0 <= i < e.len() && e[i].0@ == k by {
            if k != e.last().0@ {
                let i = choose|i: int| 0 <= i < e.drop_last().len() && e.drop_last()[i].0@ == k;
                assert(e[i].0@ == k);
            } else {
                assert(e[e.len() - 1].0@ == k);
            }
        }
    }
}

impl RegistryCache {
    #[verifier::type_invariant]
    closed spec fn unique(self) -> bool {
        keys_unique(self.entries@)
    }

    /// An empty cache.
    pub fn new() -> (r: Self)
        ensures
            r@ == Map::<Seq<char>, (MetadataView, u64)>::empty(),
    {
        RegistryCache { entries: Vec::new() }
    }

    fn position(&self, registry: &str) -> (r: Option<usize>)
        ensures
            match r {
                Some(i) => i < self.entries.len() && self.entries@[i as int].0@ == registry@,
                None => forall|i: int|
                    0 <= i < self.entries.len() ==> self.entries@[i].0@ != registry@,
            },
    {
        for i in 0..self.entries.len()
            invariant
                forall|k: int| 0 <= k < i ==> self.entries@[k].0@ != registry@,
        {
            if str_eq(self.entries[i].0.as_str(), registry) {
                return Some(i);
            }
        }
        None
    }

    /// The cached metadata of `registry`, if it was fetched less than five
    /// minutes before `now`.
    pub fn get_metadata(&self, registry: &str, now: u64) -> (r: Option<PackageMetadata>)
        ensures
            match r {
                Some(m) => self@.contains_key(registry@) && self@[registry@].0 == m@ && is_fresh(
                    self@[registry@].1,
                    now,
                ),
                None => !self@.contains_key(registry@) || !is_fresh(self@[registry@].1, now),
            },
    {
        proof {
            use_type_invariant(self);
        }
        match self.position(registry) {
            None => {
                proof {
                    lemma_cache_map_absent(self.entries@, registry@);
                }
                None
            },
            Some(i) => {
                proof {
                    lemma_cache_map_lookup(self.entries@, i as int);
                }
                let fetched = self.entries[i].2;
                let elapsed = if now >= fetched {
                    now - fetched
                } else {
                    0
                };
                if elapsed < REGISTRY_CACHE_TTL_MS {
                    Some(self.entries[i].1.copy())
                } else {
                    None
                }
            },
        }
    }

    /// Stores metadata fetched from `registry` at `now`, replacing what was
    /// cached for it.
    pub fn put_metadata(&mut self, registry: &str, data: PackageMetadata, now: u64)
        ensures
            final(self)@ == old(self)@.insert(registry@, (data@, now)),
    {
        proof {
            use_type_invariant(&*self);
        }
        let ghost before = self.entries@;
        let pos = self.position(registry);
        let mut entries: Vec<(String, PackageMetadata, u64)> = Vec::new();
        std::mem::swap(&mut entries, &mut self.entries);
        match pos {
            Some(i) => {
                entries.remove(i);
                proof {
                    let after = entries@;
                    assert(after =~= before.remove(i as int));
                    assert forall|a: int, b: int| 0 <= a < b < after.len() implies after[a].0@
                        != after[b].0@ by {
                        let ia = if a < i { a } else { a + 1 };
                        let ib = if b < i { b } else { b + 1 };
                        assert(after[a] == before[ia]);
                        assert(after[b] == before[ib]);
                    }
                    assert forall|k: Seq<char>| #[trigger]
                        cache_map(after).contains_key(k) <==> (cache_map(before).contains_key(k)
                            && k != registry@) by {
                        lemma_cache_map_domain(after);
                        lemma_cache_map_domain(before);
                        if cache_map(after).contains_key(k) {
                            let j = choose|j: int| 0 <= j < after.len() && after[j].0@ == k;
                            let jj = if j < i { j } else { j + 1 };
                            assert(before[jj].0@ == k);
                            lemma_cache_map_lookup(before, jj);
                        }
                        if cache_map(before).contains_key(k) && k != registry@ {
                            let j = choose|j: int| 0 <= j < before.len() && before[j].0@ == k;
                            assert(j != i);
                            let jj = if j < i { j } else { j - 1 };
                            assert(after[jj].0@ == k);
                            lemma_cache_map_lookup(after, jj);
                        }
                    }
                    assert forall|k: Seq<char>| #[trigger]
                        cache_map(after).contains_key(k) implies cache_map(after)[k] == cache_map(
                        before,
                    )[k] by {
                        lemma_cache_map_domain(after);
                        let j = choose|j: int| 0 <= j < after.len() && after[j].0@ == k;
                        let jj = if j < i { j } else { j + 1 };
                        lemma_cache_map_lookup(after, j);
                        lemma_cache_map_lookup(before, jj);
                    }
                    assert(cache_map(after) =~= cache_map(before).remove(registry@));
                }
            },
            None => {
                proof {
                    lemma_cache_map_absent(before, registry@);
                    assert(cache_map(before) =~= cache_map(before).remove(registry@));
                }
            },
        }
        let ghost mid = entries@;
        proof {
            assert forall|j: int| 0 <= j < mid.len() implies mid[j].0@ != registry@ by {
                if mid[j].0@ == registry@ {
                    lemma_cache_map_lookup(mid, j);
                }
            }
        }
        entries.push((String::from_str(registry), data, now));
        proof {
            let after = entries@;
            assert(after.drop_last() =~= mid);
            assert forall|a: int, b: int| 0 <= a < b < after.len() implies after[a].0@
                != after[b].0@ by {
                if b == after.len() - 1 {
                    assert(after[a] == mid[a]);
                }
            }
            assert(cache_map(after) =~= cache_map(before).insert(registry@, (data@, now)));
        }
        self.entries = entries;
    }

    /// Empties the cache.
    pub fn invalidate(&mut self)
        ensures
            final(self)@ == Map::<Seq<char>, (MetadataView, u64)>::empty(),
    {
        self.entries = Vec::new();
    }

    /// The number of cached registries.
    pub fn len(&self) -> (r: usize)
        ensures
            r == self@.dom().len(),
    {
        proof {
            use_type_invariant(self);
            lemma_cache_map_len(self.entries@);
        }
        self.entries.len()
    }

    /// Nothing is cached.
    pub fn is_empty(&self) -> (r: bool)
        ensures
            r == (self@.dom().len() == 0),
    {
        self.len() == 0
    }
}

proof fn lemma_cache_map_len(e: Seq<(String, PackageMetadata, u64)>)
    requires
        keys_unique(e),
    ensures
        cache_map(e).dom().len() == e.len(),
    decreases e.len(),
{
    if e.len() > 0 {
        lemma_cache_map_len(e.drop_last());
        lemma_cache_map_domain(e.drop_last());
        assert(!cache_map(e.drop_last()).contains_key(e.last().0@)) by {
            if cache_map(e.drop_last()).contains_key(e.last().0@) {
                let i = choose|i: int|
                    0 <= i < e.drop_last().len() && e.drop_last()[i].0@ == e.last().0@;
                assert(e[i].0@ == e[e.len() - 1].0@);
            }
        }
    }
}

/// Metadata put into the cache is what a read within five minutes gives
/// back; a read for another registry is unaffected; after `invalidate`
/// nothing is read back.
pub proof fn law_cache_reads_back_fresh_writes(
    m: Map<Seq<char>, (MetadataView, u64)>,
    registry: Seq<char>,
    other: Seq<char>,
    data: MetadataView,
    fetched: u64,
    now: u64,
)
    requires
        fetched <= now < fetched + REGISTRY_CACHE_TTL_MS,
        other != registry,
    ensures
        m.insert(registry, (data, fetched))[registry] == (data, fetched),
        is_fresh(fetched, now),
        !is_fresh(fetched, (fetched + REGISTRY_CACHE_TTL_MS) as u64) || fetched
            + REGISTRY_CACHE_TTL_MS > u64::MAX,
        m.insert(registry, (data, fetched)).contains_key(other) == m.contains_key(other),
        m.contains_key(other) ==> m.insert(registry, (data, fetched))[other] == m[other],
{
}

} // verus!
