//! Identification of resource kinds: which provider, in which region, of which type.

use vstd::prelude::*;

verus! {

/// A cloud provider in one region.
#[derive(Debug, Clone, PartialEq, Eq, PartialOrd, Ord, Hash)]
pub struct RProvider {
    pub name: String,
    pub region: String,
}

/// The type of a resource within its provider.
#[derive(Debug, Clone, PartialEq, Eq, PartialOrd, Ord, Hash)]
pub struct RType {
    pub name: String,
}

/// Provider and type together: what is needed to (de)serialise a stored resource.
#[derive(Debug, Clone, PartialEq, Eq, PartialOrd, Ord, Hash)]
pub struct ResourceType {
    pub rprovider: RProvider,
    pub rtype: RType,
}

/// What tells one registry key from another: the characters of its parts.
pub trait RegistryKey {
    spec fn key_view(&self) -> Seq<Seq<char>>;

    fn same_key(&self, other: &Self) -> (b: bool)
        ensures
            b == (self.key_view() == other.key_view()),
    ;

    fn copy_key(&self) -> (c: Self) where Self: Sized
        ensures
            c.key_view() == self.key_view(),
    ;
}

impl RegistryKey for RProvider {
    open spec fn key_view(&self) -> Seq<Seq<char>> {
        seq![self.name@, self.region@]
    }

    fn same_key(&self, other: &Self) -> (b: bool) {
        let b = self.name == other.name && self.region == other.region;
        proof {
            if self.key_view() == other.key_view() {
                assert(self.key_view()[0] == other.key_view()[0]);
                assert(self.key_view()[1] == other.key_view()[1]);
            }
        }
        b
    }

    fn copy_key(&self) -> (c: Self) {
        RProvider { name: self.name.clone(), region: self.region.clone() }
    }
}

impl RegistryKey for ResourceType {
    open spec fn key_view(&self) -> Seq<Seq<char>> {
        seq![self.rprovider.name@, self.rprovider.region@, self.rtype.name@]
    }

    fn same_key(&self, other: &Self) -> (b: bool) {
        let b = self.rprovider.name == other.rprovider.name && self.rprovider.region
            == other.rprovider.region && self.rtype.name == other.rtype.name;
        proof {
            if self.key_view() == other.key_view() {
                assert(self.key_view()[0] == other.key_view()[0]);
                assert(self.key_view()[1] == other.key_view()[1]);
                assert(self.key_view()[2] == other.key_view()[2]);
            }
        }
        b
    }

    fn copy_key(&self) -> (c: Self) {
        ResourceType {
            rprovider: RProvider {
                name: self.rprovider.name.clone(),
                region: self.rprovider.region.clone(),
            },
            rtype: RType { name: self.rtype.name.clone() },
        }
    }
}

impl RProvider {
    pub fn new(name: String, region: String) -> (r: Self)
        ensures
            r.name@ == name@,
            r.region@ == region@,
    {
        RProvider { name, region }
    }
}

} // verus!

verus! {

/// `serde_json`'s error type, carried inside the errors of this library.
#[verifier::external_type_specification]
#[verifier::external_body]
pub struct ExJsonError(serde_json::Error);

/// Why a resource type or provider could not be served by the registry.
#[derive(Debug)]
pub enum RegistryError {
    DowncastError,
    TypeNotRegistered(String),
    TypeRegisteredAlready(String),
    ProviderNotFound(String),
    LockResourceError,
    SerializationError(serde_json::Error),
    ResourceTypeNotSupported(String),
}

} // verus!

verus! {

/// Values by key, each key once.
#[verifier::reject_recursive_types(K)]
#[verifier::reject_recursive_types(V)]
pub struct Table<K: RegistryKey, V> {
    entries: Vec<(K, V)>,
}

impl<K: RegistryKey, V> Table<K, V> {
    #[verifier::type_invariant]
    closed spec fn keys_distinct(self) -> bool {
        forall|i: int, j: int|
            0 <= i < self.entries@.len() && 0 <= j < self.entries@.len() && i != j
                ==> #[trigger] self.entries@[i].0.key_view() != #[trigger] self.entries@[j].0.key_view()
    }

    /// The value for each key.
    pub closed spec fn map(self) -> Map<Seq<Seq<char>>, V> {
        Map::new(
            |k: Seq<Seq<char>>|
                exists|i: int| 0 <= i < self.entries@.len() && self.entries@[i].0.key_view() == k,
            |k: Seq<Seq<char>>|
                self.entries@[choose|i: int|
                    0 <= i < self.entries@.len() && self.entries@[i].0.key_view() == k].1,
        )
    }

    proof fn lemma_entry(self, i: int)
        requires
            self.keys_distinct(),
            0 <= i < self.entries@.len(),
        ensures
            self.map().contains_key(self.entries@[i].0.key_view()),
            self.map()[self.entries@[i].0.key_view()] == self.entries@[i].1,
    {
        let k = self.entries@[i].0.key_view();
        let c = choose|c: int| 0 <= c < self.entries@.len() && self.entries@[c].0.key_view() == k;
        assert(c == i);
    }

    /// An empty table.
    pub fn new() -> (t: Self)
        ensures
            t.map() == Map::<Seq<Seq<char>>, V>::empty(),
    {
        let t = Table { entries: Vec::new() };
        assert(t.map() =~= Map::<Seq<Seq<char>>, V>::empty());
        t
    }

    fn find(&self, key: &K) -> (r: Option<usize>)
        ensures
            match r {
                Some(i) => i < self.entries@.len() && self.entries@[i as int].0.key_view()
                    == key.key_view(),
                None => forall|i: int|
                    0 <= i < self.entries@.len() ==> (#[trigger] self.entries@[i]).0.key_view()
                        != key.key_view(),
            },
    {
        let mut i: usize = 0;
        while i < self.entries.len()
            invariant
                i <= self.entries@.len(),
                forall|j: int|
                    0 <= j < i ==> (#[trigger] self.entries@[j]).0.key_view() != key.key_view(),
            decreases self.entries@.len() - i,
        {
            if self.entries[i].0.same_key(key) {
                return Some(i);
            }
            i = i + 1;
        }
        None
    }

    /// The value for `key`, if any.
    pub fn get(&self, key: &K) -> (r: Option<&V>)
        ensures
            r is Some == self.map().contains_key(key.key_view()),
            r matches Some(v) ==> *v == self.map()[key.key_view()],
    {
        proof {
            use_type_invariant(self);
        }
        match self.find(key) {
            Some(i) => {
                proof {
                    self.lemma_entry(i as int);
                }
                Some(&self.entries[i].1)
            },
            None => None,
        }
    }

    /// Sets the value for `key`; whether it had one before.
    pub fn insert(&mut self, key: &K, value: V) -> (had: bool)
        ensures
            final(self).map() == old(self).map().insert(key.key_view(), value),
            had == old(self).map().contains_key(key.key_view()),
    {
        proof {
            use_type_invariant(&*self);
        }
        let ghost old_self = *self;
        let ghost k = key.key_view();
        let ghost v = value;
        let found = self.find(key);
        let mut entries: Vec<(K, V)> = Vec::new();
        std::mem::swap(&mut entries, &mut self.entries);
        let had = match found {
            Some(i) => {
                proof {
                    old_self.lemma_entry(i as int);
                }
                entries.set(i, (key.copy_key(), value));
                true
            },
            None => {
                entries.push((key.copy_key(), value));
                false
            },
        };
        let ghost s = entries@;
        let ghost o = old_self.entries@;
        let ghost at: int = match found {
            Some(i) => i as int,
            None => o.len() as int,
        };
        proof {
            assert(s.len() == o.len() || s.len() == o.len() + 1);
            assert(forall|j: int| 0 <= j < s.len() && j != at ==> s[j] == o[j]);
            assert(s[at].0.key_view() == k && s[at].1 == v);
            assert forall|a: int, b: int|
                0 <= a < s.len() && 0 <= b < s.len() && a != b implies #[trigger] s[a].0.key_view()
                != #[trigger] s[b].0.key_view() by {
                if a == at {
                    assert(s[b] == o[b]);
                } else if b == at {
                    assert(s[a] == o[a]);
                } else {
                    assert(s[a] == o[a] && s[b] == o[b]);
                }
            }
        }
        self.entries = entries;
        proof {
            self.lemma_entry(at);
            assert forall|key2: Seq<Seq<char>>|
                #![auto]
                self.map().contains_key(key2) == old_self.map().insert(k, v).contains_key(key2) by {
                if self.map().contains_key(key2) {
                    let j = choose|j: int| 0 <= j < s.len() && s[j].0.key_view() == key2;
                    if j != at {
                        old_self.lemma_entry(j);
                    }
                }
                if old_self.map().contains_key(key2) {
                    let j = choose|j: int| 0 <= j < o.len() && o[j].0.key_view() == key2;
                    if j != at {
                        self.lemma_entry(j);
                    }
                }
            }
            assert forall|key2: Seq<Seq<char>>| #[trigger]
                self.map().contains_key(key2) implies self.map()[key2] == old_self.map().insert(
                k,
                v,
            )[key2] by {
                let j = choose|j: int| 0 <= j < s.len() && s[j].0.key_view() == key2;
                self.lemma_entry(j);
                if j != at {
                    old_self.lemma_entry(j);
                }
            }
            assert(self.map() =~= old_self.map().insert(k, v));
        }
        had
    }
}

/// The registry: for each resource type, how its resources are (de)serialised (`S`); for
/// each cloud provider, the provider (`P`) that supplies that for its types.
#[verifier::reject_recursive_types(S)]
#[verifier::reject_recursive_types(P)]
pub struct Registry<S, P> {
    serde_store: Table<ResourceType, S>,
    provider_store: Table<RProvider, P>,
}

/// How std's `Debug` writes the string `s`: in double quotes, with its special characters
/// escaped.
pub uninterp spec fn debug_text(s: Seq<char>) -> Seq<char>;

/// std's `Debug` for `str`, through `format!`. The contract names the text; it claims that it
/// depends on the string alone.
#[verifier::external_body]
pub(crate) fn debug_str(s: &str) -> (d: String)
    ensures
        d@ == debug_text(s@),
{
    format!("{:?}", s)
}

/// The message for the type `rt` registered twice, which shows the type as its derived
/// `Debug` writes it.
pub open spec fn registered_already_text(rt: ResourceType) -> Seq<char> {
    "Type id ResourceType { rprovider: RProvider { name: "@ + debug_text(rt.rprovider.name@)
        + ", region: "@ + debug_text(rt.rprovider.region@) + " }, rtype: RType { name: "@
        + debug_text(rt.rtype.name@) + " } } was already registered."@
}

/// The message for a type registered twice (see `registered_already_text`).
fn registered_already_message(resource_type: &ResourceType) -> (m: String)
    ensures
        m@ == registered_already_text(*resource_type),
{
    let mut m = "Type id ResourceType { rprovider: RProvider { name: ".to_string();
    m.append(debug_str(resource_type.rprovider.name.as_str()).as_str());
    m.append(", region: ");
    m.append(debug_str(resource_type.rprovider.region.as_str()).as_str());
    m.append(" }, rtype: RType { name: ");
    m.append(debug_str(resource_type.rtype.name.as_str()).as_str());
    m.append(" } } was already registered.");
    m
}

impl<S, P> Registry<S, P> {
    /// The (de)serialisation of each registered type, by the characters of its parts.
    pub closed spec fn serdes(self) -> Map<Seq<Seq<char>>, S> {
        self.serde_store.map()
    }

    /// The provider of each registered cloud provider, by the characters of its parts.
    pub closed spec fn providers(self) -> Map<Seq<Seq<char>>, P> {
        self.provider_store.map()
    }

    /// A registry that knows nothing.
    pub fn new() -> (r: Self)
        ensures
            r.serdes() == Map::<Seq<Seq<char>>, S>::empty(),
            r.providers() == Map::<Seq<Seq<char>>, P>::empty(),
    {
        Registry { serde_store: Table::new(), provider_store: Table::new() }
    }

    /// Registers `provider` for `rprovider`, in place of any before.
    pub fn register_provider(&mut self, rprovider: &RProvider, provider: P)
        ensures
            final(self).providers() == old(self).providers().insert(rprovider.key_view(), provider),
            final(self).serdes() == old(self).serdes(),
    {
        self.provider_store.insert(rprovider, provider);
    }

    /// Registers the (de)serialisation of `resource_type`. One registered before is replaced,
    /// and that is reported as `TypeRegisteredAlready`.
    pub fn register_type(&mut self, resource_type: &ResourceType, resource_serde: S) -> (r: Result<
        (),
        RegistryError,
    >)
        ensures
            final(self).serdes() == old(self).serdes().insert(
                resource_type.key_view(),
                resource_serde,
            ),
            final(self).providers() == old(self).providers(),
            r is Ok <==> !old(self).serdes().contains_key(resource_type.key_view()),
            r is Err ==> r matches Err(RegistryError::TypeRegisteredAlready(_)),
            r matches Err(RegistryError::TypeRegisteredAlready(m)) ==> m@ == registered_already_text(
                *resource_type,
            ),
    {
        if self.serde_store.insert(resource_type, resource_serde) {
            Err(RegistryError::TypeRegisteredAlready(registered_already_message(resource_type)))
        } else {
            Ok(())
        }
    }

    /// The (de)serialisation registered for `resource_type`, if any.
    pub fn serde_of(&self, resource_type: &ResourceType) -> (r: Option<&S>)
        ensures
            r is Some == self.serdes().contains_key(resource_type.key_view()),
            r matches Some(s) ==> *s == self.serdes()[resource_type.key_view()],
    {
        self.serde_store.get(resource_type)
    }

    /// The provider registered for `rprovider`, if any.
    pub fn provider_of(&self, rprovider: &RProvider) -> (r: Option<&P>)
        ensures
            r is Some == self.providers().contains_key(rprovider.key_view()),
            r matches Some(p) ==> *p == self.providers()[rprovider.key_view()],
    {
        self.provider_store.get(rprovider)
    }

    /// Makes sure a provider is registered for `rprovider`: when none is, the one `factory`
    /// makes for it is registered, or its error returned.
    pub fn ensure_provider_is_registered<F: Fn(&RProvider) -> Result<P, RegistryError>>(
        &mut self,
        rprovider: &RProvider,
        factory: F,
    ) -> (r: Result<(), RegistryError>)
        requires
            factory.requires((rprovider,)),
        ensures
            final(self).serdes() == old(self).serdes(),
            old(self).providers().contains_key(rprovider.key_view()) ==> r is Ok && final(self).providers() == old(self).providers(),
            !old(self).providers().contains_key(rprovider.key_view()) ==> match r {
                Ok(_) => exists|p: P|
                    factory.ensures((rprovider,), Ok::<P, RegistryError>(p)) && final(self).providers() == old(self).providers().insert(rprovider.key_view(), p),
                Err(e) => factory.ensures((rprovider,), Err::<P, RegistryError>(e)) && final(self).providers() == old(self).providers(),
            },
    {
        if self.provider_store.get(rprovider).is_some() {
            return Ok(());
        }
        match factory(rprovider) {
            Ok(provider) => {
                self.provider_store.insert(rprovider, provider);
                Ok(())
            },
            Err(err) => Err(err),
        }
    }

    /// Makes sure the (de)serialisation of `resource_type` is registered: when it is not,
    /// its cloud provider is made sure of (see `ensure_provider_is_registered`) and asked
    /// for it through `get_serde`, and what it supplies is registered; or the error of
    /// either is returned.
    pub fn ensure_type_is_registered<
        F: Fn(&RProvider) -> Result<P, RegistryError>,
        G: Fn(&P, &ResourceType) -> Result<S, RegistryError>,
    >(&mut self, resource_type: &ResourceType, factory: F, get_serde: G) -> (r: Result<
        (),
        RegistryError,
    >)
        requires
            factory.requires((&resource_type.rprovider,)),
            forall|p: &P| #[trigger] get_serde.requires((p, resource_type)),
        ensures
            old(self).serdes().contains_key(resource_type.key_view()) ==> r is Ok && final(self).serdes() == old(self).serdes() && final(self).providers() == old(self).providers(),
            r is Ok ==> final(self).serdes().contains_key(resource_type.key_view()),
            !old(self).serdes().contains_key(resource_type.key_view()) && r is Ok ==> exists|
                s: S,
            |
                get_serde.ensures(
                    (&final(self).providers()[resource_type.rprovider.key_view()], resource_type),
                    Ok::<S, RegistryError>(s),
                ) && final(self).serdes() == old(self).serdes().insert(
                    resource_type.key_view(),
                    s,
                ),
            r is Err ==> final(self).serdes() == old(self).serdes(),
            final(self).providers().dom() == old(self).providers().dom() || final(self).providers().dom() == old(self).providers().dom().insert(
                resource_type.rprovider.key_view(),
            ),
    {
        if self.serde_store.get(resource_type).is_some() {
            return Ok(());
        }
        match self.ensure_provider_is_registered(&resource_type.rprovider, factory) {
            Ok(()) => {},
            Err(err) => return Err(err),
        }
        let serde = match self.provider_store.get(&resource_type.rprovider) {
            Some(provider) => get_serde(provider, resource_type),
            None => return Err(RegistryError::ProviderNotFound(resource_type.rprovider.name.clone())),
        };
        match serde {
            Ok(serde) => {
                self.serde_store.insert(resource_type, serde);
                Ok(())
            },
            Err(err) => Err(err),
        }
    }
}

} // verus!
