//! The configuration that the engine works on: services, named volumes and
//! networks, each kept in the order of its declaration.

use crate::error::{ComposeError, Failure};
use crate::name_map::NameMap;
use crate::text::texts;
use vstd::prelude::*;

verus! {

/// One service: a container to run, and what it needs.
#[derive(Debug, Clone, PartialEq, Eq)]
pub struct Service {
    /// The image to run.
    pub image: String,
    /// Port mappings. The runtime has none; they are kept for warnings.
    pub ports: Vec<String>,
    /// Volumes, as written: `host:container` with optional `:options`.
    pub volumes: Vec<String>,
    /// Environment entries, each `KEY=VALUE`.
    pub environment: Vec<String>,
    /// The services that have to run before this one.
    pub depends_on: Vec<String>,
    /// The command to run in place of the image's own.
    pub command: Option<Vec<String>>,
    /// The working directory inside the container.
    pub working_dir: Option<String>,
}

/// A named volume.
#[derive(Debug, Clone, PartialEq, Eq)]
pub struct Volume {
    pub driver: String,
}

/// A network.
#[derive(Debug, Clone, PartialEq, Eq)]
pub struct Network {
    pub driver: String,
}

/// A whole configuration.
#[derive(Debug, Clone)]
pub struct ContainerComposeConfig {
    pub version: String,
    pub services: NameMap<Service>,
    pub volumes: NameMap<Volume>,
    pub networks: NameMap<Network>,
}

/// The version of a configuration that states none.
pub fn default_version() -> (v: String)
    ensures
        v@ == "1.0"@,
{
    "1.0".to_owned()
}

/// The driver of a network that states none.
pub fn default_driver() -> (d: String)
    ensures
        d@ == "bridge"@,
{
    "bridge".to_owned()
}

impl ContainerComposeConfig {
    /// Whether the service at position `i` names an image.
    pub open spec fn has_image(&self, i: int) -> bool {
        self.services.values()[i].image@.len() > 0
    }

    /// The names that the service at position `i` depends on.
    pub open spec fn dependencies(&self, i: int) -> Seq<Seq<char>> {
        texts(self.services.values()[i].depends_on@)
    }

    /// Whether the first `k` dependencies of the service at position `i`
    /// are services.
    pub open spec fn dependencies_known(&self, i: int, k: int) -> bool {
        forall|m: int| 0 <= m < k ==> self.services.contains(#[trigger] self.dependencies(i)[m])
    }

    /// Whether the configuration is sound: every service names an image and
    /// depends on services only.
    pub open spec fn is_valid(&self) -> bool {
        forall|i: int|
            0 <= i < self.services.names().len() ==> #[trigger] self.has_image(i)
                && self.dependencies_known(i, self.dependencies(i).len() as int)
    }

    /// What is wrong with the configuration, if anything. A service without
    /// an image is reported before any unknown dependency; of several
    /// faults of one kind the first in declaration order is reported.
    pub open spec fn first_fault(&self, fault: Failure) -> bool {
        match fault {
            Failure::MissingImage { service } => exists|i: int|
                {
                    &&& 0 <= i < self.services.names().len()
                    &&& #[trigger] self.services.names()[i] == service
                    &&& !self.has_image(i)
                    &&& forall|j: int| 0 <= j < i ==> #[trigger] self.has_image(j)
                },
            Failure::UnknownDependency { service, dependency } => {
                &&& forall|j: int|
                    0 <= j < self.services.names().len() ==> #[trigger] self.has_image(j)
                &&& exists|i: int, k: int|
                    {
                        &&& 0 <= i < self.services.names().len()
                        &&& 0 <= k < self.dependencies(i).len()
                        &&& #[trigger] self.services.names()[i] == service
                        &&& #[trigger] self.dependencies(i)[k] == dependency
                        &&& !self.services.contains(dependency)
                        &&& self.dependencies_known(i, k)
                        &&& forall|j: int|
                            0 <= j < i ==> #[trigger] self.dependencies_known(
                                j,
                                self.dependencies(j).len() as int,
                            )
                    }
            },
            _ => false,
        }
    }

    /// Checks that every service names an image and depends on services
    /// only.
    pub fn validate(&self) -> (r: Result<(), ComposeError>)
        ensures
            r is Ok <==> self.is_valid(),
            r matches Err(e) ==> self.first_fault(e@),
    {
        let n = self.services.len();
        let mut i: usize = 0;
        while i < n
            invariant
                n == self.services.names().len(),
                n == self.services.values().len(),
                i <= n,
                forall|j: int| 0 <= j < i ==> #[trigger] self.has_image(j),
            decreases n - i,
        {
            let service = self.services.value_at(i);
            if service.image.as_str().is_empty() {
                let e = ComposeError::MissingImage { service: self.services.name_at(i).clone() };
                assert(self.first_fault(e@));
                assert(!self.has_image(i as int));
                return Err(e);
            }
            i += 1;
        }
        let mut i: usize = 0;
        while i < n
            invariant
                n == self.services.names().len(),
                n == self.services.values().len(),
                i <= n,
                forall|j: int| 0 <= j < n ==> #[trigger] self.has_image(j),
                forall|j: int|
                    0 <= j < i ==> #[trigger] self.dependencies_known(
                        j,
                        self.dependencies(j).len() as int,
                    ),
            decreases n - i,
        {
            let service = self.services.value_at(i);
            let mut k: usize = 0;
            while k < service.depends_on.len()
                invariant
                    i < n,
                    n == self.services.names().len(),
                    n == self.services.values().len(),
                    *service == self.services.values()[i as int],
                    k <= service.depends_on@.len(),
                    self.dependencies_known(i as int, k as int),
                    forall|j: int| 0 <= j < n ==> #[trigger] self.has_image(j),
                    forall|j: int|
                        0 <= j < i ==> #[trigger] self.dependencies_known(
                            j,
                            self.dependencies(j).len() as int,
                        ),
                decreases service.depends_on@.len() - k,
            {
                let dependency = &service.depends_on[k];
                assert(self.dependencies(i as int)[k as int] == dependency@);
                if !self.services.contains_key(dependency.as_str()) {
                    let e = ComposeError::UnknownDependency {
                        service: self.services.name_at(i).clone(),
                        dependency: dependency.clone(),
                    };
                    assert(self.first_fault(e@));
                    assert(!self.dependencies_known(
                        i as int,
                        self.dependencies(i as int).len() as int,
                    ));
                    assert(self.has_image(i as int));
                    return Err(e);
                }
                k += 1;
            }
            i += 1;
        }
        Ok(())
    }
}

/// The shapes in which a configuration may give the environment of a
/// service. What is no string stands as `None`.
#[derive(Debug, Clone, PartialEq, Eq)]
pub enum EnvironmentValue {
    /// A list of entries.
    Sequence(Vec<Option<String>>),
    /// A mapping from keys to values, in the order in which it was written.
    Mapping(Vec<(Option<String>, Option<String>)>),
    /// A single entry.
    Text(String),
    /// Anything else.
    Other,
}

/// The entry that an item of a list stands for: the item, where it is a
/// string.
pub open spec fn item_entry(item: Option<String>) -> Option<Seq<char>> {
    match item {
        Some(s) => Some(s@),
        None => None,
    }
}

/// The entry that a pair of a mapping stands for: `key=value`, where both
/// are strings.
pub open spec fn pair_entry(pair: (Option<String>, Option<String>)) -> Option<Seq<char>> {
    match pair {
        (Some(key), Some(value)) => Some(key@ + seq!['='] + value@),
        _ => None,
    }
}

/// The environment entries that `value` stands for, each `KEY=VALUE`: the
/// strings of a list, the pairs of a mapping whose key and value are both
/// strings, a string alone, and nothing for anything else.
pub open spec fn environment_of(value: EnvironmentValue) -> Seq<Seq<char>> {
    match value {
        EnvironmentValue::Sequence(items) => items@.filter_map(
            |item: Option<String>| item_entry(item),
        ),
        EnvironmentValue::Mapping(pairs) => pairs@.filter_map(
            |pair: (Option<String>, Option<String>)| pair_entry(pair),
        ),
        EnvironmentValue::Text(s) => seq![s@],
        EnvironmentValue::Other => Seq::empty(),
    }
}

/// The environment entries that `value` stands for, each `KEY=VALUE`.
pub fn normalize_environment(value: &EnvironmentValue) -> (entries: Vec<String>)
    ensures
        texts(entries@) == environment_of(*value),
{
    let mut entries: Vec<String> = Vec::new();
    assert(texts(entries@) =~= Seq::<Seq<char>>::empty());
    match value {
        EnvironmentValue::Sequence(items) => {
            let ghost pick = |item: Option<String>| item_entry(item);
            let mut i: usize = 0;
            assert(items@.take(0) =~= Seq::<Option<String>>::empty());
            while i < items.len()
                invariant
                    i <= items@.len(),
                    pick == |item: Option<String>| item_entry(item),
                    texts(entries@) == items@.take(i as int).filter_map(pick),
                decreases items@.len() - i,
            {
                proof {
                    items@.lemma_filter_map_take_succ(pick, i as int);
                }
                match &items[i] {
                    Some(s) => {
                        let copy = s.clone();
                        assert(texts(entries@.push(copy)) =~= texts(entries@) + seq![s@]);
                        entries.push(copy);
                    },
                    None => {
                        assert(texts(entries@) + Seq::<Seq<char>>::empty() =~= texts(entries@));
                    },
                }
                i += 1;
            }
            assert(items@.take(items@.len() as int) =~= items@);
        },
        EnvironmentValue::Mapping(pairs) => {
            let ghost pick = |pair: (Option<String>, Option<String>)| pair_entry(pair);
            let mut i: usize = 0;
            assert(pairs@.take(0) =~= Seq::<(Option<String>, Option<String>)>::empty());
            while i < pairs.len()
                invariant
                    i <= pairs@.len(),
                    pick == |pair: (Option<String>, Option<String>)| pair_entry(pair),
                    texts(entries@) == pairs@.take(i as int).filter_map(pick),
                decreases pairs@.len() - i,
            {
                proof {
                    pairs@.lemma_filter_map_take_succ(pick, i as int);
                }
                let pair = &pairs[i];
                match (&pair.0, &pair.1) {
                    (Some(key), Some(value)) => {
                        proof {
                            reveal_strlit("=");
                            assert("="@ =~= seq!['=']);
                        }
                        let mut entry = key.clone();
                        entry.append("=");
                        entry.append(value.as_str());
                        assert(texts(entries@.push(entry)) =~= texts(entries@) + seq![entry@]);
                        entries.push(entry);
                    },
                    _ => {
                        assert(texts(entries@) + Seq::<Seq<char>>::empty() =~= texts(entries@));
                    },
                }
                i += 1;
            }
            assert(pairs@.take(pairs@.len() as int) =~= pairs@);
        },
        EnvironmentValue::Text(s) => {
            let copy = s.clone();
            assert(texts(entries@.push(copy)) =~= seq![s@]);
            entries.push(copy);
        },
        EnvironmentValue::Other => {},
    }
    entries
}

} // verus!
