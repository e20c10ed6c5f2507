//! The adapters that are installed in this runtime, by the kind that a target names.
use crate::text::{blank, is_blank, join2, join3, same_text};
use vstd::prelude::*;

verus! {

/// Why an adapter was not registered.
#[derive(Debug, Clone, PartialEq, Eq)]
pub enum AdapterRegistryError {
    InvalidKind(String),
    DuplicateKind(String),
}

impl AdapterRegistryError {
    pub open spec fn detail(self) -> Seq<char> {
        match self {
            AdapterRegistryError::InvalidKind(m) => "invalid adapter kind: "@ + m@,
            AdapterRegistryError::DuplicateKind(k) => "duplicate adapter kind registration: '"@ + k@
                + "'"@,
        }
    }

    pub fn message(&self) -> (text: String)
        ensures
            text@ == self.detail(),
    {
        match self {
            AdapterRegistryError::InvalidKind(m) => join2("invalid adapter kind: ", m.as_str()),
            AdapterRegistryError::DuplicateKind(k) => join3(
                "duplicate adapter kind registration: '",
                k.as_str(),
                "'",
            ),
        }
    }
}

/// The configured kind is not installed.  There is no fallback adapter.
#[derive(Debug, Clone, PartialEq, Eq)]
pub struct AdapterUnavailable {
    pub adapter_kind: String,
}

impl AdapterUnavailable {
    pub open spec fn detail(self) -> Seq<char> {
        "no adapter installed for configured kind '"@ + self.adapter_kind@ + "'"@
    }

    pub fn message(&self) -> (text: String)
        ensures
            text@ == self.detail(),
    {
        join3("no adapter installed for configured kind '", self.adapter_kind.as_str(), "'")
    }
}

struct AdapterEntry<A> {
    kind: String,
    adapter: A,
}

/// Installed adapter implementations.  An empty registry is authoritative: every lookup fails.
pub struct AdapterRegistry<A> {
    entries: Vec<AdapterEntry<A>>,
}

/// The adapter of the first entry that has the kind.
spec fn first_of<A>(entries: Seq<AdapterEntry<A>>, kind: Seq<char>) -> Option<A>
    decreases entries.len(),
{
    if entries.len() == 0 {
        None
    } else if first_of(entries.drop_last(), kind) is Some {
        first_of(entries.drop_last(), kind)
    } else if entries.last().kind@ == kind {
        Some(entries.last().adapter)
    } else {
        None
    }
}

/// Every adapter before `n` has another kind, and the one at `n` has this one: it is the one found.
proof fn lemma_first_of<A>(entries: Seq<AdapterEntry<A>>, kind: Seq<char>, n: int)
    requires
        0 <= n <= entries.len(),
        forall|i: int| 0 <= i < n ==> (#[trigger] entries[i]).kind@ != kind,
    ensures
        n == entries.len() ==> first_of(entries, kind) is None,
        n < entries.len() && entries[n].kind@ == kind ==> first_of(entries, kind) == Some(
            entries[n].adapter,
        ),
    decreases entries.len(),
{
    if entries.len() > 0 {
        let rest = entries.drop_last();
        if n == entries.len() {
            assert(forall|i: int| 0 <= i < n - 1 ==> rest[i] == entries[i]);
            lemma_first_of(rest, kind, n - 1);
            assert(entries[n - 1].kind@ != kind);
        } else {
            assert(forall|i: int| 0 <= i < n ==> rest[i] == entries[i]);
            lemma_first_of(rest, kind, n);
        }
    }
}

impl<A> AdapterRegistry<A> {
    /// The adapter installed for a kind.
    pub closed spec fn lookup(self, kind: Seq<char>) -> Option<A> {
        first_of(self.entries@, kind)
    }

    /// Whether an adapter is installed for a kind.
    pub open spec fn installs(self, kind: Seq<char>) -> bool {
        self.lookup(kind) is Some
    }

    pub fn new() -> (registry: Self)
        ensures
            forall|kind: Seq<char>| (#[trigger] registry.lookup(kind)) is None,
    {
        AdapterRegistry { entries: Vec::new() }
    }

    /// Installs an adapter.  A blank kind, or one that has an adapter already, is refused and
    /// nothing changes.
    pub fn register(&mut self, adapter_kind: String, adapter: A) -> (result: Result<
        (),
        AdapterRegistryError,
    >)
        ensures
            blank(adapter_kind@) ==> (result matches Err(AdapterRegistryError::InvalidKind(m)) && m@
                == "adapter kind cannot be empty"@),
            !blank(adapter_kind@) && old(self).installs(adapter_kind@) ==> (result matches Err(
                AdapterRegistryError::DuplicateKind(k),
            ) && k@ == adapter_kind@),
            result is Ok <==> !blank(adapter_kind@) && !old(self).installs(adapter_kind@),
            result is Err ==> *final(self) == *old(self),
            result is Ok ==> forall|kind: Seq<char>| #[trigger]
                final(self).lookup(kind) == if kind == adapter_kind@ {
                    Some(adapter)
                } else {
                    old(self).lookup(kind)
                },
    {
        if is_blank(adapter_kind.as_str()) {
            return Err(AdapterRegistryError::InvalidKind("adapter kind cannot be empty".to_string()));
        }
        if self.resolve(adapter_kind.as_str()).is_ok() {
            return Err(AdapterRegistryError::DuplicateKind(adapter_kind));
        }
        let ghost before = self.entries@;
        self.entries.push(AdapterEntry { kind: adapter_kind, adapter });
        proof {
            assert(self.entries@.drop_last() =~= before);
        }
        Ok(())
    }

    /// The adapter of a kind, or a refusal that names the kind.
    pub fn resolve(&self, adapter_kind: &str) -> (result: Result<&A, AdapterUnavailable>)
        ensures
            match result {
                Ok(adapter) => self.lookup(adapter_kind@) == Some(*adapter),
                Err(refusal) => self.lookup(adapter_kind@) is None && refusal.adapter_kind@
                    == adapter_kind@,
            },
    {
        let mut i: usize = 0;
        while i < self.entries.len()
            invariant
                i <= self.entries.len(),
                forall|j: int|
                    0 <= j < i ==> (#[trigger] self.entries@[j]).kind@ != adapter_kind@,
            decreases self.entries.len() - i,
        {
            if same_text(self.entries[i].kind.as_str(), adapter_kind) {
                proof {
                    lemma_first_of(self.entries@, adapter_kind@, i as int);
                }
                return Ok(&self.entries[i].adapter);
            }
            i += 1;
        }
        proof {
            lemma_first_of(self.entries@, adapter_kind@, i as int);
        }
        Err(AdapterUnavailable { adapter_kind: adapter_kind.to_string() })
    }
}

// ---------------------------------------------------------------------------------------------
// Laws
// ---------------------------------------------------------------------------------------------

/// The adapter that is found for a kind was installed under that kind, and under no kind is there
/// an adapter unless one was installed.
pub proof fn law_adapters_are_found_by_kind<A>(
    registry: AdapterRegistry<A>,
    kind: Seq<char>,
    adapter: A,
)
    ensures
        registry.lookup(kind) == Some(adapter) ==> registry.installs(kind),
        registry.lookup(kind) is None ==> !registry.installs(kind),
{
}

/// The texts of the errors of the registry.
pub proof fn law_adapter_errors_are_told(text: String)
    ensures
        AdapterRegistryError::InvalidKind(text).detail() == "invalid adapter kind: "@ + text@,
        AdapterRegistryError::DuplicateKind(text).detail()
            == "duplicate adapter kind registration: '"@ + text@ + "'"@,
        (AdapterUnavailable { adapter_kind: text }).detail()
            == "no adapter installed for configured kind '"@ + text@ + "'"@,
{
}

} // verus!
