//! Exclusive ownership of one scheduler store by one process.
//!
//! The store is known by the identity of its file, not by a path, so that an alias, a hard link or
//! a renamed directory cannot make a second owner.  Within the process the identity is reserved;
//! between processes the operating system holds a lock on a file beside the store and on the store
//! itself.
use crate::text::{decimal, decimal_digits, join2, join4};
use crate::time::Seconds;
use vstd::prelude::*;
use vstd::string::*;
use vstd::utf8::encode_utf8;

verus! {

/// Why ownership was not acquired.
#[derive(Debug, Clone, PartialEq, Eq)]
pub enum ProcessLockError {
    AlreadyRunning,
    IdentityUnresolvable(String),
    Io(String),
}

impl ProcessLockError {
    pub open spec fn detail(self) -> Seq<char> {
        match self {
            ProcessLockError::AlreadyRunning => "another scheduler daemon already owns this store"@,
            ProcessLockError::IdentityUnresolvable(detail) => {
                "scheduler store identity unresolvable: "@ + detail@
            },
            ProcessLockError::Io(err) => "process lock i/o: "@ + err@,
        }
    }

    pub fn message(&self) -> (text: String)
        ensures
            text@ == self.detail(),
    {
        match self {
            ProcessLockError::AlreadyRunning => {
                "another scheduler daemon already owns this store".to_string()
            },
            ProcessLockError::IdentityUnresolvable(detail) => join2(
                "scheduler store identity unresolvable: ",
                detail.as_str(),
            ),
            ProcessLockError::Io(err) => join2("process lock i/o: ", err.as_str()),
        }
    }
}

/// A character that parts the components of a path on Unix or on Windows.
pub open spec fn separator(c: char) -> bool {
    c == '/' || c == '\\'
}

/// The text names the in-memory store on Unix and on Windows: slashes behind the name are ignored.
pub open spec fn names_memory(path: Seq<char>) -> bool {
    &&& ":memory:"@.is_prefix_of(path)
    &&& forall|i: int| ":memory:"@.len() <= i < path.len() ==> #[trigger] path[i] == '/'
}

/// The text may name the in-memory store on Unix or on Windows: what stands behind the name is
/// parted from it, and is made of separators and dots alone.
pub open spec fn may_name_memory(path: Seq<char>) -> bool {
    &&& ":memory:"@.is_prefix_of(path)
    &&& ":memory:"@.len() < path.len() ==> separator(path[":memory:"@.len() as int])
    &&& forall|i: int|
        ":memory:"@.len() <= i < path.len() ==> separator(#[trigger] path[i]) || path[i] == '.'
}

/// `std::path::Path` equality.  Claimed is only what holds on Unix and on Windows alike: a text is
/// equal to itself; what equals the path `:memory:`, a single name, is that name with nothing behind it but
/// separators and dots, which are no components; and slashes behind it make no difference.  Which
/// separators and dots there may be is up to the platform's path syntax.
#[verifier::external_body]
fn same_path(a: &str, b: &str) -> (same: bool)
    ensures
        a@ == b@ ==> same,
        b@ == ":memory:"@ && names_memory(a@) ==> same,
        b@ == ":memory:"@ && same ==> may_name_memory(a@),
{
    std::path::Path::new(a) == std::path::Path::new(b)
}

/// A path whose final component is `name` and whose rest is `dir` on Unix and on Windows alike: a
/// slash parts the two, the final one is a name, and the rest is empty, the root, or a path that ends in
/// neither a separator nor a dot.  Two separators at the front, or a colon in the first component,
/// mean something else on Windows.
pub open spec fn plain_child(path: Seq<char>, dir: Seq<char>, name: Seq<char>) -> bool {
    &&& name.len() > 0
    &&& !name.contains('/')
    &&& !name.contains('\\')
    &&& name != "."@
    &&& !(path.len() > 1 && separator(path[0]) && separator(path[1]))
    &&& forall|i: int|
        0 <= i < path.len() && #[trigger] path[i] == ':' ==> path.take(i).contains('/')
    &&& if dir.len() == 0 {
        path == name
    } else if dir == "/"@ {
        path == dir + name
    } else {
        !separator(dir.last()) && dir.last() != '.' && path == dir + "/"@ + name
    }
}

/// The text starts with a drive: a letter, a colon and a backslash.
pub open spec fn starts_with_drive(path: Seq<char>) -> bool {
    &&& path.len() >= 3
    &&& 'a' <= path[0] <= 'z' || 'A' <= path[0] <= 'Z'
    &&& path[1] == ':'
    &&& path[2] == '\\'
}

/// Length of the drive that a path starts with, with the mark of a verbatim path before it; zero if
/// there is none.
pub open spec fn drive_length(path: Seq<char>) -> int {
    if starts_with_drive(path) {
        3
    } else if r"\\?\"@.is_prefix_of(path) && starts_with_drive(path.skip(4)) {
        7
    } else {
        0
    }
}

/// A path on a drive, with backslashes alone and a name at its end.
pub open spec fn drive_path(path: Seq<char>) -> bool {
    &&& 0 < drive_length(path) < path.len()
    &&& !path.contains('/')
    &&& path.last() != '\\'
    &&& path.last() != '.'
}

/// A path on a drive whose final component is `name` and whose rest is `dir`, where backslashes are
/// separators.
pub open spec fn drive_child(path: Seq<char>, dir: Seq<char>, name: Seq<char>) -> bool {
    &&& drive_path(path)
    &&& name.len() > 0
    &&& !name.contains('\\')
    &&& if dir.len() == drive_length(path) {
        path == dir + name
    } else {
        dir.len() > drive_length(path) && dir.last() != '\\' && dir.last() != '.' && path == dir
            + r"\"@ + name
    }
}

/// What holds on Unix and on Windows alike of the parent of a path.  The empty path and the root have none.
/// A parent is a proper front part of its path; that of a plain path is the path without its final
/// component.  A path on a drive has a parent: where backslashes are separators, the path without
/// its final component, and elsewhere the empty path, since the whole is one name.
pub open spec fn parent_of(path: Seq<char>, parent: Option<Seq<char>>) -> bool {
    &&& path.len() == 0 || path == "/"@ ==> parent is None
    &&& parent matches Some(dir) ==> dir.len() < path.len() && dir.is_prefix_of(path)
    &&& forall|dir: Seq<char>, name: Seq<char>| #[trigger]
        plain_child(path, dir, name) ==> parent == Some(dir)
    &&& drive_path(path) ==> parent is Some
    &&& forall|dir: Seq<char>, name: Seq<char>| #[trigger]
        drive_child(path, dir, name) ==> parent == Some(dir) || parent == Some(Seq::<char>::empty())
}

/// The characters of a text that may be missing.
pub open spec fn text_of(text: Option<String>) -> Option<Seq<char>> {
    match text {
        Some(found) => Some(found@),
        None => None,
    }
}

/// `std::path::Path::parent`.  Claimed is only what holds on Unix and on Windows alike, as
/// [`parent_of`] says it.  What the parent of any other path is, is up to the platform's path syntax.
#[verifier::external_body]
fn parent_directory(path: &str) -> (parent: Option<String>)
    ensures
        parent_of(path@, text_of(parent)),
{
    std::path::Path::new(path).parent().map(|p| p.to_string_lossy().into_owned())
}

/// A file-backed scheduler store.
#[derive(Debug, PartialEq, Eq)]
pub struct SqliteRuntimeConfig {
    path: String,
    lease_seconds: Seconds,
    continuity_max_bytes: usize,
}

impl Clone for SqliteRuntimeConfig {
    fn clone(&self) -> (copy: Self)
        ensures
            copy == *self,
    {
        proof {
            use_type_invariant(self);
        }
        SqliteRuntimeConfig {
            path: self.path.clone(),
            lease_seconds: self.lease_seconds,
            continuity_max_bytes: self.continuity_max_bytes,
        }
    }
}

/// What is wrong with a store configuration, if anything.
pub open spec fn store_defect(
    path: Seq<char>,
    in_memory: bool,
    lease_seconds: Seconds,
    continuity_max_bytes: usize,
) -> Option<Seq<char>> {
    if path.len() == 0 {
        Some("scheduler store path is empty"@)
    } else if in_memory {
        Some("in-memory sqlite is not a production scheduler store"@)
    } else if !lease_seconds.usable() {
        Some("lease_seconds must be finite and positive"@)
    } else if continuity_max_bytes == 0 {
        Some("continuity_max_bytes must be positive"@)
    } else {
        None
    }
}

impl SqliteRuntimeConfig {
    #[verifier::type_invariant]
    closed spec fn sound(self) -> bool {
        self.path@.len() > 0 && self.lease_seconds.usable() && self.continuity_max_bytes > 0
    }

    pub closed spec fn store(self) -> Seq<char> {
        self.path@
    }

    pub closed spec fn lease(self) -> Seconds {
        self.lease_seconds
    }

    pub closed spec fn continuity(self) -> usize {
        self.continuity_max_bytes
    }

    /// Checks a store configuration, given whether the path names the in-memory store.
    pub fn checked(
        path: String,
        in_memory: bool,
        lease_seconds: Seconds,
        continuity_max_bytes: usize,
    ) -> (result: Result<Self, ProcessLockError>)
        ensures
            match store_defect(path@, in_memory, lease_seconds, continuity_max_bytes) {
                None => result matches Ok(config) && config.store() == path@ && config.lease()
                    == lease_seconds && config.continuity() == continuity_max_bytes,
                Some(defect) => result matches Err(ProcessLockError::IdentityUnresolvable(m)) && m@
                    == defect,
            },
    {
        if path.as_str().is_empty() {
            return Err(
                ProcessLockError::IdentityUnresolvable("scheduler store path is empty".to_string()),
            );
        }
        if in_memory {
            return Err(
                ProcessLockError::IdentityUnresolvable(
                    "in-memory sqlite is not a production scheduler store".to_string(),
                ),
            );
        }
        if !lease_seconds.is_finite() || !lease_seconds.is_positive() {
            return Err(
                ProcessLockError::IdentityUnresolvable(
                    "lease_seconds must be finite and positive".to_string(),
                ),
            );
        }
        if continuity_max_bytes == 0 {
            return Err(
                ProcessLockError::IdentityUnresolvable(
                    "continuity_max_bytes must be positive".to_string(),
                ),
            );
        }
        Ok(SqliteRuntimeConfig { path, lease_seconds, continuity_max_bytes })
    }

    /// Checks a store configuration.  The empty path and the in-memory store are refused, however
    /// the platform reads paths; no path but that name, with separators and dots behind it, is taken
    /// for the in-memory store.
    pub fn new(path: String, lease_seconds: Seconds, continuity_max_bytes: usize) -> (result: Result<
        Self,
        ProcessLockError,
    >)
        ensures
            exists|in_memory: bool|
                (names_memory(path@) ==> in_memory) && (in_memory ==> may_name_memory(path@))
                    && match #[trigger] store_defect(
                    path@,
                    in_memory,
                    lease_seconds,
                    continuity_max_bytes,
                ) {
                    None => result matches Ok(config) && config.store() == path@ && config.lease()
                        == lease_seconds && config.continuity() == continuity_max_bytes,
                    Some(defect) => result matches Err(ProcessLockError::IdentityUnresolvable(m))
                        && m@ == defect,
                },
            path@.len() > 0 && !may_name_memory(path@) && lease_seconds.usable()
                && continuity_max_bytes > 0 ==> result is Ok,
    {
        let in_memory = same_path(path.as_str(), ":memory:");
        let ghost asked = path@;
        let result = Self::checked(path, in_memory, lease_seconds, continuity_max_bytes);
        proof {
            let defect = store_defect(asked, in_memory, lease_seconds, continuity_max_bytes);
            assert(names_memory(asked) ==> in_memory);
        }
        result
    }

    pub fn path(&self) -> (path: &str)
        ensures
            path@ == self.store(),
            path@.len() > 0,
    {
        proof {
            use_type_invariant(self);
        }
        self.path.as_str()
    }

    pub fn lease_seconds(&self) -> (lease: Seconds)
        ensures
            lease == self.lease(),
            lease.usable(),
    {
        proof {
            use_type_invariant(self);
        }
        self.lease_seconds
    }

    pub fn continuity_max_bytes(&self) -> (bytes: usize)
        ensures
            bytes == self.continuity(),
            bytes > 0,
    {
        proof {
            use_type_invariant(self);
        }
        self.continuity_max_bytes
    }
}

// ---------------------------------------------------------------------------------------------
// Identity of a store
// ---------------------------------------------------------------------------------------------

pub const FNV_OFFSET: u64 = 0xcbf29ce484222325;

pub const FNV_PRIME: u64 = 0x100000001b3;

/// The 64-bit FNV-1a hash of some bytes.
pub open spec fn fnv1a(bytes: Seq<u8>) -> u64
    decreases bytes.len(),
{
    if bytes.len() == 0 {
        FNV_OFFSET
    } else {
        (fnv1a(bytes.drop_last()) ^ (bytes.last() as u64)).wrapping_mul(FNV_PRIME)
    }
}

/// Hash of the UTF-8 encoding of a text.
pub fn fnv64(value: &str) -> (hash: u64)
    ensures
        hash == fnv1a(encode_utf8(value@)),
{
    let bytes = value.as_bytes();
    let mut hash: u64 = FNV_OFFSET;
    let mut i: usize = 0;
    while i < bytes.len()
        invariant
            i <= bytes@.len(),
            hash == fnv1a(bytes@.take(i as int)),
        decreases bytes.len() - i,
    {
        proof {
            assert(bytes@.take(i + 1).drop_last() =~= bytes@.take(i as int));
        }
        hash = (hash ^ (bytes[i] as u64)).wrapping_mul(FNV_PRIME);
        i += 1;
    }
    proof {
        assert(bytes@.take(i as int) =~= bytes@);
    }
    hash
}

/// Identity of a store: the operating system's identity of its file, and its canonical path.
#[derive(Debug, PartialEq, Eq)]
pub struct StoreIdentity {
    pub file_id: String,
    pub canonical: String,
}

/// Where the lock file is: a directory, and a name in it.
#[derive(Debug, PartialEq, Eq)]
pub struct LockPath {
    pub directory: String,
    pub file_name: String,
}

/// Name of the lock file of a store.
pub open spec fn lock_file_name(file_id: Seq<char>) -> Seq<char> {
    ".agentype-runtime-lock-"@ + decimal_digits(fnv1a(encode_utf8(file_id)) as nat)
}

impl StoreIdentity {
    /// The lock file in a directory that is given.
    pub fn lock_path_in(&self, directory: Option<String>) -> (result: Result<
        LockPath,
        ProcessLockError,
    >)
        ensures
            match directory {
                Some(parent) => result matches Ok(lock) && lock.directory == parent
                    && lock.file_name@ == lock_file_name(self.file_id@),
                None => result matches Err(ProcessLockError::IdentityUnresolvable(m)) && m@
                    == "canonical store path has no parent directory"@,
            },
    {
        match directory {
            Some(parent) => Ok(
                LockPath {
                    directory: parent,
                    file_name: join2(
                        ".agentype-runtime-lock-",
                        decimal(fnv64(self.file_id.as_str())).as_str(),
                    ),
                },
            ),
            None => Err(
                ProcessLockError::IdentityUnresolvable(
                    "canonical store path has no parent directory".to_string(),
                ),
            ),
        }
    }

    /// The lock file beside the store.  Its name is a function of the file's identity alone; its
    /// directory is the parent of the canonical path, as the platform reads it.
    pub fn adjacent_lock_path(&self) -> (result: Result<LockPath, ProcessLockError>)
        ensures
            match result {
                Ok(lock) => lock.file_name@ == lock_file_name(self.file_id@),
                Err(error) => error matches ProcessLockError::IdentityUnresolvable(m) && m@
                    == "canonical store path has no parent directory"@,
            },
            parent_of(
                self.canonical@,
                match result {
                    Ok(lock) => Some(lock.directory@),
                    Err(_) => None,
                },
            ),
    {
        self.lock_path_in(parent_directory(self.canonical.as_str()))
    }
}

/// The identity of a store from what the operating system says of its path.
pub fn store_identity(
    path: &str,
    canonical: Result<String, String>,
    file_id: Result<String, String>,
) -> (result: Result<StoreIdentity, ProcessLockError>)
    ensures
        match (canonical, file_id) {
            (Err(cause), _) => result matches Err(ProcessLockError::IdentityUnresolvable(m)) && m@
                == "cannot canonicalize "@ + path@ + ": "@ + cause@,
            (Ok(_), Err(cause)) => result matches Err(ProcessLockError::IdentityUnresolvable(m))
                && m@ == "cannot read file identity for "@ + path@ + ": "@ + cause@,
            (Ok(canonical_path), Ok(id)) => result == Ok::<StoreIdentity, ProcessLockError>(
                StoreIdentity { file_id: id, canonical: canonical_path },
            ),
        },
{
    match canonical {
        Err(cause) => Err(
            ProcessLockError::IdentityUnresolvable(
                join4("cannot canonicalize ", path, ": ", cause.as_str()),
            ),
        ),
        Ok(canonical_path) => match file_id {
            Err(cause) => Err(
                ProcessLockError::IdentityUnresolvable(
                    join4("cannot read file identity for ", path, ": ", cause.as_str()),
                ),
            ),
            Ok(id) => Ok(StoreIdentity { file_id: id, canonical: canonical_path }),
        },
    }
}

// ---------------------------------------------------------------------------------------------
// Reservations within the process
// ---------------------------------------------------------------------------------------------

/// The identities that this process holds.
pub struct HeldIdentities {
    keys: Vec<String>,
}

/// The keys that one owner reserved.
#[derive(Debug, PartialEq, Eq)]
pub struct IdentityReservation {
    pub file_id: String,
    pub canonical: String,
}

impl View for HeldIdentities {
    type V = Set<Seq<char>>;

    closed spec fn view(&self) -> Set<Seq<char>> {
        Set::new(|key: Seq<char>| exists|i: int| 0 <= i < self.keys@.len() && (#[trigger] self.keys@[i])@ == key)
    }
}

impl HeldIdentities {
    /// No key is held twice.
    pub closed spec fn wf(self) -> bool {
        forall|i: int, j: int|
            0 <= i < j < self.keys@.len() ==> (#[trigger] self.keys@[i])@ != (
            #[trigger] self.keys@[j])@
    }

    pub fn new() -> (held: Self)
        ensures
            held.wf(),
            held@ == Set::<Seq<char>>::empty(),
    {
        let held = HeldIdentities { keys: Vec::new() };
        assert(held@ =~= Set::<Seq<char>>::empty());
        held
    }

    fn position(&self, key: &String) -> (found: Option<usize>)
        ensures
            match found {
                Some(i) => i < self.keys@.len() && self.keys@[i as int]@ == key@,
                None => !self@.contains(key@),
            },
    {
        let mut i: usize = 0;
        while i < self.keys.len()
            invariant
                i <= self.keys@.len(),
                forall|j: int| 0 <= j < i ==> (#[trigger] self.keys@[j])@ != key@,
            decreases self.keys.len() - i,
        {
            if self.keys[i] == *key {
                return Some(i);
            }
            i += 1;
        }
        None
    }

    /// Whether a key is held.
    pub fn contains(&self, key: &String) -> (held: bool)
        ensures
            held == self@.contains(key@),
    {
        match self.position(key) {
            Some(i) => {
                assert(self.keys@[i as int]@ == key@);
                true
            },
            None => false,
        }
    }

    /// Takes a key, unless it is held already.
    fn insert(&mut self, key: &String) -> (taken: bool)
        requires
            old(self).wf(),
        ensures
            final(self).wf(),
            taken == !old(self)@.contains(key@),
            final(self)@ == old(self)@.insert(key@),
    {
        let ghost before = self.keys@;
        if self.contains(key) {
            assert(self@ =~= old(self)@.insert(key@));
            return false;
        }
        self.keys.push(key.clone());
        proof {
            assert forall|i: int, j: int| 0 <= i < j < self.keys@.len() implies (
            #[trigger] self.keys@[i])@ != (#[trigger] self.keys@[j])@ by {
                if j == before.len() {
                    assert(before[i]@ == self.keys@[i]@);
                    assert(old(self)@.contains(before[i]@));
                }
            }
            assert forall|k: Seq<char>| self@.contains(k) == old(self)@.insert(key@).contains(k) by {
                if self@.contains(k) {
                    let i = choose|i: int|
                        0 <= i < self.keys@.len() && (#[trigger] self.keys@[i])@ == k;
                    if i < before.len() {
                        assert(before[i]@ == k);
                    }
                }
                if old(self)@.contains(k) {
                    let i = choose|i: int| 0 <= i < before.len() && (#[trigger] before[i])@ == k;
                    assert(self.keys@[i]@ == k);
                }
                assert(self.keys@[before.len() as int]@ == key@);
            }
            assert(self@ =~= old(self)@.insert(key@));
        }
        true
    }

    /// Gives a key back.
    fn remove(&mut self, key: &String)
        requires
            old(self).wf(),
        ensures
            final(self).wf(),
            final(self)@ == old(self)@.remove(key@),
    {
        let ghost before = self.keys@;
        match self.position(key) {
            None => {
                assert(self@ =~= old(self)@.remove(key@));
            },
            Some(at) => {
                self.keys.remove(at);
                proof {
                    assert forall|i: int, j: int| 0 <= i < j < self.keys@.len() implies (
                    #[trigger] self.keys@[i])@ != (#[trigger] self.keys@[j])@ by {
                        let a = if i < at { i } else { i + 1 };
                        let b = if j < at { j } else { j + 1 };
                        assert(before[a]@ != before[b]@);
                    }
                    assert forall|k: Seq<char>|
                        self@.contains(k) == old(self)@.remove(key@).contains(k) by {
                        if self@.contains(k) {
                            let i = choose|i: int|
                                0 <= i < self.keys@.len() && (#[trigger] self.keys@[i])@ == k;
                            let a = if i < at { i } else { i + 1 };
                            assert(before[a]@ == k);
                            if a < at {
                                assert(before[a]@ != before[at as int]@);
                            } else {
                                assert(before[at as int]@ != before[a]@);
                            }
                        }
                        if old(self)@.remove(key@).contains(k) {
                            let i = choose|i: int|
                                0 <= i < before.len() && (#[trigger] before[i])@ == k;
                            let b = if i < at { i } else { i - 1 };
                            assert(self.keys@[b]@ == k);
                        }
                    }
                    assert(self@ =~= old(self)@.remove(key@));
                }
            },
        }
    }

    /// The identity can be reserved: neither of its keys is held, and they are two keys.
    pub open spec fn free(held: Set<Seq<char>>, identity: StoreIdentity) -> bool {
        !held.contains(identity.file_id@) && !held.contains(identity.canonical@)
            && identity.file_id@ != identity.canonical@
    }

    /// What is held after a claim, and what the claim is answered.
    pub open spec fn claims_to(
        held: Set<Seq<char>>,
        identity: StoreIdentity,
        after: Set<Seq<char>>,
        result: Result<IdentityReservation, ProcessLockError>,
    ) -> bool {
        if Self::free(held, identity) {
            &&& result matches Ok(reservation) && reservation.file_id == identity.file_id
                && reservation.canonical == identity.canonical
            &&& after == held.insert(identity.file_id@).insert(identity.canonical@)
        } else {
            &&& result == Err::<IdentityReservation, ProcessLockError>(
                ProcessLockError::AlreadyRunning,
            )
            &&& after == held
        }
    }

    /// Reserves both keys of an identity, or neither.
    pub fn claim(&mut self, identity: &StoreIdentity) -> (result: Result<
        IdentityReservation,
        ProcessLockError,
    >)
        requires
            old(self).wf(),
        ensures
            final(self).wf(),
            Self::claims_to(old(self)@, *identity, final(self)@, result),
    {
        if !self.insert(&identity.file_id) {
            proof {
                assert(self@ =~= old(self)@);
            }
            return Err(ProcessLockError::AlreadyRunning);
        }
        if !self.insert(&identity.canonical) {
            self.remove(&identity.file_id);
            proof {
                assert(self@ =~= old(self)@);
            }
            return Err(ProcessLockError::AlreadyRunning);
        }
        Ok(
            IdentityReservation {
                file_id: identity.file_id.clone(),
                canonical: identity.canonical.clone(),
            },
        )
    }

    /// Gives both keys of a reservation back.
    pub fn release(&mut self, reservation: IdentityReservation)
        requires
            old(self).wf(),
        ensures
            final(self).wf(),
            final(self)@ == without(old(self)@, reservation),
    {
        self.remove(&reservation.file_id);
        self.remove(&reservation.canonical);
    }
}

/// Giving a reservation back restores what was held before it was made.
pub proof fn law_release_undoes_claim(held: Set<Seq<char>>, identity: StoreIdentity)
    requires
        HeldIdentities::free(held, identity),
    ensures
        held.insert(identity.file_id@).insert(identity.canonical@).remove(identity.file_id@).remove(
            identity.canonical@,
        ) == held,
{
    assert(held.insert(identity.file_id@).insert(identity.canonical@).remove(
        identity.file_id@,
    ).remove(identity.canonical@) =~= held);
}

/// Two owners of one file cannot both hold it: while an identity is reserved, no identity that
/// shares its file or its canonical path is free.
pub proof fn law_reserved_identity_excludes_aliases(
    held: Set<Seq<char>>,
    owner: StoreIdentity,
    alias: StoreIdentity,
)
    requires
        held.contains(owner.file_id@),
        held.contains(owner.canonical@),
        alias.file_id@ == owner.file_id@ || alias.canonical@ == owner.canonical@,
    ensures
        !HeldIdentities::free(held, alias),
{
}

// ---------------------------------------------------------------------------------------------
// Acquisition
// ---------------------------------------------------------------------------------------------

/// Asks for the directory of the store to be created, with its parents.
#[derive(Debug, PartialEq, Eq)]
pub struct DirectoryCreation {
    pub store_path: String,
    pub directory: String,
}

/// Asks for the store file to be opened, and created if it is missing, without truncating it.
#[derive(Debug, PartialEq, Eq)]
pub struct StoreOpening {
    pub store_path: String,
}

/// Asks for the canonical path and the file identity of the store.
#[derive(Debug, PartialEq, Eq)]
pub struct StoreIdentification {
    pub store_path: String,
}

/// An acquisition whose identity is reserved.
#[derive(Debug, PartialEq, Eq)]
pub struct ReservedStore {
    pub store_path: String,
    pub identity: StoreIdentity,
    pub reservation: IdentityReservation,
}

/// Asks for the lock file to be opened, and created if it is missing.
#[derive(Debug, PartialEq, Eq)]
pub struct LockFileOpening {
    pub reserved: ReservedStore,
    pub lock: LockPath,
}

/// Asks for an exclusive lock on the lock file, without waiting.
#[derive(Debug, PartialEq, Eq)]
pub struct LockFileLocking {
    pub reserved: ReservedStore,
}

/// Asks for an exclusive lock on the store file itself, without waiting.
#[derive(Debug, PartialEq, Eq)]
pub struct StoreLocking {
    pub reserved: ReservedStore,
}

/// Where an acquisition stands.
#[derive(Debug, PartialEq, Eq)]
pub enum LockStep {
    CreateDirectory(DirectoryCreation),
    OpenStore(StoreOpening),
    Identify(StoreIdentification),
    OpenLockFile(LockFileOpening),
    LockLockFile(LockFileLocking),
    LockStore(StoreLocking),
    Finished(Result<RuntimeProcessLock, ProcessLockError>),
}

/// Exclusive ownership of a store.
#[derive(Debug, PartialEq, Eq)]
pub struct RuntimeProcessLock {
    identity: StoreIdentity,
    store_path: String,
    reservation: IdentityReservation,
}

/// What is held once a reservation is given back.
pub open spec fn without(held: Set<Seq<char>>, reservation: IdentityReservation) -> Set<Seq<char>> {
    held.remove(reservation.file_id@).remove(reservation.canonical@)
}

/// How the acquisition of the store at a path starts.  The directory of the store is created first;
/// where it is the empty path, or there is none, the store is opened at once.
pub open spec fn acquisition_starts(store: Seq<char>, step: LockStep) -> bool {
    match step {
        LockStep::CreateDirectory(s) => s.store_path@ == store && s.directory@.len() > 0
            && parent_of(store, Some(s.directory@)),
        LockStep::OpenStore(s) => s.store_path@ == store && (parent_of(store, None) || parent_of(
            store,
            Some(Seq::empty()),
        )),
        _ => false,
    }
}

impl RuntimeProcessLock {
    pub closed spec fn owned(self) -> ReservedStore {
        ReservedStore {
            store_path: self.store_path,
            identity: self.identity,
            reservation: self.reservation,
        }
    }

    /// Starts the acquisition of a configured store.
    pub fn acquire(config: &SqliteRuntimeConfig) -> (step: LockStep)
        ensures
            acquisition_starts(config.store(), step),
    {
        let path = config.path();
        Self::acquire_path(path.to_string(), parent_directory(path))
    }

    /// Starts the acquisition of a store whose directory is given.  An empty directory, and none,
    /// needs no creation.
    pub fn acquire_path(store_path: String, directory: Option<String>) -> (step: LockStep)
        ensures
            step == match directory {
                Some(parent) => if parent@.len() > 0 {
                    LockStep::CreateDirectory(DirectoryCreation { store_path, directory: parent })
                } else {
                    LockStep::OpenStore(StoreOpening { store_path })
                },
                None => LockStep::OpenStore(StoreOpening { store_path }),
            },
    {
        if let Some(parent) = directory {
            if !parent.as_str().is_empty() {
                return LockStep::CreateDirectory(
                    DirectoryCreation { store_path, directory: parent },
                );
            }
        }
        LockStep::OpenStore(StoreOpening { store_path })
    }

    /// Identity of the store's file, for diagnostics.
    pub fn identity_debug(&self) -> (identity: &str)
        ensures
            identity@ == self.owned().identity.file_id@,
    {
        self.identity.file_id.as_str()
    }

    pub fn store_path(&self) -> (path: &str)
        ensures
            path@ == self.owned().store_path@,
    {
        self.store_path.as_str()
    }

    /// Gives up ownership within this process.
    pub fn release(self, held: &mut HeldIdentities)
        requires
            old(held).wf(),
        ensures
            final(held).wf(),
            final(held)@ == without(old(held)@, self.owned().reservation),
    {
        held.release(self.reservation);
    }
}

impl DirectoryCreation {
    pub open spec fn next(self, reply: Result<(), String>) -> LockStep {
        match reply {
            Ok(_) => LockStep::OpenStore(StoreOpening { store_path: self.store_path }),
            Err(cause) => LockStep::Finished(Err(ProcessLockError::Io(cause))),
        }
    }

    pub fn resume(self, reply: Result<(), String>) -> (step: LockStep)
        ensures
            step == self.next(reply),
    {
        match reply {
            Ok(_) => LockStep::OpenStore(StoreOpening { store_path: self.store_path }),
            Err(cause) => LockStep::Finished(Err(ProcessLockError::Io(cause))),
        }
    }
}

impl StoreOpening {
    pub open spec fn next(self, reply: Result<(), String>) -> LockStep {
        match reply {
            Ok(_) => LockStep::Identify(StoreIdentification { store_path: self.store_path }),
            Err(cause) => LockStep::Finished(Err(ProcessLockError::Io(cause))),
        }
    }

    pub fn resume(self, reply: Result<(), String>) -> (step: LockStep)
        ensures
            step == self.next(reply),
    {
        match reply {
            Ok(_) => LockStep::Identify(StoreIdentification { store_path: self.store_path }),
            Err(cause) => LockStep::Finished(Err(ProcessLockError::Io(cause))),
        }
    }
}

impl StoreIdentification {
    /// Reserves the identity and names the lock file in the directory that is given.  An identity
    /// that is held, and a store without a directory, leave what is held as it was.
    pub fn identified(
        self,
        identity: StoreIdentity,
        directory: Option<String>,
        held: &mut HeldIdentities,
    ) -> (step: LockStep)
        requires
            old(held).wf(),
        ensures
            final(held).wf(),
            if !HeldIdentities::free(old(held)@, identity) {
                &&& step == LockStep::Finished(Err(ProcessLockError::AlreadyRunning))
                &&& final(held)@ == old(held)@
            } else {
                match directory {
                    Some(parent) => {
                        &&& step matches LockStep::OpenLockFile(opening)
                        &&& opening.reserved == (ReservedStore {
                            store_path: self.store_path,
                            identity,
                            reservation: IdentityReservation {
                                file_id: identity.file_id,
                                canonical: identity.canonical,
                            },
                        })
                        &&& opening.lock.directory == parent
                        &&& opening.lock.file_name@ == lock_file_name(identity.file_id@)
                        &&& final(held)@ == old(held)@.insert(identity.file_id@).insert(
                            identity.canonical@,
                        )
                    },
                    None => {
                        &&& step matches LockStep::Finished(
                            Err(ProcessLockError::IdentityUnresolvable(m)),
                        ) && m@ == "canonical store path has no parent directory"@
                        &&& final(held)@ == old(held)@
                    },
                }
            },
    {
        match held.claim(&identity) {
            Err(error) => LockStep::Finished(Err(error)),
            Ok(reservation) => match identity.lock_path_in(directory) {
                Err(error) => {
                    held.release(reservation);
                    proof {
                        law_release_undoes_claim(old(held)@, identity);
                    }
                    LockStep::Finished(Err(error))
                },
                Ok(lock) => LockStep::OpenLockFile(
                    LockFileOpening {
                        reserved: ReservedStore {
                            store_path: self.store_path,
                            identity,
                            reservation,
                        },
                        lock,
                    },
                ),
            },
        }
    }

    /// What the identification of a store leads to, with these identities held: the lock file
    /// beside the store, in the parent of the canonical path.
    pub open spec fn leads_to(
        self,
        canonical: Result<String, String>,
        file_id: Result<String, String>,
        held: Set<Seq<char>>,
        step: LockStep,
    ) -> bool {
        match (canonical, file_id) {
            (Ok(canonical_path), Ok(id)) => {
                let identity = StoreIdentity { file_id: id, canonical: canonical_path };
                if !HeldIdentities::free(held, identity) {
                    step == LockStep::Finished(Err(ProcessLockError::AlreadyRunning))
                } else if let LockStep::OpenLockFile(opening) = step {
                    &&& opening.reserved == (ReservedStore {
                        store_path: self.store_path,
                        identity,
                        reservation: IdentityReservation { file_id: id, canonical: canonical_path },
                    })
                    &&& opening.lock.file_name@ == lock_file_name(id@)
                    &&& parent_of(canonical_path@, Some(opening.lock.directory@))
                } else {
                    &&& step matches LockStep::Finished(
                        Err(ProcessLockError::IdentityUnresolvable(m)),
                    ) && m@ == "canonical store path has no parent directory"@
                    &&& parent_of(canonical_path@, None)
                }
            },
            (Err(cause), _) => step matches LockStep::Finished(
                Err(ProcessLockError::IdentityUnresolvable(m)),
            ) && m@ == "cannot canonicalize "@ + self.store_path@ + ": "@ + cause@,
            (Ok(_), Err(cause)) => step matches LockStep::Finished(
                Err(ProcessLockError::IdentityUnresolvable(m)),
            ) && m@ == "cannot read file identity for "@ + self.store_path@ + ": "@ + cause@,
        }
    }

    /// Reserves the identity and names the lock file beside the store.  A store that cannot be
    /// identified, or whose identity is held, leaves what is held as it was.
    pub fn resume(
        self,
        canonical: Result<String, String>,
        file_id: Result<String, String>,
        held: &mut HeldIdentities,
    ) -> (step: LockStep)
        requires
            old(held).wf(),
        ensures
            final(held).wf(),
            self.leads_to(canonical, file_id, old(held)@, step),
            final(held)@ == if step is OpenLockFile {
                old(held)@.insert(file_id->Ok_0@).insert(canonical->Ok_0@)
            } else {
                old(held)@
            },
    {
        match store_identity(self.store_path.as_str(), canonical, file_id) {
            Err(error) => LockStep::Finished(Err(error)),
            Ok(identity) => {
                let directory = parent_directory(identity.canonical.as_str());
                self.identified(identity, directory, held)
            },
        }
    }
}

impl LockFileOpening {
    pub open spec fn next(self, reply: Result<(), String>) -> LockStep {
        match reply {
            Ok(_) => LockStep::LockLockFile(LockFileLocking { reserved: self.reserved }),
            Err(cause) => LockStep::Finished(Err(ProcessLockError::Io(cause))),
        }
    }

    /// A failure gives the reservation back.
    pub fn resume(self, reply: Result<(), String>, held: &mut HeldIdentities) -> (step: LockStep)
        requires
            old(held).wf(),
        ensures
            final(held).wf(),
            step == self.next(reply),
            final(held)@ == if step is Finished {
                without(old(held)@, self.reserved.reservation)
            } else {
                old(held)@
            },
    {
        match reply {
            Ok(_) => LockStep::LockLockFile(LockFileLocking { reserved: self.reserved }),
            Err(cause) => {
                held.release(self.reserved.reservation);
                LockStep::Finished(Err(ProcessLockError::Io(cause)))
            },
        }
    }
}

impl LockFileLocking {
    pub open spec fn next(self, reply: Result<bool, String>) -> LockStep {
        match reply {
            Ok(true) => LockStep::LockStore(StoreLocking { reserved: self.reserved }),
            Ok(false) => LockStep::Finished(Err(ProcessLockError::AlreadyRunning)),
            Err(cause) => LockStep::Finished(Err(ProcessLockError::Io(cause))),
        }
    }

    /// A lock that another process has means that it is running; a failure gives the reservation
    /// back.
    pub fn resume(self, reply: Result<bool, String>, held: &mut HeldIdentities) -> (step: LockStep)
        requires
            old(held).wf(),
        ensures
            final(held).wf(),
            step == self.next(reply),
            final(held)@ == if step is Finished {
                without(old(held)@, self.reserved.reservation)
            } else {
                old(held)@
            },
    {
        match reply {
            Ok(true) => LockStep::LockStore(StoreLocking { reserved: self.reserved }),
            Ok(false) => {
                held.release(self.reserved.reservation);
                LockStep::Finished(Err(ProcessLockError::AlreadyRunning))
            },
            Err(cause) => {
                held.release(self.reserved.reservation);
                LockStep::Finished(Err(ProcessLockError::Io(cause)))
            },
        }
    }
}

/// How an attempt to lock the store file ended.
#[derive(Debug, Clone, Copy, PartialEq, Eq, Structural)]
pub enum StoreLockReply {
    /// The file is locked.
    Locked,
    /// Another owner has it locked.
    HeldElsewhere,
    /// Nothing was locked: on this platform a lock would shut out the owner's own readers and
    /// writers of the store.
    NotOffered,
}

impl StoreLocking {
    /// What the attempt to lock the store file leads to.
    pub open spec fn leads_to(self, reply: Result<StoreLockReply, String>, step: LockStep) -> bool {
        match reply {
            Ok(StoreLockReply::Locked) | Ok(StoreLockReply::NotOffered) => step matches
                LockStep::Finished(Ok(lock)) && lock.owned() == self.reserved,
            Ok(StoreLockReply::HeldElsewhere) => step == LockStep::Finished(
                Err(ProcessLockError::AlreadyRunning),
            ),
            Err(cause) => step == LockStep::Finished(Err(ProcessLockError::Io(cause))),
        }
    }

    /// The store is owned once the file itself is locked too, wherever it is moved to.  Where the
    /// platform offers no such lock, ownership rests on the lock file.  A failure gives the
    /// reservation back.
    pub fn resume(self, reply: Result<StoreLockReply, String>, held: &mut HeldIdentities) -> (step:
        LockStep)
        requires
            old(held).wf(),
        ensures
            final(held).wf(),
            self.leads_to(reply, step),
            final(held)@ == match reply {
                Ok(StoreLockReply::Locked) | Ok(StoreLockReply::NotOffered) => old(held)@,
                _ => without(old(held)@, self.reserved.reservation),
            },
    {
        match reply {
            Ok(StoreLockReply::Locked) | Ok(StoreLockReply::NotOffered) => LockStep::Finished(
                Ok(
                    RuntimeProcessLock {
                        identity: self.reserved.identity,
                        store_path: self.reserved.store_path,
                        reservation: self.reserved.reservation,
                    },
                ),
            ),
            Ok(StoreLockReply::HeldElsewhere) => {
                held.release(self.reserved.reservation);
                LockStep::Finished(Err(ProcessLockError::AlreadyRunning))
            },
            Err(cause) => {
                held.release(self.reserved.reservation);
                LockStep::Finished(Err(ProcessLockError::Io(cause)))
            },
        }
    }
}

/// Some reply to the call that step `a` names leads to step `b`.
pub open spec fn lock_follows(a: LockStep, b: LockStep) -> bool {
    match a {
        LockStep::CreateDirectory(s) => exists|reply: Result<(), String>|
            b == #[trigger] s.next(reply),
        LockStep::OpenStore(s) => exists|reply: Result<(), String>| b == #[trigger] s.next(reply),
        LockStep::Identify(s) => exists|
            canonical: Result<String, String>,
            file_id: Result<String, String>,
            held: Set<Seq<char>>,
        | #[trigger] s.leads_to(canonical, file_id, held, b),
        LockStep::OpenLockFile(s) => exists|reply: Result<(), String>| b == #[trigger] s.next(reply),
        LockStep::LockLockFile(s) => exists|reply: Result<bool, String>|
            b == #[trigger] s.next(reply),
        LockStep::LockStore(s) => exists|reply: Result<StoreLockReply, String>| #[trigger]
            s.leads_to(reply, b),
        LockStep::Finished(_) => false,
    }
}

/// An acquisition: each step follows from the one before, whatever the operating system replied.
pub open spec fn lock_run(run: Seq<LockStep>) -> bool {
    &&& run.len() > 0
    &&& run[0] is CreateDirectory || run[0] is OpenStore
    &&& forall|i: int| 0 <= i && i + 1 < run.len() ==> lock_follows(#[trigger] run[i], run[i + 1])
}

/// A store is owned only through all of the steps: it was identified and its identity reserved, the
/// lock file beside it was locked, and last the step that locks the store file was taken.
pub proof fn law_ownership_takes_every_lock(run: Seq<LockStep>, j: int)
    requires
        lock_run(run),
        0 <= j < run.len(),
        run[j] is Finished,
        run[j]->Finished_0 is Ok,
    ensures
        j >= 5,
        run[j - 1] is LockStore,
        run[j - 1]->LockStore_0.reserved == run[j]->Finished_0->Ok_0.owned(),
        run[j - 2] is LockLockFile,
        run[j - 2]->LockLockFile_0.reserved == run[j]->Finished_0->Ok_0.owned(),
        run[j - 3] is OpenLockFile,
        run[j - 3]->OpenLockFile_0.reserved == run[j]->Finished_0->Ok_0.owned(),
        run[j - 3]->OpenLockFile_0.lock.file_name@ == lock_file_name(
            run[j]->Finished_0->Ok_0.owned().identity.file_id@,
        ),
        parent_of(
            run[j]->Finished_0->Ok_0.owned().identity.canonical@,
            Some(run[j - 3]->OpenLockFile_0.lock.directory@),
        ),
        run[j - 4] is Identify,
        run[j - 5] is OpenStore,
{
    assert(lock_follows(run[j - 1], run[j - 1 + 1]));
    assert(lock_follows(run[j - 2], run[j - 2 + 1]));
    assert(lock_follows(run[j - 3], run[j - 3 + 1]));
    assert(lock_follows(run[j - 4], run[j - 4 + 1]));
    assert(lock_follows(run[j - 5], run[j - 5 + 1]));
}

/// What a platform that locks store files replies, when other processes hold the locks of these
/// files.  A file is known by its identity, not by a path.
pub open spec fn store_lock_reply(held_elsewhere: Set<Seq<char>>, file_id: Seq<char>) -> StoreLockReply {
    if held_elsewhere.contains(file_id) {
        StoreLockReply::HeldElsewhere
    } else {
        StoreLockReply::Locked
    }
}

/// Moving a store to another directory cannot split its ownership.  Where store files are locked,
/// no acquisition, by whatever path, comes to own a file that another process has locked; the one
/// that reaches the lock is told so, and it owns the file once the holder is gone.
pub proof fn law_rename_cannot_split_ownership(
    held_elsewhere: Set<Seq<char>>,
    run: Seq<LockStep>,
    j: int,
)
    requires
        lock_run(run),
        0 <= j < run.len(),
        run[j] is Finished,
        j > 0 && run[j - 1] is LockStore ==> run[j - 1]->LockStore_0.leads_to(
            Ok(
                store_lock_reply(
                    held_elsewhere,
                    run[j - 1]->LockStore_0.reserved.identity.file_id@,
                ),
            ),
            run[j],
        ),
    ensures
        run[j]->Finished_0 matches Ok(lock) ==> !held_elsewhere.contains(
            lock.owned().identity.file_id@,
        ),
        j > 0,
        run[j - 1] matches LockStep::LockStore(call) ==> if held_elsewhere.contains(
            call.reserved.identity.file_id@,
        ) {
            run[j] == LockStep::Finished(Err(ProcessLockError::AlreadyRunning))
        } else {
            run[j]->Finished_0 matches Ok(lock) && lock.owned() == call.reserved
        },
{
    if run[j]->Finished_0 is Ok {
        law_ownership_takes_every_lock(run, j);
    }
}

/// Holds the lock until the workers of the runtime have stopped.
#[derive(Debug, PartialEq, Eq)]
pub struct RuntimeProcessGuard {
    pub lock: RuntimeProcessLock,
}

impl RuntimeProcessGuard {
    pub fn acquire(config: &SqliteRuntimeConfig) -> (step: LockStep)
        ensures
            acquisition_starts(config.store(), step),
    {
        RuntimeProcessLock::acquire(config)
    }

    pub fn lock(&self) -> (lock: &RuntimeProcessLock)
        ensures
            *lock == self.lock,
    {
        &self.lock
    }
}

/// Permission to start new physical executions.  It has no public constructor: it exists once the
/// daemon holds the lock, has recovered and was activated.
#[derive(Debug)]
pub struct ReadyPermit {
    private: (),
}

impl ReadyPermit {
    pub(crate) fn mint() -> (permit: Self)
        ensures
            permit == Self::minted(),
    {
        ReadyPermit { private: () }
    }

    /// The permit: there is only one value of it.
    pub closed spec fn minted() -> ReadyPermit {
        ReadyPermit { private: () }
    }
}

// ---------------------------------------------------------------------------------------------
// Laws
// ---------------------------------------------------------------------------------------------

/// The hash starts from the offset basis, and each byte is mixed in and multiplied by the prime,
/// modulo two to the sixty-fourth.
pub proof fn law_hash_takes_byte_by_byte(bytes: Seq<u8>, byte: u8)
    ensures
        fnv1a(Seq::empty()) == 0xcbf29ce484222325,
        fnv1a(bytes.push(byte)) == (((fnv1a(bytes) ^ (byte as u64)) as int) * 0x100000001b3)
            % 0x1_0000_0000_0000_0000,
{
    assert(bytes.push(byte).drop_last() =~= bytes);
}

/// The lock file of a store is named after the decimal hash of its file's identity, so that one
/// file has one lock file in a directory, whatever path it was found by.
pub proof fn law_lock_file_is_named_by_identity(a: StoreIdentity, b: StoreIdentity)
    ensures
        lock_file_name(a.file_id@) == ".agentype-runtime-lock-"@ + decimal_digits(
            fnv1a(encode_utf8(a.file_id@)) as nat,
        ),
        a.file_id@ == b.file_id@ ==> lock_file_name(a.file_id@) == lock_file_name(b.file_id@),
{
}

/// A store configuration is looked at in this order, and the first thing that is wrong is told: an
/// empty path, the in-memory store, a lease that is not finite and positive, no continuity bound.
pub proof fn law_store_configuration_is_checked(
    path: Seq<char>,
    in_memory: bool,
    lease: Seconds,
    continuity: usize,
)
    ensures
        ({
            let told = store_defect(path, in_memory, lease, continuity);
            &&& path.len() == 0 ==> told == Some("scheduler store path is empty"@)
            &&& path.len() > 0 && in_memory ==> told == Some(
                "in-memory sqlite is not a production scheduler store"@,
            )
            &&& path.len() > 0 && !in_memory && !lease.usable() ==> told == Some(
                "lease_seconds must be finite and positive"@,
            )
            &&& path.len() > 0 && !in_memory && lease.usable() && continuity == 0 ==> told == Some(
                "continuity_max_bytes must be positive"@,
            )
            &&& path.len() > 0 && !in_memory && lease.usable() && continuity > 0 ==> told is None
        }),
{
}

/// Every step of an acquisition that goes well leads to the next, for the same store and with the
/// same reservation.
pub proof fn law_acquisition_goes_on(
    directory: DirectoryCreation,
    opening: StoreOpening,
    lock_file: LockFileOpening,
    locking: LockFileLocking,
    store: StoreLocking,
    reply: StoreLockReply,
    step: LockStep,
)
    requires
        reply == StoreLockReply::Locked || reply == StoreLockReply::NotOffered,
        store.leads_to(Ok(reply), step),
    ensures
        directory.next(Ok(())) == LockStep::OpenStore(
            StoreOpening { store_path: directory.store_path },
        ),
        opening.next(Ok(())) == LockStep::Identify(
            StoreIdentification { store_path: opening.store_path },
        ),
        lock_file.next(Ok(())) == LockStep::LockLockFile(
            LockFileLocking { reserved: lock_file.reserved },
        ),
        locking.next(Ok(true)) == LockStep::LockStore(StoreLocking { reserved: locking.reserved }),
        step is Finished,
        step->Finished_0 is Ok,
        step->Finished_0->Ok_0.owned() == store.reserved,
{
}

/// A lock that another owner has means that it runs, at the lock file and at the store; a fault of
/// the operating system is told as it is, at every step.
pub proof fn law_failed_acquisition_tells_why(
    directory: DirectoryCreation,
    opening: StoreOpening,
    lock_file: LockFileOpening,
    locking: LockFileLocking,
    store: StoreLocking,
    cause: String,
    failed: LockStep,
    refused: LockStep,
)
    requires
        store.leads_to(Err(cause), failed),
        store.leads_to(Ok(StoreLockReply::HeldElsewhere), refused),
    ensures
        ({
            let fault = LockStep::Finished(Err(ProcessLockError::Io(cause)));
            let running = LockStep::Finished(Err(ProcessLockError::AlreadyRunning));
            &&& directory.next(Err(cause)) == fault
            &&& opening.next(Err(cause)) == fault
            &&& lock_file.next(Err(cause)) == fault
            &&& locking.next(Err(cause)) == fault
            &&& failed == fault
            &&& locking.next(Ok(false)) == running
            &&& refused == running
        }),
{
}

/// An identity that is held cannot be acquired; one that is free is reserved with both of its keys,
/// for the store that was identified, and its lock file bears its name.
pub proof fn law_identified_store_is_reserved(
    call: StoreIdentification,
    canonical: String,
    file_id: String,
    held: Set<Seq<char>>,
    step: LockStep,
)
    requires
        call.leads_to(Ok(canonical), Ok(file_id), held, step),
    ensures
        held.contains(file_id@) || held.contains(canonical@) || file_id@ == canonical@ ==> step
            == LockStep::Finished(Err(ProcessLockError::AlreadyRunning)),
        step matches LockStep::OpenLockFile(opening) ==> {
            &&& !held.contains(file_id@)
            &&& !held.contains(canonical@)
            &&& opening.reserved.store_path == call.store_path
            &&& opening.reserved.identity.file_id == file_id
            &&& opening.reserved.identity.canonical == canonical
            &&& opening.reserved.reservation.file_id == file_id
            &&& opening.reserved.reservation.canonical == canonical
            &&& opening.lock.file_name@ == lock_file_name(file_id@)
        },
        !(step is OpenLockFile) ==> step is Finished && step->Finished_0 is Err,
{
}

/// A store that cannot be identified is told with its path and the cause; that the path cannot be
/// made canonical comes first.
pub proof fn law_unidentified_store_is_told(
    call: StoreIdentification,
    canonical: Result<String, String>,
    file_id: Result<String, String>,
    held: Set<Seq<char>>,
    step: LockStep,
)
    requires
        canonical is Err || file_id is Err,
        call.leads_to(canonical, file_id, held, step),
    ensures
        step matches LockStep::Finished(Err(ProcessLockError::IdentityUnresolvable(m))) && m@ == (
        match canonical {
            Err(cause) => "cannot canonicalize "@ + call.store_path@ + ": "@ + cause@,
            Ok(_) => "cannot read file identity for "@ + call.store_path@ + ": "@
                + file_id->Err_0@,
        }),
{
}

/// The directory that is created for a store at a plain path is the rest of that path, and a store
/// that is named by a single name needs none.
pub proof fn law_acquisition_starts_beside_the_store(
    store: Seq<char>,
    dir: Seq<char>,
    name: Seq<char>,
    step: LockStep,
)
    requires
        plain_child(store, dir, name),
        acquisition_starts(store, step),
    ensures
        dir.len() > 0 ==> (step matches LockStep::CreateDirectory(s) && s.store_path@ == store
            && s.directory@ == dir),
        dir.len() == 0 ==> (step matches LockStep::OpenStore(s) && s.store_path@ == store),
{
}

/// What a reservation gives back are its two keys and nothing else.
pub proof fn law_release_gives_back_two_keys(
    held: Set<Seq<char>>,
    reservation: IdentityReservation,
    key: Seq<char>,
)
    ensures
        without(held, reservation).contains(key) <==> held.contains(key) && key
            != reservation.file_id@ && key != reservation.canonical@,
{
}

/// What names the in-memory store is its name with any number of slashes behind it, and all of that
/// may name it.
pub proof fn law_memory_is_named_with_slashes(path: Seq<char>)
    ensures
        names_memory(":memory:"@),
        names_memory(path) ==> names_memory(path.push('/')) && may_name_memory(path),
        names_memory(path) && path.len() > ":memory:"@.len() ==> names_memory(path.drop_last()),
{
    if names_memory(path) {
        let longer = path.push('/');
        assert(longer.take(":memory:"@.len() as int) =~= path.take(":memory:"@.len() as int));
        assert(":memory:"@.is_prefix_of(longer));
        if path.len() > ":memory:"@.len() {
            let shorter = path.drop_last();
            assert(shorter.take(":memory:"@.len() as int) =~= path.take(":memory:"@.len() as int));
            assert(":memory:"@.is_prefix_of(shorter));
        }
    }
    assert(":memory:"@.take(":memory:"@.len() as int) =~= ":memory:"@);
}

/// The texts of the lock errors.
pub proof fn law_lock_errors_are_told(text: String)
    ensures
        ProcessLockError::AlreadyRunning.detail()
            == "another scheduler daemon already owns this store"@,
        ProcessLockError::IdentityUnresolvable(text).detail()
            == "scheduler store identity unresolvable: "@ + text@,
        ProcessLockError::Io(text).detail() == "process lock i/o: "@ + text@,
{
}

/// A claim takes both keys of an identity or neither: it is refused while one of them is held, or
/// where they are one key, and then nothing changes.
pub proof fn law_claim_takes_both_keys_or_neither(
    held: Set<Seq<char>>,
    identity: StoreIdentity,
    after: Set<Seq<char>>,
    result: Result<IdentityReservation, ProcessLockError>,
    key: Seq<char>,
)
    requires
        HeldIdentities::claims_to(held, identity, after, result),
    ensures
        result is Ok <==> !held.contains(identity.file_id@) && !held.contains(identity.canonical@)
            && identity.file_id@ != identity.canonical@,
        result is Err ==> result == Err::<IdentityReservation, ProcessLockError>(
            ProcessLockError::AlreadyRunning,
        ) && after == held,
        result is Ok ==> (after.contains(key) <==> held.contains(key) || key == identity.file_id@
            || key == identity.canonical@),
        result matches Ok(reservation) ==> reservation.file_id == identity.file_id
            && reservation.canonical == identity.canonical && without(after, reservation) == held,
{
    if result is Ok {
        assert(without(after, result->Ok_0) =~= held);
    }
}

/// Of two claims that share a key only one is granted, until the first is given back.
pub proof fn law_one_owner_at_a_time(
    held: Set<Seq<char>>,
    first: StoreIdentity,
    second: StoreIdentity,
    after_first: Set<Seq<char>>,
    after_second: Set<Seq<char>>,
    granted: Result<IdentityReservation, ProcessLockError>,
    refused: Result<IdentityReservation, ProcessLockError>,
)
    requires
        HeldIdentities::claims_to(held, first, after_first, granted),
        granted is Ok,
        HeldIdentities::claims_to(after_first, second, after_second, refused),
        first.file_id@ == second.file_id@ || first.canonical@ == second.canonical@,
    ensures
        refused == Err::<IdentityReservation, ProcessLockError>(ProcessLockError::AlreadyRunning),
        after_second == after_first,
{
}

/// Where the name of a plain path starts, and the slash before it.
proof fn lemma_plain_name(path: Seq<char>, dir: Seq<char>, name: Seq<char>)
    requires
        plain_child(path, dir, name),
    ensures
        name.len() <= path.len(),
        forall|i: int|
            0 <= i < name.len() ==> #[trigger] name[i] == path[path.len() - name.len() + i],
        name.len() == path.len() <==> dir.len() == 0,
        name.len() < path.len() ==> path[path.len() - name.len() - 1] == '/',
{
    reveal_strlit("/");
}

/// A plain path has one name and one directory: it is parted at its last slash and nowhere else.
pub proof fn law_plain_path_is_parted_once(
    path: Seq<char>,
    dir: Seq<char>,
    name: Seq<char>,
    other_dir: Seq<char>,
    other_name: Seq<char>,
)
    requires
        plain_child(path, dir, name),
        plain_child(path, other_dir, other_name),
    ensures
        dir == other_dir,
        name == other_name,
{
    reveal_strlit("/");
    lemma_plain_name(path, dir, name);
    lemma_plain_name(path, other_dir, other_name);
    if name.len() < other_name.len() {
        assert(other_name[other_name.len() - name.len() - 1] == '/');
    }
    if other_name.len() < name.len() {
        assert(name[name.len() - other_name.len() - 1] == '/');
    }
    assert(name =~= other_name);
    if dir.len() > 0 {
        if dir == "/"@ {
            assert(path.len() == 1 + name.len());
        }
        if other_dir == "/"@ {
            assert(path.len() == 1 + other_name.len());
        }
        assert(dir.len() == other_dir.len());
        assert(dir =~= path.take(dir.len() as int));
        assert(other_dir =~= path.take(other_dir.len() as int));
    }
    assert(dir =~= other_dir);
}

/// What a plain path is made of: a name without separators, behind a slash where there is a
/// directory; and it starts with neither two separators nor a drive.
pub proof fn law_plain_path_is_a_name_in_a_directory(
    path: Seq<char>,
    dir: Seq<char>,
    name: Seq<char>,
)
    requires
        plain_child(path, dir, name),
    ensures
        name.len() > 0,
        forall|i: int| 0 <= i < name.len() ==> #[trigger] name[i] != '/' && name[i] != '\\',
        dir.len() == 0 ==> path == name,
        dir.len() > 0 ==> dir.is_prefix_of(path) && dir.len() < path.len(),
        !starts_with_drive(path),
        path.len() > 1 && (path[0] == '/' || path[0] == '\\') ==> path[1] != '/' && path[1]
            != '\\',
{
    reveal_strlit("/");
    if dir.len() > 0 {
        assert(dir =~= path.take(dir.len() as int));
    }
    if starts_with_drive(path) {
        assert(path[1] == ':');
        let front = path.take(1);
        assert(front.contains('/'));
        assert(front[0] == path[0]);
    }
}

/// A drive is a letter, a colon and a backslash, and its length is the same behind the mark of a
/// verbatim path, which is counted with it.
pub proof fn law_drives_are_marked(path: Seq<char>)
    ensures
        starts_with_drive(path) <==> path.len() >= 3 && (65 <= path[0] as int <= 90 || 97
            <= path[0] as int <= 122) && path[1] == ':' && path[2] == '\\',
        starts_with_drive(path) ==> drive_length(path) == 3 && drive_length(r"\\?\"@ + path) == 7,
        !starts_with_drive(path) ==> drive_length(r"\\?\"@ + path) == 0,
        drive_length(path) == 0 || drive_length(path) == 3 || drive_length(path) == 7,
        drive_length(path) > 0 ==> path.len() >= drive_length(path) && path[drive_length(path) - 1]
            == '\\',
        drive_path(path) ==> drive_length(path) > 0 && path.last() != '\\' && path.last() != '.',
{
    reveal_strlit(r"\\?\");
    let mark = r"\\?\"@;
    let marked = mark + path;
    assert(mark.len() == 4);
    assert(marked.take(4) =~= mark);
    assert(mark.is_prefix_of(marked));
    assert(marked.skip(4) =~= path);
    assert(marked[0] == '\\');
    if drive_length(path) == 7 {
        assert(path.skip(4)[2] == path[6]);
    }
}

/// A path on a drive has one name and one directory, where backslashes are separators.
pub proof fn law_drive_path_is_parted_once(
    path: Seq<char>,
    dir: Seq<char>,
    name: Seq<char>,
    other_dir: Seq<char>,
    other_name: Seq<char>,
)
    requires
        drive_child(path, dir, name),
        drive_child(path, other_dir, other_name),
    ensures
        dir == other_dir,
        name == other_name,
{
    reveal_strlit(r"\");
    law_drives_are_marked(path);
    lemma_drive_name(path, dir, name);
    lemma_drive_name(path, other_dir, other_name);
    if name.len() < other_name.len() {
        assert(other_name[other_name.len() - name.len() - 1] == '\\');
    }
    if other_name.len() < name.len() {
        assert(name[name.len() - other_name.len() - 1] == '\\');
    }
    assert(name =~= other_name);
    if dir.len() < other_dir.len() {
        assert(path == dir + r"\"@ + name || path == dir + name);
    }
    assert(dir.len() == other_dir.len());
    assert(dir =~= path.take(dir.len() as int));
    assert(other_dir =~= path.take(other_dir.len() as int));
}

proof fn lemma_drive_name(path: Seq<char>, dir: Seq<char>, name: Seq<char>)
    requires
        drive_child(path, dir, name),
    ensures
        name.len() < path.len(),
        forall|i: int|
            0 <= i < name.len() ==> #[trigger] name[i] == path[path.len() - name.len() + i],
        path[path.len() - name.len() - 1] == '\\',
{
    reveal_strlit(r"\");
    law_drives_are_marked(path);
}

/// The parent of a path is a proper front part of it; the empty path and the root have none, and a
/// plain path has its directory.
pub proof fn law_parents_are_front_parts(
    path: Seq<char>,
    parent: Option<Seq<char>>,
    dir: Seq<char>,
    name: Seq<char>,
)
    requires
        parent_of(path, parent),
    ensures
        path.len() == 0 ==> parent is None,
        path == "/"@ ==> parent is None,
        parent matches Some(front) ==> front.len() < path.len() && front == path.take(
            front.len() as int,
        ),
        plain_child(path, dir, name) ==> parent == Some(dir),
        drive_path(path) ==> parent is Some,
        drive_child(path, dir, name) ==> parent == Some(dir) || parent == Some(
            Seq::<char>::empty(),
        ),
{
    if parent is Some {
        assert(parent->0 =~= path.take(parent->0.len() as int));
    }
}

} // verus!
