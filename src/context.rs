//! Context registry: factories registered under role ids, and the handler
//! instances that they create on demand for the ids the host assigns.
use std::collections::HashMap;
use std::sync::Arc;
use vstd::prelude::*;
use vstd::rwlock::{RwLock, RwLockPredicate, WriteHandle};

use crate::types::FilterHeadersStatus;

verus! {

broadcast use vstd::std_specs::hash::group_hash_axioms;

/// Module-lifetime handler state.
pub trait RootContext {
    /// Called once the VM has started; `false` reports a failed start.
    fn on_start(&mut self, configuration_size: u32) -> bool;
}

/// Request-lifetime handler state.
pub trait Context {
    fn on_create(&mut self);

    fn on_request_headers(&mut self, num_headers: u32) -> FilterHeadersStatus;
}

/// Makes root contexts for one role.
pub trait RootContextFactory<R> {
    fn create(&self) -> R;
}

/// Makes stream contexts for one role; each is given a handle to its root.
pub trait ContextFactory<R, C> {
    fn create(&self, root_context: Handle<R>) -> C;
}

/// Admits every state of a handler.
pub struct AnyState;

impl<V> RwLockPredicate<V> for AnyState {
    open spec fn inv(self, v: V) -> bool {
        true
    }
}

/// Shared ownership of one handler instance, with exclusive access to its state.
pub struct Handle<T> {
    cell: Arc<RwLock<T, AnyState>>,
}

impl<T> Handle<T> {
    /// The lock that guards the instance.
    pub closed spec fn lock(&self) -> RwLock<T, AnyState> {
        *self.cell
    }

    /// A handle to a new instance holding `value`.
    pub fn new(value: T) -> (r: Self) {
        Handle { cell: Arc::new(RwLock::new(value, Ghost(AnyState))) }
    }

    /// Another handle to the same instance.
    pub fn share(&self) -> (r: Self)
        ensures
            r == *self,
    {
        Handle { cell: Arc::clone(&self.cell) }
    }

    /// Takes the instance's state for exclusive use; other users of the
    /// instance wait until it is handed back with `release_write`.
    pub fn acquire(&self) -> (r: (T, WriteHandle<'_, T, AnyState>))
        ensures
            r.1.rwlock() == self.lock(),
    {
        self.cell.acquire_write()
    }
}

/// Why the registry could not resolve or register a context.
#[derive(Clone, Copy, Debug, PartialEq, Eq, Structural)]
pub enum RegistryError {
    /// No factory is registered under the role id.
    UnknownRole,
    /// The stream names a root context that does not exist.
    UnknownRootContext,
    /// The role id already has its factories.
    RoleAlreadyRegistered,
    /// No stream context is live under the id.
    UnknownContext,
}

/// The tables of a guest module: factories by role id, root contexts by id,
/// stream contexts by id. Tables only grow: a registered role keeps its
/// factories, and an id keeps its instance.
pub struct Registry<R, C, RF, CF> {
    factories: Vec<(String, RF, CF)>,
    roots: HashMap<u32, (String, Handle<R>)>,
    streams: HashMap<u32, (u32, Handle<C>)>,
    root_log: Ghost<Seq<u32>>,
    stream_log: Ghost<Seq<u32>>,
    factory_roots: Ghost<Map<u32, Handle<R>>>,
}

/// A factory table as a map from role id to its root and stream factories;
/// a later entry for a role would win, though the registry keeps one per role.
pub open spec fn factory_map<RF, CF>(fs: Seq<(String, RF, CF)>) -> Map<Seq<char>, (RF, CF)>
    decreases fs.len(),
{
    if fs.len() == 0 {
        Map::empty()
    } else {
        factory_map(fs.drop_last()).insert(fs.last().0@, (fs.last().1, fs.last().2))
    }
}

proof fn lemma_factory_map_domain<RF, CF>(fs: Seq<(String, RF, CF)>, r: Seq<char>)
    ensures
        factory_map(fs).contains_key(r) <==> exists|i: int| 0 <= i < fs.len() && fs[i].0@ == r,
    decreases fs.len(),
{
    if fs.len() > 0 {
        let init = fs.drop_last();
        lemma_factory_map_domain(init, r);
        if factory_map(fs).contains_key(r) && r != fs.last().0@ {
            let i = choose|i: int| 0 <= i < init.len() && init[i].0@ == r;
            assert(fs[i].0@ == r);
        }
        if exists|i: int| 0 <= i < fs.len() && fs[i].0@ == r {
            let i = choose|i: int| 0 <= i < fs.len() && fs[i].0@ == r;
            if i < init.len() {
                assert(init[i].0@ == r);
            }
        }
    }
}

impl<R, C, RF, CF> Registry<R, C, RF, CF> {
    /// Root and stream factories by role id.
    pub closed spec fn factories(&self) -> Map<Seq<char>, (RF, CF)> {
        factory_map(self.factories@)
    }

    /// Role ids that have factories.
    pub open spec fn roles(&self) -> Set<Seq<char>> {
        self.factories().dom()
    }

    /// Live root contexts: role id and handle by context id.
    pub closed spec fn roots(&self) -> Map<u32, (Seq<char>, Handle<R>)> {
        self.roots@.map_values(|e: (String, Handle<R>)| (e.0@, e.1))
    }

    /// Live stream contexts: owning root id and handle by context id.
    pub closed spec fn streams(&self) -> Map<u32, (u32, Handle<C>)> {
        self.streams@
    }

    /// Root ids in the order in which a factory constructed their instance.
    pub closed spec fn root_log(&self) -> Seq<u32> {
        self.root_log@
    }

    /// Stream ids in the order in which a factory constructed their instance.
    pub closed spec fn stream_log(&self) -> Seq<u32> {
        self.stream_log@
    }

    /// For each constructed stream id, the root handle that its factory was given.
    pub closed spec fn factory_roots(&self) -> Map<u32, Handle<R>> {
        self.factory_roots@
    }

    #[verifier::type_invariant]
    closed spec fn wf(&self) -> bool {
        &&& self.root_log@.no_duplicates()
        &&& self.stream_log@.no_duplicates()
        &&& forall|id: u32| #[trigger]
            self.roots@.contains_key(id) <==> self.root_log@.contains(id)
        &&& forall|id: u32| #[trigger]
            self.streams@.contains_key(id) <==> self.stream_log@.contains(id)
        &&& forall|id: u32| #[trigger]
            self.streams@.contains_key(id) ==> self.roots@.contains_key(self.streams@[id].0)
        &&& forall|id: u32| #[trigger]
            self.roots@.contains_key(id) ==> self.roles().contains(self.roots@[id].0@)
        &&& forall|i: int, j: int|
            0 <= i < j < self.factories@.len() ==> self.factories@[i].0@
                != self.factories@[j].0@
    }

    /// The registry invariant, as callers see it: each constructed id is
    /// logged once, exactly the live ids are logged, and every stream's root
    /// and every root's role exist.
    pub open spec fn consistent(&self) -> bool {
        &&& self.root_log().no_duplicates()
        &&& self.stream_log().no_duplicates()
        &&& forall|id: u32| #[trigger]
            self.roots().contains_key(id) <==> self.root_log().contains(id)
        &&& forall|id: u32| #[trigger]
            self.streams().contains_key(id) <==> self.stream_log().contains(id)
        &&& forall|id: u32| #[trigger]
            self.streams().contains_key(id) ==> self.roots().contains_key(self.streams()[id].0)
        &&& forall|id: u32| #[trigger]
            self.roots().contains_key(id) ==> self.roles().contains(self.roots()[id].0)
    }

    /// An empty registry.
    pub fn new() -> (r: Self)
        ensures
            r.factories() == Map::<Seq<char>, (RF, CF)>::empty(),
            r.roots() == Map::<u32, (Seq<char>, Handle<R>)>::empty(),
            r.streams() == Map::<u32, (u32, Handle<C>)>::empty(),
            r.root_log() == Seq::<u32>::empty(),
            r.stream_log() == Seq::<u32>::empty(),
            r.factory_roots() == Map::<u32, Handle<R>>::empty(),
            r.consistent(),
    {
        let r = Registry {
            factories: Vec::new(),
            roots: HashMap::new(),
            streams: HashMap::new(),
            root_log: Ghost(Seq::empty()),
            stream_log: Ghost(Seq::empty()),
            factory_roots: Ghost(Map::empty()),
        };
        assert(r.roots() =~= Map::<u32, (Seq<char>, Handle<R>)>::empty());
        r
    }
}


/// What `ensure_root_context` does: an id that is live keeps its instance
/// and nothing changes; otherwise the factory of `role` constructs one
/// instance, which is stored and logged; with no such factory it fails and
/// nothing changes.
pub open spec fn ensure_root_post<R, C, RF, CF>(
    pre: Registry<R, C, RF, CF>,
    id: u32,
    role: Seq<char>,
    post: Registry<R, C, RF, CF>,
    r: Result<Handle<R>, RegistryError>,
) -> bool {
    &&& post.factories() == pre.factories()
    &&& post.streams() == pre.streams()
    &&& post.stream_log() == pre.stream_log()
    &&& post.factory_roots() == pre.factory_roots()
    &&& if pre.roots().contains_key(id) {
        &&& r == Ok::<Handle<R>, RegistryError>(pre.roots()[id].1)
        &&& post.roots() == pre.roots()
        &&& post.root_log() == pre.root_log()
    } else if !pre.roles().contains(role) {
        &&& r == Err::<Handle<R>, RegistryError>(RegistryError::UnknownRole)
        &&& post.roots() == pre.roots()
        &&& post.root_log() == pre.root_log()
    } else {
        &&& r is Ok
        &&& post.roots() == pre.roots().insert(id, (role, r->Ok_0))
        &&& post.root_log() == pre.root_log().push(id)
    }
}

/// What `ensure_context` does: an id that is live keeps its instance and
/// nothing changes; otherwise, if the root context exists, the stream factory
/// of the root's role constructs one instance, owned by that root, which is
/// stored and logged, and the factory is given that root's handle; if it does
/// not, it fails and nothing changes.
pub open spec fn ensure_stream_post<R, C, RF, CF>(
    pre: Registry<R, C, RF, CF>,
    id: u32,
    root_id: u32,
    post: Registry<R, C, RF, CF>,
    r: Result<Handle<C>, RegistryError>,
) -> bool {
    &&& post.factories() == pre.factories()
    &&& post.roots() == pre.roots()
    &&& post.root_log() == pre.root_log()
    &&& if pre.streams().contains_key(id) {
        &&& r == Ok::<Handle<C>, RegistryError>(pre.streams()[id].1)
        &&& post.streams() == pre.streams()
        &&& post.stream_log() == pre.stream_log()
        &&& post.factory_roots() == pre.factory_roots()
    } else if !pre.roots().contains_key(root_id) {
        &&& r == Err::<Handle<C>, RegistryError>(RegistryError::UnknownRootContext)
        &&& post.streams() == pre.streams()
        &&& post.stream_log() == pre.stream_log()
        &&& post.factory_roots() == pre.factory_roots()
    } else {
        &&& r is Ok
        &&& post.streams() == pre.streams().insert(id, (root_id, r->Ok_0))
        &&& post.stream_log() == pre.stream_log().push(id)
        &&& post.factory_roots() == pre.factory_roots().insert(id, pre.roots()[root_id].1)
    }
}

impl<R, C, RF: RootContextFactory<R>, CF: ContextFactory<R, C>> Registry<R, C, RF, CF> {
    /// Index of the factories registered under `role`.
    fn find_role(&self, role: &String) -> (r: Option<usize>)
        ensures
            r matches Some(i) ==> i < self.factories@.len() && self.factories@[i as int].0@
                == role@,
            r is None ==> !self.roles().contains(role@),
    {
        let n = self.factories.len();
        let mut i: usize = 0;
        while i < n
            invariant
                n == self.factories@.len(),
                0 <= i <= n,
                forall|j: int| 0 <= j < i ==> self.factories@[j].0@ != role@,
            decreases n - i,
        {
            if self.factories[i].0 == *role {
                return Some(i);
            }
            i = i + 1;
        }
        proof {
            lemma_factory_map_domain(self.factories@, role@);
        }
        None
    }

    /// Binds the stream factory `cf` and the root factory `rcf` to the role
    /// id `root_id`. A role that is bound already keeps its factories, and
    /// the call fails.
    pub fn register_factory(&mut self, root_id: &str, cf: CF, rcf: RF) -> (r: Result<
        (),
        RegistryError,
    >)
        ensures
            old(self).roles().contains(root_id@) ==> r == Err::<(), RegistryError>(
                RegistryError::RoleAlreadyRegistered,
            ) && final(self).factories() == old(self).factories(),
            !old(self).roles().contains(root_id@) ==> r is Ok && final(self).factories() == old(
                self,
            ).factories().insert(root_id@, (rcf, cf)),
            final(self).roots() == old(self).roots(),
            final(self).streams() == old(self).streams(),
            final(self).root_log() == old(self).root_log(),
            final(self).stream_log() == old(self).stream_log(),
            final(self).factory_roots() == old(self).factory_roots(),
            final(self).consistent(),
    {
        proof {
            use_type_invariant(&*self);
        }
        let role: String = root_id.to_owned();
        if let Some(i) = self.find_role(&role) {
            proof {
                use_type_invariant(&*self);
                lemma_factory_map_domain(self.factories@, role@);
                assert(self.factories@[i as int].0@ == role@);
            }
            return Err(RegistryError::RoleAlreadyRegistered);
        }
        let mut taken = Registry::new();
        core::mem::swap(self, &mut taken);
        let Registry { mut factories, roots, streams, root_log, stream_log, factory_roots } = taken;
        let ghost before = factories@;
        factories.push((role, rcf, cf));
        proof {
            assert(factories@.drop_last() =~= before);
            assert forall|i: int| 0 <= i < before.len() implies before[i].0@ != root_id@ by {
                lemma_factory_map_domain(before, root_id@);
            }
            assert forall|r: Seq<char>| #[trigger] factory_map(before).contains_key(r) implies factory_map(
                factories@,
            ).contains_key(r) by {}
        }
        *self = Registry { factories, roots, streams, root_log, stream_log, factory_roots };
        proof {
            use_type_invariant(&*self);
        }
        Ok(())
    }

    /// The root context of `root_context_id`, constructing it with the factory
    /// of `role_id` if the id has none yet. Under any interleaving of callers
    /// that hold the registry in turn, one id gets one construction.
    pub fn ensure_root_context(&mut self, root_context_id: u32, role_id: &str) -> (r: Result<
        Handle<R>,
        RegistryError,
    >)
        ensures
            ensure_root_post(*old(self), root_context_id, role_id@, *final(self), r),
            old(self).consistent(),
            final(self).consistent(),
    {
        proof {
            use_type_invariant(&*self);
        }
        match self.roots.get(&root_context_id) {
            Some(e) => {
                return Ok(e.1.share());
            },
            None => {},
        }
        let role: String = role_id.to_owned();
        let idx = match self.find_role(&role) {
            Some(i) => i,
            None => {
                return Err(RegistryError::UnknownRole);
            },
        };
        let root = self.factories[idx].1.create();
        let handle = Handle::new(root);
        let mut taken = Registry::new();
        core::mem::swap(self, &mut taken);
        let Registry { factories, mut roots, streams, root_log, stream_log, factory_roots } = taken;
        let ghost role_view = role@;
        roots.insert(root_context_id, (role, handle.share()));
        let ghost log = root_log@.push(root_context_id);
        proof {
            assert(factory_map(factories@).contains_key(role_view)) by {
                assert(factories@[idx as int].0@ == role_view);
                lemma_factory_map_domain(factories@, role_view);
            }
            assert forall|id: u32| #[trigger] roots@.contains_key(id) <==> log.contains(id) by {
                if id == root_context_id {
                    assert(log[log.len() - 1] == id);
                } else if log.contains(id) {
                    let k = choose|k: int| 0 <= k < log.len() && log[k] == id;
                    assert(root_log@[k] == id);
                } else if root_log@.contains(id) {
                    let k = choose|k: int| 0 <= k < root_log@.len() && root_log@[k] == id;
                    assert(log[k] == id);
                }
            }
        }
        *self = Registry { factories, roots, streams, root_log: Ghost(log), stream_log, factory_roots };
        proof {
            use_type_invariant(&*self);
            assert(self.roots() =~= old(self).roots().insert(
                root_context_id,
                (role_view, handle),
            ));
        }
        Ok(handle)
    }

    /// The stream context of `context_id`, constructing it for the root
    /// context `root_context_id` if the id has none yet.
    pub fn ensure_context(&mut self, context_id: u32, root_context_id: u32) -> (r: Result<
        Handle<C>,
        RegistryError,
    >)
        ensures
            ensure_stream_post(*old(self), context_id, root_context_id, *final(self), r),
            old(self).consistent(),
            final(self).consistent(),
    {
        proof {
            use_type_invariant(&*self);
        }
        match self.streams.get(&context_id) {
            Some(e) => {
                return Ok(e.1.share());
            },
            None => {},
        }
        let (idx, root) = match self.roots.get(&root_context_id) {
            Some(e) => match self.find_role(&e.0) {
                Some(i) => (i, e.1.share()),
                None => {
                    return Err(RegistryError::UnknownRole);
                },
            },
            None => {
                return Err(RegistryError::UnknownRootContext);
            },
        };
        let ghost given = root;
        let context = self.factories[idx].2.create(root);
        let handle = Handle::new(context);
        let mut taken = Registry::new();
        core::mem::swap(self, &mut taken);
        let Registry { factories, roots, mut streams, root_log, stream_log, factory_roots } = taken;
        streams.insert(context_id, (root_context_id, handle.share()));
        let ghost log = stream_log@.push(context_id);
        proof {
            assert forall|id: u32| #[trigger] streams@.contains_key(id) <==> log.contains(id) by {
                if id == context_id {
                    assert(log[log.len() - 1] == id);
                } else if log.contains(id) {
                    let k = choose|k: int| 0 <= k < log.len() && log[k] == id;
                    assert(stream_log@[k] == id);
                } else if stream_log@.contains(id) {
                    let k = choose|k: int| 0 <= k < stream_log@.len() && stream_log@[k] == id;
                    assert(log[k] == id);
                }
            }
        }
        *self = Registry {
            factories,
            roots,
            streams,
            root_log,
            stream_log: Ghost(log),
            factory_roots: Ghost(factory_roots@.insert(context_id, given)),
        };
        proof {
            use_type_invariant(&*self);
        }
        Ok(handle)
    }

    /// The live stream context of `context_id`, without constructing one.
    pub fn get_context(&self, context_id: u32) -> (r: Option<Handle<C>>)
        ensures
            r matches Some(h) ==> self.streams().contains_key(context_id) && h == self.streams()[context_id].1,
            r is None ==> !self.streams().contains_key(context_id),
    {
        match self.streams.get(&context_id) {
            Some(e) => Some(e.1.share()),
            None => None,
        }
    }

    /// The live root context of `root_context_id`, without constructing one.
    pub fn get_root_context(&self, root_context_id: u32) -> (r: Option<Handle<R>>)
        ensures
            r matches Some(h) ==> self.roots().contains_key(root_context_id) && h == self.roots()[root_context_id].1,
            r is None ==> !self.roots().contains_key(root_context_id),
    {
        match self.roots.get(&root_context_id) {
            Some(e) => Some(e.1.share()),
            None => None,
        }
    }

    /// The root context that owns the stream `context_id`.
    pub fn root_of(&self, context_id: u32) -> (r: Option<u32>)
        ensures
            r matches Some(id) ==> self.streams().contains_key(context_id) && id == self.streams()[context_id].0,
            r is None ==> !self.streams().contains_key(context_id),
    {
        match self.streams.get(&context_id) {
            Some(e) => Some(e.0),
            None => None,
        }
    }
}


/// Resolving a root id twice constructs its instance once: the second call
/// returns the handle of the first and changes nothing, and across both calls
/// the construction log grew by that id alone if it was not live before.
pub proof fn lemma_ensure_root_once<R, C, RF, CF>(
    r0: Registry<R, C, RF, CF>,
    r1: Registry<R, C, RF, CF>,
    r2: Registry<R, C, RF, CF>,
    id: u32,
    role1: Seq<char>,
    role2: Seq<char>,
    h1: Handle<R>,
    res2: Result<Handle<R>, RegistryError>,
)
    requires
        r0.consistent(),
        ensure_root_post(r0, id, role1, r1, Ok(h1)),
        ensure_root_post(r1, id, role2, r2, res2),
    ensures
        res2 == Ok::<Handle<R>, RegistryError>(h1),
        r2.roots() == r1.roots(),
        r2.root_log() == r1.root_log(),
        r2.roots().contains_key(id),
        r0.roots().contains_key(id) ==> r2.root_log() == r0.root_log(),
        !r0.roots().contains_key(id) ==> r2.root_log() == r0.root_log().push(id),
{
    if !r0.roots().contains_key(id) {
        assert(r1.roots()[id] == (role1, h1));
    }
}

/// Resolving a stream id twice constructs its instance once: the second call
/// returns the handle of the first and changes nothing, and across both calls
/// the construction log grew by that id alone if it was not live before.
pub proof fn lemma_ensure_context_once<R, C, RF, CF>(
    r0: Registry<R, C, RF, CF>,
    r1: Registry<R, C, RF, CF>,
    r2: Registry<R, C, RF, CF>,
    id: u32,
    root1: u32,
    root2: u32,
    h1: Handle<C>,
    res2: Result<Handle<C>, RegistryError>,
)
    requires
        r0.consistent(),
        ensure_stream_post(r0, id, root1, r1, Ok(h1)),
        ensure_stream_post(r1, id, root2, r2, res2),
    ensures
        res2 == Ok::<Handle<C>, RegistryError>(h1),
        r2.streams() == r1.streams(),
        r2.stream_log() == r1.stream_log(),
        r2.streams().contains_key(id),
        r0.streams().contains_key(id) ==> r2.stream_log() == r0.stream_log(),
        !r0.streams().contains_key(id) ==> r2.stream_log() == r0.stream_log().push(id),
{
    if !r0.streams().contains_key(id) {
        assert(r1.streams()[id] == (root1, h1));
    }
}

/// State after some calls of a run of `ensure_root_context` on one id: the
/// log grew by that id at most, a live instance stays, and every call that
/// succeeded so far returned the instance now stored.
pub open spec fn ensure_run_state<R, C, RF, CF>(
    first: Registry<R, C, RF, CF>,
    now: Registry<R, C, RF, CF>,
    id: u32,
    results: Seq<Result<Handle<R>, RegistryError>>,
) -> bool {
    &&& (now.root_log() == first.root_log() && (now.roots().contains_key(id)
        <==> first.roots().contains_key(id)) && (first.roots().contains_key(id) ==> now.roots()[id]
        == first.roots()[id])) || (now.root_log() == first.root_log().push(id)
        && !first.roots().contains_key(id) && now.roots().contains_key(id))
    &&& forall|i: int|
        0 <= i < results.len() && (#[trigger] results[i]) is Ok ==> now.roots().contains_key(id)
            && results[i] == Ok::<Handle<R>, RegistryError>(now.roots()[id].1)
}

proof fn lemma_ensure_run_prefix<R, C, RF, CF>(
    rs: Seq<Registry<R, C, RF, CF>>,
    results: Seq<Result<Handle<R>, RegistryError>>,
    id: u32,
    roles: Seq<Seq<char>>,
    k: int,
)
    requires
        rs.len() == results.len() + 1,
        roles.len() == results.len(),
        rs[0].consistent(),
        forall|i: int|
            0 <= i < results.len() ==> ensure_root_post(
                #[trigger] rs[i],
                id,
                roles[i],
                rs[i + 1],
                results[i],
            ),
        0 <= k <= results.len(),
    ensures
        ensure_run_state(rs[0], rs[k], id, results.take(k)),
    decreases k,
{
    if k == 0 {
        assert(results.take(0).len() == 0);
    } else {
        lemma_ensure_run_prefix(rs, results, id, roles, k - 1);
        let pre = rs[k - 1];
        let post = rs[k];
        assert(ensure_root_post(pre, id, roles[k - 1], post, results[k - 1]));
        if !pre.roots().contains_key(id) && pre.roles().contains(roles[k - 1]) {
            assert(!rs[0].roots().contains_key(id));
            assert(pre.root_log() == rs[0].root_log());
            assert(post.roots()[id] == (roles[k - 1], results[k - 1]->Ok_0));
        }
        assert forall|i: int|
            0 <= i < k && (#[trigger] results.take(k)[i]) is Ok implies post.roots().contains_key(id)
            && results.take(k)[i] == Ok::<Handle<R>, RegistryError>(post.roots()[id].1) by {
            if i < k - 1 {
                assert(results.take(k - 1)[i] == results.take(k)[i]);
            }
        }
    }
}

/// However many times one root id is resolved, in a row without teardown,
/// its instance is constructed at most once: the construction log grows by
/// that id alone or not at all, and every call that succeeds returns the
/// same handle.
pub proof fn lemma_ensure_root_run<R, C, RF, CF>(
    rs: Seq<Registry<R, C, RF, CF>>,
    results: Seq<Result<Handle<R>, RegistryError>>,
    id: u32,
    roles: Seq<Seq<char>>,
)
    requires
        rs.len() == results.len() + 1,
        roles.len() == results.len(),
        rs[0].consistent(),
        forall|i: int|
            0 <= i < results.len() ==> ensure_root_post(
                #[trigger] rs[i],
                id,
                roles[i],
                rs[i + 1],
                results[i],
            ),
    ensures
        rs.last().root_log() == rs[0].root_log() || rs.last().root_log() == rs[0].root_log().push(
            id,
        ),
        forall|i: int, j: int|
            0 <= i < results.len() && 0 <= j < results.len() && (#[trigger] results[i]) is Ok && (
            #[trigger] results[j]) is Ok ==> results[i] == results[j],
{
    let n = results.len() as int;
    lemma_ensure_run_prefix(rs, results, id, roles, n);
    assert(results.take(n) =~= results);
}

/// State after some calls of a run of `ensure_context` on one id: the
/// log grew by that id at most, a live instance stays, and every call that
/// succeeded so far returned the instance now stored.
pub open spec fn ensure_stream_run_state<R, C, RF, CF>(
    first: Registry<R, C, RF, CF>,
    now: Registry<R, C, RF, CF>,
    id: u32,
    results: Seq<Result<Handle<C>, RegistryError>>,
) -> bool {
    &&& (now.stream_log() == first.stream_log() && (now.streams().contains_key(id)
        <==> first.streams().contains_key(id)) && (first.streams().contains_key(id) ==> now.streams()[id]
        == first.streams()[id])) || (now.stream_log() == first.stream_log().push(id)
        && !first.streams().contains_key(id) && now.streams().contains_key(id))
    &&& forall|i: int|
        0 <= i < results.len() && (#[trigger] results[i]) is Ok ==> now.streams().contains_key(id)
            && results[i] == Ok::<Handle<C>, RegistryError>(now.streams()[id].1)
}

proof fn lemma_ensure_stream_run_prefix<R, C, RF, CF>(
    rs: Seq<Registry<R, C, RF, CF>>,
    results: Seq<Result<Handle<C>, RegistryError>>,
    id: u32,
    owners: Seq<u32>,
    k: int,
)
    requires
        rs.len() == results.len() + 1,
        owners.len() == results.len(),
        rs[0].consistent(),
        forall|i: int|
            0 <= i < results.len() ==> ensure_stream_post(
                #[trigger] rs[i],
                id,
                owners[i],
                rs[i + 1],
                results[i],
            ),
        0 <= k <= results.len(),
    ensures
        ensure_stream_run_state(rs[0], rs[k], id, results.take(k)),
    decreases k,
{
    if k == 0 {
        assert(results.take(0).len() == 0);
    } else {
        lemma_ensure_stream_run_prefix(rs, results, id, owners, k - 1);
        let pre = rs[k - 1];
        let post = rs[k];
        assert(ensure_stream_post(pre, id, owners[k - 1], post, results[k - 1]));
        if !pre.streams().contains_key(id) && pre.roots().contains_key(owners[k - 1]) {
            assert(!rs[0].streams().contains_key(id));
            assert(pre.stream_log() == rs[0].stream_log());
            assert(post.streams()[id] == (owners[k - 1], results[k - 1]->Ok_0));
        }
        assert forall|i: int|
            0 <= i < k && (#[trigger] results.take(k)[i]) is Ok implies post.streams().contains_key(id)
            && results.take(k)[i] == Ok::<Handle<C>, RegistryError>(post.streams()[id].1) by {
            if i < k - 1 {
                assert(results.take(k - 1)[i] == results.take(k)[i]);
            }
        }
    }
}

/// However many times one stream id is resolved, in a row without teardown,
/// its instance is constructed at most once: the construction log grows by
/// that id alone or not at all, and every call that succeeds returns the
/// same handle.
pub proof fn lemma_ensure_context_run<R, C, RF, CF>(
    rs: Seq<Registry<R, C, RF, CF>>,
    results: Seq<Result<Handle<C>, RegistryError>>,
    id: u32,
    owners: Seq<u32>,
)
    requires
        rs.len() == results.len() + 1,
        owners.len() == results.len(),
        rs[0].consistent(),
        forall|i: int|
            0 <= i < results.len() ==> ensure_stream_post(
                #[trigger] rs[i],
                id,
                owners[i],
                rs[i + 1],
                results[i],
            ),
    ensures
        rs.last().stream_log() == rs[0].stream_log() || rs.last().stream_log() == rs[0].stream_log().push(
            id,
        ),
        forall|i: int, j: int|
            0 <= i < results.len() && 0 <= j < results.len() && (#[trigger] results[i]) is Ok && (
            #[trigger] results[j]) is Ok ==> results[i] == results[j],
{
    let n = results.len() as int;
    lemma_ensure_stream_run_prefix(rs, results, id, owners, n);
    assert(results.take(n) =~= results);
}

/// Resolving an id that is not live under a role that was never registered
/// fails with `UnknownRole` and creates no instance.
pub proof fn lemma_unknown_role_creates_nothing<R, C, RF, CF>(
    r0: Registry<R, C, RF, CF>,
    r1: Registry<R, C, RF, CF>,
    id: u32,
    role: Seq<char>,
    res: Result<Handle<R>, RegistryError>,
)
    requires
        !r0.roles().contains(role),
        !r0.roots().contains_key(id),
        ensure_root_post(r0, id, role, r1, res),
    ensures
        res == Err::<Handle<R>, RegistryError>(RegistryError::UnknownRole),
        r1.roots() == r0.roots(),
        r1.root_log() == r0.root_log(),
        !r1.roots().contains_key(id),
{
}

} // verus!
