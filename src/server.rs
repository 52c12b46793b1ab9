//! The server's state and the decisions it takes on each command: the
//! registry of plugin factories, the table of running instances, the
//! allocation of instance ids, and the plan for answering one call.
//!
//! The factories and plugins themselves are the caller's (`F` and `P`): the
//! library keeps them, hands them out, and never looks inside them.

use vstd::prelude::*;
use crate::frame::{encode_frame, frame_bytes, FrameError};
use crate::plugin::{phase_name, phase_named, Phase, PluginInfo};
use crate::protocol::{
    encode_return, return_bytes, Command, CommandView, InstanceStatus, ReturnValue, RpcReturn,
};
use crate::protocol::PluginInfo as PluginInfoMessage;

verus! {

/// A factory as the registry holds it: the factory, what it declares, and
/// when it was registered (seconds since the Unix epoch).
pub struct RegisteredFactory<F> {
    pub factory: F,
    pub info: PluginInfo,
    pub registered_at: i64,
}

/// No two entries share a name.
pub open spec fn names_unique<F>(es: Seq<RegisteredFactory<F>>) -> bool {
    forall|i: int, j: int|
        0 <= i < es.len() && 0 <= j < es.len() && i != j ==> #[trigger] es[i].info.name@
            != #[trigger] es[j].info.name@
}

/// Where the entry named `name` stands.
pub open spec fn index_named<F>(es: Seq<RegisteredFactory<F>>, name: Seq<char>) -> Option<int> {
    if exists|i: int| 0 <= i < es.len() && #[trigger] es[i].info.name@ == name {
        Some(choose|i: int| 0 <= i < es.len() && #[trigger] es[i].info.name@ == name)
    } else {
        None
    }
}

/// The entries after registering `e`: it takes the place of the entry of
/// the same name, or comes last when there is none.
pub open spec fn registered<F>(es: Seq<RegisteredFactory<F>>, e: RegisteredFactory<F>) -> Seq<
    RegisteredFactory<F>,
> {
    match index_named(es, e.info.name@) {
        Some(i) => es.update(i, e),
        None => es.push(e),
    }
}

/// The factory a `StartInstance` for `name` uses: the one registered under
/// that name, else the only one when exactly one is registered.
pub open spec fn start_factory<F>(es: Seq<RegisteredFactory<F>>, name: Seq<char>) -> Option<int> {
    match index_named(es, name) {
        Some(i) => Some(i),
        None => if es.len() == 1 {
            Some(0)
        } else {
            None
        },
    }
}

proof fn lemma_index_named_unique<F>(es: Seq<RegisteredFactory<F>>, name: Seq<char>, i: int)
    requires
        names_unique(es),
        0 <= i < es.len(),
        es[i].info.name@ == name,
    ensures
        index_named(es, name) == Some(i),
{
    let j = choose|j: int| 0 <= j < es.len() && #[trigger] es[j].info.name@ == name;
    assert(es[i].info.name@ == name);
}

proof fn lemma_registered_unique<F>(es: Seq<RegisteredFactory<F>>, e: RegisteredFactory<F>)
    requires
        names_unique(es),
    ensures
        names_unique(registered(es, e)),
        index_named(registered(es, e), e.info.name@) matches Some(i) && registered(es, e)[i] == e,
{
    let r = registered(es, e);
    match index_named(es, e.info.name@) {
        Some(i) => {
            assert(es[i].info.name@ == e.info.name@);
            assert forall|a: int, b: int|
                0 <= a < r.len() && 0 <= b < r.len() && a != b implies #[trigger] r[a].info.name@
                != #[trigger] r[b].info.name@ by {
                if a != i && b != i {
                    assert(es[a].info.name@ != es[b].info.name@);
                } else if a == i {
                    assert(es[b].info.name@ != es[i].info.name@);
                } else {
                    assert(es[a].info.name@ != es[i].info.name@);
                }
            }
            lemma_index_named_unique(r, e.info.name@, i);
        },
        None => {
            let n = es.len() as int;
            assert forall|a: int, b: int|
                0 <= a < r.len() && 0 <= b < r.len() && a != b implies #[trigger] r[a].info.name@
                != #[trigger] r[b].info.name@ by {
                if a != n && b != n {
                    assert(es[a].info.name@ != es[b].info.name@);
                } else if a == n {
                    assert(!(es[b].info.name@ == e.info.name@));
                } else {
                    assert(!(es[a].info.name@ == e.info.name@));
                }
            }
            assert(r[n] == e);
            lemma_index_named_unique(r, e.info.name@, n);
        },
    }
}

/// Registering under a name that is already taken replaces what was there:
/// a lookup of that name then finds the last factory registered, names stay
/// unique, and the registry grows by one entry at most over both
/// registrations.
pub proof fn lemma_last_registration_wins<F>(
    es: Seq<RegisteredFactory<F>>,
    first: RegisteredFactory<F>,
    second: RegisteredFactory<F>,
)
    requires
        names_unique(es),
        first.info.name@ == second.info.name@,
    ensures
        names_unique(registered(registered(es, first), second)),
        index_named(registered(registered(es, first), second), second.info.name@) matches Some(i)
            && registered(registered(es, first), second)[i] == second,
        registered(registered(es, first), second).len() == registered(es, first).len(),
        registered(es, first).len() <= es.len() + 1,
{
    lemma_registered_unique(es, first);
    let one = registered(es, first);
    lemma_registered_unique(one, second);
}

/// The plugin factories of a process, each under a name of its own.
pub struct Registry<F> {
    entries: Vec<RegisteredFactory<F>>,
}

impl<F> Registry<F> {
    pub closed spec fn view_entries(&self) -> Seq<RegisteredFactory<F>> {
        self.entries@
    }

    pub closed spec fn wf(&self) -> bool {
        names_unique(self.entries@)
    }

    /// An empty registry.
    pub fn new() -> (r: Self)
        ensures
            r.wf(),
            r.view_entries().len() == 0,
    {
        Registry { entries: Vec::new() }
    }

    /// The number of registered factories.
    pub fn len(&self) -> (r: usize)
        ensures
            r == self.view_entries().len(),
    {
        self.entries.len()
    }

    /// Where the factory named `name` stands, if one is.
    pub fn lookup(&self, name: &String) -> (r: Option<usize>)
        requires
            self.wf(),
        ensures
            match r {
                Some(i) => index_named(self.view_entries(), name@) == Some(i as int),
                None => index_named(self.view_entries(), name@) is None,
            },
    {
        let mut i: usize = 0;
        while i < self.entries.len()
            invariant
                i <= self.entries@.len(),
                names_unique(self.entries@),
                forall|k: int| 0 <= k < i ==> #[trigger] self.entries@[k].info.name@ != name@,
            decreases self.entries@.len() - i,
        {
            if self.entries[i].info.name == *name {
                proof {
                    lemma_index_named_unique(self.entries@, name@, i as int);
                }
                return Some(i);
            }
            i = i + 1;
        }
        None
    }

    /// Registers `factory` under the name its declaration gives; a factory
    /// already registered under that name is replaced.
    pub fn register(&mut self, factory: F, info: PluginInfo, now: i64)
        requires
            old(self).wf(),
        ensures
            final(self).wf(),
            final(self).view_entries() == registered(
                old(self).view_entries(),
                RegisteredFactory { factory, info, registered_at: now },
            ),
    {
        let ghost e = RegisteredFactory { factory, info, registered_at: now };
        proof {
            lemma_registered_unique(self.entries@, e);
        }
        let found = self.lookup(&info.name);
        let entry = RegisteredFactory { factory, info, registered_at: now };
        match found {
            Some(i) => {
                self.entries.set(i, entry);
            },
            None => {
                self.entries.push(entry);
            },
        }
    }

    /// The entry at `index`.
    pub fn entry(&self, index: usize) -> (r: &RegisteredFactory<F>)
        requires
            index < self.view_entries().len(),
        ensures
            *r == self.view_entries()[index as int],
    {
        &self.entries[index]
    }

    /// The names of all registered factories, in registration order.
    pub fn names(&self) -> (r: Vec<String>)
        ensures
            r@.len() == self.view_entries().len(),
            forall|k: int|
                0 <= k < r@.len() ==> #[trigger] r@[k]@ == self.view_entries()[k].info.name@,
    {
        let mut out: Vec<String> = Vec::new();
        let mut i: usize = 0;
        while i < self.entries.len()
            invariant
                i <= self.entries@.len(),
                out@.len() == i,
                forall|k: int| 0 <= k < i ==> #[trigger] out@[k]@ == self.entries@[k].info.name@,
            decreases self.entries@.len() - i,
        {
            out.push(self.entries[i].info.name.clone());
            i = i + 1;
        }
        out
    }

    /// The factory a `StartInstance` for `name` uses.
    pub fn factory_for(&self, name: &String) -> (r: Option<usize>)
        requires
            self.wf(),
        ensures
            match r {
                Some(i) => start_factory(self.view_entries(), name@) == Some(i as int),
                None => start_factory(self.view_entries(), name@) is None,
            },
    {
        match self.lookup(name) {
            Some(i) => Some(i),
            None => if self.entries.len() == 1 {
                Some(0)
            } else {
                None
            },
        }
    }
}

/// A running plugin: its id, when it started (seconds since the Unix epoch),
/// the name and phases of its kind, and the plugin itself.
pub struct Instance<P> {
    pub id: i32,
    pub started_at: i64,
    pub name: String,
    pub phases: Vec<Phase>,
    pub plugin: P,
}

/// No two instances share an id.
pub open spec fn ids_unique<P>(es: Seq<Instance<P>>) -> bool {
    forall|i: int, j: int|
        0 <= i < es.len() && 0 <= j < es.len() && i != j ==> #[trigger] es[i].id
            != #[trigger] es[j].id
}

/// Where the instance with id `id` stands.
pub open spec fn index_of_id<P>(es: Seq<Instance<P>>, id: i32) -> Option<int> {
    if exists|i: int| 0 <= i < es.len() && #[trigger] es[i].id == id {
        Some(choose|i: int| 0 <= i < es.len() && #[trigger] es[i].id == id)
    } else {
        None
    }
}

/// The instances once `id` is closed.
pub open spec fn without_id<P>(es: Seq<Instance<P>>, id: i32) -> Seq<Instance<P>> {
    match index_of_id(es, id) {
        Some(i) => es.remove(i),
        None => es,
    }
}

/// Whether `s` is the status record of `inst`.
pub open spec fn status_of<P>(s: InstanceStatus, inst: Instance<P>) -> bool {
    &&& s.name@ == inst.name@
    &&& s.instance_id == inst.id
    &&& s.started_at == inst.started_at
}

proof fn lemma_index_of_id_unique<P>(es: Seq<Instance<P>>, id: i32, i: int)
    requires
        ids_unique(es),
        0 <= i < es.len(),
        es[i].id == id,
    ensures
        index_of_id(es, id) == Some(i),
{
    let j = choose|j: int| 0 <= j < es.len() && #[trigger] es[j].id == id;
    assert(es[i].id == id);
}

proof fn lemma_without_id<P>(es: Seq<Instance<P>>, id: i32)
    requires
        ids_unique(es),
    ensures
        ids_unique(without_id(es, id)),
        index_of_id(without_id(es, id), id) is None,
        forall|other: i32|
            other != id ==> (index_of_id(es, other) is Some <==> index_of_id(
                without_id(es, id),
                other,
            ) is Some),
{
    let r = without_id(es, id);
    match index_of_id(es, id) {
        Some(i) => {
            assert(es[i].id == id);
            assert forall|a: int, b: int|
                0 <= a < r.len() && 0 <= b < r.len() && a != b implies #[trigger] r[a].id
                != #[trigger] r[b].id by {
                let a2 = if a < i { a } else { a + 1 };
                let b2 = if b < i { b } else { b + 1 };
                assert(r[a] == es[a2] && r[b] == es[b2]);
            }
            assert forall|k: int| 0 <= k < r.len() implies #[trigger] r[k].id != id by {
                let k2 = if k < i { k } else { k + 1 };
                assert(r[k] == es[k2]);
            }
            assert forall|other: i32|
                other != id implies (index_of_id(es, other) is Some <==> index_of_id(
                r,
                other,
            ) is Some) by {
                if index_of_id(es, other) is Some {
                    let k = choose|k: int| 0 <= k < es.len() && #[trigger] es[k].id == other;
                    let k2 = if k < i { k } else { k - 1 };
                    assert(r[k2] == es[k]);
                }
                if index_of_id(r, other) is Some {
                    let k = choose|k: int| 0 <= k < r.len() && #[trigger] r[k].id == other;
                    let k2 = if k < i { k } else { k + 1 };
                    assert(r[k] == es[k2]);
                }
            }
        },
        None => {},
    }
}

/// Once an instance is closed, a lookup of its id misses, and every other
/// instance is still found.
pub proof fn lemma_closed_instance_misses<P>(es: Seq<Instance<P>>, id: i32, other: i32)
    requires
        ids_unique(es),
        other != id,
    ensures
        index_of_id(without_id(es, id), id) is None,
        index_of_id(without_id(es, id), other) is Some <==> index_of_id(es, other) is Some,
{
    lemma_without_id(es, id);
}

/// The running instances, each under an id of its own.
pub struct InstanceTable<P> {
    entries: Vec<Instance<P>>,
}

impl<P> InstanceTable<P> {
    pub closed spec fn view_entries(&self) -> Seq<Instance<P>> {
        self.entries@
    }

    pub closed spec fn wf(&self) -> bool {
        ids_unique(self.entries@)
    }

    /// An empty table.
    pub fn new() -> (r: Self)
        ensures
            r.wf(),
            r.view_entries().len() == 0,
    {
        InstanceTable { entries: Vec::new() }
    }

    /// The number of running instances.
    pub fn len(&self) -> (r: usize)
        ensures
            r == self.view_entries().len(),
    {
        self.entries.len()
    }

    /// Where the instance with id `id` stands, if one does.
    pub fn find(&self, id: i32) -> (r: Option<usize>)
        requires
            self.wf(),
        ensures
            match r {
                Some(i) => index_of_id(self.view_entries(), id) == Some(i as int),
                None => index_of_id(self.view_entries(), id) is None,
            },
    {
        let mut i: usize = 0;
        while i < self.entries.len()
            invariant
                i <= self.entries@.len(),
                ids_unique(self.entries@),
                forall|k: int| 0 <= k < i ==> #[trigger] self.entries@[k].id != id,
            decreases self.entries@.len() - i,
        {
            if self.entries[i].id == id {
                proof {
                    lemma_index_of_id_unique(self.entries@, id, i as int);
                }
                return Some(i);
            }
            i = i + 1;
        }
        None
    }

    /// The instance at `index`.
    pub fn entry(&self, index: usize) -> (r: &Instance<P>)
        requires
            index < self.view_entries().len(),
        ensures
            *r == self.view_entries()[index as int],
    {
        &self.entries[index]
    }

    /// The plugin of the instance with id `id`, if there is one.
    pub fn plugin(&self, id: i32) -> (r: Option<&P>)
        requires
            self.wf(),
        ensures
            match index_of_id(self.view_entries(), id) {
                Some(i) => r == Some(&self.view_entries()[i].plugin),
                None => r is None,
            },
    {
        match self.find(id) {
            Some(i) => Some(&self.entries[i].plugin),
            None => None,
        }
    }

    /// The status record of the instance with id `id`, if there is one.
    pub fn status(&self, id: i32) -> (r: Option<InstanceStatus>)
        requires
            self.wf(),
        ensures
            match index_of_id(self.view_entries(), id) {
                Some(i) => r matches Some(s) && status_of(s, self.view_entries()[i]),
                None => r is None,
            },
    {
        match self.find(id) {
            Some(i) => {
                let inst = &self.entries[i];
                Some(InstanceStatus {
                    name: inst.name.clone(),
                    instance_id: inst.id,
                    started_at: inst.started_at,
                })
            },
            None => None,
        }
    }

    /// Adds `inst`, unless its id is taken: then the table stays as it is
    /// and `inst` comes back.
    pub fn insert(&mut self, inst: Instance<P>) -> (r: Result<(), Instance<P>>)
        requires
            old(self).wf(),
        ensures
            final(self).wf(),
            index_of_id(old(self).view_entries(), inst.id) is None <==> r is Ok,
            r is Ok ==> final(self).view_entries() == old(self).view_entries().push(inst),
            r matches Err(back) ==> back == inst && final(self).view_entries() == old(
                self,
            ).view_entries(),
    {
        match self.find(inst.id) {
            Some(_) => Err(inst),
            None => {
                let ghost before = self.entries@;
                self.entries.push(inst);
                assert forall|a: int, b: int|
                    0 <= a < self.entries@.len() && 0 <= b < self.entries@.len() && a != b implies
                    #[trigger] self.entries@[a].id != #[trigger] self.entries@[b].id by {
                    if a < before.len() && b < before.len() {
                        assert(before[a].id != before[b].id);
                    } else if a < before.len() {
                        assert(!(before[a].id == inst.id));
                    } else {
                        assert(!(before[b].id == inst.id));
                    }
                }
                Ok(())
            },
        }
    }

    /// Removes the instance with id `id` and gives it back; nothing changes
    /// when there is none.
    pub fn remove(&mut self, id: i32) -> (r: Option<Instance<P>>)
        requires
            old(self).wf(),
        ensures
            final(self).wf(),
            final(self).view_entries() == without_id(old(self).view_entries(), id),
            match index_of_id(old(self).view_entries(), id) {
                Some(i) => r == Some(old(self).view_entries()[i]),
                None => r is None,
            },
    {
        proof {
            lemma_without_id(self.entries@, id);
        }
        match self.find(id) {
            Some(i) => Some(self.entries.remove(i)),
            None => None,
        }
    }
}

/// Hands out instance ids: each one once, in increasing order, from 0.
pub struct IdAllocator {
    next: i32,
}

impl IdAllocator {
    /// The id the next allocation gives.
    pub closed spec fn next_id(&self) -> i32 {
        self.next
    }

    pub closed spec fn wf(&self) -> bool {
        self.next >= 0
    }

    /// An allocator whose first id is 0.
    pub fn new() -> (r: Self)
        ensures
            r.wf(),
            r.next_id() == 0,
    {
        IdAllocator { next: 0 }
    }

    /// The next id, or `None` once every non-negative `i32` was handed out.
    pub fn allocate(&mut self) -> (r: Option<i32>)
        requires
            old(self).wf(),
        ensures
            final(self).wf(),
            match r {
                Some(id) => id == old(self).next_id() && final(self).next_id() == id + 1,
                None => old(self).next_id() == i32::MAX && final(self).next_id() == i32::MAX,
            },
    {
        if self.next == i32::MAX {
            None
        } else {
            let id = self.next;
            self.next = id + 1;
            Some(id)
        }
    }
}

/// `id` was handed out by the allocation that took `before` to `after`.
pub open spec fn allocated(before: IdAllocator, after: IdAllocator, id: i32) -> bool {
    id == before.next_id() && after.next_id() == id + 1
}

/// Ids are never handed out twice: of two allocations, the later one
/// starting from any state reached after the first, the ids differ, and the
/// later one is the larger.
pub proof fn lemma_ids_never_reused(
    a0: IdAllocator,
    a1: IdAllocator,
    b0: IdAllocator,
    b1: IdAllocator,
    first: i32,
    second: i32,
)
    requires
        allocated(a0, a1, first),
        a1.next_id() <= b0.next_id(),
        allocated(b0, b1, second),
    ensures
        first != second,
        first < second,
{
}

/// Errors that end a connection: the host and the server no longer agree.
#[derive(Debug, Clone, Copy, PartialEq, Eq, Structural)]
pub enum ProtocolError {
    /// A `StartInstance` carried a configuration that is not UTF-8.
    ConfigNotUtf8,
    /// A `HandleEvent` named no known phase.
    UnknownPhase,
}

/// What the server does with one command.
#[derive(Debug)]
pub enum Step {
    /// Answer at once, with this result or with an empty frame.
    Reply(Option<ReturnValue>),
    /// Have the factory at `factory` make a plugin from `config`, then
    /// record it as a new instance and answer with its status.
    Start { factory: usize, config: String },
    /// Remove this instance; no answer.
    Close { instance_id: i32 },
    /// Run this phase of this instance's plugin; no answer.
    Invoke { instance_id: i32, phase: Phase },
}

/// Whether `m` reports the registered factory `e`.
pub open spec fn info_of<F>(m: PluginInfoMessage, e: RegisteredFactory<F>) -> bool {
    &&& m.name@ == e.info.name@
    &&& m.updated_at == e.registered_at
    &&& m.loaded_at == e.registered_at
    &&& m.phases@.len() == e.info.phases@.len()
    &&& forall|k: int| 0 <= k < m.phases@.len() ==> #[trigger] m.phases@[k]@ == phase_name(e.info.phases@[k])
    &&& m.version@ == e.info.version@
    &&& m.priority == e.info.priority
    &&& m.schema@ == e.info.schema@
}

/// The report of a registered factory.
pub fn plugin_info_message<F>(e: &RegisteredFactory<F>) -> (r: PluginInfoMessage)
    ensures
        info_of(r, *e),
{
    PluginInfoMessage {
        name: e.info.name.clone(),
        updated_at: e.registered_at,
        loaded_at: e.registered_at,
        phases: e.info.phase_names(),
        version: e.info.version.clone(),
        priority: e.info.priority,
        schema: e.info.schema.clone(),
    }
}

/// The UTF-8 text of a configuration, if it is UTF-8.
fn config_text(config: &Vec<u8>) -> (r: Option<String>)
    ensures
        r is Some <==> vstd::utf8::valid_utf8(config@),
        r matches Some(s) ==> s@ == vstd::utf8::decode_utf8(config@),
{
    crate::protocol::utf8_text(config.clone())
}

/// Whether `c` names a factory or an instance that is not there.
pub open spec fn is_miss<F, P>(c: CommandView, reg: Seq<RegisteredFactory<F>>, table: Seq<Instance<P>>) -> bool {
    match c {
        CommandView::GetPluginInfo { name } => index_named(reg, name) is None,
        CommandView::GetInstanceStatus { instance_id } => index_of_id(table, instance_id) is None,
        CommandView::CloseInstance { instance_id } => index_of_id(table, instance_id) is None,
        _ => false,
    }
}

/// The answer "no value" is a frame of length 0: four zero bytes.
pub proof fn lemma_no_value_frame()
    ensures
        frame_bytes(Seq::<u8>::empty()) == seq![0u8, 0u8, 0u8, 0u8],
{
    let z: u32 = 0;
    assert((z & 0xff) == 0 && ((z >> 8u32) & 0xff) == 0 && ((z >> 16u32) & 0xff) == 0 && ((z
        >> 24u32) & 0xff) == 0) by (bit_vector)
        requires
            z == 0,
    ;
    assert(frame_bytes(Seq::<u8>::empty()) =~= seq![0u8, 0u8, 0u8, 0u8]);
}

/// Decides what to do with `command`, reading the registry and the table.
///
/// A name or an id that matches nothing is no error: the answer is then an
/// empty frame. The answer to `HandleEvent` is always an empty frame; the
/// phase runs only on an instance whose kind declares it.
pub fn plan_call<F, P>(command: &Option<Command>, reg: &Registry<F>, table: &InstanceTable<P>) -> (r:
    Result<Step, ProtocolError>)
    requires
        reg.wf(),
        table.wf(),
    ensures
        command matches Some(c) && is_miss(c@, reg.view_entries(), table.view_entries()) ==> r
            matches Ok(Step::Reply(None)),
        match command {
            None => r matches Ok(Step::Reply(None)),
            Some(Command::GetPluginNames) => r matches Ok(Step::Reply(Some(ReturnValue::PluginNames(names))))
                && names@.len() == reg.view_entries().len() && forall|k: int|
                0 <= k < names@.len() ==> #[trigger] names@[k]@ == reg.view_entries()[k].info.name@,
            Some(Command::GetPluginInfo { name }) => match index_named(reg.view_entries(), name@) {
                Some(i) => r matches Ok(Step::Reply(Some(ReturnValue::PluginInfo(m)))) && info_of(
                    m,
                    reg.view_entries()[i],
                ),
                None => r matches Ok(Step::Reply(None)),
            },
            Some(Command::StartInstance { name, config }) => match start_factory(
                reg.view_entries(),
                name@,
            ) {
                None => r matches Ok(Step::Reply(None)),
                Some(i) => if vstd::utf8::valid_utf8(config@) {
                    r matches Ok(Step::Start { factory, config: text }) && factory == i && text@
                        == vstd::utf8::decode_utf8(config@)
                } else {
                    r == Err::<Step, ProtocolError>(ProtocolError::ConfigNotUtf8)
                },
            },
            Some(Command::GetInstanceStatus { instance_id }) => match index_of_id(
                table.view_entries(),
                *instance_id,
            ) {
                Some(i) => r matches Ok(Step::Reply(Some(ReturnValue::InstanceStatus(s))))
                    && status_of(s, table.view_entries()[i]),
                None => r matches Ok(Step::Reply(None)),
            },
            Some(Command::CloseInstance { instance_id }) => match index_of_id(
                table.view_entries(),
                *instance_id,
            ) {
                Some(_) => r matches Ok(Step::Close { instance_id: id }) && id == *instance_id,
                None => r matches Ok(Step::Reply(None)),
            },
            Some(Command::HandleEvent { instance_id, event_name }) => match phase_named(
                event_name@,
            ) {
                None => r == Err::<Step, ProtocolError>(ProtocolError::UnknownPhase),
                Some(p) => match index_of_id(table.view_entries(), *instance_id) {
                    Some(i) => if table.view_entries()[i].phases@.contains(p) {
                        r matches Ok(Step::Invoke { instance_id: id, phase }) && id == *instance_id
                            && phase == p
                    } else {
                        r matches Ok(Step::Reply(None))
                    },
                    None => r matches Ok(Step::Reply(None)),
                },
            },
        },
{
    match command {
        None => Ok(Step::Reply(None)),
        Some(Command::GetPluginNames) => Ok(Step::Reply(Some(ReturnValue::PluginNames(reg.names())))),
        Some(Command::GetPluginInfo { name }) => match reg.lookup(name) {
            Some(i) => Ok(Step::Reply(Some(ReturnValue::PluginInfo(plugin_info_message(reg.entry(i)))))),
            None => Ok(Step::Reply(None)),
        },
        Some(Command::StartInstance { name, config }) => match reg.factory_for(name) {
            None => Ok(Step::Reply(None)),
            Some(i) => match config_text(config) {
                Some(text) => Ok(Step::Start { factory: i, config: text }),
                None => Err(ProtocolError::ConfigNotUtf8),
            },
        },
        Some(Command::GetInstanceStatus { instance_id }) => match table.status(*instance_id) {
            Some(s) => Ok(Step::Reply(Some(ReturnValue::InstanceStatus(s)))),
            None => Ok(Step::Reply(None)),
        },
        Some(Command::CloseInstance { instance_id }) => match table.find(*instance_id) {
            Some(_) => Ok(Step::Close { instance_id: *instance_id }),
            None => Ok(Step::Reply(None)),
        },
        Some(Command::HandleEvent { instance_id, event_name }) => match Phase::from_name(
            event_name.as_str(),
        ) {
            None => Err(ProtocolError::UnknownPhase),
            Some(p) => match table.find(*instance_id) {
                Some(i) => {
                    let inst = table.entry(i);
                    let mut declared = false;
                    let mut k: usize = 0;
                    while k < inst.phases.len()
                        invariant
                            k <= inst.phases@.len(),
                            !declared ==> forall|j: int| 0 <= j < k ==> inst.phases@[j] != p,
                            declared ==> inst.phases@.contains(p),
                        decreases inst.phases@.len() - k,
                    {
                        if inst.phases[k] == p {
                            declared = true;
                        }
                        k = k + 1;
                    }
                    if declared {
                        Ok(Step::Invoke { instance_id: *instance_id, phase: p })
                    } else {
                        Ok(Step::Reply(None))
                    }
                },
                None => Ok(Step::Reply(None)),
            },
        },
    }
}

/// Records the plugin that the factory at `factory` made as instance `id`,
/// started at `now`, and gives its status record; when `id` is taken the
/// table stays as it is and the plugin comes back.
pub fn start_instance<F, P>(
    reg: &Registry<F>,
    factory: usize,
    table: &mut InstanceTable<P>,
    id: i32,
    now: i64,
    plugin: P,
) -> (r: Result<InstanceStatus, P>)
    requires
        factory < reg.view_entries().len(),
        old(table).wf(),
    ensures
        final(table).wf(),
        index_of_id(old(table).view_entries(), id) is None <==> r is Ok,
        r matches Ok(s) ==> {
            let inst = final(table).view_entries().last();
            &&& final(table).view_entries() == old(table).view_entries().push(inst)
            &&& inst.id == id && inst.started_at == now && inst.plugin == plugin
            &&& inst.name@ == reg.view_entries()[factory as int].info.name@
            &&& inst.phases@ == reg.view_entries()[factory as int].info.phases@
            &&& status_of(s, inst)
        },
        r matches Err(back) ==> back == plugin && final(table).view_entries() == old(
            table,
        ).view_entries(),
{
    let info = &reg.entry(factory).info;
    let inst = Instance {
        id,
        started_at: now,
        name: info.name.clone(),
        phases: info.phases.clone(),
        plugin,
    };
    let status = InstanceStatus { name: info.name.clone(), instance_id: id, started_at: now };
    match table.insert(inst) {
        Ok(()) => Ok(status),
        Err(back) => Err(back.plugin),
    }
}

/// The frame that answers a call: the return that carries `value` under the
/// call's sequence number, or an empty frame when there is no value.
pub fn reply_frame(sequence: i64, value: Option<ReturnValue>) -> (r: Result<Vec<u8>, FrameError>)
    ensures
        match value {
            None => r matches Ok(v) && v@ == frame_bytes(Seq::<u8>::empty()),
            Some(x) => {
                let body = return_bytes(RpcReturn { sequence, value: x });
                &&& body.len() <= u32::MAX <==> r is Ok
                &&& r matches Ok(v) ==> v@ == frame_bytes(body)
            },
        },
{
    match value {
        None => {
            let empty: Vec<u8> = Vec::new();
            encode_frame(empty.as_slice())
        },
        Some(x) => {
            let ret = RpcReturn { sequence, value: x };
            let body = encode_return(&ret);
            encode_frame(body.as_slice())
        },
    }
}

} // verus!
