//! The decisions of an interposing layer: which commands it answers
//! itself, where the others are forwarded, and the life of the registration
//! record of each instance and device it has seen created.
//!
//! The foreign calls themselves (the next layer's create and destroy, the
//! proc-address lookups, the intercepted commands' real functions) are made
//! by the caller, which hands the outcomes back here.

use vstd::prelude::*;
use vstd::string::StringSliceAdditionalSpecFns;
use vstd::string::is_ascii_spec_bytes;
use crate::chain::{input_chain, input_ptrs, lemma_walk_follows_links, walk, valid_ptr, Chain, ChainBody, ChainNode};
use crate::codes::{RawResult, StructureType, LOADER_DEVICE_CREATE_INFO, LOADER_INSTANCE_CREATE_INFO, SUCCESS, ERROR_INITIALIZATION_FAILED};
use crate::commands::{built_from, first_present, CommandSpec, CommandTable};
use crate::layer_info::{LayerDeviceCreateInfo, LayerDeviceLink, LayerInstanceCreateInfo, LayerInstanceLink};
use crate::registry::DispatchRegistry;
use crate::strings::slices_equal;

verus! {

/// A command that the layer answers with its own implementation.
#[derive(Copy, Clone, Debug, PartialEq, Eq, Structural, Hash)]
pub enum Hook {
    GetInstanceProcAddr,
    CreateInstance,
    DestroyInstance,
    CreateDevice,
    DestroyDevice,
    GetDeviceProcAddr,
    BeginCommandBuffer,
    EndCommandBuffer,
    CmdDraw,
    CmdDrawIndexed,
}

/// The command name of a hook.
pub open spec fn hook_name(h: Hook) -> Seq<u8> {
    match h {
        Hook::GetInstanceProcAddr => "vkGetInstanceProcAddr".spec_bytes(),
        Hook::CreateInstance => "vkCreateInstance".spec_bytes(),
        Hook::DestroyInstance => "vkDestroyInstance".spec_bytes(),
        Hook::CreateDevice => "vkCreateDevice".spec_bytes(),
        Hook::DestroyDevice => "vkDestroyDevice".spec_bytes(),
        Hook::GetDeviceProcAddr => "vkGetDeviceProcAddr".spec_bytes(),
        Hook::BeginCommandBuffer => "vkBeginCommandBuffer".spec_bytes(),
        Hook::EndCommandBuffer => "vkEndCommandBuffer".spec_bytes(),
        Hook::CmdDraw => "vkCmdDraw".spec_bytes(),
        Hook::CmdDrawIndexed => "vkCmdDrawIndexed".spec_bytes(),
    }
}

impl Hook {
    /// The command name of this hook.
    pub fn name(self) -> (r: &'static str)
        ensures
            r.spec_bytes() == hook_name(self),
    {
        match self {
            Hook::GetInstanceProcAddr => "vkGetInstanceProcAddr",
            Hook::CreateInstance => "vkCreateInstance",
            Hook::DestroyInstance => "vkDestroyInstance",
            Hook::CreateDevice => "vkCreateDevice",
            Hook::DestroyDevice => "vkDestroyDevice",
            Hook::GetDeviceProcAddr => "vkGetDeviceProcAddr",
            Hook::BeginCommandBuffer => "vkBeginCommandBuffer",
            Hook::EndCommandBuffer => "vkEndCommandBuffer",
            Hook::CmdDraw => "vkCmdDraw",
            Hook::CmdDrawIndexed => "vkCmdDrawIndexed",
        }
    }
}

/// The hooks the layer answers at instance level.
pub open spec fn is_instance_hook(h: Hook) -> bool {
    h is GetInstanceProcAddr || h is CreateInstance || h is DestroyInstance || h is CreateDevice
        || h is DestroyDevice
}

/// The hooks the layer answers at device level.
pub open spec fn is_device_hook(h: Hook) -> bool {
    h is GetDeviceProcAddr || h is CreateDevice || h is DestroyDevice || h is BeginCommandBuffer
        || h is EndCommandBuffer || h is CmdDraw || h is CmdDrawIndexed
}

/// The instance-level hook called `name`, if any.
pub open spec fn instance_hook_of(name: Seq<u8>) -> Option<Hook> {
    if exists|h: Hook| is_instance_hook(h) && hook_name(h) == name {
        Some(choose|h: Hook| is_instance_hook(h) && hook_name(h) == name)
    } else {
        None
    }
}

/// The device-level hook called `name`, if any.
pub open spec fn device_hook_of(name: Seq<u8>) -> Option<Hook> {
    if exists|h: Hook| is_device_hook(h) && hook_name(h) == name {
        Some(choose|h: Hook| is_device_hook(h) && hook_name(h) == name)
    } else {
        None
    }
}

/// Whether `name` is the name of `h`.
fn named(name: &[u8], h: Hook) -> (r: bool)
    ensures
        r == (name@ == hook_name(h)),
{
    slices_equal(name, h.name().as_bytes())
}

/// The instance-level hook called `name`, if any.
pub fn instance_hook(name: &[u8]) -> (r: Option<Hook>)
    ensures
        r matches Some(h) ==> is_instance_hook(h) && hook_name(h) == name@,
        r is None ==> instance_hook_of(name@) is None,
{
    if named(name, Hook::GetInstanceProcAddr) {
        Some(Hook::GetInstanceProcAddr)
    } else if named(name, Hook::CreateInstance) {
        Some(Hook::CreateInstance)
    } else if named(name, Hook::DestroyInstance) {
        Some(Hook::DestroyInstance)
    } else if named(name, Hook::CreateDevice) {
        Some(Hook::CreateDevice)
    } else if named(name, Hook::DestroyDevice) {
        Some(Hook::DestroyDevice)
    } else {
        None
    }
}

/// The device-level hook called `name`, if any.
pub fn device_hook(name: &[u8]) -> (r: Option<Hook>)
    ensures
        r matches Some(h) ==> is_device_hook(h) && hook_name(h) == name@,
        r is None ==> device_hook_of(name@) is None,
{
    if named(name, Hook::GetDeviceProcAddr) {
        Some(Hook::GetDeviceProcAddr)
    } else if named(name, Hook::CreateDevice) {
        Some(Hook::CreateDevice)
    } else if named(name, Hook::DestroyDevice) {
        Some(Hook::DestroyDevice)
    } else if named(name, Hook::BeginCommandBuffer) {
        Some(Hook::BeginCommandBuffer)
    } else if named(name, Hook::EndCommandBuffer) {
        Some(Hook::EndCommandBuffer)
    } else if named(name, Hook::CmdDraw) {
        Some(Hook::CmdDraw)
    } else if named(name, Hook::CmdDrawIndexed) {
        Some(Hook::CmdDrawIndexed)
    } else {
        None
    }
}

/// Where a proc-address lookup is answered.
#[derive(Copy, Clone, Debug, PartialEq, Eq, Structural)]
pub enum ProcAddr {
    /// By the layer's own implementation of this command.
    Own(Hook),
    /// By calling the next layer's proc-address function at this address
    /// with the same arguments.
    Next(usize),
}

/// The next-layer link that node `i` carries at instance level, if any.
pub open spec fn instance_link_at(nodes: Seq<ChainNode>, i: usize) -> Option<LayerInstanceLink> {
    match nodes[i as int].body {
        ChainBody::LayerInstance(info) => info.spec_link(),
        _ => None,
    }
}

/// The next-layer link that node `i` carries at device level, if any.
pub open spec fn device_link_at(nodes: Seq<ChainNode>, i: usize) -> Option<LayerDeviceLink> {
    match nodes[i as int].body {
        ChainBody::LayerDevice(info) => info.spec_link(),
        _ => None,
    }
}

/// The first instance-level link along the visited nodes `w`.
pub open spec fn first_instance_link(nodes: Seq<ChainNode>, w: Seq<usize>) -> Option<LayerInstanceLink>
    decreases w.len(),
{
    if w.len() == 0 {
        None
    } else if instance_link_at(nodes, w[0]) is Some {
        instance_link_at(nodes, w[0])
    } else {
        first_instance_link(nodes, w.drop_first())
    }
}

/// The first device-level link along the visited nodes `w`.
pub open spec fn first_device_link(nodes: Seq<ChainNode>, w: Seq<usize>) -> Option<LayerDeviceLink>
    decreases w.len(),
{
    if w.len() == 0 {
        None
    } else if device_link_at(nodes, w[0]) is Some {
        device_link_at(nodes, w[0])
    } else {
        first_device_link(nodes, w.drop_first())
    }
}

/// Finds, in the input chain from `head`, the first loader node for layers
/// that carries the link to the next layer at instance level.
pub fn find_instance_link(chain: &Chain, head: Option<usize>) -> (r: Option<LayerInstanceLink>)
    requires
        valid_ptr(chain.view(), head),
    ensures
        r == first_instance_link(chain.view(), walk(chain.view(), head)),
{
    let ptrs = input_chain(chain, head);
    let ghost w = walk(chain.view(), head);
    proof {
        lemma_walk_follows_links(chain.view(), head);
        assert(w.subrange(0, w.len() as int) =~= w);
    }
    let mut k: usize = 0;
    while k < ptrs.len()
        invariant
            w == walk(chain.view(), head),
            ptrs@ == input_ptrs(w),
            k <= w.len(),
            forall|j: int| 0 <= j < w.len() ==> w[j] < chain.view().len(),
            first_instance_link(chain.view(), w) == first_instance_link(chain.view(), w.subrange(k as int, w.len() as int)),
        decreases ptrs.len() - k,
    {
        let p = ptrs[k];
        proof {
            let s = w.subrange(k as int, w.len() as int);
            assert(s[0] == w[k as int]);
            assert(s.drop_first() =~= w.subrange(k + 1, w.len() as int));
            assert(p == input_ptrs(w)[k as int]);
            assert(p.index == w[k as int]);
        }
        if p.peek_tag(chain) == (StructureType(LOADER_INSTANCE_CREATE_INFO)) {
            let info: LayerInstanceCreateInfo = p.as_ref(chain);
            let link = info.link();
            proof {
                assert(chain.view()[p.index as int].body == ChainBody::LayerInstance(info));
                assert(instance_link_at(chain.view(), w[k as int]) == link);
                let s = w.subrange(k as int, w.len() as int);
                assert(s.len() > 0);
            }
            if link.is_some() {
                proof {
                    let s = w.subrange(k as int, w.len() as int);
                    assert(instance_link_at(chain.view(), s[0]) is Some);
                    assert(first_instance_link(chain.view(), s) == link);
                    assert(first_instance_link(chain.view(), w) == link);
                }
                return link;
            }
        }
        k += 1;
    }
    None
}

/// Finds, in the input chain from `head`, the first loader node for layers
/// that carries the link to the next layer at device level.
pub fn find_device_link(chain: &Chain, head: Option<usize>) -> (r: Option<LayerDeviceLink>)
    requires
        valid_ptr(chain.view(), head),
    ensures
        r == first_device_link(chain.view(), walk(chain.view(), head)),
{
    let ptrs = input_chain(chain, head);
    let ghost w = walk(chain.view(), head);
    proof {
        lemma_walk_follows_links(chain.view(), head);
        assert(w.subrange(0, w.len() as int) =~= w);
    }
    let mut k: usize = 0;
    while k < ptrs.len()
        invariant
            w == walk(chain.view(), head),
            ptrs@ == input_ptrs(w),
            k <= w.len(),
            forall|j: int| 0 <= j < w.len() ==> w[j] < chain.view().len(),
            first_device_link(chain.view(), w) == first_device_link(chain.view(), w.subrange(k as int, w.len() as int)),
        decreases ptrs.len() - k,
    {
        let p = ptrs[k];
        proof {
            let s = w.subrange(k as int, w.len() as int);
            assert(s[0] == w[k as int]);
            assert(s.drop_first() =~= w.subrange(k + 1, w.len() as int));
            assert(p == input_ptrs(w)[k as int]);
            assert(p.index == w[k as int]);
        }
        if p.peek_tag(chain) == (StructureType(LOADER_DEVICE_CREATE_INFO)) {
            let info: LayerDeviceCreateInfo = p.as_ref(chain);
            let link = info.link();
            proof {
                assert(chain.view()[p.index as int].body == ChainBody::LayerDevice(info));
                assert(device_link_at(chain.view(), w[k as int]) == link);
                let s = w.subrange(k as int, w.len() as int);
                assert(s.len() > 0);
            }
            if link.is_some() {
                proof {
                    let s = w.subrange(k as int, w.len() as int);
                    assert(device_link_at(chain.view(), s[0]) is Some);
                    assert(first_device_link(chain.view(), s) == link);
                    assert(first_device_link(chain.view(), w) == link);
                }
                return link;
            }
        }
        k += 1;
    }
    None
}

/// A proc-address lookup to make: ask the function at `proc`, for
/// `handle` (zero for null), for the command `name`.
#[derive(Copy, Clone, Debug)]
pub struct Lookup {
    pub proc: usize,
    pub handle: u64,
    pub name: &'static str,
}

/// Where the next layer's instance-creation function is found: from its
/// instance-level proc-address function, with a null instance.
pub fn create_instance_lookup(link: LayerInstanceLink) -> (r: Lookup)
    ensures
        r.proc == link.next_get_instance_proc_addr,
        r.handle == 0,
        r.name.spec_bytes() == hook_name(Hook::CreateInstance),
{
    Lookup { proc: link.next_get_instance_proc_addr, handle: 0, name: Hook::CreateInstance.name() }
}

/// Where the next layer's device-creation function is found. No
/// device-level dispatch exists before the device does, so it comes from
/// the instance-level proc-address function, with a null instance.
pub fn create_device_lookup(link: LayerDeviceLink) -> (r: Lookup)
    ensures
        r.proc == link.next_get_instance_proc_addr,
        r.handle == 0,
        r.name.spec_bytes() == hook_name(Hook::CreateDevice),
{
    Lookup { proc: link.next_get_instance_proc_addr, handle: 0, name: Hook::CreateDevice.name() }
}

/// Where the next layer's destroy function for an instance it created is
/// found, when this layer could not take the instance on.
pub fn destroy_instance_lookup(link: LayerInstanceLink, handle: u64) -> (r: Lookup)
    ensures
        r.proc == link.next_get_instance_proc_addr,
        r.handle == handle,
        r.name.spec_bytes() == hook_name(Hook::DestroyInstance),
{
    Lookup { proc: link.next_get_instance_proc_addr, handle, name: Hook::DestroyInstance.name() }
}

/// Where the next layer's destroy function for a device it created is
/// found, when this layer could not take the device on.
pub fn destroy_device_lookup(link: LayerDeviceLink, handle: u64) -> (r: Lookup)
    ensures
        r.proc == link.next_get_device_proc_addr,
        r.handle == handle,
        r.name.spec_bytes() == hook_name(Hook::DestroyDevice),
{
    Lookup { proc: link.next_get_device_proc_addr, handle, name: Hook::DestroyDevice.name() }
}

/// What the layer keeps of an instance it saw created.
#[derive(Debug)]
pub struct InstanceRecord {
    pub handle: u64,
    /// How to reach the next layer.
    pub next: LayerInstanceLink,
    /// The next layer's instance-level commands.
    pub commands: CommandTable,
}

/// What the layer keeps of a device it saw created.
#[derive(Debug)]
pub struct DeviceRecord {
    pub handle: u64,
    /// How to reach the next layer.
    pub next: LayerDeviceLink,
    /// The next layer's device-level commands.
    pub commands: CommandTable,
}

/// Whether `t` was built from `schema` by a loader: some addresses that the
/// loader can return give exactly `t`.
pub open spec fn loaded_by<F: Fn(&Vec<u8>) -> usize>(schema: Seq<CommandSpec>, load: F, t: CommandTable) -> bool {
    exists|addrs: Seq<usize>|
        {
            &&& addrs.len() == schema.len()
            &&& forall|i: int| 0 <= i < schema.len() ==> load.ensures((&schema[i].name,), #[trigger] addrs[i])
            &&& built_from(schema, addrs, Ok(t))
        }
}

/// Whether no table of `schema` can come from the loader.
pub open spec fn load_fails<F: Fn(&Vec<u8>) -> usize>(schema: Seq<CommandSpec>, load: F) -> bool {
    exists|addrs: Seq<usize>, e: crate::loader::LoaderError|
        {
            &&& addrs.len() == schema.len()
            &&& forall|i: int| 0 <= i < schema.len() ==> load.ensures((&schema[i].name,), #[trigger] addrs[i])
            &&& built_from(schema, addrs, Err(e))
        }
}

/// The registrations of a layer: one record per live instance and device,
/// by dispatch key.
pub struct Layer {
    instances: DispatchRegistry<InstanceRecord>,
    devices: DispatchRegistry<DeviceRecord>,
}

impl Layer {
    pub closed spec fn instances(&self) -> Map<u64, InstanceRecord> {
        self.instances.view()
    }

    pub closed spec fn devices(&self) -> Map<u64, DeviceRecord> {
        self.devices.view()
    }

    /// A layer that has seen nothing created.
    pub fn new() -> (r: Self)
        ensures
            r.instances() == Map::<u64, InstanceRecord>::empty(),
            r.devices() == Map::<u64, DeviceRecord>::empty(),
    {
        Layer { instances: DispatchRegistry::new(), devices: DispatchRegistry::new() }
    }

    /// Whether an instance is registered under `key`.
    pub fn has_instance(&self, key: u64) -> (r: bool)
        ensures
            r == self.instances().contains_key(key),
    {
        self.instances.contains(key)
    }

    /// Whether a device is registered under `key`.
    pub fn has_device(&self, key: u64) -> (r: bool)
        ensures
            r == self.devices().contains_key(key),
    {
        self.devices.contains(key)
    }

    /// The instance record under `key`, if any.
    pub fn instance(&self, key: u64) -> (r: Option<&InstanceRecord>)
        ensures
            r is Some <==> self.instances().contains_key(key),
            r matches Some(p) ==> *p == self.instances()[key],
    {
        self.instances.lookup(key)
    }

    /// The device record under `key`, if any.
    pub fn device(&self, key: u64) -> (r: Option<&DeviceRecord>)
        ensures
            r is Some <==> self.devices().contains_key(key),
            r matches Some(p) ==> *p == self.devices()[key],
    {
        self.devices.lookup(key)
    }

    /// Answers an instance-level proc-address lookup: an intercepted
    /// command is answered by the layer, any other is forwarded to the next
    /// layer recorded for the instance. The instance must be registered
    /// unless the command is intercepted.
    pub fn instance_proc_addr(&self, key: u64, name: &[u8]) -> (r: ProcAddr)
        requires
            instance_hook_of(name@) is Some || self.instances().contains_key(key),
        ensures
            instance_hook_of(name@) matches Some(h) ==> r == ProcAddr::Own(h),
            instance_hook_of(name@) is None ==> r == ProcAddr::Next(
                self.instances()[key].next.next_get_instance_proc_addr,
            ),
    {
        match instance_hook(name) {
            Some(h) => {
                proof {
                    lemma_instance_hook_unique(h, name@);
                }
                ProcAddr::Own(h)
            },
            None => {
                let rec = self.instances.lookup(key).unwrap();
                ProcAddr::Next(rec.next.next_get_instance_proc_addr)
            },
        }
    }

    /// Answers a device-level proc-address lookup: an intercepted command is
    /// answered by the layer, any other is forwarded to the next layer
    /// recorded for the device. The device must be registered unless the
    /// command is intercepted.
    pub fn device_proc_addr(&self, key: u64, name: &[u8]) -> (r: ProcAddr)
        requires
            device_hook_of(name@) is Some || self.devices().contains_key(key),
        ensures
            device_hook_of(name@) matches Some(h) ==> r == ProcAddr::Own(h),
            device_hook_of(name@) is None ==> r == ProcAddr::Next(
                self.devices()[key].next.next_get_device_proc_addr,
            ),
    {
        match device_hook(name) {
            Some(h) => {
                proof {
                    lemma_device_hook_unique(h, name@);
                }
                ProcAddr::Own(h)
            },
            None => {
                let rec = self.devices.lookup(key).unwrap();
                ProcAddr::Next(rec.next.next_get_device_proc_addr)
            },
        }
    }

    /// Takes the outcome of the next layer's instance creation.
    ///
    /// A failure is handed back unchanged and nothing is registered. On
    /// success the instance's command table is loaded through `load` and
    /// the record is registered under `key`; if a mandatory command is
    /// missing nothing is registered and initialization failure is returned.
    pub fn instance_created<F: Fn(&Vec<u8>) -> usize>(
        &mut self,
        result: RawResult,
        key: u64,
        handle: u64,
        next: LayerInstanceLink,
        schema: &Vec<CommandSpec>,
        load: &F,
    ) -> (r: RawResult)
        requires
            forall|i: int| 0 <= i < schema@.len() ==> load.requires((&schema@[i].name,)),
        ensures
            result.0 != SUCCESS ==> r == result && final(self).instances() == old(self).instances(),
            result.0 == SUCCESS ==> {
                ||| {
                    &&& r.0 == SUCCESS
                    &&& final(self).instances().dom() == old(self).instances().dom().insert(key)
                    &&& final(self).instances().remove(key) == old(self).instances().remove(key)
                    &&& final(self).instances()[key].handle == handle
                    &&& final(self).instances()[key].next == next
                    &&& loaded_by(schema@, *load, final(self).instances()[key].commands)
                }
                ||| {
                    &&& r.0 == ERROR_INITIALIZATION_FAILED
                    &&& final(self).instances() == old(self).instances()
                    &&& load_fails(schema@, *load)
                }
            },
            final(self).devices() == old(self).devices(),
    {
        if result.0 != SUCCESS {
            return result;
        }
        match CommandTable::load(schema, load) {
            Ok(commands) => {
                let ghost t = commands;
                self.instances.register(key, InstanceRecord { handle, next, commands });
                proof {
                    assert(self.instances().remove(key) =~= old(self).instances().remove(key));
                    assert(self.instances().dom() =~= old(self).instances().dom().insert(key));
                    assert(self.instances()[key].commands == t);
                }
                RawResult(SUCCESS)
            },
            Err(_) => RawResult(ERROR_INITIALIZATION_FAILED),
        }
    }

    /// Takes the outcome of the next layer's device creation; see
    /// `instance_created`.
    pub fn device_created<F: Fn(&Vec<u8>) -> usize>(
        &mut self,
        result: RawResult,
        key: u64,
        handle: u64,
        next: LayerDeviceLink,
        schema: &Vec<CommandSpec>,
        load: &F,
    ) -> (r: RawResult)
        requires
            forall|i: int| 0 <= i < schema@.len() ==> load.requires((&schema@[i].name,)),
        ensures
            result.0 != SUCCESS ==> r == result && final(self).devices() == old(self).devices(),
            result.0 == SUCCESS ==> {
                ||| {
                    &&& r.0 == SUCCESS
                    &&& final(self).devices().dom() == old(self).devices().dom().insert(key)
                    &&& final(self).devices().remove(key) == old(self).devices().remove(key)
                    &&& final(self).devices()[key].handle == handle
                    &&& final(self).devices()[key].next == next
                    &&& loaded_by(schema@, *load, final(self).devices()[key].commands)
                }
                ||| {
                    &&& r.0 == ERROR_INITIALIZATION_FAILED
                    &&& final(self).devices() == old(self).devices()
                    &&& load_fails(schema@, *load)
                }
            },
            final(self).instances() == old(self).instances(),
    {
        if result.0 != SUCCESS {
            return result;
        }
        match CommandTable::load(schema, load) {
            Ok(commands) => {
                let ghost t = commands;
                self.devices.register(key, DeviceRecord { handle, next, commands });
                proof {
                    assert(self.devices().remove(key) =~= old(self).devices().remove(key));
                    assert(self.devices().dom() =~= old(self).devices().dom().insert(key));
                    assert(self.devices()[key].commands == t);
                }
                RawResult(SUCCESS)
            },
            Err(_) => RawResult(ERROR_INITIALIZATION_FAILED),
        }
    }

    /// Deregisters the instance under `key` and hands back its record, whose
    /// table the destroy call is forwarded through.
    pub fn instance_destroyed(&mut self, key: u64) -> (r: Option<InstanceRecord>)
        ensures
            final(self).instances() == old(self).instances().remove(key),
            final(self).devices() == old(self).devices(),
            r is Some <==> old(self).instances().contains_key(key),
            r matches Some(rec) ==> rec == old(self).instances()[key],
    {
        self.instances.deregister(key)
    }

    /// Deregisters the device under `key` and hands back its record, whose
    /// table the destroy call is forwarded through.
    pub fn device_destroyed(&mut self, key: u64) -> (r: Option<DeviceRecord>)
        ensures
            final(self).devices() == old(self).devices().remove(key),
            final(self).instances() == old(self).instances(),
            r is Some <==> old(self).devices().contains_key(key),
            r matches Some(rec) ==> rec == old(self).devices()[key],
    {
        self.devices.deregister(key)
    }

    /// The real function behind an intercepted device command: the next
    /// layer's entry for it in the device's table.
    pub fn real_function(&self, key: u64, hook: Hook) -> (r: Option<usize>)
        requires
            self.devices().contains_key(key),
        ensures
            r == first_present(
                self.devices()[key].commands.names(),
                self.devices()[key].commands.entries(),
                hook_name(hook),
            ),
    {
        let rec = self.devices.lookup(key).unwrap();
        rec.commands.get(hook.name().as_bytes())
    }

    /// Runs an intercepted device command: looks up the device's record,
    /// runs the layer's side effect once, then calls the real function and
    /// hands its result back unchanged. `None` when the next layer has no
    /// such function; the side effect has then not run.
    pub fn intercept<E: Fn(Hook), C: Fn(usize) -> i32>(
        &self,
        key: u64,
        hook: Hook,
        effect: &E,
        call: &C,
    ) -> (r: Option<i32>)
        requires
            self.devices().contains_key(key),
            effect.requires((hook,)),
            forall|a: usize| call.requires((a,)),
        ensures
            ({
                let target = first_present(
                    self.devices()[key].commands.names(),
                    self.devices()[key].commands.entries(),
                    hook_name(hook),
                );
                &&& r is Some <==> target is Some
                &&& r is Some ==> effect.ensures((hook,), ())
                &&& r matches Some(v) ==> call.ensures((target->0,), v)
            }),
    {
        match self.real_function(key, hook) {
            Some(addr) => {
                effect(hook);
                Some(call(addr))
            },
            None => None,
        }
    }
}

/// Distinct hooks of one level have distinct names.
proof fn lemma_instance_hook_unique(h: Hook, name: Seq<u8>)
    requires
        is_instance_hook(h),
        hook_name(h) == name,
    ensures
        instance_hook_of(name) == Some(h),
{
    lemma_hook_names_distinct();
}

proof fn lemma_device_hook_unique(h: Hook, name: Seq<u8>)
    requires
        is_device_hook(h),
        hook_name(h) == name,
    ensures
        device_hook_of(name) == Some(h),
{
    lemma_hook_names_distinct();
}

proof fn lemma_hook_names_distinct()
    ensures
        forall|a: Hook, b: Hook| hook_name(a) == hook_name(b) ==> a == b,
{
    broadcast use is_ascii_spec_bytes;

    reveal_strlit("vkGetInstanceProcAddr");
    assert(vstd::string::is_ascii("vkGetInstanceProcAddr"));
    assert("vkGetInstanceProcAddr".spec_bytes().len() == 21);
    reveal_strlit("vkCreateInstance");
    assert(vstd::string::is_ascii("vkCreateInstance"));
    assert("vkCreateInstance".spec_bytes().len() == 16);
    reveal_strlit("vkDestroyInstance");
    assert(vstd::string::is_ascii("vkDestroyInstance"));
    assert("vkDestroyInstance".spec_bytes().len() == 17);
    reveal_strlit("vkCreateDevice");
    assert(vstd::string::is_ascii("vkCreateDevice"));
    assert("vkCreateDevice".spec_bytes().len() == 14);
    reveal_strlit("vkDestroyDevice");
    assert(vstd::string::is_ascii("vkDestroyDevice"));
    assert("vkDestroyDevice".spec_bytes().len() == 15);
    reveal_strlit("vkGetDeviceProcAddr");
    assert(vstd::string::is_ascii("vkGetDeviceProcAddr"));
    assert("vkGetDeviceProcAddr".spec_bytes().len() == 19);
    reveal_strlit("vkBeginCommandBuffer");
    assert(vstd::string::is_ascii("vkBeginCommandBuffer"));
    assert("vkBeginCommandBuffer".spec_bytes().len() == 20);
    reveal_strlit("vkEndCommandBuffer");
    assert(vstd::string::is_ascii("vkEndCommandBuffer"));
    assert("vkEndCommandBuffer".spec_bytes().len() == 18);
    reveal_strlit("vkCmdDraw");
    assert(vstd::string::is_ascii("vkCmdDraw"));
    assert("vkCmdDraw".spec_bytes().len() == 9);
    reveal_strlit("vkCmdDrawIndexed");
    assert(vstd::string::is_ascii("vkCmdDrawIndexed"));
    assert("vkCmdDrawIndexed".spec_bytes().len() == 16);
    assert("vkCreateInstance".spec_bytes()[3] != "vkCmdDrawIndexed".spec_bytes()[3]);
}

} // verus!
