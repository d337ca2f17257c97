//! The entry point and the instance and device objects built from it.
//!
//! Each object owns the table of commands of its level and the names that
//! were enabled when it was created. The native calls that create objects
//! are made by the caller; their outcomes, and a `call` that asks a
//! proc-address function for a name, are handed in.

use vstd::prelude::*;
use vstd::string::StringSliceAdditionalSpecFns;
use crate::codes::{ErrorCode, RawResult, SUCCESS};
use crate::commands::{
    built_from, device_schema, entry_schema, instance_schema, is_device_schema, is_entry_schema,
    is_instance_schema, load_via, resolved_via, CommandSpec, CommandTable,
};
use crate::loader::{Loader, LoaderError};
use crate::names::{get_names, raw_texts, NameSet};
use crate::version::{major_of, minor_of, patch_of, Version};

verus! {

/// What an instance or device is created with, as far as this library
/// reads it: its enabled names.
///
/// A name array holds at least as many entries as its count says.
#[derive(Clone, Debug)]
pub struct CreateInfo {
    pub enabled_layer_count: u32,
    pub enabled_layer_names: Option<Vec<Vec<u8>>>,
    pub enabled_extension_count: u32,
    pub enabled_extension_names: Option<Vec<Vec<u8>>>,
}

impl CreateInfo {
    pub open spec fn well_formed(&self) -> bool {
        &&& self.enabled_layer_names matches Some(v) ==> self.enabled_layer_count <= v@.len()
        &&& self.enabled_extension_names matches Some(v) ==> self.enabled_extension_count <= v@.len()
    }
}

/// The names that a create info enables, as a set of texts.
pub open spec fn enabled(names: Option<Vec<Vec<u8>>>, count: u32) -> Set<Seq<u8>> {
    match names {
        Some(v) => raw_texts(v@, count as nat),
        None => Set::empty(),
    }
}

/// Whether `f` answers a foreign proc-address call for any arguments.
pub open spec fn total_call<F: Fn(usize, u64, &Vec<u8>) -> usize>(f: F) -> bool {
    forall|p: usize, h: u64, n: &Vec<u8>| f.requires((p, h, n))
}

/// Whether `t` is a table of `schema` that `call` can give through `proc`
/// for `handle`.
pub open spec fn table_via<F: Fn(usize, u64, &Vec<u8>) -> usize>(
    schema: Seq<CommandSpec>,
    call: F,
    proc: usize,
    handle: u64,
    t: CommandTable,
) -> bool {
    exists|addrs: Seq<usize>| resolved_via(schema, call, proc, handle, addrs) && built_from(schema, addrs, Ok(t))
}

/// Whether some answers that `call` can give through `proc` for `handle`
/// leave a mandatory command of `schema` null.
pub open spec fn table_fails_via<F: Fn(usize, u64, &Vec<u8>) -> usize>(
    schema: Seq<CommandSpec>,
    call: F,
    proc: usize,
    handle: u64,
) -> bool {
    exists|addrs: Seq<usize>, e: LoaderError| resolved_via(schema, call, proc, handle, addrs) && built_from(schema, addrs, Err(e))
}

/// The name of the global proc-address function.
pub open spec fn get_instance_proc_addr_name() -> Seq<u8> {
    "vkGetInstanceProcAddr".spec_bytes()
}

/// The name of the device proc-address function.
pub open spec fn get_device_proc_addr_name() -> Seq<u8> {
    "vkGetDeviceProcAddr".spec_bytes()
}

/// A loaded entry point.
#[derive(Debug)]
pub struct Entry {
    get_instance: usize,
    get_device: usize,
    commands: CommandTable,
}

impl Entry {
    pub closed spec fn get_instance(&self) -> usize {
        self.get_instance
    }

    pub closed spec fn get_device(&self) -> usize {
        self.get_device
    }

    pub closed spec fn commands(&self) -> CommandTable {
        self.commands
    }

    /// Loads an entry point: the two proc-address functions from `loader`,
    /// then the global commands through the first of them.
    ///
    /// A loader failure is handed back as it came, and the device
    /// proc-address function is not asked for once the first one failed.
    /// The addresses stay valid only while `loader` lives: keep it beside
    /// the entry.
    pub fn new<L: Loader, F: Fn(usize, u64, &Vec<u8>) -> usize>(loader: &L, call: &F) -> (r: Result<Entry, LoaderError>)
        requires
            total_call(*call),
        ensures
            r matches Ok(en) ==> {
                &&& loader.answers(get_instance_proc_addr_name(), Ok(en.get_instance()))
                &&& loader.answers(get_device_proc_addr_name(), Ok(en.get_device()))
                &&& en.get_instance() != 0
                &&& en.get_device() != 0
                &&& exists|s: Seq<CommandSpec>| is_entry_schema(s) && table_via(s, *call, en.get_instance(), 0, en.commands())
            },
            r matches Err(e) ==> {
                // the first name failed, and the second was not asked for
                ||| loader.answers(get_instance_proc_addr_name(), Err(e))
                // the first name resolved and the second failed
                ||| exists|gi: usize|
                    loader.answers(get_instance_proc_addr_name(), Ok(gi))
                        && loader.answers(get_device_proc_addr_name(), Err(e))
                // both resolved, and a mandatory global command is null
                ||| exists|gi: usize, gd: usize|
                    {
                        &&& loader.answers(get_instance_proc_addr_name(), Ok(gi))
                        &&& loader.answers(get_device_proc_addr_name(), Ok(gd))
                        &&& e is NotFound
                        &&& exists|s: Seq<CommandSpec>, addrs: Seq<usize>|
                            is_entry_schema(s) && resolved_via(s, *call, gi, 0, addrs) && built_from(s, addrs, Err(e))
                    }
            },
    {
        let gi = match loader.load("vkGetInstanceProcAddr".as_bytes()) {
            Ok(a) => a,
            Err(e) => return Err(e),
        };
        let gd = match loader.load("vkGetDeviceProcAddr".as_bytes()) {
            Ok(a) => a,
            Err(e) => return Err(e),
        };
        Self::from_proc_addrs(gi, gd, call)
    }

    /// Builds an entry point from its two proc-address functions: the
    /// global commands are loaded through the first; a missing mandatory
    /// one fails as not found.
    pub fn from_proc_addrs<F: Fn(usize, u64, &Vec<u8>) -> usize>(
        get_instance: usize,
        get_device: usize,
        call: &F,
    ) -> (r: Result<Entry, LoaderError>)
        requires
            total_call(*call),
        ensures
            r matches Ok(en) ==> {
                &&& en.get_instance() == get_instance
                &&& en.get_device() == get_device
                &&& exists|s: Seq<CommandSpec>| is_entry_schema(s) && table_via(s, *call, get_instance, 0, en.commands())
            },
            r matches Err(e) ==> e is NotFound && exists|s: Seq<CommandSpec>, addrs: Seq<usize>|
                is_entry_schema(s) && resolved_via(s, *call, get_instance, 0, addrs) && built_from(s, addrs, Err(e)),
    {
        let schema = entry_schema();
        let r = load_via(&schema, call, get_instance, 0);
        match r {
            Ok(commands) => {
                let en = Entry { get_instance, get_device, commands };
                proof {
                    assert(table_via(schema@, *call, get_instance, 0, en.commands()));
                }
                Ok(en)
            },
            Err(e) => {
                proof {
                    let addrs = choose|addrs: Seq<usize>|
                        resolved_via(schema@, *call, get_instance, 0, addrs) && built_from(schema@, addrs, r);
                    assert(built_from(schema@, addrs, Err(e)));
                }
                Err(e)
            },
        }
    }

    /// The address of the global proc-address function.
    pub fn get_instance_proc_addr(&self) -> (r: usize)
        ensures
            r == self.get_instance(),
    {
        self.get_instance
    }

    /// The address of the device proc-address function.
    pub fn get_device_proc_addr(&self) -> (r: usize)
        ensures
            r == self.get_device(),
    {
        self.get_device
    }

    /// The global commands.
    pub fn table(&self) -> (r: &CommandTable)
        ensures
            *r == self.commands(),
    {
        &self.commands
    }

    /// The instance-level version, from the outcome of asking the driver
    /// for it: `None` when the driver has no such command, which means
    /// version 1.0.0; otherwise its result and the packed version it wrote.
    pub fn version(&self, enumerated: Option<(RawResult, u32)>) -> (r: Result<Version, ErrorCode>)
        ensures
            enumerated is None ==> r == Ok::<Version, ErrorCode>(Version { major: 1, minor: 0, patch: 0 }),
            enumerated matches Some((res, raw)) ==> {
                &&& res.0 == SUCCESS ==> r == Ok::<Version, ErrorCode>(
                    Version { major: major_of(raw), minor: minor_of(raw), patch: patch_of(raw) },
                )
                &&& res.0 != SUCCESS ==> (r matches Err(e) && e.raw() == res.0)
            },
    {
        match enumerated {
            None => Ok(Version::v1_0_0()),
            Some((res, raw)) => {
                if res.0 == SUCCESS {
                    Ok(Version::from_raw(raw))
                } else {
                    Err(ErrorCode::from_raw(res.0))
                }
            },
        }
    }

    /// Finishes creating an instance from the outcome of the native call:
    /// its error is handed back verbatim; on success the instance commands
    /// are loaded for the new handle and the enabled names are read.
    ///
    /// A missing mandatory instance command fails as initialization failure.
    pub fn create_instance<F: Fn(usize, u64, &Vec<u8>) -> usize>(
        &self,
        info: &CreateInfo,
        created: Result<u64, ErrorCode>,
        call: &F,
    ) -> (r: Result<Instance, ErrorCode>)
        requires
            info.well_formed(),
            total_call(*call),
        ensures
            created matches Err(e) ==> r == Err::<Instance, ErrorCode>(e),
            created matches Ok(h) ==> {
                &&& r matches Ok(inst) ==> {
                    &&& inst.handle() == h
                    &&& inst.get_device() == self.get_device()
                    &&& inst.spec_extensions().view() == enabled(info.enabled_extension_names, info.enabled_extension_count)
                    &&& inst.spec_layers().view() == enabled(info.enabled_layer_names, info.enabled_layer_count)
                    &&& exists|s: Seq<CommandSpec>| is_instance_schema(s) && table_via(s, *call, self.get_instance(), h, inst.commands())
                }
                &&& r matches Err(e) ==> {
                    &&& e.raw() == crate::codes::ERROR_INITIALIZATION_FAILED
                    &&& exists|s: Seq<CommandSpec>| is_instance_schema(s) && table_fails_via(s, *call, self.get_instance(), h)
                }
            },
    {
        let handle = match created {
            Err(e) => return Err(e),
            Ok(h) => h,
        };
        let schema = instance_schema();
        let loaded = load_via(&schema, call, self.get_instance, handle);
        let commands = match loaded {
            Ok(t) => t,
            Err(le) => {
                proof {
                    assert(table_fails_via(schema@, *call, self.get_instance(), handle));
                }
                return Err(ErrorCode::from_raw(crate::codes::ERROR_INITIALIZATION_FAILED));
            },
        };
        let extensions = get_names(info.enabled_extension_count, info.enabled_extension_names.as_ref());
        let layers = get_names(info.enabled_layer_count, info.enabled_layer_names.as_ref());
        let inst = Instance { get_device: self.get_device, handle, commands, extensions, layers };
        proof {
            assert(table_via(schema@, *call, self.get_instance(), handle, inst.commands()));
        }
        Ok(inst)
    }
}

/// A created instance.
#[derive(Debug)]
pub struct Instance {
    get_device: usize,
    handle: u64,
    commands: CommandTable,
    extensions: NameSet,
    layers: NameSet,
}

impl Instance {
    pub closed spec fn get_device(&self) -> usize {
        self.get_device
    }

    pub closed spec fn handle(&self) -> u64 {
        self.handle
    }

    pub closed spec fn commands(&self) -> CommandTable {
        self.commands
    }

    pub closed spec fn spec_extensions(&self) -> NameSet {
        self.extensions
    }

    pub closed spec fn spec_layers(&self) -> NameSet {
        self.layers
    }

    /// The native handle.
    pub fn raw_handle(&self) -> (r: u64)
        ensures
            r == self.handle(),
    {
        self.handle
    }

    /// The instance-level commands.
    pub fn table(&self) -> (r: &CommandTable)
        ensures
            *r == self.commands(),
    {
        &self.commands
    }

    /// The extensions enabled for this instance.
    pub fn extensions(&self) -> (r: &NameSet)
        ensures
            *r == self.spec_extensions(),
    {
        &self.extensions
    }

    /// The layers enabled for this instance.
    pub fn layers(&self) -> (r: &NameSet)
        ensures
            *r == self.spec_layers(),
    {
        &self.layers
    }

    /// Finishes creating a device from the outcome of the native call: its
    /// error is handed back verbatim; on success the device commands are
    /// loaded for the new handle and the enabled names are read.
    ///
    /// A missing mandatory device command fails as initialization failure.
    pub fn create_device<F: Fn(usize, u64, &Vec<u8>) -> usize>(
        &self,
        info: &CreateInfo,
        created: Result<u64, ErrorCode>,
        call: &F,
    ) -> (r: Result<Device, ErrorCode>)
        requires
            info.well_formed(),
            total_call(*call),
        ensures
            created matches Err(e) ==> r == Err::<Device, ErrorCode>(e),
            created matches Ok(h) ==> {
                &&& r matches Ok(dev) ==> {
                    &&& dev.handle() == h
                    &&& dev.spec_extensions().view() == enabled(info.enabled_extension_names, info.enabled_extension_count)
                    &&& dev.spec_layers().view() == enabled(info.enabled_layer_names, info.enabled_layer_count)
                    &&& exists|s: Seq<CommandSpec>| is_device_schema(s) && table_via(s, *call, self.get_device(), h, dev.commands())
                }
                &&& r matches Err(e) ==> {
                    &&& e.raw() == crate::codes::ERROR_INITIALIZATION_FAILED
                    &&& exists|s: Seq<CommandSpec>| is_device_schema(s) && table_fails_via(s, *call, self.get_device(), h)
                }
            },
    {
        let handle = match created {
            Err(e) => return Err(e),
            Ok(h) => h,
        };
        let schema = device_schema();
        let loaded = load_via(&schema, call, self.get_device, handle);
        let commands = match loaded {
            Ok(t) => t,
            Err(le) => {
                proof {
                    assert(table_fails_via(schema@, *call, self.get_device(), handle));
                }
                return Err(ErrorCode::from_raw(crate::codes::ERROR_INITIALIZATION_FAILED));
            },
        };
        let extensions = get_names(info.enabled_extension_count, info.enabled_extension_names.as_ref());
        let layers = get_names(info.enabled_layer_count, info.enabled_layer_names.as_ref());
        let dev = Device { handle, commands, extensions, layers };
        proof {
            assert(table_via(schema@, *call, self.get_device(), handle, dev.commands()));
        }
        Ok(dev)
    }
}

/// A created device.
#[derive(Debug)]
pub struct Device {
    handle: u64,
    commands: CommandTable,
    extensions: NameSet,
    layers: NameSet,
}

impl Device {
    pub closed spec fn handle(&self) -> u64 {
        self.handle
    }

    pub closed spec fn commands(&self) -> CommandTable {
        self.commands
    }

    pub closed spec fn spec_extensions(&self) -> NameSet {
        self.extensions
    }

    pub closed spec fn spec_layers(&self) -> NameSet {
        self.layers
    }

    /// The native handle.
    pub fn raw_handle(&self) -> (r: u64)
        ensures
            r == self.handle(),
    {
        self.handle
    }

    /// The device-level commands.
    pub fn table(&self) -> (r: &CommandTable)
        ensures
            *r == self.commands(),
    {
        &self.commands
    }

    /// The extensions enabled for this device.
    pub fn extensions(&self) -> (r: &NameSet)
        ensures
            *r == self.spec_extensions(),
    {
        &self.extensions
    }

    /// The layers enabled for this device.
    pub fn layers(&self) -> (r: &NameSet)
        ensures
            *r == self.spec_layers(),
    {
        &self.layers
    }
}

} // verus!
