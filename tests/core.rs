use std::cell::Cell;

use vulkanalia::bytecode::{Bytecode, BytecodeError};
use vulkanalia::chain::{input_chain, output_chain, Chain, ChainBody, InputChainPtr, OutputChainPtr};
use vulkanalia::codes::{LayerFunction, RawResult, StructureType, LOADER_DEVICE_CREATE_INFO, LOADER_INSTANCE_CREATE_INFO};
use vulkanalia::commands::{device_schema, entry_schema, instance_schema, CommandSpec, CommandTable};
use vulkanalia::layer::{
    create_device_lookup, create_instance_lookup, destroy_device_lookup, device_hook, find_device_link, find_instance_link,
    instance_hook, Hook, Layer, ProcAddr,
};
use vulkanalia::layer_info::{
    LayerDeviceCreateInfo, LayerDeviceLink, LayerDevicePayload, LayerInstanceCreateInfo, LayerInstanceLink,
    LayerInstancePayload,
};
use vulkanalia::loader::{CallbackLoader, Loader, LoaderError};
use vulkanalia::names::{get_names, ExtensionName, NameSet};
use vulkanalia::registry::{dispatch_key, DispatchRegistry};
use vulkanalia::surface::get_required_instance_extensions;
use vulkanalia::version::{make_version, version_major, version_minor, version_patch};
use vulkanalia::{CreateInfo, Entry, Version};

fn spec(name: &str, mandatory: bool) -> CommandSpec {
    CommandSpec::new(name, mandatory)
}

#[test]
fn table_has_two_of_three_when_loader_omits_one() {
    let schema = vec![spec("vkCmdA", false), spec("vkCmdB", false), spec("vkCmdC", false)];
    let load = |n: &Vec<u8>| -> usize {
        match n.as_slice() {
            b"vkCmdA" => 0x1000,
            b"vkCmdC" => 0x3000,
            _ => 0,
        }
    };
    let table = CommandTable::load(&schema, &load).unwrap();
    assert_eq!(table.len(), 3);
    assert_eq!(table.present_count(), 2);
    assert_eq!(table.entry(0), Some(0x1000));
    assert_eq!(table.entry(1), None);
    assert_eq!(table.entry(2), Some(0x3000));
    assert_eq!(table.get(b"vkCmdC"), Some(0x3000));
    assert_eq!(table.get(b"vkCmdB"), None);
    assert_eq!(table.get(b"vkCmdZ"), None);
}

#[test]
fn table_fails_when_a_mandatory_command_is_missing() {
    let schema = vec![spec("vkCmdA", false), spec("vkCmdB", true), spec("vkCmdC", true)];
    let load = |n: &Vec<u8>| -> usize { if n.as_slice() == b"vkCmdA" { 1 } else { 0 } };
    match CommandTable::load(&schema, &load) {
        Err(LoaderError::NotFound(name)) => assert_eq!(name, b"vkCmdB".to_vec()),
        other => panic!("unexpected {:?}", other),
    }
}

#[test]
fn table_entries_follow_loader_for_every_command() {
    let schema = device_schema();
    let load = |n: &Vec<u8>| -> usize { n.len() };
    let table = CommandTable::load(&schema, &load).unwrap();
    for (i, c) in schema.iter().enumerate() {
        assert_eq!(table.entry(i), Some(c.name.len()));
    }
    let addrs = vec![7usize, 0, 9];
    let schema = vec![spec("x", true), spec("y", false), spec("z", true)];
    let table = CommandTable::from_resolved(&schema, &addrs).unwrap();
    assert_eq!(table.entry(1), None);
    assert_eq!(table.present_count(), 2);
}

#[test]
fn name_set_is_nul_aware() {
    let names = vec![vec![b'a', 0, 0], vec![b'a', 0, b'z'], b"VK_KHR_surface".to_vec()];
    let set = get_names(3, Some(&names));
    assert_eq!(set.len(), 2);
    assert!(set.contains(&ExtensionName::from_bytes(b"a")));
    assert!(set.contains(&ExtensionName::from_bytes(b"VK_KHR_surface\0junk")));
    assert!(!set.contains(&ExtensionName::from_bytes(b"VK_KHR_surfac")));

    let only_first = get_names(1, Some(&names));
    assert_eq!(only_first.len(), 1);

    assert!(get_names(0, None).is_empty());
    assert!(get_names(0, Some(&names)).is_empty());
    assert!(get_names(5, None).is_empty());
}

#[test]
fn name_set_insert_keeps_one_copy() {
    let mut set = NameSet::new();
    assert!(set.insert(ExtensionName::from_bytes(b"layer")));
    assert!(!set.insert(ExtensionName::from_bytes(b"layer\0other")));
    assert_eq!(set.len(), 1);
}

fn opaque(t: i32) -> ChainBody {
    ChainBody::Opaque(StructureType(t))
}

#[test]
fn chain_visits_linked_nodes_in_order() {
    let mut chain = Chain::new();
    assert!(input_chain(&chain, None).is_empty());

    let a = chain.push(opaque(1000), None);
    let one = input_chain(&chain, Some(a));
    assert_eq!(one.len(), 1);
    assert_eq!(one[0].index, a);

    let b = chain.push(opaque(1001), Some(a));
    let _unlinked = chain.push(opaque(1002), None);
    let c = chain.push(opaque(1003), Some(b));
    let many = input_chain(&chain, Some(c));
    let tags: Vec<i32> = many.iter().map(|p| p.peek_tag(&chain).0).collect();
    assert_eq!(tags, vec![1003, 1001, 1000]);
    let out = output_chain(&chain, Some(c));
    let idx: Vec<usize> = out.iter().map(|p| p.index).collect();
    assert_eq!(idx, vec![c, b, a]);

    let head = InputChainPtr::new(Some(c)).unwrap();
    assert_eq!(head.as_base_ref(&chain).next, Some(b));
    assert_eq!(head.next(&chain).unwrap().index, b);
    assert!(InputChainPtr::new(None).is_none());
}

fn instance_link() -> LayerInstanceLink {
    LayerInstanceLink { next_get_instance_proc_addr: 0xA000, next_get_physical_device_proc_addr: 0xA100 }
}

fn device_link() -> LayerDeviceLink {
    LayerDeviceLink { next_get_instance_proc_addr: 0xB000, next_get_device_proc_addr: 0xB100 }
}

#[test]
fn downcast_reads_the_tagged_node() {
    let mut chain = Chain::new();
    let info = LayerInstanceCreateInfo {
        function: LayerFunction::from_raw(0),
        payload: LayerInstancePayload::LayerInfo(instance_link()),
    };
    let n = chain.push(ChainBody::LayerInstance(info), None);
    let p = InputChainPtr::new(Some(n)).unwrap();
    assert_eq!(p.peek_tag(&chain), StructureType(LOADER_INSTANCE_CREATE_INFO));
    let read: LayerInstanceCreateInfo = p.as_ref(&chain);
    assert_eq!(read, info);
}

#[test]
fn layer_link_is_found_among_unrelated_nodes() {
    let mut chain = Chain::new();
    let callback = LayerInstanceCreateInfo {
        function: LayerFunction::from_raw(1),
        payload: LayerInstancePayload::SetInstanceLoaderData(0x77),
    };
    let link = LayerInstanceCreateInfo {
        function: LayerFunction::from_raw(0),
        payload: LayerInstancePayload::LayerInfo(instance_link()),
    };
    let a = chain.push(ChainBody::LayerInstance(link), None);
    let b = chain.push(opaque(1000), Some(a));
    let c = chain.push(ChainBody::LayerInstance(callback), Some(b));
    assert_eq!(find_instance_link(&chain, Some(c)), Some(instance_link()));
    assert_eq!(find_instance_link(&chain, Some(b)), Some(instance_link()));
    assert_eq!(find_instance_link(&chain, None), None);
    let lone = chain.push(ChainBody::LayerInstance(callback), None);
    assert_eq!(find_instance_link(&chain, Some(lone)), None);
}

#[test]
fn layer_scenario_create_intercept_destroy() {
    let mut layer = Layer::new();
    let mut chain = Chain::new();
    let info = LayerDeviceCreateInfo {
        function: LayerFunction::from_raw(0),
        payload: LayerDevicePayload::LayerInfo(device_link()),
    };
    let other = chain.push(opaque(1000), None);
    let head = chain.push(ChainBody::LayerDevice(info), Some(other));
    assert_eq!(chain.node(head).body.tag(), StructureType(LOADER_DEVICE_CREATE_INFO));
    let link = find_device_link(&chain, Some(head)).unwrap();
    assert_eq!(link, device_link());

    let key = dispatch_key(0xD15);
    let schema = device_schema();
    let load = |n: &Vec<u8>| -> usize { if n.as_slice() == b"vkBeginCommandBuffer" { 0xBEE } else { 0x100 + n.len() } };

    // the next layer's create fails: its code comes back, nothing is registered
    let failed = layer.device_created(RawResult::from_raw(-2), key, 42, link, &schema, &load);
    assert_eq!(failed.as_raw(), -2);
    assert!(!layer.has_device(key));

    let created = layer.device_created(RawResult::from_raw(0), key, 42, link, &schema, &load);
    assert_eq!(created.as_raw(), 0);
    assert!(layer.has_device(key));
    assert_eq!(layer.device(key).unwrap().handle, 42);

    let name = Hook::BeginCommandBuffer.name().as_bytes();
    assert_eq!(layer.device_proc_addr(key, name), ProcAddr::Own(Hook::BeginCommandBuffer));
    assert_eq!(layer.device_proc_addr(key, b"vkQueueSubmit"), ProcAddr::Next(0xB100));

    let fired = Cell::new(0u32);
    let effect = |h: Hook| {
        assert_eq!(h, Hook::BeginCommandBuffer);
        fired.set(fired.get() + 1);
    };
    let call = |addr: usize| -> i32 {
        assert_eq!(addr, 0xBEE);
        -4
    };
    assert_eq!(layer.intercept(key, Hook::BeginCommandBuffer, &effect, &call), Some(-4));
    assert_eq!(fired.get(), 1);

    let record = layer.device_destroyed(key).unwrap();
    assert_eq!(record.handle, 42);
    assert!(record.commands.get(b"vkDestroyDevice").is_some());
    assert!(!layer.has_device(key));
    assert!(layer.device_destroyed(key).is_none());
}

#[test]
fn layer_instance_lookups() {
    let mut layer = Layer::new();
    let key = dispatch_key(0x1111);
    assert_eq!(layer.instance_proc_addr(key, b"vkCreateDevice"), ProcAddr::Own(Hook::CreateDevice));
    let load = |_: &Vec<u8>| -> usize { 5 };
    let r = layer.instance_created(RawResult::from_raw(0), key, 9, instance_link(), &instance_schema(), &load);
    assert_eq!(r.as_raw(), 0);
    assert_eq!(layer.instance_proc_addr(key, b"vkEnumeratePhysicalDevices"), ProcAddr::Next(0xA000));
    let none = |_: &Vec<u8>| -> usize { 0 };
    let other = dispatch_key(0x2222);
    let r = layer.instance_created(RawResult::from_raw(0), other, 10, instance_link(), &instance_schema(), &none);
    assert_eq!(r.as_raw(), -3);
    assert!(!layer.has_instance(other));
    assert!(layer.instance_destroyed(key).is_some());
    assert!(!layer.has_instance(key));
}

#[test]
fn hooks_are_recognised_by_name() {
    assert_eq!(instance_hook(b"vkGetInstanceProcAddr"), Some(Hook::GetInstanceProcAddr));
    assert_eq!(instance_hook(b"vkCmdDraw"), None);
    assert_eq!(device_hook(b"vkCmdDrawIndexed"), Some(Hook::CmdDrawIndexed));
    assert_eq!(device_hook(b"vkCreateInstance"), None);
}

#[test]
fn registry_register_and_deregister() {
    let mut reg: DispatchRegistry<&str> = DispatchRegistry::new();
    assert_eq!(reg.register(1, "a"), None);
    assert_eq!(reg.register(1, "b"), Some("a"));
    assert_eq!(reg.lookup(1), Some(&"b"));
    assert_eq!(reg.len(), 1);
    assert_eq!(reg.deregister(1), Some("b"));
    assert!(!reg.contains(1));
}

struct FakeLoader;

impl Loader for FakeLoader {
    fn load(&self, name: &[u8]) -> Result<usize, LoaderError> {
        match name {
            b"vkGetInstanceProcAddr" => Ok(0x10),
            b"vkGetDeviceProcAddr" => Ok(0x20),
            _ => Err(LoaderError::NotFound(name.to_vec())),
        }
    }
}

struct MissingLoader;

impl Loader for MissingLoader {
    fn load(&self, name: &[u8]) -> Result<usize, LoaderError> {
        Err(LoaderError::NotFound(name.to_vec()))
    }
}

#[test]
fn entry_instance_device_lifecycle() {
    let call = |proc: usize, handle: u64, name: &Vec<u8>| -> usize {
        if name.as_slice() == b"vkEnumerateInstanceVersion" {
            0
        } else {
            proc + handle as usize + name.len()
        }
    };
    let entry = Entry::new(&FakeLoader, &call).unwrap();
    assert_eq!(entry.get_instance_proc_addr(), 0x10);
    assert_eq!(entry.get_device_proc_addr(), 0x20);
    assert_eq!(entry.table().len(), entry_schema().len());
    assert_eq!(entry.table().get(b"vkEnumerateInstanceVersion"), None);

    match Entry::new(&MissingLoader, &call) {
        Err(LoaderError::NotFound(n)) => assert_eq!(n, b"vkGetInstanceProcAddr".to_vec()),
        _ => panic!("expected a missing symbol"),
    }

    assert_eq!(entry.version(None).unwrap(), Version::new(1, 0, 0));
    let packed = make_version(1, 3, 250);
    assert_eq!(entry.version(Some((RawResult::from_raw(0), packed))).unwrap(), Version::new(1, 3, 250));
    assert_eq!(entry.version(Some((RawResult::from_raw(-1), packed))).unwrap_err().as_raw(), -1);

    let info = CreateInfo {
        enabled_layer_count: 1,
        enabled_layer_names: Some(vec![b"VK_LAYER_KHRONOS_validation".to_vec()]),
        enabled_extension_count: 2,
        enabled_extension_names: Some(vec![b"VK_KHR_surface".to_vec(), b"VK_KHR_xcb_surface".to_vec()]),
    };
    let err = entry.create_instance(&info, Err(vulkanalia::codes::ErrorCode::from_raw(-9)), &call);
    assert_eq!(err.unwrap_err().as_raw(), -9);
    let instance = entry.create_instance(&info, Ok(7), &call).unwrap();
    assert_eq!(instance.raw_handle(), 7);
    assert_eq!(instance.extensions().len(), 2);
    assert_eq!(instance.layers().len(), 1);
    assert!(instance.extensions().contains(&ExtensionName::from_bytes(b"VK_KHR_surface")));

    let dev_info = CreateInfo {
        enabled_layer_count: 0,
        enabled_layer_names: None,
        enabled_extension_count: 0,
        enabled_extension_names: None,
    };
    let device = instance.create_device(&dev_info, Ok(8), &call).unwrap();
    assert_eq!(device.raw_handle(), 8);
    assert!(device.extensions().is_empty());
    assert_eq!(device.table().entry(0), Some(0x20 + 8 + "vkDestroyDevice".len()));

    let broken = |_: usize, _: u64, _: &Vec<u8>| -> usize { 0 };
    let failed = instance.create_device(&dev_info, Ok(8), &broken);
    assert_eq!(failed.unwrap_err().as_raw(), -3);
}

#[test]
fn version_packing() {
    let raw = make_version(1, 2, 3);
    assert_eq!(raw, (1 << 22) | (2 << 12) | 3);
    assert_eq!(version_major(raw), 1);
    assert_eq!(version_minor(raw), 2);
    assert_eq!(version_patch(raw), 3);
    let v = Version::from_raw(raw);
    assert_eq!(v, Version::new(1, 2, 3));
    assert_eq!(v.to_raw(), raw);
    assert_eq!(v.to_tuple(), (1, 2, 3));
    assert_eq!(Version::v1_1_0().to_raw(), 4198400);
    assert_eq!(Version::v1_2_0(), Version::new(1, 2, 0));
}

#[test]
fn bytecode_lengths() {
    assert_eq!(Bytecode::new(&[]).unwrap_err(), BytecodeError::Length(0));
    assert_eq!(Bytecode::new(&[1, 2, 3]).unwrap_err(), BytecodeError::Length(3));
    let b = Bytecode::new(&[0x03, 0x02, 0x23, 0x07, 1, 0, 0, 0]).unwrap();
    assert_eq!(b.code_size(), 8);
    assert_eq!(b.code(), vec![0x07230203, 1]);
}

#[test]
fn result_codes_split_by_sign() {
    assert_eq!(RawResult::from_raw(0).classify().unwrap().as_raw(), 0);
    assert_eq!(RawResult::from_raw(5).classify().unwrap().as_raw(), 5);
    assert_eq!(RawResult::from_raw(-13).classify().unwrap_err().as_raw(), -13);
    assert_eq!(LayerFunction::from_raw(3).as_raw(), 3);
}

#[test]
fn surface_extensions_keep_order_and_availability() {
    let available = vec![
        b"VK_KHR_xcb_surface".to_vec(),
        b"VK_KHR_surface".to_vec(),
        b"VK_EXT_debug_utils".to_vec(),
    ];
    let set = get_names(3, Some(&available));
    let got = get_required_instance_extensions(&set);
    let texts: Vec<Vec<u8>> = got.iter().map(|n| n.as_cstr()).collect();
    assert_eq!(texts, vec![b"VK_KHR_surface\0".to_vec(), b"VK_KHR_xcb_surface\0".to_vec()]);
    assert!(get_required_instance_extensions(&NameSet::new()).is_empty());
}

#[test]
fn callback_loader_maps_null_to_not_found() {
    let loader = CallbackLoader::new(|name: &[u8]| -> usize { if name == b"vkGetInstanceProcAddr" { 0x44 } else { 0 } });
    assert_eq!(loader.load(b"vkGetInstanceProcAddr").unwrap(), 0x44);
    match loader.load(b"vkGetDeviceProcAddr") {
        Err(LoaderError::NotFound(n)) => assert_eq!(n, b"vkGetDeviceProcAddr".to_vec()),
        _ => panic!("expected not found"),
    }
    let call = |p: usize, _: u64, _: &Vec<u8>| -> usize { p };
    assert!(matches!(Entry::new(&loader, &call), Err(LoaderError::NotFound(_))));
    let both = CallbackLoader::new(|name: &[u8]| -> usize { name.len() });
    let entry = Entry::new(&both, &call).unwrap();
    assert_eq!(entry.get_instance_proc_addr(), "vkGetInstanceProcAddr".len());
    assert_eq!(entry.table().entry(0), Some(entry.get_instance_proc_addr()));
}

#[test]
fn output_chain_node_is_filled_in_place() {
    let mut chain = Chain::new();
    let blank = LayerDeviceCreateInfo {
        function: LayerFunction::from_raw(1),
        payload: LayerDevicePayload::SetDeviceLoaderData(0),
    };
    let tail = chain.push(opaque(1000), None);
    let head = chain.push(ChainBody::LayerDevice(blank), Some(tail));
    let out = OutputChainPtr::new(Some(head)).unwrap();
    let filled = LayerDeviceCreateInfo {
        function: LayerFunction::from_raw(0),
        payload: LayerDevicePayload::LayerInfo(device_link()),
    };
    out.write(&mut chain, filled);
    let read: LayerDeviceCreateInfo = out.as_ref(&chain);
    assert_eq!(read, filled);
    assert_eq!(out.next(&chain).unwrap().index, tail);
    assert_eq!(find_device_link(&chain, Some(head)), Some(device_link()));
    assert_eq!(out.as_base_ref(&chain).s_type, StructureType::from_raw(LOADER_DEVICE_CREATE_INFO));
}

#[test]
fn create_functions_come_from_the_instance_level() {
    let dev = create_device_lookup(device_link());
    assert_eq!(dev.proc, 0xB000);
    assert_eq!(dev.handle, 0);
    assert_eq!(dev.name, "vkCreateDevice");
    let inst = create_instance_lookup(instance_link());
    assert_eq!((inst.proc, inst.handle, inst.name), (0xA000, 0, "vkCreateInstance"));
    let undo = destroy_device_lookup(device_link(), 42);
    assert_eq!((undo.proc, undo.handle, undo.name), (0xB100, 42, "vkDestroyDevice"));
}

#[test]
fn intercept_without_real_function_runs_no_side_effect() {
    let mut layer = Layer::new();
    let schema = vec![spec("vkCmdDraw", false)];
    let load = |_: &Vec<u8>| -> usize { 0 };
    let key = dispatch_key(0xF00);
    assert_eq!(layer.device_created(RawResult::from_raw(0), key, 1, device_link(), &schema, &load).as_raw(), 0);
    let fired = Cell::new(0u32);
    let effect = |_: Hook| fired.set(fired.get() + 1);
    let call = |_: usize| -> i32 { 0 };
    assert_eq!(layer.intercept(key, Hook::CmdDraw, &effect, &call), None);
    assert_eq!(fired.get(), 0);
    assert_eq!(layer.device_proc_addr(0x999, b"vkCmdDraw"), ProcAddr::Own(Hook::CmdDraw));
}

#[test]
fn entry_new_hands_back_the_loader_error() {
    let call = |p: usize, _: u64, _: &Vec<u8>| -> usize { p };
    let asked = Cell::new(0u32);
    let failing = CallbackLoader::new(|_: &[u8]| -> usize {
        asked.set(asked.get() + 1);
        0
    });
    match Entry::new(&failing, &call) {
        Err(LoaderError::NotFound(n)) => assert_eq!(n, b"vkGetInstanceProcAddr".to_vec()),
        _ => panic!("expected the first name as not found"),
    }
    assert_eq!(asked.get(), 1);
}
