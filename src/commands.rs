//! Command tables: one optional address per command of an API level,
//! resolved by name once and never changed afterwards.

use vstd::prelude::*;
use crate::loader::LoaderError;
use crate::strings::slices_equal;
use vstd::string::StringSliceAdditionalSpecFns;

verus! {

/// One command of a level's fixed set.
#[derive(Clone, Debug)]
pub struct CommandSpec {
    pub name: Vec<u8>,
    /// Whether a table of this level cannot be built without it.
    pub mandatory: bool,
}

impl CommandSpec {
    pub fn new(name: &str, mandatory: bool) -> (r: Self)
        ensures
            r.name@ == name.spec_bytes(),
            r.mandatory == mandatory,
    {
        CommandSpec { name: vstd::slice::slice_to_vec(name.as_bytes()), mandatory }
    }
}

/// The names of a schema.
pub open spec fn names_of(schema: Seq<CommandSpec>) -> Seq<Seq<u8>> {
    schema.map_values(|c: CommandSpec| c.name@)
}

/// The table entry for a raw address: absent for null.
pub open spec fn entry_of(addr: usize) -> Option<usize> {
    if addr == 0 {
        None
    } else {
        Some(addr)
    }
}

/// Whether command `i` is mandatory and came back null.
pub open spec fn missing_at(schema: Seq<CommandSpec>, addrs: Seq<usize>, i: int) -> bool {
    schema[i].mandatory && addrs[i] == 0
}

/// What building a table of `schema` from the raw addresses `addrs` gives:
/// a table with one entry per command, present exactly where the address
/// is not null; or, when a mandatory command is null, the first such one
/// as not found.
pub open spec fn built_from(
    schema: Seq<CommandSpec>,
    addrs: Seq<usize>,
    r: Result<CommandTable, LoaderError>,
) -> bool {
    &&& r is Ok <==> (forall|i: int| 0 <= i < schema.len() ==> !missing_at(schema, addrs, i))
    &&& r matches Ok(t) ==> {
        &&& t.names() == names_of(schema)
        &&& t.entries() == addrs.map_values(|a: usize| entry_of(a))
    }
    &&& r matches Err(e) ==> exists|i: int|
        0 <= i < schema.len() && #[trigger] missing_at(schema, addrs, i)
            && (forall|j: int| 0 <= j < i ==> !missing_at(schema, addrs, j))
            && (e matches LoaderError::NotFound(n) && n@ == schema[i].name@)
}

/// A command's name and the address it resolved to, if any.
#[derive(Debug)]
struct Resolved {
    name: Vec<u8>,
    addr: Option<usize>,
}

/// In a table built from raw addresses, each command's entry is present
/// exactly when its address is not null, and then holds that address.
pub proof fn lemma_entry_presence(schema: Seq<CommandSpec>, addrs: Seq<usize>, t: CommandTable)
    requires
        addrs.len() == schema.len(),
        built_from(schema, addrs, Ok(t)),
    ensures
        t.entries().len() == schema.len(),
        forall|i: int| 0 <= i < schema.len() ==> (#[trigger] t.entries()[i] is Some <==> addrs[i] != 0),
        forall|i: int| 0 <= i < schema.len() ==> (t.entries()[i] matches Some(a) ==> a == #[trigger] addrs[i]),
{
}

/// A null address for an optional command never makes the build fail:
/// when every null address belongs to an optional command, a table comes
/// out.
pub proof fn lemma_optional_never_fails(
    schema: Seq<CommandSpec>,
    addrs: Seq<usize>,
    r: Result<CommandTable, LoaderError>,
)
    requires
        addrs.len() == schema.len(),
        built_from(schema, addrs, r),
        forall|i: int| 0 <= i < schema.len() && #[trigger] addrs[i] == 0 ==> !schema[i].mandatory,
    ensures
        r is Ok,
{
    assert forall|i: int| 0 <= i < schema.len() implies !missing_at(schema, addrs, i) by {
        if addrs[i] == 0 {
            assert(!schema[i].mandatory);
        }
    }
}

/// An immutable table of resolved commands.
#[derive(Debug)]
pub struct CommandTable {
    commands: Vec<Resolved>,
}

impl CommandTable {
    /// The command names, in schema order.
    pub closed spec fn names(&self) -> Seq<Seq<u8>> {
        self.commands@.map_values(|c: Resolved| c.name@)
    }

    /// The entries, in schema order.
    pub closed spec fn entries(&self) -> Seq<Option<usize>> {
        self.commands@.map_values(|c: Resolved| c.addr)
    }

    /// Builds a table from the addresses resolved for each command.
    pub fn from_resolved(schema: &Vec<CommandSpec>, addrs: &Vec<usize>) -> (r: Result<CommandTable, LoaderError>)
        requires
            addrs@.len() == schema@.len(),
        ensures
            built_from(schema@, addrs@, r),
    {
        let mut commands: Vec<Resolved> = Vec::new();
        let mut i: usize = 0;
        while i < schema.len()
            invariant
                addrs@.len() == schema@.len(),
                i <= schema@.len(),
                commands@.len() == i,
                forall|j: int| 0 <= j < i ==> #[trigger] commands@[j].name@ == schema@[j].name@,
                forall|j: int| 0 <= j < i ==> #[trigger] commands@[j].addr == entry_of(addrs@[j]),
                forall|j: int| 0 <= j < i ==> !missing_at(schema@, addrs@, j),
            decreases schema.len() - i,
        {
            let addr = addrs[i];
            let name = vstd::slice::slice_to_vec(schema[i].name.as_slice());
            if addr == 0 {
                if schema[i].mandatory {
                    proof {
                        assert(missing_at(schema@, addrs@, i as int));
                    }
                    return Err(LoaderError::NotFound(name));
                }
                commands.push(Resolved { name, addr: None });
            } else {
                commands.push(Resolved { name, addr: Some(addr) });
            }
            i += 1;
        }
        let t = CommandTable { commands };
        proof {
            assert(t.names() =~= names_of(schema@));
            assert(t.entries() =~= addrs@.map_values(|a: usize| entry_of(a)));
        }
        Ok(t)
    }

    /// Builds a table by calling `load` once per command name.
    ///
    /// An optional command that comes back null is left absent; only a
    /// mandatory one makes the build fail.
    pub fn load<F: Fn(&Vec<u8>) -> usize>(schema: &Vec<CommandSpec>, load: &F) -> (r: Result<CommandTable, LoaderError>)
        requires
            forall|i: int| 0 <= i < schema@.len() ==> load.requires((&schema@[i].name,)),
        ensures
            exists|addrs: Seq<usize>|
                {
                    &&& addrs.len() == schema@.len()
                    &&& forall|i: int| 0 <= i < schema@.len() ==> load.ensures((&schema@[i].name,), #[trigger] addrs[i])
                    &&& built_from(schema@, addrs, r)
                },
    {
        let mut addrs: Vec<usize> = Vec::new();
        let mut i: usize = 0;
        while i < schema.len()
            invariant
                i <= schema@.len(),
                addrs@.len() == i,
                forall|j: int| 0 <= j < schema@.len() ==> load.requires((&schema@[j].name,)),
                forall|j: int| 0 <= j < i ==> load.ensures((&schema@[j].name,), #[trigger] addrs@[j]),
            decreases schema.len() - i,
        {
            let a = load(&schema[i].name);
            addrs.push(a);
            i += 1;
        }
        Self::from_resolved(schema, &addrs)
    }

    /// The number of commands.
    pub fn len(&self) -> (r: usize)
        ensures
            r == self.entries().len(),
            r == self.names().len(),
    {
        self.commands.len()
    }

    /// The entry of command `i`.
    pub fn entry(&self, i: usize) -> (r: Option<usize>)
        requires
            i < self.entries().len(),
        ensures
            r == self.entries()[i as int],
    {
        self.commands[i].addr
    }

    /// The number of present entries.
    pub fn present_count(&self) -> (r: usize)
        ensures
            r == count_present(self.entries()),
    {
        let mut n: usize = 0;
        let mut i: usize = 0;
        let ghost e = self.entries();
        while i < self.commands.len()
            invariant
                e == self.entries(),
                e.len() == self.commands@.len(),
                i <= e.len(),
                n == count_present(e.subrange(0, i as int)),
                n <= i,
            decreases self.commands.len() - i,
        {
            proof {
                let s1 = e.subrange(0, i + 1);
                assert(s1.drop_last() =~= e.subrange(0, i as int));
                assert(s1.last() == self.commands@[i as int].addr);
            }
            if self.commands[i].addr.is_some() {
                n += 1;
            }
            i += 1;
        }
        assert(e.subrange(0, i as int) =~= e);
        n
    }

    /// The entry of the first command called `name` that resolved, if any.
    pub fn get(&self, name: &[u8]) -> (r: Option<usize>)
        ensures
            r == first_present(self.names(), self.entries(), name@),
    {
        let ghost ns = self.names();
        let ghost es = self.entries();
        assert(ns.subrange(0, ns.len() as int) =~= ns);
        assert(es.subrange(0, es.len() as int) =~= es);
        let mut i: usize = 0;
        while i < self.commands.len()
            invariant
                ns == self.names(),
                es == self.entries(),
                ns.len() == self.commands@.len(),
                es.len() == self.commands@.len(),
                i <= self.commands@.len(),
                first_present(ns, es, name@) == first_present(
                    ns.subrange(i as int, ns.len() as int),
                    es.subrange(i as int, es.len() as int),
                    name@,
                ),
            decreases self.commands.len() - i,
        {
            let ghost n1 = ns.subrange(i as int, ns.len() as int);
            let ghost e1 = es.subrange(i as int, es.len() as int);
            proof {
                assert(n1[0] == self.commands@[i as int].name@);
                assert(e1[0] == self.commands@[i as int].addr);
                assert(n1.drop_first() =~= ns.subrange(i + 1, ns.len() as int));
                assert(e1.drop_first() =~= es.subrange(i + 1, es.len() as int));
            }
            if slices_equal(self.commands[i].name.as_slice(), name) {
                if self.commands[i].addr.is_some() {
                    return self.commands[i].addr;
                }
            }
            i += 1;
        }
        None
    }
}

/// The address of the first command called `name` whose entry is present.
pub open spec fn first_present(names: Seq<Seq<u8>>, entries: Seq<Option<usize>>, name: Seq<u8>) -> Option<usize>
    decreases names.len(),
{
    if names.len() == 0 || entries.len() == 0 {
        None
    } else if names[0] == name && entries[0] is Some {
        entries[0]
    } else {
        first_present(names.drop_first(), entries.drop_first(), name)
    }
}

/// The number of present entries of `s`.
pub open spec fn count_present(s: Seq<Option<usize>>) -> nat
    decreases s.len(),
{
    if s.len() == 0 {
        0
    } else {
        count_present(s.drop_last()) + if s.last() is Some { 1nat } else { 0nat }
    }
}

/// Whether `addrs` are answers that `call` can give when asked, through
/// the proc-address function at `proc` for `handle`, for each command of
/// `schema`.
pub open spec fn resolved_via<F: Fn(usize, u64, &Vec<u8>) -> usize>(
    schema: Seq<CommandSpec>,
    call: F,
    proc: usize,
    handle: u64,
    addrs: Seq<usize>,
) -> bool {
    &&& addrs.len() == schema.len()
    &&& forall|i: int| 0 <= i < schema.len() ==> call.ensures((proc, handle, &schema[i].name), #[trigger] addrs[i])
}

/// Builds a table of `schema` by asking the proc-address function at
/// `proc`, for `handle`, for each command; `call` makes that foreign call.
pub fn load_via<F: Fn(usize, u64, &Vec<u8>) -> usize>(
    schema: &Vec<CommandSpec>,
    call: &F,
    proc: usize,
    handle: u64,
) -> (r: Result<CommandTable, LoaderError>)
    requires
        forall|p: usize, h: u64, n: &Vec<u8>| call.requires((p, h, n)),
    ensures
        exists|addrs: Seq<usize>| resolved_via(schema@, *call, proc, handle, addrs) && built_from(schema@, addrs, r),
{
    let load = |n: &Vec<u8>| -> (a: usize)
        ensures
            call.ensures((proc, handle, n), a),
        { call(proc, handle, n) };
    let r = CommandTable::load(schema, &load);
    proof {
        let addrs = choose|addrs: Seq<usize>|
            {
                &&& addrs.len() == schema@.len()
                &&& forall|i: int| 0 <= i < schema@.len() ==> load.ensures((&schema@[i].name,), #[trigger] addrs[i])
                &&& built_from(schema@, addrs, r)
            };
        assert(resolved_via(schema@, *call, proc, handle, addrs));
    }
    r
}

/// The global-level commands: answered before any instance exists.
pub open spec fn is_entry_schema(s: Seq<CommandSpec>) -> bool {
    &&& names_of(s) == seq![
        "vkCreateInstance".spec_bytes(),
        "vkEnumerateInstanceExtensionProperties".spec_bytes(),
        "vkEnumerateInstanceLayerProperties".spec_bytes(),
        "vkEnumerateInstanceVersion".spec_bytes(),
    ]
    &&& s[0].mandatory && s[1].mandatory && s[2].mandatory && !s[3].mandatory
}

/// The instance-level commands this library uses.
pub open spec fn is_instance_schema(s: Seq<CommandSpec>) -> bool {
    &&& names_of(s) == seq![
        "vkDestroyInstance".spec_bytes(),
        "vkEnumeratePhysicalDevices".spec_bytes(),
        "vkCreateDevice".spec_bytes(),
        "vkEnumerateDeviceExtensionProperties".spec_bytes(),
        "vkDestroySurfaceKHR".spec_bytes(),
    ]
    &&& s[0].mandatory && s[1].mandatory && s[2].mandatory && s[3].mandatory && !s[4].mandatory
}

/// The device-level commands this library uses.
pub open spec fn is_device_schema(s: Seq<CommandSpec>) -> bool {
    &&& names_of(s) == seq![
        "vkDestroyDevice".spec_bytes(),
        "vkBeginCommandBuffer".spec_bytes(),
        "vkEndCommandBuffer".spec_bytes(),
        "vkCmdDraw".spec_bytes(),
        "vkCmdDrawIndexed".spec_bytes(),
        "vkCreateSwapchainKHR".spec_bytes(),
    ]
    &&& s[0].mandatory && s[1].mandatory && s[2].mandatory && s[3].mandatory && s[4].mandatory
    &&& !s[5].mandatory
}

/// The global-level schema.
pub fn entry_schema() -> (r: Vec<CommandSpec>)
    ensures
        is_entry_schema(r@),
{
    let r = vec![
        CommandSpec::new("vkCreateInstance", true),
        CommandSpec::new("vkEnumerateInstanceExtensionProperties", true),
        CommandSpec::new("vkEnumerateInstanceLayerProperties", true),
        CommandSpec::new("vkEnumerateInstanceVersion", false),
    ];
    assert(names_of(r@) =~= seq![
        "vkCreateInstance".spec_bytes(),
        "vkEnumerateInstanceExtensionProperties".spec_bytes(),
        "vkEnumerateInstanceLayerProperties".spec_bytes(),
        "vkEnumerateInstanceVersion".spec_bytes(),
    ]);
    r
}

/// The instance-level schema.
pub fn instance_schema() -> (r: Vec<CommandSpec>)
    ensures
        is_instance_schema(r@),
{
    let r = vec![
        CommandSpec::new("vkDestroyInstance", true),
        CommandSpec::new("vkEnumeratePhysicalDevices", true),
        CommandSpec::new("vkCreateDevice", true),
        CommandSpec::new("vkEnumerateDeviceExtensionProperties", true),
        CommandSpec::new("vkDestroySurfaceKHR", false),
    ];
    assert(names_of(r@) =~= seq![
        "vkDestroyInstance".spec_bytes(),
        "vkEnumeratePhysicalDevices".spec_bytes(),
        "vkCreateDevice".spec_bytes(),
        "vkEnumerateDeviceExtensionProperties".spec_bytes(),
        "vkDestroySurfaceKHR".spec_bytes(),
    ]);
    r
}

/// The device-level schema.
pub fn device_schema() -> (r: Vec<CommandSpec>)
    ensures
        is_device_schema(r@),
{
    let r = vec![
        CommandSpec::new("vkDestroyDevice", true),
        CommandSpec::new("vkBeginCommandBuffer", true),
        CommandSpec::new("vkEndCommandBuffer", true),
        CommandSpec::new("vkCmdDraw", true),
        CommandSpec::new("vkCmdDrawIndexed", true),
        CommandSpec::new("vkCreateSwapchainKHR", false),
    ];
    assert(names_of(r@) =~= seq![
        "vkDestroyDevice".spec_bytes(),
        "vkBeginCommandBuffer".spec_bytes(),
        "vkEndCommandBuffer".spec_bytes(),
        "vkCmdDraw".spec_bytes(),
        "vkCmdDrawIndexed".spec_bytes(),
        "vkCreateSwapchainKHR".spec_bytes(),
    ]);
    r
}

} // verus!
