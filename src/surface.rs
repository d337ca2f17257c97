//! The instance extensions that window-surface integration can need.

use vstd::prelude::*;
use vstd::string::StringSliceAdditionalSpecFns;
use crate::names::{ExtensionName, NameSet};
use crate::strings::fitted;

verus! {

/// The texts of the surface-related instance extensions, in the order
/// they are asked for.
pub open spec fn surface_extensions() -> Seq<Seq<u8>> {
    seq![
        fitted("VK_EXT_metal_surface".spec_bytes(), 256),
        fitted("VK_KHR_android_surface".spec_bytes(), 256),
        fitted("VK_KHR_get_physical_device_properties2".spec_bytes(), 256),
        fitted("VK_KHR_get_surface_capabilities2".spec_bytes(), 256),
        fitted("VK_KHR_surface".spec_bytes(), 256),
        fitted("VK_KHR_wayland_surface".spec_bytes(), 256),
        fitted("VK_KHR_win32_surface".spec_bytes(), 256),
        fitted("VK_KHR_xcb_surface".spec_bytes(), 256),
        fitted("VK_KHR_xlib_surface".spec_bytes(), 256),
        fitted("VK_MVK_ios_surface".spec_bytes(), 256),
        fitted("VK_MVK_macos_surface".spec_bytes(), 256)
    ]
}

/// The surface-related extension names.
fn surface_extension_names() -> (r: Vec<&'static str>)
    ensures
        r@.len() == surface_extensions().len(),
        forall|i: int| 0 <= i < r@.len() ==> fitted(#[trigger] r@[i].spec_bytes(), 256) == surface_extensions()[i],
{
    vec![
        "VK_EXT_metal_surface",
        "VK_KHR_android_surface",
        "VK_KHR_get_physical_device_properties2",
        "VK_KHR_get_surface_capabilities2",
        "VK_KHR_surface",
        "VK_KHR_wayland_surface",
        "VK_KHR_win32_surface",
        "VK_KHR_xcb_surface",
        "VK_KHR_xlib_surface",
        "VK_MVK_ios_surface",
        "VK_MVK_macos_surface"
    ]
}

/// The names of the views of `names`.
pub open spec fn views_of(names: Seq<ExtensionName>) -> Seq<Seq<u8>> {
    names.map_values(|n: ExtensionName| n.view())
}

/// The surface-related extensions that `available` holds, in the order
/// they are asked for.
pub fn get_required_instance_extensions(available: &NameSet) -> (r: Vec<ExtensionName>)
    ensures
        views_of(r@) == surface_extensions().filter(|t: Seq<u8>| available.view().contains(t)),
{
    let all = surface_extension_names();
    let ghost req = surface_extensions();
    let ghost keep = |t: Seq<u8>| available.view().contains(t);
    let mut out: Vec<ExtensionName> = Vec::new();
    let mut i: usize = 0;
    while i < all.len()
        invariant
            req == surface_extensions(),
            keep == (|t: Seq<u8>| available.view().contains(t)),
            all@.len() == req.len(),
            forall|j: int| 0 <= j < all@.len() ==> fitted(#[trigger] all@[j].spec_bytes(), 256) == req[j],
            i <= all@.len(),
            views_of(out@) == req.subrange(0, i as int).filter(keep),
        decreases all.len() - i,
    {
        let name = ExtensionName::from_bytes(all[i].as_bytes());
        proof {
            assert(req.subrange(0, i + 1).drop_last() =~= req.subrange(0, i as int));
            assert(req.subrange(0, i + 1).last() == req[i as int]);
            assert(name.view() == req[i as int]);
        }
        let ghost prev = req.subrange(0, i as int).filter(keep);
        let ghost next_seq = req.subrange(0, i + 1);
        proof {
            assert(next_seq.len() == i + 1);
            assert(next_seq.drop_last() =~= req.subrange(0, i as int));
            assert(next_seq.last() == req[i as int]);
            reveal_with_fuel(Seq::filter, 1);
        }
        if available.contains(&name) {
            out.push(name);
            proof {
                assert(keep(req[i as int]));
                assert(next_seq.filter(keep) == prev.push(req[i as int]));
                assert(views_of(out@) =~= views_of(out@.drop_last()).push(req[i as int]));
            }
        } else {
            proof {
                assert(!keep(req[i as int]));
                assert(next_seq.filter(keep) == prev);
            }
        }
        i += 1;
    }
    assert(req.subrange(0, i as int) =~= req);
    out
}

} // verus!
