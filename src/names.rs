//! Sets of enabled extension and layer names.

use vstd::prelude::*;
use crate::strings::{StringArray, fitted};

verus! {

/// The capacity of an extension or layer name, terminator included.
pub const MAX_EXTENSION_NAME_SIZE: usize = 256;

/// An extension or layer name as the ABI stores it.
pub type ExtensionName = StringArray<256>;

/// An owned set of names, compared by their text before the first NUL.
#[derive(Debug)]
pub struct NameSet {
    names: Vec<ExtensionName>,
}

/// The texts of a sequence of names.
pub open spec fn texts_of(names: Seq<ExtensionName>) -> Seq<Seq<u8>> {
    names.map_values(|n: ExtensionName| n.view())
}

/// The texts that an ABI name array of `count` entries yields.
pub open spec fn raw_texts(strings: Seq<Vec<u8>>, count: nat) -> Set<Seq<u8>> {
    Set::new(
        |t: Seq<u8>|
            exists|i: int| 0 <= i < count && t == fitted(#[trigger] strings[i]@, MAX_EXTENSION_NAME_SIZE as nat),
    )
}

impl NameSet {
    #[verifier::type_invariant]
    spec fn inv(&self) -> bool {
        texts_of(self.names@).no_duplicates()
    }

    /// The texts of the names in this set.
    pub closed spec fn view(&self) -> Set<Seq<u8>> {
        texts_of(self.names@).to_set()
    }

    /// The empty set.
    pub fn new() -> (r: Self)
        ensures
            r.view() == Set::<Seq<u8>>::empty(),
    {
        let r = NameSet { names: Vec::new() };
        assert(r.view() =~= Set::<Seq<u8>>::empty());
        r
    }

    /// Whether a name with the same text is in this set.
    pub fn contains(&self, name: &ExtensionName) -> (r: bool)
        ensures
            r == self.view().contains(name.view()),
    {
        let mut i: usize = 0;
        while i < self.names.len()
            invariant
                i <= self.names@.len(),
                forall|j: int| 0 <= j < i ==> self.names@[j].view() != name.view(),
            decreases self.names.len() - i,
        {
            if self.names[i].same_text(name) {
                proof {
                    assert(texts_of(self.names@)[i as int] == name.view());
                }
                return true;
            }
            i += 1;
        }
        proof {
            if self.view().contains(name.view()) {
                let k = choose|k: int| 0 <= k < texts_of(self.names@).len() && texts_of(self.names@)[k] == name.view();
                assert(self.names@[k].view() == name.view());
            }
        }
        false
    }

    /// Adds a name; a name with the same text already there is kept.
    pub fn insert(&mut self, name: ExtensionName) -> (added: bool)
        ensures
            final(self).view() == old(self).view().insert(name.view()),
            added == !old(self).view().contains(name.view()),
    {
        if self.contains(&name) {
            return false;
        }
        proof {
            use_type_invariant(&*self);
        }
        let ghost before = self.names@;
        let mut names = self.clone_names();
        names.push(name);
        proof {
            let t = texts_of(names@);
            let tb = texts_of(before);
            assert(t =~= tb.push(name.view()));
            assert(!tb.contains(name.view()));
            assert forall|a: int, b: int| 0 <= a < t.len() && 0 <= b < t.len() && a != b implies t[a] != t[b] by {
                if a < tb.len() && b < tb.len() {
                    assert(tb[a] == t[a] && tb[b] == t[b]);
                } else if a < tb.len() {
                    assert(tb[a] == t[a]);
                } else {
                    assert(tb[b] == t[b]);
                }
            }
            tb.lemma_push_to_set_commute(name.view());
        }
        *self = NameSet { names };
        true
    }

    fn clone_names(&self) -> (r: Vec<ExtensionName>)
        ensures
            texts_of(r@) == texts_of(self.names@),
    {
        let mut r: Vec<ExtensionName> = Vec::new();
        let mut i: usize = 0;
        while i < self.names.len()
            invariant
                i <= self.names@.len(),
                r@.len() == i,
                forall|j: int| 0 <= j < i ==> #[trigger] r@[j].view() == self.names@[j].view(),
            decreases self.names.len() - i,
        {
            r.push(self.names[i].clone());
            i += 1;
        }
        assert(texts_of(r@) =~= texts_of(self.names@));
        r
    }

    /// The number of distinct names.
    pub fn len(&self) -> (r: usize)
        ensures
            r == self.view().len(),
    {
        proof {
            use_type_invariant(self);
            texts_of(self.names@).unique_seq_to_set();
        }
        self.names.len()
    }

    /// Whether the set holds no name.
    pub fn is_empty(&self) -> (r: bool)
        ensures
            r == (self.view() == Set::<Seq<u8>>::empty()),
    {
        proof {
            use_type_invariant(self);
            texts_of(self.names@).unique_seq_to_set();
            if self.view() == Set::<Seq<u8>>::empty() {
                assert(self.view().len() == 0);
            }
            if self.names@.len() == 0 {
                assert(self.view() =~= Set::<Seq<u8>>::empty());
            }
        }
        self.names.len() == 0
    }
}

/// Reads an ABI name array of `count` entries into a set.
///
/// An absent array, or a count of zero, gives the empty set. Each name keeps
/// its text before the first NUL, cut to fit a name's capacity.
pub fn get_names(count: u32, strings: Option<&Vec<Vec<u8>>>) -> (r: NameSet)
    requires
        strings is Some ==> count <= strings->0@.len(),
    ensures
        strings is None || count == 0 ==> r.view() == Set::<Seq<u8>>::empty(),
        strings is Some ==> r.view() == raw_texts(strings->0@, count as nat),
{
    let mut set = NameSet::new();
    match strings {
        None => set,
        Some(strings) => {
            let mut i: usize = 0;
            while i < count as usize
                invariant
                    count <= strings@.len(),
                    i <= count,
                    set.view() == raw_texts(strings@, i as nat),
                decreases count - i,
            {
                let name = ExtensionName::from_bytes(strings[i].as_slice());
                set.insert(name);
                i += 1;
                proof {
                    assert(set.view() =~= raw_texts(strings@, i as nat)) by {
                        assert forall|t: Seq<u8>| raw_texts(strings@, i as nat).contains(t) implies set.view().contains(t) by {
                            let k = choose|k: int| 0 <= k < i && t == fitted(#[trigger] strings@[k]@, MAX_EXTENSION_NAME_SIZE as nat);
                            if k < i - 1 {
                                assert(raw_texts(strings@, (i - 1) as nat).contains(t));
                            }
                        }
                        assert forall|t: Seq<u8>| set.view().contains(t) implies raw_texts(strings@, i as nat).contains(t) by {
                            if t != fitted(strings@[i - 1]@, MAX_EXTENSION_NAME_SIZE as nat) {
                                assert(raw_texts(strings@, (i - 1) as nat).contains(t));
                                let k = choose|k: int| 0 <= k < i - 1 && t == fitted(#[trigger] strings@[k]@, MAX_EXTENSION_NAME_SIZE as nat);
                            }
                        }
                    }
                }
            }
            set
        },
    }
}

} // verus!
