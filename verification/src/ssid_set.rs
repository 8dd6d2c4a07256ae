//! A set of SSIDs.

use vstd::prelude::*;
use crate::text::str_eq;

verus! {

/// A set of SSIDs, kept as a list in which no SSID stands twice.
#[derive(Debug)]
pub struct SsidSet {
    items: Vec<String>,
}

/// No text occurs twice.
pub open spec fn all_different(list: Seq<String>) -> bool {
    forall|i: int, j: int| 0 <= i < j < list.len() ==> (#[trigger] list[i])@ != (#[trigger] list[j])@
}

impl View for SsidSet {
    type V = Set<Seq<char>>;

    closed spec fn view(&self) -> Set<Seq<char>> {
        Set::new(|ssid: Seq<char>| exists|i: int| 0 <= i < self.items@.len() && self.items@[i]@ == ssid)
    }
}

impl SsidSet {
    #[verifier::type_invariant]
    spec fn each_once(&self) -> bool {
        all_different(self.items@)
    }

    /// The set without members.
    pub fn new() -> (set: Self)
        ensures
            set@ == Set::<Seq<char>>::empty(),
    {
        let set = SsidSet { items: Vec::new() };
        assert(set@ =~= Set::<Seq<char>>::empty());
        set
    }

    /// Whether `ssid` is a member.
    pub fn contains(&self, ssid: &str) -> (r: bool)
        ensures
            r == self@.contains(ssid@),
    {
        let mut i: usize = 0;
        while i < self.items.len()
            invariant
                i <= self.items@.len(),
                forall|j: int| 0 <= j < i ==> self.items@[j]@ != ssid@,
            decreases self.items.len() - i,
        {
            if str_eq(self.items[i].as_str(), ssid) {
                return true;
            }
            i += 1;
        }
        false
    }

    /// Makes `ssid` a member.
    pub fn insert(&mut self, ssid: String)
        ensures
            final(self)@ == old(self)@.insert(ssid@),
    {
        proof {
            use_type_invariant(&*self);
        }
        if !self.contains(ssid.as_str()) {
            let ghost before = self.items@;
            let mut items = crate::models::clone_strings(&self.items);
            items.push(ssid);
            assert(all_different(items@)) by {
                assert forall|i: int, j: int| 0 <= i < j < items@.len() implies (
                #[trigger] items@[i])@ != (#[trigger] items@[j])@ by {
                    if j < before.len() {
                        assert(before[i]@ != before[j]@);
                    } else {
                        assert(before[i]@ != ssid@);
                    }
                }
            }
            self.items = items;
            assert forall|s: Seq<char>| final(self)@.contains(s) == old(self)@.insert(ssid@).contains(
                s,
            ) by {
                if old(self)@.contains(s) {
                    let i = choose|i: int| 0 <= i < before.len() && before[i]@ == s;
                    assert(self.items@[i]@ == s);
                }
                if s == ssid@ {
                    assert(self.items@[before.len() as int]@ == s);
                }
            }
            assert(final(self)@ =~= old(self)@.insert(ssid@));
        } else {
            assert(final(self)@ =~= old(self)@.insert(ssid@));
        }
    }

    /// Takes `ssid` out of the set.
    pub fn remove(&mut self, ssid: &str)
        ensures
            final(self)@ == old(self)@.remove(ssid@),
    {
        proof {
            use_type_invariant(&*self);
        }
        let mut kept: Vec<String> = Vec::new();
        let mut i: usize = 0;
        while i < self.items.len()
            invariant
                i <= self.items@.len(),
                all_different(self.items@),
                all_different(kept@),
                forall|j: int| 0 <= j < kept@.len() ==> (#[trigger] kept@[j])@ != ssid@,
                forall|j: int|
                    0 <= j < kept@.len() ==> exists|k: int|
                        0 <= k < i && self.items@[k]@ == (#[trigger] kept@[j])@,
                forall|k: int|
                    0 <= k < i && (#[trigger] self.items@[k])@ != ssid@ ==> exists|j: int|
                        0 <= j < kept@.len() && (#[trigger] kept@[j])@ == self.items@[k]@,
            decreases self.items.len() - i,
        {
            let ghost before = kept@;
            if !str_eq(self.items[i].as_str(), ssid) {
                kept.push(self.items[i].clone());
                assert forall|a: int, b: int| 0 <= a < b < kept@.len() implies (
                #[trigger] kept@[a])@ != (#[trigger] kept@[b])@ by {
                    if b < before.len() {
                        assert(before[a]@ != before[b]@);
                    } else {
                        let k = choose|k: int| 0 <= k < i && self.items@[k]@ == before[a]@;
                        assert(self.items@[k]@ != self.items@[i as int]@);
                    }
                }
                assert forall|k: int|
                    0 <= k < i + 1 && (#[trigger] self.items@[k])@ != ssid@ implies exists|j: int|
                    0 <= j < kept@.len() && (#[trigger] kept@[j])@ == self.items@[k]@ by {
                    if k < i {
                        let j = choose|j: int|
                            0 <= j < before.len() && (#[trigger] before[j])@ == self.items@[k]@;
                        assert(kept@[j]@ == self.items@[k]@);
                    } else {
                        assert(kept@[before.len() as int]@ == self.items@[k]@);
                    }
                }
            }
            i += 1;
        }
        let ghost olditems = self.items@;
        self.items = kept;
        proof {
            assert forall|s: Seq<char>| final(self)@.contains(s) == old(self)@.remove(ssid@).contains(
                s,
            ) by {
                if final(self)@.contains(s) {
                    let j = choose|j: int| 0 <= j < self.items@.len() && self.items@[j]@ == s;
                    let k = choose|k: int| 0 <= k < olditems.len() && olditems[k]@ == self.items@[j]@;
                    assert(olditems[k]@ == s);
                }
                if old(self)@.remove(ssid@).contains(s) {
                    let k = choose|k: int| 0 <= k < olditems.len() && olditems[k]@ == s;
                    let j = choose|j: int|
                        0 <= j < self.items@.len() && (#[trigger] self.items@[j])@ == olditems[k]@;
                    assert(self.items@[j]@ == s);
                }
            }
            assert(final(self)@ =~= old(self)@.remove(ssid@));
        }
    }

    /// The members, each once, in no particular order.
    pub fn to_vec(&self) -> (members: Vec<String>)
        ensures
            all_different(members@),
            forall|s: Seq<char>|
                self@.contains(s) <==> exists|i: int|
                    0 <= i < members@.len() && (#[trigger] members@[i])@ == s,
    {
        proof {
            use_type_invariant(self);
        }
        let members = crate::models::clone_strings(&self.items);
        assert(members@ == self.items@);
        members
    }
}

} // verus!
