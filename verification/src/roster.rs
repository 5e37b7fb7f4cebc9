//! The instance roster: the name-to-user-count map built from the directory
//! listing, read-only for the rest of the run.
use vstd::prelude::*;
use crate::model::Instance;
use crate::parse::{parse_user_count, spec_user_count};

verus! {

struct RosterEntry {
    name: String,
    users: i32,
}

/// The roster of known instances, viewed as a map from an instance's name to
/// its user count. When the directory repeats a name, the first occurrence
/// wins; directory names are unique, so the case should not arise.
pub struct Roster {
    entries: Vec<RosterEntry>,
}

impl View for Roster {
    type V = Map<Seq<char>, i32>;

    closed spec fn view(&self) -> Map<Seq<char>, i32> {
        Map::new(
            |n: Seq<char>|
                exists|i: int|
                    0 <= i < self.entries@.len() && #[trigger] self.entries@[i].name@ == n,
            |n: Seq<char>|
                {
                    let i = choose|i: int|
                        0 <= i < self.entries@.len() && #[trigger] self.entries@[i].name@ == n;
                    self.entries@[i].users
                },
        )
    }
}

impl Roster {
    /// No two roster entries share a name, so each name's user count is the
    /// one stored beside it.
    pub closed spec fn wf(&self) -> bool {
        forall|i: int, j: int|
            #![trigger self.entries@[i], self.entries@[j]]
            0 <= i < j < self.entries@.len() ==> self.entries@[i].name@ != self.entries@[j].name@
    }

    /// Builds the roster from the directory listing: one entry per distinct
    /// name, first occurrence first, with its user-count string read as a
    /// number (zero when malformed).
    #[verifier::rlimit(50)]
    pub fn from_instances(list: &Vec<Instance>) -> (r: Roster)
        ensures
            r.wf(),
            forall|n: Seq<char>|
                #![trigger r@.dom().contains(n)]
                r@.dom().contains(n) <==> exists|i: int|
                    0 <= i < list@.len() && #[trigger] list@[i].name@ == n,
            forall|i: int|
                #![trigger list@[i]]
                0 <= i < list@.len() && (forall|j: int|
                    0 <= j < i ==> list@[j].name@ != list@[i].name@) ==> r@[list@[i].name@]
                    == spec_user_count(list@[i].users@),
    {
        let mut r = Roster { entries: Vec::new() };
        let mut k: usize = 0;
        while k < list.len()
            invariant
                k <= list@.len(),
                r.wf(),
                forall|n: Seq<char>|
                    #![trigger r@.dom().contains(n)]
                    r@.dom().contains(n) <==> exists|i: int|
                        0 <= i < k && #[trigger] list@[i].name@ == n,
                forall|i: int|
                    #![trigger list@[i]]
                    0 <= i < k && (forall|j: int|
                        0 <= j < i ==> list@[j].name@ != list@[i].name@) ==> r@[list@[i].name@]
                        == spec_user_count(list@[i].users@),
            decreases list.len() - k,
        {
            let name = &list[k].name;
            let ghost old_r = r;
            if !r.contains_name(name) {
                let users = parse_user_count(list[k].users.as_str());
                let ghost pre = r.entries@;
                r.entries.push(RosterEntry { name: name.clone(), users });
                proof {
                    let e = (RosterEntry { name: *name, users });
                    assert(r.entries@ == pre.push(e));
                    assert(r.entries@[pre.len() as int].name@ == name@);
                    assert forall|n: Seq<char>|
                        old_r@.dom().contains(n) implies #[trigger] r@.dom().contains(n)
                        && r@[n] == old_r@[n] by {
                        let w = choose|w: int|
                            0 <= w < pre.len() && #[trigger] pre[w].name@ == n;
                        assert(r.entries@[w].name@ == n);
                        let w2 = choose|w2: int|
                            0 <= w2 < r.entries@.len() && #[trigger] r.entries@[w2].name@ == n;
                        if w2 == pre.len() {
                            assert(n == name@);
                            assert(old_r@.dom().contains(name@));
                        } else {
                            assert(pre[w2].name@ == n);
                        }
                    }
                    assert forall|n: Seq<char>|
                        #[trigger] r@.dom().contains(n) && n != name@ implies old_r@.dom().contains(
                            n,
                        ) by {
                        let w = choose|w: int|
                            0 <= w < r.entries@.len() && #[trigger] r.entries@[w].name@ == n;
                        assert(pre[w].name@ == n);
                    }
                    assert(r@.dom().contains(name@));
                    assert(r@[name@] == users) by {
                        let w = choose|w: int|
                            0 <= w < r.entries@.len() && #[trigger] r.entries@[w].name@ == name@;
                        if w < pre.len() {
                            assert(old_r@.dom().contains(name@));
                        }
                    }
                    assert forall|i: int|
                        #![trigger list@[i]]
                        0 <= i < k + 1 && (forall|j: int|
                            0 <= j < i ==> list@[j].name@ != list@[i].name@) implies r@[list@[i].name@]
                        == spec_user_count(list@[i].users@) by {
                        if i < k {
                            let n = list@[i].name@;
                            assert(0 <= i < list@.len() && list@[i].name@ == n);
                            assert(old_r@.dom().contains(n));
                            assert(r@.dom().contains(n));
                            assert(r@[n] == old_r@[n]);
                        }
                    }
                }
            } else {
                proof {
                    assert forall|i: int|
                        #![trigger list@[i]]
                        0 <= i < k + 1 && (forall|j: int|
                            0 <= j < i ==> list@[j].name@ != list@[i].name@) implies r@[list@[i].name@]
                        == spec_user_count(list@[i].users@) by {
                        if i == k {
                            // the name is already listed, so an earlier
                            // occurrence exists and `k` is not the first
                            assert(r@.dom().contains(name@));
                            let j = choose|j: int|
                                0 <= j < k && #[trigger] list@[j].name@ == name@;
                            assert(list@[j].name@ == list@[i].name@);
                            assert(false);
                        }
                    }
                }
            }
            k += 1;
        }
        r
    }

    /// Whether `name` is a known roster member.
    pub fn contains_name(&self, name: &String) -> (r: bool)
        ensures
            r == self@.dom().contains(name@),
    {
        let mut i: usize = 0;
        while i < self.entries.len()
            invariant
                i <= self.entries@.len(),
                forall|j: int| 0 <= j < i ==> #[trigger] self.entries@[j].name@ != name@,
            decreases self.entries@.len() - i,
        {
            if self.entries[i].name == *name {
                return true;
            }
            i += 1;
        }
        false
    }

    /// The user count recorded for `name`, if `name` is a roster member.
    pub fn lookup(&self, name: &String) -> (r: Option<i32>)
        ensures
            r is Some <==> self@.dom().contains(name@),
            self.wf() && self@.dom().contains(name@) ==> r == Some(self@[name@]),
    {
        let mut i: usize = 0;
        while i < self.entries.len()
            invariant
                i <= self.entries@.len(),
                forall|j: int| 0 <= j < i ==> #[trigger] self.entries@[j].name@ != name@,
            decreases self.entries@.len() - i,
        {
            if self.entries[i].name == *name {
                proof {
                    if self.wf() {
                        let w = choose|w: int|
                            0 <= w < self.entries@.len() && #[trigger] self.entries@[w].name@
                                == name@;
                        assert(w == i);
                    }
                }
                return Some(self.entries[i].users);
            }
            i += 1;
        }
        None
    }
}

} // verus!
