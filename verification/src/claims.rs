//! The files that are being taken care of, so that none is taken up twice.

use vstd::prelude::*;

use crate::path::{components, FilePath};

verus! {

/// A set of paths. Two paths with the same components are one.
#[derive(Debug)]
pub struct Claims {
    paths: Vec<FilePath>,
}

impl View for Claims {
    type V = Set<Seq<Seq<u8>>>;

    /// The components of each path in the set.
    closed spec fn view(&self) -> Set<Seq<Seq<u8>>> {
        Set::new(|c: Seq<Seq<u8>>| holds(self.paths@, c))
    }
}

/// One of the paths has these components.
spec fn holds(paths: Seq<FilePath>, c: Seq<Seq<u8>>) -> bool {
    exists|i: int| 0 <= i < paths.len() && components((#[trigger] paths[i])@) == c
}

impl Claims {
    /// No path is held twice.
    pub closed spec fn wf(self) -> bool {
        forall|i: int, j: int|
            0 <= i < j < self.paths@.len() ==> components((#[trigger] self.paths@[i])@)
                != components((#[trigger] self.paths@[j])@)
    }

    /// The empty set.
    pub fn new() -> (claims: Claims)
        ensures
            claims.wf(),
            claims@ == Set::<Seq<Seq<u8>>>::empty(),
    {
        let claims = Claims { paths: Vec::new() };
        assert(claims@ =~= Set::empty());
        claims
    }

    /// Where a path stands among those held.
    fn position(&self, path: &FilePath) -> (at: Option<usize>)
        ensures
            match at {
                Some(i) => i < self.paths@.len() && components(self.paths@[i as int]@)
                    == components(path@),
                None => !holds(self.paths@, components(path@)),
            },
    {
        let len: usize = self.paths.len();
        for i in 0..len
            invariant
                len == self.paths@.len(),
                forall|j: int|
                    0 <= j < i ==> components((#[trigger] self.paths@[j])@)
                        != components(path@),
        {
            if self.paths[i].same_path(path) {
                return Some(i);
            }
        }
        None
    }

    /// Whether a path is in the set.
    pub fn contains(&self, path: &FilePath) -> (held: bool)
        ensures
            held == self@.contains(components(path@)),
    {
        self.position(path).is_some()
    }
}

/// Takes a path up, unless it is taken up already.
pub fn claim(claims: &mut Claims, path: &FilePath) -> (fresh: bool)
    requires
        old(claims).wf(),
    ensures
        final(claims).wf(),
        fresh == !old(claims)@.contains(components(path@)),
        final(claims)@ == old(claims)@.insert(components(path@)),
{
    if claims.position(path).is_some() {
        assert(claims@ =~= claims@.insert(components(path@)));
        return false;
    }
    let ghost before = claims.paths@;
    let ghost own = components(path@);
    claims.paths.push(path.clone());
    assert(claims@ =~= old(claims)@.insert(own)) by {
        assert forall|c: Seq<Seq<u8>>| holds(claims.paths@, c) == (holds(before, c) || c == own) by {
            if holds(before, c) {
                let i = choose|i: int|
                    0 <= i < before.len() && components((#[trigger] before[i])@) == c;
                assert(claims.paths@[i] == before[i]);
            }
            if c == own {
                assert(claims.paths@[before.len() as int] == *path);
            }
            if holds(claims.paths@, c) && c != own {
                let i = choose|i: int|
                    0 <= i < claims.paths@.len() && components(
                        (#[trigger] claims.paths@[i])@,
                    ) == c;
                assert(before[i] == claims.paths@[i]);
            }
        }
    }
    assert forall|i: int, j: int| 0 <= i < j < claims.paths@.len() implies components(
        (#[trigger] claims.paths@[i])@,
    ) != components((#[trigger] claims.paths@[j])@) by {
        assert(claims.paths@[i] == before[i]);
        if j < before.len() {
            assert(claims.paths@[j] == before[j]);
        }
    }
    true
}

/// Lets a path go.
pub fn release(claims: &mut Claims, path: &FilePath)
    requires
        old(claims).wf(),
    ensures
        final(claims).wf(),
        final(claims)@ == old(claims)@.remove(components(path@)),
{
    let ghost own = components(path@);
    match claims.position(path) {
        None => {
            assert(claims@ =~= claims@.remove(own));
        },
        Some(at) => {
            let ghost before = claims.paths@;
            claims.paths.swap_remove(at);
            let ghost after = claims.paths@;
            let ghost last = before.len() - 1;
            assert(forall|i: int|
                0 <= i < last ==> #[trigger] after[i] == (if i == at {
                    before[last]
                } else {
                    before[i]
                }));
            assert(claims@ =~= old(claims)@.remove(own)) by {
                assert forall|c: Seq<Seq<u8>>| holds(after, c) == (holds(before, c) && c != own) by {
                    if holds(after, c) {
                        let i = choose|i: int|
                            0 <= i < after.len() && components((#[trigger] after[i])@)
                                == c;
                        if i == at {
                            assert(components(before[last]@) == c);
                        } else {
                            assert(components(before[i]@) == c);
                        }
                    }
                    if holds(before, c) && c != own {
                        let i = choose|i: int|
                            0 <= i < before.len() && components(
                                (#[trigger] before[i])@,
                            ) == c;
                        if i == last {
                            assert(after[at as int] == before[i]);
                        } else {
                            assert(after[i] == before[i]);
                        }
                    }
                }
            }
        },
    }
}

} // verus!
