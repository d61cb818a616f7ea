//! Routes through the sensor tree, and the two operations a scope performs on them.

use vstd::prelude::*;

verus! {

/// The suffix of `absolute` below `scope`, when `absolute` lies inside `scope`.
pub open spec fn relative_to(scope: Seq<u8>, absolute: Seq<u8>) -> Option<Seq<u8>> {
    if scope.is_prefix_of(absolute) {
        Some(absolute.skip(scope.len() as int))
    } else {
        None
    }
}

/// `relative` as seen from the root of the tree: `scope` followed by `relative`.
pub open spec fn absolute_from(scope: Seq<u8>, relative: Seq<u8>) -> Seq<u8> {
    scope + relative
}

/// The path from the root device to one node of the sensor tree: one hop per
/// level, root first. The empty route is the root itself.
#[derive(Debug, PartialEq, Eq)]
pub struct DeviceRoute {
    hops: Vec<u8>,
}

impl View for DeviceRoute {
    type V = Seq<u8>;

    closed spec fn view(&self) -> Seq<u8> {
        self.hops@
    }
}

impl Clone for DeviceRoute {
    fn clone(&self) -> (r: Self)
        ensures
            r@ == self@,
    {
        DeviceRoute { hops: self.hops.clone() }
    }
}

impl DeviceRoute {
    /// The route of the root device.
    pub fn root() -> (r: DeviceRoute)
        ensures
            r@ == Seq::<u8>::empty(),
    {
        DeviceRoute { hops: Vec::new() }
    }

    /// The route that takes `hops`, in order, starting at the root.
    pub fn from_hops(hops: Vec<u8>) -> (r: DeviceRoute)
        ensures
            r@ == hops@,
    {
        DeviceRoute { hops }
    }

    /// The hops of this route, root first.
    pub fn hops(&self) -> (r: &Vec<u8>)
        ensures
            r@ == self@,
    {
        &self.hops
    }

    /// Number of hops between the root and the node.
    pub fn len(&self) -> (n: usize)
        ensures
            n == self@.len(),
    {
        self.hops.len()
    }

    pub fn is_root(&self) -> (b: bool)
        ensures
            b == (self@.len() == 0),
    {
        self.hops.len() == 0
    }

    /// Whether both routes name the same node.
    pub fn same(&self, other: &DeviceRoute) -> (b: bool)
        ensures
            b == (self@ == other@),
    {
        if self.hops.len() != other.hops.len() {
            return false;
        }
        let mut i: usize = 0;
        while i < self.hops.len()
            invariant
                i <= self.hops.len(),
                self.hops.len() == other.hops.len(),
                forall|j: int| 0 <= j < i ==> self.hops@[j] == other.hops@[j],
            decreases self.hops.len() - i,
        {
            if self.hops[i] != other.hops[i] {
                return false;
            }
            i += 1;
        }
        assert(self.hops@ =~= other.hops@);
        true
    }

    /// Rewrites `absolute` to be relative to this route, taken as a scope.
    /// Fails exactly when `absolute` lies outside the scope.
    pub fn relative_route(&self, absolute: &DeviceRoute) -> (r: Result<DeviceRoute, ()>)
        ensures
            match r {
                Ok(rel) => relative_to(self@, absolute@) == Some(rel@),
                Err(_) => relative_to(self@, absolute@) is None,
            },
    {
        let n = self.hops.len();
        if absolute.hops.len() < n {
            return Err(());
        }
        let mut i: usize = 0;
        while i < n
            invariant
                i <= n,
                n == self.hops.len(),
                n <= absolute.hops.len(),
                forall|j: int| 0 <= j < i ==> self.hops@[j] == absolute.hops@[j],
            decreases n - i,
        {
            if self.hops[i] != absolute.hops[i] {
                assert(self.hops@[i as int] != absolute.hops@.subrange(0, n as int)[i as int]);
                return Err(());
            }
            i += 1;
        }
        assert(self.hops@ =~= absolute.hops@.subrange(0, n as int));
        let mut rest: Vec<u8> = Vec::new();
        let mut k: usize = n;
        while k < absolute.hops.len()
            invariant
                n <= k <= absolute.hops.len(),
                rest@ =~= absolute.hops@.subrange(n as int, k as int),
            decreases absolute.hops.len() - k,
        {
            rest.push(absolute.hops[k]);
            k += 1;
        }
        assert(rest@ =~= absolute.hops@.skip(n as int));
        Ok(DeviceRoute { hops: rest })
    }

    /// Rewrites `relative`, a route below this scope, to start at the root.
    pub fn absolute_route(&self, relative: &DeviceRoute) -> (r: DeviceRoute)
        ensures
            r@ == absolute_from(self@, relative@),
    {
        let mut hops = self.hops.clone();
        assert(hops@ =~= self.hops@);
        let mut k: usize = 0;
        while k < relative.hops.len()
            invariant
                k <= relative.hops.len(),
                hops@ =~= self.hops@ + relative.hops@.subrange(0, k as int),
            decreases relative.hops.len() - k,
        {
            hops.push(relative.hops[k]);
            k += 1;
        }
        assert(relative.hops@.subrange(0, k as int) =~= relative.hops@);
        DeviceRoute { hops }
    }
}

/// Making a route relative to a scope and absolute again gives the route back.
pub proof fn lemma_relative_then_absolute(scope: Seq<u8>, absolute: Seq<u8>)
    ensures
        relative_to(scope, absolute) matches Some(rel) ==> absolute_from(scope, rel) == absolute,
{
    if scope.is_prefix_of(absolute) {
        assert(scope + absolute.skip(scope.len() as int) =~= absolute);
    }
}

/// Every route below a scope is inside it, and making its absolute form
/// relative again gives the route back.
pub proof fn lemma_absolute_then_relative(scope: Seq<u8>, relative: Seq<u8>)
    ensures
        relative_to(scope, absolute_from(scope, relative)) == Some(relative),
{
    let abs = scope + relative;
    assert(scope =~= abs.subrange(0, scope.len() as int));
    assert(abs.skip(scope.len() as int) =~= relative);
}

/// The root scope contains every route and leaves it unchanged.
pub proof fn lemma_root_scope_is_identity(absolute: Seq<u8>)
    ensures
        relative_to(Seq::<u8>::empty(), absolute) == Some(absolute),
{
    assert(Seq::<u8>::empty() =~= absolute.subrange(0, 0));
    assert(absolute.skip(0) =~= absolute);
}

} // verus!
