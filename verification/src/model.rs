//! The interface description that every backend renders: methods with
//! ordered, typed parameters and returns, plus the 32-byte resource
//! identifier that the interface is known by.  The identifier is
//! computed upstream and consumed here as an opaque value.

use vstd::prelude::*;

verus! {

/// What a resource argument refers to.
#[derive(Clone, Copy, Debug)]
pub enum ResourceKind {
    /// A type-erased "any" resource.
    Erased,
    /// A reference to a distinct, externally defined interface.
    Of([u8; 32]),
    /// A self-reference to the interface currently being generated.
    This,
    /// A forward-compatible kind this version assigns no meaning to.
    Reserved,
}

/// One parameter or return type.
#[derive(Clone, Copy, Debug)]
pub enum Argument {
    I32,
    I64,
    F32,
    F64,
    Resource { kind: ResourceKind, nullable: bool, take: bool },
    /// A forward-compatible argument this version assigns no meaning to.
    Reserved,
}

/// One method: ordered parameters and ordered returns.
#[derive(Clone, Debug)]
pub struct Signature {
    pub params: Vec<Argument>,
    pub rets: Vec<Argument>,
}

/// One named method of an interface.
#[derive(Clone, Debug)]
pub struct Method {
    pub name: String,
    pub sig: Signature,
}

/// An interface: its resource identifier and its methods, in
/// declaration order.  Method names are unique upstream; the emitters
/// check that defensively.
#[derive(Clone, Debug)]
pub struct Interface {
    pub resource_id: [u8; 32],
    pub methods: Vec<Method>,
}

impl Interface {
    /// The interface's stable resource identifier.
    pub fn rid(&self) -> (r: [u8; 32])
        ensures
            r@ == self.resource_id@,
    {
        self.resource_id
    }
}

/// Whether this version assigns the argument a meaning.  Backends
/// without a documented fallback render exactly these arguments and
/// report the others.
pub open spec fn renderable(a: Argument) -> bool {
    match a {
        Argument::Resource { kind, nullable, take } => !(kind is Reserved),
        Argument::Reserved => false,
        _ => true,
    }
}

/// Whether every parameter and return of the signature is renderable.
pub open spec fn sig_renderable(s: Signature) -> bool {
    &&& forall|i: int| 0 <= i < s.params@.len() ==> renderable(#[trigger] s.params@[i])
    &&& forall|i: int| 0 <= i < s.rets@.len() ==> renderable(#[trigger] s.rets@[i])
}

/// Whether every method of the interface is renderable.
pub open spec fn iface_renderable(i: Interface) -> bool {
    forall|k: int| 0 <= k < i.methods@.len() ==> sig_renderable(#[trigger] i.methods@[k].sig)
}

/// Whether the methods carry pairwise distinct names.
pub open spec fn names_unique(ms: Seq<Method>) -> bool {
    forall|i: int, j: int| 0 <= i < j < ms.len() ==> ms[i].name@ != ms[j].name@
}

/// Checks method names for duplicates.
pub fn check_names_unique(ms: &Vec<Method>) -> (r: bool)
    ensures
        r == names_unique(ms@),
{
    let mut i: usize = 0;
    while i < ms.len()
        invariant
            i <= ms@.len(),
            forall|p: int, q: int| 0 <= p < q < ms@.len() && p < i ==> ms@[p].name@ != ms@[q].name@,
        decreases ms@.len() - i,
    {
        let mut j: usize = i + 1;
        while j < ms.len()
            invariant
                i < j <= ms@.len() || (i >= ms@.len() && j == i + 1),
                i < ms@.len(),
                forall|q: int| i < q < j ==> ms@[i as int].name@ != ms@[q].name@,
                forall|p: int, q: int|
                    0 <= p < q < ms@.len() && p < i ==> ms@[p].name@ != ms@[q].name@,
            decreases ms@.len() - j,
        {
            if ms[i].name.eq(&ms[j].name) {
                return false;
            }
            j += 1;
        }
        i += 1;
    }
    true
}

/// A package rewrite table: a resource identifier is rendered inside
/// the import path it is mapped to; an absent entry selects a
/// synthesized default namespace instead.  The first entry for an
/// identifier wins.
pub open spec fn rewrite_lookup(rs: Seq<([u8; 32], String)>, id: Seq<u8>) -> Option<Seq<char>>
    decreases rs.len(),
{
    if rs.len() == 0 {
        Option::None
    } else if rs[0].0@ == id {
        Option::Some(rs[0].1@)
    } else {
        rewrite_lookup(rs.skip(1), id)
    }
}

/// Compares two identifiers byte for byte.
pub fn ids_equal(a: &[u8; 32], b: &[u8; 32]) -> (r: bool)
    ensures
        r == (a@ == b@),
{
    let mut k: usize = 0;
    while k < 32
        invariant
            k <= 32,
            a@.len() == 32,
            b@.len() == 32,
            forall|p: int| 0 <= p < k ==> a@[p] == b@[p],
        decreases 32 - k,
    {
        if a[k] != b[k] {
            return false;
        }
        k += 1;
    }
    proof {
        assert(a@ =~= b@);
    }
    true
}

/// Looks `id` up in the rewrite table.
pub fn lookup_rewrite<'a>(rs: &'a Vec<([u8; 32], String)>, id: &[u8; 32]) -> (r: Option<
    &'a String,
>)
    ensures
        match r {
            Option::Some(s) => rewrite_lookup(rs@, id@) == Option::Some(s@),
            Option::None => rewrite_lookup(rs@, id@) is None,
        },
{
    proof {
        assert(rs@.skip(0) =~= rs@);
    }
    let mut k: usize = 0;
    while k < rs.len()
        invariant
            k <= rs@.len(),
            rewrite_lookup(rs@.skip(k as int), id@) == rewrite_lookup(rs@, id@),
        decreases rs@.len() - k,
    {
        proof {
            assert(rs@.skip(k as int)[0] == rs@[k as int]);
            assert(rs@.skip(k as int).skip(1) =~= rs@.skip(k as int + 1));
        }
        if ids_equal(&rs[k].0, id) {
            return Option::Some(&rs[k].1);
        }
        k += 1;
    }
    Option::None
}

} // verus!
