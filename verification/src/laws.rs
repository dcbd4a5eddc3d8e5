//! The cross-cutting laws every backend must satisfy: determinism,
//! self-reference consistency, order preservation, composition order
//! of the ownership and nullability wrappings, and the round trip
//! from an embedded identifier back to the resource identifier.

use vstd::prelude::*;

use crate::GenError;
use crate::hexid::{hex_of, lemma_hex_of_len, lemma_hex_round_trip, unhex};
use crate::model::{
    Argument, Interface, ResourceKind, Signature, iface_renderable, names_unique, renderable,
    sig_renderable,
};
use crate::text::{
    lemma_render_all_err, lemma_render_all_ok, numbered, render_all, res_view, sep_join, texts_of,
};
use crate::{c, go, haxe, rustgen, swift, ts};

verus! {

/// Determinism: every emitter's contract pins its result to a spec
/// function of the configuration and the interface alone, so two
/// results that both satisfy one emitter's contract on the same
/// inputs are byte-identical.
pub proof fn lemma_generation_deterministic(
    s: Result<Seq<char>, GenError>,
    r1: Result<String, GenError>,
    r2: Result<String, GenError>,
)
    requires
        res_view(r1) == s,
        res_view(r2) == s,
    ensures
        r1 is Ok <==> r2 is Ok,
        r1 is Ok ==> r1->Ok_0@ == r2->Ok_0@,
        r1 is Err ==> r1->Err_0 == r2->Err_0,
{
}

/// Self-reference consistency, TypeScript: inside the interface whose
/// identifier is `id`, a `This` resource renders exactly as an `Of`
/// resource naming `id`.
pub proof fn lemma_ts_self_reference(o: ts::TsOpts, id: [u8; 32], nullable: bool, take: bool)
    ensures
        ts::ty_spec(o, Argument::Resource { kind: ResourceKind::This, nullable, take }, id@)
            == ts::ty_spec(o, Argument::Resource { kind: ResourceKind::Of(id), nullable, take }, id@),
{
}

/// Self-reference consistency, Go: a reference to the enclosing
/// interface's own identifier renders bare, exactly as `This` does.
pub proof fn lemma_go_self_reference(o: go::GoOpts, id: [u8; 32], nullable: bool, take: bool)
    ensures
        go::ty_spec(o, Argument::Resource { kind: ResourceKind::This, nullable, take }, id@)
            == go::ty_spec(o, Argument::Resource { kind: ResourceKind::Of(id), nullable, take }, id@),
{
}

/// Self-reference consistency, Haxe.
pub proof fn lemma_haxe_self_reference(
    o: haxe::HaxeOpts,
    id: [u8; 32],
    nullable: bool,
    take: bool,
)
    ensures
        haxe::ty_spec(o, Argument::Resource { kind: ResourceKind::This, nullable, take }, id@)
            == haxe::ty_spec(
            o,
            Argument::Resource { kind: ResourceKind::Of(id), nullable, take },
            id@,
        ),
{
}

/// Self-reference consistency, Swift.
pub proof fn lemma_swift_self_reference(
    o: swift::SwiftOpts,
    id: [u8; 32],
    nullable: bool,
    take: bool,
)
    ensures
        swift::ty_spec(o, Argument::Resource { kind: ResourceKind::This, nullable, take }, id@)
            == swift::ty_spec(
            o,
            Argument::Resource { kind: ResourceKind::Of(id), nullable, take },
            id@,
        ),
{
}

/// Self-reference consistency, Rust.
pub proof fn lemma_rust_self_reference(
    p: rustgen::Params,
    id: [u8; 32],
    nullable: bool,
    take: bool,
)
    ensures
        rustgen::arg_spec(
            p,
            Argument::Resource { kind: ResourceKind::This, nullable, take },
            id@,
        ) == rustgen::arg_spec(
            p,
            Argument::Resource { kind: ResourceKind::Of(id), nullable, take },
            id@,
        ),
{
}

/// Order preservation, Go: a successfully rendered signature holds
/// one fragment per parameter and one per return, in the declared
/// order, and nothing else.
pub proof fn lemma_go_order(o: go::GoOpts, s: Signature, this: Seq<u8>)
    requires
        go::meth_spec(o, s, this) is Ok,
    ensures
        ({
            let ps = render_all(go::ty_fn(o, this), s.params@)->Ok_0;
            let rs = render_all(go::ty_fn(o, this), s.rets@)->Ok_0;
            &&& ps.len() == s.params@.len()
            &&& rs.len() == s.rets@.len()
            &&& forall|i: int|
                0 <= i < ps.len() ==> go::ty_spec(o, s.params@[i], this) == Result::<
                    Seq<char>,
                    GenError,
                >::Ok(#[trigger] ps[i])
            &&& forall|i: int|
                0 <= i < rs.len() ==> go::ty_spec(o, s.rets@[i], this) == Result::<
                    Seq<char>,
                    GenError,
                >::Ok(#[trigger] rs[i])
            &&& go::meth_spec(o, s, this)->Ok_0 == "("@ + sep_join(numbered(ps, "p"@, " "@), ","@)
                + ") ("@ + sep_join(rs, ","@) + ")"@
        }),
{
    lemma_render_all_ok(go::ty_fn(o, this), s.params@);
    lemma_render_all_ok(go::ty_fn(o, this), s.rets@);
}

/// Order preservation, TypeScript.
pub proof fn lemma_ts_order(o: ts::TsOpts, s: Signature, this: Seq<u8>)
    requires
        ts::meth_spec(o, s, this) is Ok,
    ensures
        ({
            let ps = render_all(ts::ty_fn(o, this), s.params@)->Ok_0;
            let rs = render_all(ts::ty_fn(o, this), s.rets@)->Ok_0;
            &&& ps.len() == s.params@.len()
            &&& rs.len() == s.rets@.len()
            &&& forall|i: int|
                0 <= i < ps.len() ==> ts::ty_spec(o, s.params@[i], this) == Result::<
                    Seq<char>,
                    GenError,
                >::Ok(#[trigger] ps[i])
            &&& forall|i: int|
                0 <= i < rs.len() ==> ts::ty_spec(o, s.rets@[i], this) == Result::<
                    Seq<char>,
                    GenError,
                >::Ok(#[trigger] rs[i])
        }),
{
    lemma_render_all_ok(ts::ty_fn(o, this), s.params@);
    lemma_render_all_ok(ts::ty_fn(o, this), s.rets@);
}

/// Order preservation, Haxe.
pub proof fn lemma_haxe_order(o: haxe::HaxeOpts, s: Signature, this: Seq<u8>)
    requires
        haxe::meth_spec(o, s, this) is Ok,
    ensures
        ({
            let ps = render_all(haxe::ty_fn(o, this), s.params@)->Ok_0;
            let rs = render_all(haxe::ty_fn(o, this), s.rets@)->Ok_0;
            &&& ps.len() == s.params@.len()
            &&& rs.len() == s.rets@.len()
            &&& forall|i: int|
                0 <= i < ps.len() ==> haxe::ty_spec(o, s.params@[i], this) == Result::<
                    Seq<char>,
                    GenError,
                >::Ok(#[trigger] ps[i])
            &&& forall|i: int|
                0 <= i < rs.len() ==> haxe::ty_spec(o, s.rets@[i], this) == Result::<
                    Seq<char>,
                    GenError,
                >::Ok(#[trigger] rs[i])
        }),
{
    lemma_render_all_ok(haxe::ty_fn(o, this), s.params@);
    lemma_render_all_ok(haxe::ty_fn(o, this), s.rets@);
}

/// Order preservation, Swift.
pub proof fn lemma_swift_order(o: swift::SwiftOpts, s: Signature, this: Seq<u8>)
    requires
        swift::meth_spec(o, s, this) is Ok,
    ensures
        ({
            let ps = render_all(swift::ty_fn(o, this), s.params@)->Ok_0;
            let rs = render_all(swift::ty_fn(o, this), s.rets@)->Ok_0;
            &&& ps.len() == s.params@.len()
            &&& rs.len() == s.rets@.len()
            &&& forall|i: int|
                0 <= i < ps.len() ==> swift::ty_spec(o, s.params@[i], this) == Result::<
                    Seq<char>,
                    GenError,
                >::Ok(#[trigger] ps[i])
            &&& forall|i: int|
                0 <= i < rs.len() ==> swift::ty_spec(o, s.rets@[i], this) == Result::<
                    Seq<char>,
                    GenError,
                >::Ok(#[trigger] rs[i])
        }),
{
    lemma_render_all_ok(swift::ty_fn(o, this), s.params@);
    lemma_render_all_ok(swift::ty_fn(o, this), s.rets@);
}

/// Order preservation, C.
pub proof fn lemma_c_order(cx: Seq<char>, s: Signature)
    requires
        c::sig_spec(cx, s) is Ok,
    ensures
        ({
            let ps = render_all(c::arg_fn(cx), s.params@)->Ok_0;
            let rs = render_all(c::arg_fn(cx), s.rets@)->Ok_0;
            &&& ps.len() == s.params@.len()
            &&& rs.len() == s.rets@.len()
            &&& forall|i: int|
                0 <= i < ps.len() ==> c::arg_spec(cx, s.params@[i]) == Result::<
                    Seq<char>,
                    GenError,
                >::Ok(#[trigger] ps[i])
            &&& forall|i: int|
                0 <= i < rs.len() ==> c::arg_spec(cx, s.rets@[i]) == Result::<
                    Seq<char>,
                    GenError,
                >::Ok(#[trigger] rs[i])
        }),
{
    lemma_render_all_ok(c::arg_fn(cx), s.params@);
    lemma_render_all_ok(c::arg_fn(cx), s.rets@);
}

/// Order preservation, Rust: this backend renders every argument, so
/// the fragments are exactly the argument renderings, in order.
pub proof fn lemma_rust_order(p: rustgen::Params, s: Signature, root: Seq<u8>)
    ensures
        ({
            let ps = texts_of(rustgen::arg_fn(p, root), s.params@);
            let rs = texts_of(rustgen::arg_fn(p, root), s.rets@);
            &&& ps.len() == s.params@.len()
            &&& rs.len() == s.rets@.len()
            &&& forall|i: int|
                0 <= i < ps.len() ==> #[trigger] ps[i] == rustgen::arg_spec(p, s.params@[i], root)
            &&& forall|i: int|
                0 <= i < rs.len() ==> #[trigger] rs[i] == rustgen::arg_spec(p, s.rets@[i], root)
        }),
{
}

/// Composition order, Rust: a borrowed nullable resource renders as
/// the optional idiom around the borrowed-handle idiom around the
/// direct reference — never the reverse nesting.
pub proof fn lemma_rust_composition_order(p: rustgen::Params, id: [u8; 32], root: Seq<u8>)
    ensures
        rustgen::arg_spec(
            p,
            Argument::Resource { kind: ResourceKind::Of(id), nullable: true, take: false },
            root,
        ) == rustgen::option_wrap_spec(
            p,
            rustgen::borrow_wrap_spec(p, rustgen::base_ref_spec(p, id@)),
        ),
        rustgen::arg_spec(
            p,
            Argument::Resource { kind: ResourceKind::This, nullable: true, take: false },
            root,
        ) == rustgen::option_wrap_spec(
            p,
            rustgen::borrow_wrap_spec(p, rustgen::base_ref_spec(p, root)),
        ),
{
}

/// When success is owed, Go: a method signature renders exactly when
/// every argument is renderable, and fails only with
/// `UnsupportedResourceKind`.
pub proof fn lemma_go_meth_success(o: go::GoOpts, s: Signature, this: Seq<u8>)
    ensures
        go::meth_spec(o, s, this) is Ok <==> sig_renderable(s),
        !sig_renderable(s) ==> go::meth_spec(o, s, this) == Result::<Seq<char>, GenError>::Err(
            GenError::UnsupportedResourceKind,
        ),
{
    let f = go::ty_fn(o, this);
    lemma_render_all_err(f, s.params@);
    lemma_render_all_err(f, s.rets@);
    assert forall|i: int| 0 <= i < s.params@.len() implies (((#[trigger] f(s.params@[i])) is Ok)
        == renderable(s.params@[i]) && (f(s.params@[i]) is Err ==> f(s.params@[i])->Err_0
        == GenError::UnsupportedResourceKind)) by {}
    assert forall|i: int| 0 <= i < s.rets@.len() implies (((#[trigger] f(s.rets@[i])) is Ok)
        == renderable(s.rets@[i]) && (f(s.rets@[i]) is Err ==> f(s.rets@[i])->Err_0
        == GenError::UnsupportedResourceKind)) by {}
    if render_all(f, s.params@) is Err {
        let j = choose|j: int|
            0 <= j < s.params@.len() && (#[trigger] f(s.params@[j])) is Err && render_all(
                f,
                s.params@,
            ) == Result::<Seq<Seq<char>>, GenError>::Err(f(s.params@[j])->Err_0) && (forall|l: int|
                0 <= l < j ==> f(s.params@[l]) is Ok);
        assert(!renderable(s.params@[j]));
        assert(render_all(f, s.params@) == Result::<Seq<Seq<char>>, GenError>::Err(
            GenError::UnsupportedResourceKind,
        ));
    }
    if render_all(f, s.rets@) is Err {
        let j = choose|j: int|
            0 <= j < s.rets@.len() && (#[trigger] f(s.rets@[j])) is Err && render_all(f, s.rets@)
                == Result::<Seq<Seq<char>>, GenError>::Err(f(s.rets@[j])->Err_0) && (forall|l: int|
                0 <= l < j ==> f(s.rets@[l]) is Ok);
        assert(!renderable(s.rets@[j]));
        assert(render_all(f, s.rets@) == Result::<Seq<Seq<char>>, GenError>::Err(
            GenError::UnsupportedResourceKind,
        ));
    }
    if !sig_renderable(s) {
        if exists|i: int| 0 <= i < s.params@.len() && !renderable(#[trigger] s.params@[i]) {
            let i = choose|i: int|
                0 <= i < s.params@.len() && !renderable(#[trigger] s.params@[i]);
            assert(f(s.params@[i]) is Err);
        } else {
            let i = choose|i: int| 0 <= i < s.rets@.len() && !renderable(#[trigger] s.rets@[i]);
            assert(f(s.rets@[i]) is Err);
        }
    }
}

/// When success is owed, Go: the whole declaration renders exactly
/// when the method names are unique and every argument is
/// renderable; each failure carries the error of its cause.
pub proof fn lemma_go_success(o: go::GoOpts, i: Interface)
    ensures
        go::interface_spec(o, i) is Ok <==> (names_unique(i.methods@) && iface_renderable(i)),
        !names_unique(i.methods@) ==> go::interface_spec(o, i) == Result::<Seq<char>, GenError>::Err(
            GenError::DuplicateMethodName,
        ),
        names_unique(i.methods@) && !iface_renderable(i) ==> go::interface_spec(o, i) == Result::<
            Seq<char>,
            GenError,
        >::Err(GenError::UnsupportedResourceKind),
{
    let f = go::fragment_fn(o, i.resource_id@);
    lemma_render_all_err(f, i.methods@);
    assert forall|k: int| 0 <= k < i.methods@.len() implies (((#[trigger] f(i.methods@[k])) is Ok)
        == sig_renderable(i.methods@[k].sig) && (f(i.methods@[k]) is Err ==> f(
        i.methods@[k],
    )->Err_0 == GenError::UnsupportedResourceKind)) by {
        lemma_go_meth_success(o, i.methods@[k].sig, i.resource_id@);
    }
    if render_all(f, i.methods@) is Err {
        let j = choose|j: int|
            0 <= j < i.methods@.len() && (#[trigger] f(i.methods@[j])) is Err && render_all(
                f,
                i.methods@,
            ) == Result::<Seq<Seq<char>>, GenError>::Err(f(i.methods@[j])->Err_0) && (forall|l: int|
                0 <= l < j ==> f(i.methods@[l]) is Ok);
        assert(!sig_renderable(i.methods@[j].sig));
        assert(render_all(f, i.methods@) == Result::<Seq<Seq<char>>, GenError>::Err(
            GenError::UnsupportedResourceKind,
        ));
    }
    if !iface_renderable(i) {
        let k = choose|k: int|
            0 <= k < i.methods@.len() && !sig_renderable(#[trigger] i.methods@[k].sig);
        assert(f(i.methods@[k]) is Err);
    }
}

/// When success is owed, Ts: a method signature renders exactly when
/// every argument is renderable, and fails only with
/// `UnsupportedResourceKind`.
pub proof fn lemma_ts_meth_success(o: ts::TsOpts, s: Signature, this: Seq<u8>)
    ensures
        ts::meth_spec(o, s, this) is Ok <==> sig_renderable(s),
        !sig_renderable(s) ==> ts::meth_spec(o, s, this) == Result::<Seq<char>, GenError>::Err(
            GenError::UnsupportedResourceKind,
        ),
{
    let f = ts::ty_fn(o, this);
    lemma_render_all_err(f, s.params@);
    lemma_render_all_err(f, s.rets@);
    assert forall|i: int| 0 <= i < s.params@.len() implies (((#[trigger] f(s.params@[i])) is Ok)
        == renderable(s.params@[i]) && (f(s.params@[i]) is Err ==> f(s.params@[i])->Err_0
        == GenError::UnsupportedResourceKind)) by {}
    assert forall|i: int| 0 <= i < s.rets@.len() implies (((#[trigger] f(s.rets@[i])) is Ok)
        == renderable(s.rets@[i]) && (f(s.rets@[i]) is Err ==> f(s.rets@[i])->Err_0
        == GenError::UnsupportedResourceKind)) by {}
    if render_all(f, s.params@) is Err {
        let j = choose|j: int|
            0 <= j < s.params@.len() && (#[trigger] f(s.params@[j])) is Err && render_all(
                f,
                s.params@,
            ) == Result::<Seq<Seq<char>>, GenError>::Err(f(s.params@[j])->Err_0) && (forall|l: int|
                0 <= l < j ==> f(s.params@[l]) is Ok);
        assert(!renderable(s.params@[j]));
        assert(render_all(f, s.params@) == Result::<Seq<Seq<char>>, GenError>::Err(
            GenError::UnsupportedResourceKind,
        ));
    }
    if render_all(f, s.rets@) is Err {
        let j = choose|j: int|
            0 <= j < s.rets@.len() && (#[trigger] f(s.rets@[j])) is Err && render_all(f, s.rets@)
                == Result::<Seq<Seq<char>>, GenError>::Err(f(s.rets@[j])->Err_0) && (forall|l: int|
                0 <= l < j ==> f(s.rets@[l]) is Ok);
        assert(!renderable(s.rets@[j]));
        assert(render_all(f, s.rets@) == Result::<Seq<Seq<char>>, GenError>::Err(
            GenError::UnsupportedResourceKind,
        ));
    }
    if !sig_renderable(s) {
        if exists|i: int| 0 <= i < s.params@.len() && !renderable(#[trigger] s.params@[i]) {
            let i = choose|i: int|
                0 <= i < s.params@.len() && !renderable(#[trigger] s.params@[i]);
            assert(f(s.params@[i]) is Err);
        } else {
            let i = choose|i: int| 0 <= i < s.rets@.len() && !renderable(#[trigger] s.rets@[i]);
            assert(f(s.rets@[i]) is Err);
        }
    }
}

/// When success is owed, Ts: the whole declaration renders exactly
/// when the method names are unique and every argument is
/// renderable; each failure carries the error of its cause.
pub proof fn lemma_ts_success(o: ts::TsOpts, i: Interface)
    ensures
        ts::interface_spec(o, i) is Ok <==> (names_unique(i.methods@) && iface_renderable(i)),
        !names_unique(i.methods@) ==> ts::interface_spec(o, i) == Result::<Seq<char>, GenError>::Err(
            GenError::DuplicateMethodName,
        ),
        names_unique(i.methods@) && !iface_renderable(i) ==> ts::interface_spec(o, i) == Result::<
            Seq<char>,
            GenError,
        >::Err(GenError::UnsupportedResourceKind),
{
    let f = ts::fragment_fn(o, i.resource_id@);
    lemma_render_all_err(f, i.methods@);
    assert forall|k: int| 0 <= k < i.methods@.len() implies (((#[trigger] f(i.methods@[k])) is Ok)
        == sig_renderable(i.methods@[k].sig) && (f(i.methods@[k]) is Err ==> f(
        i.methods@[k],
    )->Err_0 == GenError::UnsupportedResourceKind)) by {
        lemma_ts_meth_success(o, i.methods@[k].sig, i.resource_id@);
    }
    if render_all(f, i.methods@) is Err {
        let j = choose|j: int|
            0 <= j < i.methods@.len() && (#[trigger] f(i.methods@[j])) is Err && render_all(
                f,
                i.methods@,
            ) == Result::<Seq<Seq<char>>, GenError>::Err(f(i.methods@[j])->Err_0) && (forall|l: int|
                0 <= l < j ==> f(i.methods@[l]) is Ok);
        assert(!sig_renderable(i.methods@[j].sig));
        assert(render_all(f, i.methods@) == Result::<Seq<Seq<char>>, GenError>::Err(
            GenError::UnsupportedResourceKind,
        ));
    }
    if !iface_renderable(i) {
        let k = choose|k: int|
            0 <= k < i.methods@.len() && !sig_renderable(#[trigger] i.methods@[k].sig);
        assert(f(i.methods@[k]) is Err);
    }
}

/// When success is owed, Haxe: a method signature renders exactly when
/// every argument is renderable, and fails only with
/// `UnsupportedResourceKind`.
pub proof fn lemma_haxe_meth_success(o: haxe::HaxeOpts, s: Signature, this: Seq<u8>)
    ensures
        haxe::meth_spec(o, s, this) is Ok <==> sig_renderable(s),
        !sig_renderable(s) ==> haxe::meth_spec(o, s, this) == Result::<Seq<char>, GenError>::Err(
            GenError::UnsupportedResourceKind,
        ),
{
    let f = haxe::ty_fn(o, this);
    lemma_render_all_err(f, s.params@);
    lemma_render_all_err(f, s.rets@);
    assert forall|i: int| 0 <= i < s.params@.len() implies (((#[trigger] f(s.params@[i])) is Ok)
        == renderable(s.params@[i]) && (f(s.params@[i]) is Err ==> f(s.params@[i])->Err_0
        == GenError::UnsupportedResourceKind)) by {}
    assert forall|i: int| 0 <= i < s.rets@.len() implies (((#[trigger] f(s.rets@[i])) is Ok)
        == renderable(s.rets@[i]) && (f(s.rets@[i]) is Err ==> f(s.rets@[i])->Err_0
        == GenError::UnsupportedResourceKind)) by {}
    if render_all(f, s.params@) is Err {
        let j = choose|j: int|
            0 <= j < s.params@.len() && (#[trigger] f(s.params@[j])) is Err && render_all(
                f,
                s.params@,
            ) == Result::<Seq<Seq<char>>, GenError>::Err(f(s.params@[j])->Err_0) && (forall|l: int|
                0 <= l < j ==> f(s.params@[l]) is Ok);
        assert(!renderable(s.params@[j]));
        assert(render_all(f, s.params@) == Result::<Seq<Seq<char>>, GenError>::Err(
            GenError::UnsupportedResourceKind,
        ));
    }
    if render_all(f, s.rets@) is Err {
        let j = choose|j: int|
            0 <= j < s.rets@.len() && (#[trigger] f(s.rets@[j])) is Err && render_all(f, s.rets@)
                == Result::<Seq<Seq<char>>, GenError>::Err(f(s.rets@[j])->Err_0) && (forall|l: int|
                0 <= l < j ==> f(s.rets@[l]) is Ok);
        assert(!renderable(s.rets@[j]));
        assert(render_all(f, s.rets@) == Result::<Seq<Seq<char>>, GenError>::Err(
            GenError::UnsupportedResourceKind,
        ));
    }
    if !sig_renderable(s) {
        if exists|i: int| 0 <= i < s.params@.len() && !renderable(#[trigger] s.params@[i]) {
            let i = choose|i: int|
                0 <= i < s.params@.len() && !renderable(#[trigger] s.params@[i]);
            assert(f(s.params@[i]) is Err);
        } else {
            let i = choose|i: int| 0 <= i < s.rets@.len() && !renderable(#[trigger] s.rets@[i]);
            assert(f(s.rets@[i]) is Err);
        }
    }
}

/// When success is owed, Haxe: the whole declaration renders exactly
/// when the method names are unique and every argument is
/// renderable; each failure carries the error of its cause.
pub proof fn lemma_haxe_success(o: haxe::HaxeOpts, i: Interface)
    ensures
        haxe::interface_spec(o, i) is Ok <==> (names_unique(i.methods@) && iface_renderable(i)),
        !names_unique(i.methods@) ==> haxe::interface_spec(o, i) == Result::<Seq<char>, GenError>::Err(
            GenError::DuplicateMethodName,
        ),
        names_unique(i.methods@) && !iface_renderable(i) ==> haxe::interface_spec(o, i) == Result::<
            Seq<char>,
            GenError,
        >::Err(GenError::UnsupportedResourceKind),
{
    let f = haxe::fragment_fn(o, i.resource_id@);
    lemma_render_all_err(f, i.methods@);
    assert forall|k: int| 0 <= k < i.methods@.len() implies (((#[trigger] f(i.methods@[k])) is Ok)
        == sig_renderable(i.methods@[k].sig) && (f(i.methods@[k]) is Err ==> f(
        i.methods@[k],
    )->Err_0 == GenError::UnsupportedResourceKind)) by {
        lemma_haxe_meth_success(o, i.methods@[k].sig, i.resource_id@);
    }
    if render_all(f, i.methods@) is Err {
        let j = choose|j: int|
            0 <= j < i.methods@.len() && (#[trigger] f(i.methods@[j])) is Err && render_all(
                f,
                i.methods@,
            ) == Result::<Seq<Seq<char>>, GenError>::Err(f(i.methods@[j])->Err_0) && (forall|l: int|
                0 <= l < j ==> f(i.methods@[l]) is Ok);
        assert(!sig_renderable(i.methods@[j].sig));
        assert(render_all(f, i.methods@) == Result::<Seq<Seq<char>>, GenError>::Err(
            GenError::UnsupportedResourceKind,
        ));
    }
    if !iface_renderable(i) {
        let k = choose|k: int|
            0 <= k < i.methods@.len() && !sig_renderable(#[trigger] i.methods@[k].sig);
        assert(f(i.methods@[k]) is Err);
    }
}

/// When success is owed, Swift: a method signature renders exactly when
/// every argument is renderable, and fails only with
/// `UnsupportedResourceKind`.
pub proof fn lemma_swift_meth_success(o: swift::SwiftOpts, s: Signature, this: Seq<u8>)
    ensures
        swift::meth_spec(o, s, this) is Ok <==> sig_renderable(s),
        !sig_renderable(s) ==> swift::meth_spec(o, s, this) == Result::<Seq<char>, GenError>::Err(
            GenError::UnsupportedResourceKind,
        ),
{
    let f = swift::ty_fn(o, this);
    lemma_render_all_err(f, s.params@);
    lemma_render_all_err(f, s.rets@);
    assert forall|i: int| 0 <= i < s.params@.len() implies (((#[trigger] f(s.params@[i])) is Ok)
        == renderable(s.params@[i]) && (f(s.params@[i]) is Err ==> f(s.params@[i])->Err_0
        == GenError::UnsupportedResourceKind)) by {}
    assert forall|i: int| 0 <= i < s.rets@.len() implies (((#[trigger] f(s.rets@[i])) is Ok)
        == renderable(s.rets@[i]) && (f(s.rets@[i]) is Err ==> f(s.rets@[i])->Err_0
        == GenError::UnsupportedResourceKind)) by {}
    if render_all(f, s.params@) is Err {
        let j = choose|j: int|
            0 <= j < s.params@.len() && (#[trigger] f(s.params@[j])) is Err && render_all(
                f,
                s.params@,
            ) == Result::<Seq<Seq<char>>, GenError>::Err(f(s.params@[j])->Err_0) && (forall|l: int|
                0 <= l < j ==> f(s.params@[l]) is Ok);
        assert(!renderable(s.params@[j]));
        assert(render_all(f, s.params@) == Result::<Seq<Seq<char>>, GenError>::Err(
            GenError::UnsupportedResourceKind,
        ));
    }
    if render_all(f, s.rets@) is Err {
        let j = choose|j: int|
            0 <= j < s.rets@.len() && (#[trigger] f(s.rets@[j])) is Err && render_all(f, s.rets@)
                == Result::<Seq<Seq<char>>, GenError>::Err(f(s.rets@[j])->Err_0) && (forall|l: int|
                0 <= l < j ==> f(s.rets@[l]) is Ok);
        assert(!renderable(s.rets@[j]));
        assert(render_all(f, s.rets@) == Result::<Seq<Seq<char>>, GenError>::Err(
            GenError::UnsupportedResourceKind,
        ));
    }
    if !sig_renderable(s) {
        if exists|i: int| 0 <= i < s.params@.len() && !renderable(#[trigger] s.params@[i]) {
            let i = choose|i: int|
                0 <= i < s.params@.len() && !renderable(#[trigger] s.params@[i]);
            assert(f(s.params@[i]) is Err);
        } else {
            let i = choose|i: int| 0 <= i < s.rets@.len() && !renderable(#[trigger] s.rets@[i]);
            assert(f(s.rets@[i]) is Err);
        }
    }
}

/// When success is owed, Swift: the whole declaration renders exactly
/// when the method names are unique and every argument is
/// renderable; each failure carries the error of its cause.
pub proof fn lemma_swift_success(o: swift::SwiftOpts, i: Interface)
    ensures
        swift::interface_spec(o, i) is Ok <==> (names_unique(i.methods@) && iface_renderable(i)),
        !names_unique(i.methods@) ==> swift::interface_spec(o, i) == Result::<Seq<char>, GenError>::Err(
            GenError::DuplicateMethodName,
        ),
        names_unique(i.methods@) && !iface_renderable(i) ==> swift::interface_spec(o, i) == Result::<
            Seq<char>,
            GenError,
        >::Err(GenError::UnsupportedResourceKind),
{
    let f = swift::fragment_fn(o, i.resource_id@);
    lemma_render_all_err(f, i.methods@);
    assert forall|k: int| 0 <= k < i.methods@.len() implies (((#[trigger] f(i.methods@[k])) is Ok)
        == sig_renderable(i.methods@[k].sig) && (f(i.methods@[k]) is Err ==> f(
        i.methods@[k],
    )->Err_0 == GenError::UnsupportedResourceKind)) by {
        lemma_swift_meth_success(o, i.methods@[k].sig, i.resource_id@);
    }
    if render_all(f, i.methods@) is Err {
        let j = choose|j: int|
            0 <= j < i.methods@.len() && (#[trigger] f(i.methods@[j])) is Err && render_all(
                f,
                i.methods@,
            ) == Result::<Seq<Seq<char>>, GenError>::Err(f(i.methods@[j])->Err_0) && (forall|l: int|
                0 <= l < j ==> f(i.methods@[l]) is Ok);
        assert(!sig_renderable(i.methods@[j].sig));
        assert(render_all(f, i.methods@) == Result::<Seq<Seq<char>>, GenError>::Err(
            GenError::UnsupportedResourceKind,
        ));
    }
    if !iface_renderable(i) {
        let k = choose|k: int|
            0 <= k < i.methods@.len() && !sig_renderable(#[trigger] i.methods@[k].sig);
        assert(f(i.methods@[k]) is Err);
    }
}

/// When success is owed, C: the `vfunc` fragment renders exactly
/// when every argument is renderable, and fails only with
/// `UnsupportedResourceKind`.
pub proof fn lemma_c_sig_success(cx: Seq<char>, s: Signature)
    ensures
        c::sig_spec(cx, s) is Ok <==> sig_renderable(s),
        !sig_renderable(s) ==> c::sig_spec(cx, s) == Result::<Seq<char>, GenError>::Err(
            GenError::UnsupportedResourceKind,
        ),
{
    let f = c::arg_fn(cx);
    lemma_render_all_err(f, s.params@);
    lemma_render_all_err(f, s.rets@);
    assert forall|i: int| 0 <= i < s.params@.len() implies (((#[trigger] f(s.params@[i])) is Ok)
        == renderable(s.params@[i]) && (f(s.params@[i]) is Err ==> f(s.params@[i])->Err_0
        == GenError::UnsupportedResourceKind)) by {}
    assert forall|i: int| 0 <= i < s.rets@.len() implies (((#[trigger] f(s.rets@[i])) is Ok)
        == renderable(s.rets@[i]) && (f(s.rets@[i]) is Err ==> f(s.rets@[i])->Err_0
        == GenError::UnsupportedResourceKind)) by {}
    if render_all(f, s.params@) is Err {
        let j = choose|j: int|
            0 <= j < s.params@.len() && (#[trigger] f(s.params@[j])) is Err && render_all(
                f,
                s.params@,
            ) == Result::<Seq<Seq<char>>, GenError>::Err(f(s.params@[j])->Err_0) && (forall|l: int|
                0 <= l < j ==> f(s.params@[l]) is Ok);
        assert(!renderable(s.params@[j]));
        assert(render_all(f, s.params@) == Result::<Seq<Seq<char>>, GenError>::Err(
            GenError::UnsupportedResourceKind,
        ));
    }
    if render_all(f, s.rets@) is Err {
        let j = choose|j: int|
            0 <= j < s.rets@.len() && (#[trigger] f(s.rets@[j])) is Err && render_all(f, s.rets@)
                == Result::<Seq<Seq<char>>, GenError>::Err(f(s.rets@[j])->Err_0) && (forall|l: int|
                0 <= l < j ==> f(s.rets@[l]) is Ok);
        assert(!renderable(s.rets@[j]));
        assert(render_all(f, s.rets@) == Result::<Seq<Seq<char>>, GenError>::Err(
            GenError::UnsupportedResourceKind,
        ));
    }
    if !sig_renderable(s) {
        if exists|i: int| 0 <= i < s.params@.len() && !renderable(#[trigger] s.params@[i]) {
            let i = choose|i: int|
                0 <= i < s.params@.len() && !renderable(#[trigger] s.params@[i]);
            assert(f(s.params@[i]) is Err);
        } else {
            let i = choose|i: int| 0 <= i < s.rets@.len() && !renderable(#[trigger] s.rets@[i]);
            assert(f(s.rets@[i]) is Err);
        }
    }
}

/// When success is owed, C: the macro table renders exactly when the
/// method names are unique and every argument is renderable; each
/// failure carries the error of its cause.
pub proof fn lemma_c_success(cx: Seq<char>, i: Interface)
    ensures
        c::interface_spec(cx, i) is Ok <==> (names_unique(i.methods@) && iface_renderable(i)),
        !names_unique(i.methods@) ==> c::interface_spec(cx, i) == Result::<Seq<char>, GenError>::Err(
            GenError::DuplicateMethodName,
        ),
        names_unique(i.methods@) && !iface_renderable(i) ==> c::interface_spec(cx, i) == Result::<
            Seq<char>,
            GenError,
        >::Err(GenError::UnsupportedResourceKind),
{
    let f = c::define_fn(cx, i.resource_id@);
    lemma_render_all_err(f, i.methods@);
    assert forall|k: int| 0 <= k < i.methods@.len() implies (((#[trigger] f(i.methods@[k])) is Ok)
        == sig_renderable(i.methods@[k].sig) && (f(i.methods@[k]) is Err ==> f(
        i.methods@[k],
    )->Err_0 == GenError::UnsupportedResourceKind)) by {
        lemma_c_sig_success(cx, i.methods@[k].sig);
    }
    if render_all(f, i.methods@) is Err {
        let j = choose|j: int|
            0 <= j < i.methods@.len() && (#[trigger] f(i.methods@[j])) is Err && render_all(
                f,
                i.methods@,
            ) == Result::<Seq<Seq<char>>, GenError>::Err(f(i.methods@[j])->Err_0) && (forall|l: int|
                0 <= l < j ==> f(i.methods@[l]) is Ok);
        assert(!sig_renderable(i.methods@[j].sig));
        assert(render_all(f, i.methods@) == Result::<Seq<Seq<char>>, GenError>::Err(
            GenError::UnsupportedResourceKind,
        ));
    }
    if !iface_renderable(i) {
        let k = choose|k: int|
            0 <= k < i.methods@.len() && !sig_renderable(#[trigger] i.methods@[k].sig);
        assert(f(i.methods@[k]) is Err);
    }
}

/// When success is owed, scoped C: as for the C backend.
pub proof fn lemma_c_scoped_success(i: Interface)
    ensures
        crate::c_scoped::interface_spec(i) is Ok <==> (names_unique(i.methods@)
            && iface_renderable(i)),
        !names_unique(i.methods@) ==> crate::c_scoped::interface_spec(i) == Result::<
            Seq<char>,
            GenError,
        >::Err(GenError::DuplicateMethodName),
        names_unique(i.methods@) && !iface_renderable(i) ==> crate::c_scoped::interface_spec(i)
            == Result::<Seq<char>, GenError>::Err(GenError::UnsupportedResourceKind),
{
    let f = crate::c_scoped::define_fn(i.resource_id@);
    lemma_render_all_err(f, i.methods@);
    assert forall|k: int| 0 <= k < i.methods@.len() implies (((#[trigger] f(i.methods@[k])) is Ok)
        == sig_renderable(i.methods@[k].sig) && (f(i.methods@[k]) is Err ==> f(
        i.methods@[k],
    )->Err_0 == GenError::UnsupportedResourceKind)) by {
        lemma_c_sig_success("Cx"@, i.methods@[k].sig);
    }
    if render_all(f, i.methods@) is Err {
        let j = choose|j: int|
            0 <= j < i.methods@.len() && (#[trigger] f(i.methods@[j])) is Err && render_all(
                f,
                i.methods@,
            ) == Result::<Seq<Seq<char>>, GenError>::Err(f(i.methods@[j])->Err_0) && (forall|l: int|
                0 <= l < j ==> f(i.methods@[l]) is Ok);
        assert(!sig_renderable(i.methods@[j].sig));
        assert(render_all(f, i.methods@) == Result::<Seq<Seq<char>>, GenError>::Err(
            GenError::UnsupportedResourceKind,
        ));
    }
    if !iface_renderable(i) {
        let k = choose|k: int|
            0 <= k < i.methods@.len() && !sig_renderable(#[trigger] i.methods@[k].sig);
        assert(f(i.methods@[k]) is Err);
    }
}

/// When success is owed, Rust: this backend renders every argument
/// kind, so the whole declaration renders exactly when the method
/// names are unique.
pub proof fn lemma_rust_success(p: rustgen::Params, i: Interface)
    ensures
        rustgen::interface_spec(p, i) is Ok <==> names_unique(i.methods@),
        !names_unique(i.methods@) ==> rustgen::interface_spec(p, i) == Result::<
            Seq<char>,
            GenError,
        >::Err(GenError::DuplicateMethodName),
{
}

/// Composition order, Swift: this backend defines no extra idiom for
/// a borrowed handle, so for every renderable kind the nullable
/// rendering is the optional idiom around the bare rendering — never
/// the reverse nesting.
pub proof fn lemma_swift_nullable_outermost(
    o: swift::SwiftOpts,
    kind: ResourceKind,
    take: bool,
    this: Seq<u8>,
)
    requires
        !(kind is Reserved),
    ensures
        swift::ty_spec(o, Argument::Resource { kind, nullable: true, take }, this) == Result::<
            Seq<char>,
            GenError,
        >::Ok(
            "("@ + swift::ty_spec(o, Argument::Resource { kind, nullable: false, take }, this)->Ok_0
                + ")?"@,
        ),
{
}

/// Composition order, Rust, erased resource: `nullable` still adds
/// the `Option` layer outermost around the type-erased bound.
pub proof fn lemma_rust_erased_nullable(p: rustgen::Params, root: Seq<u8>, take: bool)
    ensures
        rustgen::arg_spec(
            p,
            Argument::Resource { kind: ResourceKind::Erased, nullable: true, take },
            root,
        ) == rustgen::option_wrap_spec(p, rustgen::sized_spec(p)),
{
}

/// Round trip, Go: the identifier text embedded in a generated
/// declaration is the hex encoding of the resource identifier, and
/// decoding it reproduces the identifier.
pub proof fn lemma_go_embedded_id(o: go::GoOpts, i: Interface)
    requires
        go::interface_spec(o, i) is Ok,
    ensures
        ({
            let t = go::interface_spec(o, i)->Ok_0;
            &&& t.subrange(6, 70) == hex_of(i.resource_id@)
            &&& unhex(t.subrange(6, 70)) == i.resource_id@
        }),
{
    reveal_strlit("type P");
    lemma_hex_of_len(i.resource_id@);
    let t = go::interface_spec(o, i)->Ok_0;
    assert(t.subrange(6, 70) =~= hex_of(i.resource_id@));
    lemma_hex_round_trip(i.resource_id@);
}

} // verus!
