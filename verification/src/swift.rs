//! The Swift backend: renders an interface description as a Swift
//! protocol declaration, `open protocol P<hex> {...}`.

use vstd::prelude::*;
use vstd::string::StringExecFns;

use crate::GenError;
use crate::hexid::{encode_hex, hex_of};
use crate::model::{
    Argument, Interface, Method, ResourceKind, Signature, check_names_unique, names_unique,
};
use crate::text::{
    lemma_numbered_push, lemma_render_all_err_at, lemma_render_all_ok, lemma_render_all_snoc,
    lemma_sep_join_push, numbered, push_dec, render_all, res_view, sep_join,
};

verus! {

/// Options for Swift generation.
#[derive(Default, Clone, Copy, Debug)]
pub struct SwiftOpts {}

/// An earlier name of [`SwiftOpts`], kept for callers that still use it.
pub type TsOpts = SwiftOpts;

/// The Swift type text for one argument.  This backend defines no
/// extra idiom for a borrowed handle; a nullable resource takes the
/// optional idiom, `(...)?`, as the outermost layer.
pub open spec fn ty_spec(o: SwiftOpts, t: Argument, this: Seq<u8>) -> Result<Seq<char>, GenError> {
    match t {
        Argument::I32 => Result::Ok("UInt32"@),
        Argument::I64 => Result::Ok("UInt64"@),
        Argument::F32 => Result::Ok("Float"@),
        Argument::F64 => Result::Ok("Double"@),
        Argument::Resource { kind, nullable, take } => {
            let base = match kind {
                ResourceKind::Erased => Result::<Seq<char>, GenError>::Ok("Any"@),
                ResourceKind::Of(a) => Result::Ok("any P"@ + hex_of(a@)),
                ResourceKind::This => Result::Ok("any P"@ + hex_of(this)),
                ResourceKind::Reserved => Result::Err(GenError::UnsupportedResourceKind),
            };
            match base {
                Result::Err(e) => Result::Err(e),
                Result::Ok(b) => Result::Ok(
                    if nullable {
                        "("@ + b + ")?"@
                    } else {
                        b
                    },
                ),
            }
        },
        Argument::Reserved => Result::Err(GenError::UnsupportedResourceKind),
    }
}

/// `ty_spec` partially applied.
pub open spec fn ty_fn(o: SwiftOpts, this: Seq<u8>) -> spec_fn(Argument) -> Result<
    Seq<char>,
    GenError,
> {
    |a: Argument| ty_spec(o, a, this)
}

/// The Swift method signature text: `(p0 _: T0,p1 _: T1) -> (r0 _: R0)`.
pub open spec fn meth_spec(o: SwiftOpts, s: Signature, this: Seq<u8>) -> Result<
    Seq<char>,
    GenError,
> {
    match render_all(ty_fn(o, this), s.params@) {
        Result::Err(e) => Result::Err(e),
        Result::Ok(ps) => match render_all(ty_fn(o, this), s.rets@) {
            Result::Err(e) => Result::Err(e),
            Result::Ok(rs) => Result::Ok(
                "("@ + sep_join(numbered(ps, "p"@, " _: "@), ","@) + ") -> ("@ + sep_join(
                    numbered(rs, "r"@, " _: "@),
                    ","@,
                ) + ")"@,
            ),
        },
    }
}

/// One method's fragment inside the declaration: `open P<hex>_<name> <sig>`.
pub open spec fn fragment_spec(o: SwiftOpts, m: Method, this: Seq<u8>) -> Result<
    Seq<char>,
    GenError,
> {
    match meth_spec(o, m.sig, this) {
        Result::Err(e) => Result::Err(e),
        Result::Ok(t) => Result::Ok("open P"@ + hex_of(this) + "_"@ + m.name@ + " "@ + t),
    }
}

/// `fragment_spec` partially applied.
pub open spec fn fragment_fn(o: SwiftOpts, this: Seq<u8>) -> spec_fn(Method) -> Result<
    Seq<char>,
    GenError,
> {
    |m: Method| fragment_spec(o, m, this)
}

/// The whole declaration: `open protocol P<hex> {<fragments>}`.
pub open spec fn interface_spec(o: SwiftOpts, i: Interface) -> Result<Seq<char>, GenError> {
    if !names_unique(i.methods@) {
        Result::Err(GenError::DuplicateMethodName)
    } else {
        match render_all(fragment_fn(o, i.resource_id@), i.methods@) {
            Result::Err(e) => Result::Err(e),
            Result::Ok(fs) => Result::Ok(
                "open protocol P"@ + hex_of(i.resource_id@) + " {"@ + sep_join(fs, Seq::empty())
                    + "}"@,
            ),
        }
    }
}

impl SwiftOpts {
    /// The Swift type for one argument of the interface identified by
    /// `this`.
    pub fn ty(&self, t: &Argument, this: [u8; 32]) -> (r: Result<String, GenError>)
        ensures
            res_view(r) == ty_spec(*self, *t, this@),
    {
        match t {
            Argument::I32 => Result::Ok("UInt32".to_owned()),
            Argument::I64 => Result::Ok("UInt64".to_owned()),
            Argument::F32 => Result::Ok("Float".to_owned()),
            Argument::F64 => Result::Ok("Double".to_owned()),
            Argument::Resource { kind, nullable, take: _ } => {
                let base: String = match kind {
                    ResourceKind::Erased => "Any".to_owned(),
                    ResourceKind::Of(a) => {
                        let mut s = "any P".to_owned();
                        s.append(encode_hex(a).as_str());
                        s
                    },
                    ResourceKind::This => {
                        let mut s = "any P".to_owned();
                        s.append(encode_hex(&this).as_str());
                        s
                    },
                    ResourceKind::Reserved => {
                        return Result::Err(GenError::UnsupportedResourceKind);
                    },
                };
                if *nullable {
                    let mut s = "(".to_owned();
                    s.append(base.as_str());
                    s.append(")?");
                    proof {
                        assert(res_view(Result::Ok(s)) =~~= ty_spec(*self, *t, this@));
                    }
                    Result::Ok(s)
                } else {
                    Result::Ok(base)
                }
            },
            Argument::Reserved => Result::Err(GenError::UnsupportedResourceKind),
        }
    }

    /// The Swift signature for one method of the interface identified
    /// by `this`: parameters and returns in their declared order.
    pub fn meth(&self, s: &Signature, this: [u8; 32]) -> (r: Result<String, GenError>)
        ensures
            res_view(r) == meth_spec(*self, *s, this@),
    {
        let ghost f = ty_fn(*self, this@);
        let mut out: String = "(".to_owned();
        let mut k: usize = 0;
        while k < s.params.len()
            invariant
                k <= s.params@.len(),
                f == ty_fn(*self, this@),
                render_all(f, s.params@.take(k as int)) is Ok,
                out@ == "("@ + sep_join(
                    numbered(render_all(f, s.params@.take(k as int))->Ok_0, "p"@, " _: "@),
                    ","@,
                ),
            decreases s.params@.len() - k,
        {
            let ghost parts = render_all(f, s.params@.take(k as int))->Ok_0;
            let t = match self.ty(&s.params[k], this) {
                Result::Ok(t) => t,
                Result::Err(e) => {
                    proof {
                        lemma_render_all_err_at(f, s.params@, k as int);
                    }
                    return Result::Err(e);
                },
            };
            proof {
                lemma_render_all_ok(f, s.params@.take(k as int));
                lemma_render_all_snoc(f, s.params@, k as int);
                lemma_numbered_push(parts, t@, "p"@, " _: "@);
                lemma_sep_join_push(numbered(parts, "p"@, " _: "@), "p"@ + crate::text::dec_of(
                    k as nat,
                ) + " _: "@ + t@, ","@);
            }
            if k > 0 {
                out.append(",");
            }
            out.append("p");
            push_dec(&mut out, k);
            out.append(" _: ");
            out.append(t.as_str());
            proof {
                assert(out@ =~= "("@ + sep_join(
                    numbered(render_all(f, s.params@.take(k as int + 1))->Ok_0, "p"@, " _: "@),
                    ","@,
                ));
            }
            k += 1;
        }
        proof {
            assert(s.params@.take(s.params@.len() as int) =~~= s.params@);
        }
        out.append(") -> (");
        let ghost pre = out@;
        let mut k: usize = 0;
        while k < s.rets.len()
            invariant
                k <= s.rets@.len(),
                f == ty_fn(*self, this@),
                render_all(f, s.params@) is Ok,
                render_all(f, s.rets@.take(k as int)) is Ok,
                out@ == pre + sep_join(
                    numbered(render_all(f, s.rets@.take(k as int))->Ok_0, "r"@, " _: "@),
                    ","@,
                ),
            decreases s.rets@.len() - k,
        {
            let ghost parts = render_all(f, s.rets@.take(k as int))->Ok_0;
            let t = match self.ty(&s.rets[k], this) {
                Result::Ok(t) => t,
                Result::Err(e) => {
                    proof {
                        lemma_render_all_err_at(f, s.rets@, k as int);
                    }
                    return Result::Err(e);
                },
            };
            proof {
                lemma_render_all_ok(f, s.rets@.take(k as int));
                lemma_render_all_snoc(f, s.rets@, k as int);
                lemma_numbered_push(parts, t@, "r"@, " _: "@);
                lemma_sep_join_push(numbered(parts, "r"@, " _: "@), "r"@ + crate::text::dec_of(
                    k as nat,
                ) + " _: "@ + t@, ","@);
            }
            if k > 0 {
                out.append(",");
            }
            out.append("r");
            push_dec(&mut out, k);
            out.append(" _: ");
            out.append(t.as_str());
            proof {
                assert(out@ =~= pre + sep_join(
                    numbered(render_all(f, s.rets@.take(k as int + 1))->Ok_0, "r"@, " _: "@),
                    ","@,
                ));
            }
            k += 1;
        }
        proof {
            assert(s.rets@.take(s.rets@.len() as int) =~~= s.rets@);
        }
        out.append(")");
        proof {
            assert(out@ =~= meth_spec(*self, *s, this@)->Ok_0);
        }
        Result::Ok(out)
    }

    /// The whole Swift declaration for the interface: every method, in
    /// declaration order, named `P<hex>_<method>`.
    #[verifier::rlimit(50)]
    pub fn interface(&self, i: &Interface) -> (r: Result<String, GenError>)
        ensures
            res_view(r) == interface_spec(*self, *i),
    {
        let this = i.rid();
        proof {
            assert(this@ =~= i.resource_id@);
        }
        if !check_names_unique(&i.methods) {
            return Result::Err(GenError::DuplicateMethodName);
        }
        let ghost f = fragment_fn(*self, i.resource_id@);
        let mut out: String = "open protocol P".to_owned();
        out.append(encode_hex(&this).as_str());
        out.append(" {");
        let ghost pre = out@;
        let mut k: usize = 0;
        while k < i.methods.len()
            invariant
                k <= i.methods@.len(),
                f == fragment_fn(*self, i.resource_id@),
                this@ == i.resource_id@,
                names_unique(i.methods@),
                render_all(f, i.methods@.take(k as int)) is Ok,
                out@ == pre + sep_join(render_all(f, i.methods@.take(k as int))->Ok_0, Seq::empty()),
            decreases i.methods@.len() - k,
        {
            let ghost parts = render_all(f, i.methods@.take(k as int))->Ok_0;
            let m = match self.meth(&i.methods[k].sig, this) {
                Result::Ok(m) => m,
                Result::Err(e) => {
                    proof {
                        lemma_render_all_err_at(f, i.methods@, k as int);
                    }
                    return Result::Err(e);
                },
            };
            proof {
                lemma_render_all_snoc(f, i.methods@, k as int);
                lemma_sep_join_push(parts, f(i.methods@[k as int])->Ok_0, Seq::empty());
            }
            out.append("open P");
            out.append(encode_hex(&this).as_str());
            out.append("_");
            out.append(i.methods[k].name.as_str());
            out.append(" ");
            out.append(m.as_str());
            proof {
                assert(out@ =~= pre + sep_join(
                    render_all(f, i.methods@.take(k as int + 1))->Ok_0,
                    Seq::empty(),
                ));
            }
            k += 1;
        }
        proof {
            assert(i.methods@.take(i.methods@.len() as int) =~~= i.methods@);
        }
        out.append("}");
        proof {
            assert(out@ =~= interface_spec(*self, *i)->Ok_0);
        }
        Result::Ok(out)
    }
}

} // verus!
