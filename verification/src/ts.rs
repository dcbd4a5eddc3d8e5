//! The TypeScript backend: renders an interface description as a
//! TypeScript type declaration, `export type P<hex> = {...}`.  In
//! async mode names carry an `A` prefix and returns offer a `Promise`
//! variant.

use vstd::prelude::*;
use vstd::string::StringExecFns;

use crate::GenError;
use crate::hexid::{encode_hex, hex_of};
use crate::model::{
    Argument, Interface, Method, ResourceKind, Signature, check_names_unique, names_unique,
};
use crate::text::{
    lemma_numbered_push, lemma_render_all_err_at, lemma_render_all_ok, lemma_render_all_snoc,
    lemma_sep_join_push, numbered, push_dec, render_all, res_view, sep_join,
};

verus! {

/// Options for TypeScript generation.
#[derive(Default, Clone, Copy, Debug)]
pub struct TsOpts {
    /// When set, type names carry an `A` prefix and every return type
    /// offers a `Promise` variant, so that the same interface under
    /// the two modes never collides on a name.
    pub async_mode: bool,
}

/// The naming prefix the mode selects.
pub open spec fn mode_spec(o: TsOpts) -> Seq<char> {
    if o.async_mode {
        "A"@
    } else {
        Seq::empty()
    }
}

/// The TypeScript type text for one argument; the optional idiom
/// (`| undefined`) is the outermost layer.
pub open spec fn ty_spec(o: TsOpts, t: Argument, this: Seq<u8>) -> Result<Seq<char>, GenError> {
    match t {
        Argument::I32 => Result::Ok("number"@),
        Argument::I64 => Result::Ok("bigint"@),
        Argument::F32 => Result::Ok("number"@),
        Argument::F64 => Result::Ok("number"@),
        Argument::Resource { kind, nullable, take } => {
            let base = match kind {
                ResourceKind::Erased => Result::<Seq<char>, GenError>::Ok("any"@),
                ResourceKind::Of(a) => Result::Ok(mode_spec(o) + "P"@ + hex_of(a@)),
                ResourceKind::This => Result::Ok(mode_spec(o) + "P"@ + hex_of(this)),
                ResourceKind::Reserved => Result::Err(GenError::UnsupportedResourceKind),
            };
            match base {
                Result::Err(e) => Result::Err(e),
                Result::Ok(b) => Result::Ok(
                    if nullable {
                        b + " | undefined"@
                    } else {
                        b
                    },
                ),
            }
        },
        Argument::Reserved => Result::Err(GenError::UnsupportedResourceKind),
    }
}

/// `ty_spec` partially applied.
pub open spec fn ty_fn(o: TsOpts, this: Seq<u8>) -> spec_fn(Argument) -> Result<
    Seq<char>,
    GenError,
> {
    |a: Argument| ty_spec(o, a, this)
}

/// The TypeScript method signature text:
/// `(p0: T0,p1: T1): [R0,R1]` plus, in async mode, `| Promise<[R0,R1]>`.
pub open spec fn meth_spec(o: TsOpts, s: Signature, this: Seq<u8>) -> Result<Seq<char>, GenError> {
    match render_all(ty_fn(o, this), s.params@) {
        Result::Err(e) => Result::Err(e),
        Result::Ok(ps) => match render_all(ty_fn(o, this), s.rets@) {
            Result::Err(e) => Result::Err(e),
            Result::Ok(rs) => {
                let rj = sep_join(rs, ","@);
                Result::Ok(
                    "("@ + sep_join(numbered(ps, "p"@, ": "@), ","@) + "): ["@ + rj + "]"@ + (
                    if o.async_mode {
                        "| Promise<["@ + rj + "]>"@
                    } else {
                        Seq::empty()
                    }),
                )
            },
        },
    }
}

/// One method's fragment inside the declaration: `<m>P<hex>_<name> <sig>`.
pub open spec fn fragment_spec(o: TsOpts, m: Method, this: Seq<u8>) -> Result<
    Seq<char>,
    GenError,
> {
    match meth_spec(o, m.sig, this) {
        Result::Err(e) => Result::Err(e),
        Result::Ok(t) => Result::Ok(mode_spec(o) + "P"@ + hex_of(this) + "_"@ + m.name@ + " "@ + t),
    }
}

/// `fragment_spec` partially applied.
pub open spec fn fragment_fn(o: TsOpts, this: Seq<u8>) -> spec_fn(Method) -> Result<
    Seq<char>,
    GenError,
> {
    |m: Method| fragment_spec(o, m, this)
}

/// The whole declaration: `export type <m>P<hex> = {<fragments>}`.
pub open spec fn interface_spec(o: TsOpts, i: Interface) -> Result<Seq<char>, GenError> {
    if !names_unique(i.methods@) {
        Result::Err(GenError::DuplicateMethodName)
    } else {
        match render_all(fragment_fn(o, i.resource_id@), i.methods@) {
            Result::Err(e) => Result::Err(e),
            Result::Ok(fs) => Result::Ok(
                "export type "@ + mode_spec(o) + "P"@ + hex_of(i.resource_id@) + " = {"@
                    + sep_join(fs, Seq::empty()) + "}"@,
            ),
        }
    }
}

impl TsOpts {
    /// Appends the mode prefix.
    fn push_mode(&self, out: &mut String)
        ensures
            final(out)@ == old(out)@ + mode_spec(*self),
    {
        if self.async_mode {
            out.append("A");
        }
        proof {
            assert(out@ =~= old(out)@ + mode_spec(*self));
        }
    }

    /// The TypeScript type for one argument of the interface
    /// identified by `this`.
    pub fn ty(&self, t: &Argument, this: [u8; 32]) -> (r: Result<String, GenError>)
        ensures
            res_view(r) == ty_spec(*self, *t, this@),
    {
        match t {
            Argument::I32 => Result::Ok("number".to_owned()),
            Argument::I64 => Result::Ok("bigint".to_owned()),
            Argument::F32 => Result::Ok("number".to_owned()),
            Argument::F64 => Result::Ok("number".to_owned()),
            Argument::Resource { kind, nullable, take: _ } => {
                let mut s: String = match kind {
                    ResourceKind::Erased => "any".to_owned(),
                    ResourceKind::Of(a) => {
                        let mut b = String::new();
                        self.push_mode(&mut b);
                        b.append("P");
                        b.append(encode_hex(a).as_str());
                        b
                    },
                    ResourceKind::This => {
                        let mut b = String::new();
                        self.push_mode(&mut b);
                        b.append("P");
                        b.append(encode_hex(&this).as_str());
                        b
                    },
                    ResourceKind::Reserved => {
                        return Result::Err(GenError::UnsupportedResourceKind);
                    },
                };
                if *nullable {
                    s.append(" | undefined");
                }
                proof {
                    assert(res_view(Result::Ok(s)) =~~= ty_spec(*self, *t, this@));
                }
                Result::Ok(s)
            },
            Argument::Reserved => Result::Err(GenError::UnsupportedResourceKind),
        }
    }

    /// The TypeScript signature for one method of the interface
    /// identified by `this`: parameters and returns in their declared
    /// order.
    pub fn meth(&self, s: &Signature, this: [u8; 32]) -> (r: Result<String, GenError>)
        ensures
            res_view(r) == meth_spec(*self, *s, this@),
    {
        let ghost f = ty_fn(*self, this@);
        let mut out: String = "(".to_owned();
        let mut k: usize = 0;
        while k < s.params.len()
            invariant
                k <= s.params@.len(),
                f == ty_fn(*self, this@),
                render_all(f, s.params@.take(k as int)) is Ok,
                out@ == "("@ + sep_join(
                    numbered(render_all(f, s.params@.take(k as int))->Ok_0, "p"@, ": "@),
                    ","@,
                ),
            decreases s.params@.len() - k,
        {
            let ghost parts = render_all(f, s.params@.take(k as int))->Ok_0;
            let t = match self.ty(&s.params[k], this) {
                Result::Ok(t) => t,
                Result::Err(e) => {
                    proof {
                        lemma_render_all_err_at(f, s.params@, k as int);
                    }
                    return Result::Err(e);
                },
            };
            proof {
                lemma_render_all_ok(f, s.params@.take(k as int));
                lemma_render_all_snoc(f, s.params@, k as int);
                lemma_numbered_push(parts, t@, "p"@, ": "@);
                lemma_sep_join_push(numbered(parts, "p"@, ": "@), "p"@ + crate::text::dec_of(
                    k as nat,
                ) + ": "@ + t@, ","@);
            }
            if k > 0 {
                out.append(",");
            }
            out.append("p");
            push_dec(&mut out, k);
            out.append(": ");
            out.append(t.as_str());
            proof {
                assert(out@ =~= "("@ + sep_join(
                    numbered(render_all(f, s.params@.take(k as int + 1))->Ok_0, "p"@, ": "@),
                    ","@,
                ));
            }
            k += 1;
        }
        proof {
            assert(s.params@.take(s.params@.len() as int) =~~= s.params@);
        }
        let mut rj: String = String::new();
        let mut k: usize = 0;
        while k < s.rets.len()
            invariant
                k <= s.rets@.len(),
                f == ty_fn(*self, this@),
                render_all(f, s.params@) is Ok,
                render_all(f, s.rets@.take(k as int)) is Ok,
                rj@ == sep_join(render_all(f, s.rets@.take(k as int))->Ok_0, ","@),
            decreases s.rets@.len() - k,
        {
            let ghost parts = render_all(f, s.rets@.take(k as int))->Ok_0;
            let t = match self.ty(&s.rets[k], this) {
                Result::Ok(t) => t,
                Result::Err(e) => {
                    proof {
                        lemma_render_all_err_at(f, s.rets@, k as int);
                    }
                    return Result::Err(e);
                },
            };
            proof {
                lemma_render_all_snoc(f, s.rets@, k as int);
                lemma_sep_join_push(parts, t@, ","@);
            }
            if k > 0 {
                rj.append(",");
            }
            rj.append(t.as_str());
            proof {
                assert(rj@ =~= sep_join(render_all(f, s.rets@.take(k as int + 1))->Ok_0, ","@));
            }
            k += 1;
        }
        proof {
            assert(s.rets@.take(s.rets@.len() as int) =~~= s.rets@);
        }
        out.append("): [");
        out.append(rj.as_str());
        out.append("]");
        if self.async_mode {
            out.append("| Promise<[");
            out.append(rj.as_str());
            out.append("]>");
        }
        proof {
            assert(out@ =~= meth_spec(*self, *s, this@)->Ok_0);
        }
        Result::Ok(out)
    }

    /// The whole TypeScript declaration for the interface: every
    /// method, in declaration order, named `<m>P<hex>_<method>`.
    #[verifier::rlimit(50)]
    pub fn interface(&self, i: &Interface) -> (r: Result<String, GenError>)
        ensures
            res_view(r) == interface_spec(*self, *i),
    {
        let this = i.rid();
        proof {
            assert(this@ =~= i.resource_id@);
        }
        if !check_names_unique(&i.methods) {
            return Result::Err(GenError::DuplicateMethodName);
        }
        let ghost f = fragment_fn(*self, i.resource_id@);
        let mut out: String = "export type ".to_owned();
        self.push_mode(&mut out);
        out.append("P");
        out.append(encode_hex(&this).as_str());
        out.append(" = {");
        let ghost pre = out@;
        let mut k: usize = 0;
        while k < i.methods.len()
            invariant
                k <= i.methods@.len(),
                f == fragment_fn(*self, i.resource_id@),
                this@ == i.resource_id@,
                names_unique(i.methods@),
                render_all(f, i.methods@.take(k as int)) is Ok,
                out@ == pre + sep_join(render_all(f, i.methods@.take(k as int))->Ok_0, Seq::empty()),
            decreases i.methods@.len() - k,
        {
            let ghost parts = render_all(f, i.methods@.take(k as int))->Ok_0;
            let m = match self.meth(&i.methods[k].sig, this) {
                Result::Ok(m) => m,
                Result::Err(e) => {
                    proof {
                        lemma_render_all_err_at(f, i.methods@, k as int);
                    }
                    return Result::Err(e);
                },
            };
            proof {
                lemma_render_all_snoc(f, i.methods@, k as int);
                lemma_sep_join_push(parts, f(i.methods@[k as int])->Ok_0, Seq::empty());
            }
            self.push_mode(&mut out);
            out.append("P");
            out.append(encode_hex(&this).as_str());
            out.append("_");
            out.append(i.methods[k].name.as_str());
            out.append(" ");
            out.append(m.as_str());
            proof {
                assert(out@ =~= pre + sep_join(
                    render_all(f, i.methods@.take(k as int + 1))->Ok_0,
                    Seq::empty(),
                ));
            }
            k += 1;
        }
        proof {
            assert(i.methods@.take(i.methods@.len() as int) =~~= i.methods@);
        }
        out.append("}");
        proof {
            assert(out@ =~= interface_spec(*self, *i)->Ok_0);
        }
        Result::Ok(out)
    }
}

} // verus!
