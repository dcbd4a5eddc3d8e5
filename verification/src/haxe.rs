//! The Haxe backend: renders an interface description as a Haxe
//! interface declaration, `interface P<hex> {...}`.

use vstd::prelude::*;
use vstd::string::StringExecFns;

use crate::GenError;
use crate::hexid::{encode_hex, hex_of};
use crate::model::{
    Argument, Interface, Method, ResourceKind, Signature, check_names_unique, ids_equal,
    lookup_rewrite, names_unique, rewrite_lookup,
};
use crate::text::{
    lemma_numbered_push, lemma_render_all_err_at, lemma_render_all_ok, lemma_render_all_snoc,
    lemma_sep_join_push, numbered, push_dec, render_all, res_view, sep_join,
};

verus! {

/// Options for Haxe generation.
#[derive(Default, Clone, Debug)]
pub struct HaxeOpts {
    /// Package rewrites: a referenced interface's identifier is
    /// rendered inside the package path it is mapped to; an absent
    /// entry selects the synthesized `pit<hex>` package instead.
    pub rewrites: Vec<([u8; 32], String)>,
}

/// The package qualifier a referenced identifier is rendered under.
pub open spec fn pkg_spec(o: HaxeOpts, a: Seq<u8>) -> Seq<char> {
    match rewrite_lookup(o.rewrites@, a) {
        Option::None => "pit"@ + hex_of(a),
        Option::Some(b) => b,
    }
}

/// The Haxe type text for one argument, each numeric kind in the
/// target's fixed-width idiom.  A reference to the enclosing
/// interface's own identifier renders bare, exactly as a
/// self-reference does: a Haxe package cannot import itself, so no
/// qualifier is legal there.
pub open spec fn ty_spec(o: HaxeOpts, t: Argument, this: Seq<u8>) -> Result<Seq<char>, GenError> {
    match t {
        Argument::I32 => Result::Ok("haxe.Int32"@),
        Argument::I64 => Result::Ok("haxe.Int64"@),
        Argument::F32 => Result::Ok("Float"@),
        Argument::F64 => Result::Ok("Float"@),
        Argument::Resource { kind, nullable, take } => match kind {
            ResourceKind::Erased => Result::Ok("Dynamic"@),
            ResourceKind::Of(a) => Result::Ok(
                if a@ == this {
                    "P"@ + hex_of(this)
                } else {
                    pkg_spec(o, a@) + ".P"@ + hex_of(a@)
                },
            ),
            ResourceKind::This => Result::Ok("P"@ + hex_of(this)),
            ResourceKind::Reserved => Result::Err(GenError::UnsupportedResourceKind),
        },
        Argument::Reserved => Result::Err(GenError::UnsupportedResourceKind),
    }
}

/// `ty_spec` partially applied.
pub open spec fn ty_fn(o: HaxeOpts, this: Seq<u8>) -> spec_fn(Argument) -> Result<
    Seq<char>,
    GenError,
> {
    |a: Argument| ty_spec(o, a, this)
}

/// The Haxe method signature text: `(p0: T0,p1: T1): {r0: R0,r1: R1}`.
pub open spec fn meth_spec(o: HaxeOpts, s: Signature, this: Seq<u8>) -> Result<
    Seq<char>,
    GenError,
> {
    match render_all(ty_fn(o, this), s.params@) {
        Result::Err(e) => Result::Err(e),
        Result::Ok(ps) => match render_all(ty_fn(o, this), s.rets@) {
            Result::Err(e) => Result::Err(e),
            Result::Ok(rs) => Result::Ok(
                "("@ + sep_join(numbered(ps, "p"@, ": "@), ","@) + "): {"@ + sep_join(
                    numbered(rs, "r"@, ": "@),
                    ","@,
                ) + "}"@,
            ),
        },
    }
}

/// One method's fragment inside the declaration: `P<hex>_<name> <sig>`.
pub open spec fn fragment_spec(o: HaxeOpts, m: Method, this: Seq<u8>) -> Result<
    Seq<char>,
    GenError,
> {
    match meth_spec(o, m.sig, this) {
        Result::Err(e) => Result::Err(e),
        Result::Ok(t) => Result::Ok("P"@ + hex_of(this) + "_"@ + m.name@ + " "@ + t),
    }
}

/// `fragment_spec` partially applied.
pub open spec fn fragment_fn(o: HaxeOpts, this: Seq<u8>) -> spec_fn(Method) -> Result<
    Seq<char>,
    GenError,
> {
    |m: Method| fragment_spec(o, m, this)
}

/// The whole declaration: `interface P<hex> {<fragments>}`.
pub open spec fn interface_spec(o: HaxeOpts, i: Interface) -> Result<Seq<char>, GenError> {
    if !names_unique(i.methods@) {
        Result::Err(GenError::DuplicateMethodName)
    } else {
        match render_all(fragment_fn(o, i.resource_id@), i.methods@) {
            Result::Err(e) => Result::Err(e),
            Result::Ok(fs) => Result::Ok(
                "interface P"@ + hex_of(i.resource_id@) + " {"@ + sep_join(fs, Seq::empty())
                    + "}"@,
            ),
        }
    }
}

impl HaxeOpts {
    /// The Haxe type for one argument of the interface identified by
    /// `this`.
    pub fn ty(&self, t: &Argument, this: [u8; 32]) -> (r: Result<String, GenError>)
        ensures
            res_view(r) == ty_spec(*self, *t, this@),
    {
        match t {
            Argument::I32 => Result::Ok("haxe.Int32".to_owned()),
            Argument::I64 => Result::Ok("haxe.Int64".to_owned()),
            Argument::F32 => Result::Ok("Float".to_owned()),
            Argument::F64 => Result::Ok("Float".to_owned()),
            Argument::Resource { kind, nullable: _, take: _ } => match kind {
                ResourceKind::Erased => Result::Ok("Dynamic".to_owned()),
                ResourceKind::Of(a) => {
                    if ids_equal(a, &this) {
                        let mut s = "P".to_owned();
                        s.append(encode_hex(&this).as_str());
                        return Result::Ok(s);
                    }
                    let mut s: String = match lookup_rewrite(&self.rewrites, a) {
                        Option::None => {
                            let mut p = "pit".to_owned();
                            p.append(encode_hex(a).as_str());
                            p
                        },
                        Option::Some(b) => b.clone(),
                    };
                    s.append(".P");
                    s.append(encode_hex(a).as_str());
                    proof {
                        assert(s@ =~= pkg_spec(*self, a@) + ".P"@ + hex_of(a@));
                    }
                    Result::Ok(s)
                },
                ResourceKind::This => {
                    let mut s = "P".to_owned();
                    s.append(encode_hex(&this).as_str());
                    Result::Ok(s)
                },
                ResourceKind::Reserved => Result::Err(GenError::UnsupportedResourceKind),
            },
            Argument::Reserved => Result::Err(GenError::UnsupportedResourceKind),
        }
    }

    /// The Haxe signature for one method of the interface identified
    /// by `this`: parameters and returns in their declared order.
    pub fn meth(&self, s: &Signature, this: [u8; 32]) -> (r: Result<String, GenError>)
        ensures
            res_view(r) == meth_spec(*self, *s, this@),
    {
        let ghost f = ty_fn(*self, this@);
        let mut out: String = "(".to_owned();
        let mut k: usize = 0;
        while k < s.params.len()
            invariant
                k <= s.params@.len(),
                f == ty_fn(*self, this@),
                render_all(f, s.params@.take(k as int)) is Ok,
                out@ == "("@ + sep_join(
                    numbered(render_all(f, s.params@.take(k as int))->Ok_0, "p"@, ": "@),
                    ","@,
                ),
            decreases s.params@.len() - k,
        {
            let ghost parts = render_all(f, s.params@.take(k as int))->Ok_0;
            let t = match self.ty(&s.params[k], this) {
                Result::Ok(t) => t,
                Result::Err(e) => {
                    proof {
                        lemma_render_all_err_at(f, s.params@, k as int);
                    }
                    return Result::Err(e);
                },
            };
            proof {
                lemma_render_all_ok(f, s.params@.take(k as int));
                lemma_render_all_snoc(f, s.params@, k as int);
                lemma_numbered_push(parts, t@, "p"@, ": "@);
                lemma_sep_join_push(numbered(parts, "p"@, ": "@), "p"@ + crate::text::dec_of(
                    k as nat,
                ) + ": "@ + t@, ","@);
            }
            if k > 0 {
                out.append(",");
            }
            out.append("p");
            push_dec(&mut out, k);
            out.append(": ");
            out.append(t.as_str());
            proof {
                assert(out@ =~= "("@ + sep_join(
                    numbered(render_all(f, s.params@.take(k as int + 1))->Ok_0, "p"@, ": "@),
                    ","@,
                ));
            }
            k += 1;
        }
        proof {
            assert(s.params@.take(s.params@.len() as int) =~~= s.params@);
        }
        out.append("): {");
        let ghost pre = out@;
        let mut k: usize = 0;
        while k < s.rets.len()
            invariant
                k <= s.rets@.len(),
                f == ty_fn(*self, this@),
                render_all(f, s.params@) is Ok,
                render_all(f, s.rets@.take(k as int)) is Ok,
                out@ == pre + sep_join(
                    numbered(render_all(f, s.rets@.take(k as int))->Ok_0, "r"@, ": "@),
                    ","@,
                ),
            decreases s.rets@.len() - k,
        {
            let ghost parts = render_all(f, s.rets@.take(k as int))->Ok_0;
            let t = match self.ty(&s.rets[k], this) {
                Result::Ok(t) => t,
                Result::Err(e) => {
                    proof {
                        lemma_render_all_err_at(f, s.rets@, k as int);
                    }
                    return Result::Err(e);
                },
            };
            proof {
                lemma_render_all_ok(f, s.rets@.take(k as int));
                lemma_render_all_snoc(f, s.rets@, k as int);
                lemma_numbered_push(parts, t@, "r"@, ": "@);
                lemma_sep_join_push(numbered(parts, "r"@, ": "@), "r"@ + crate::text::dec_of(
                    k as nat,
                ) + ": "@ + t@, ","@);
            }
            if k > 0 {
                out.append(",");
            }
            out.append("r");
            push_dec(&mut out, k);
            out.append(": ");
            out.append(t.as_str());
            proof {
                assert(out@ =~= pre + sep_join(
                    numbered(render_all(f, s.rets@.take(k as int + 1))->Ok_0, "r"@, ": "@),
                    ","@,
                ));
            }
            k += 1;
        }
        proof {
            assert(s.rets@.take(s.rets@.len() as int) =~~= s.rets@);
        }
        out.append("}");
        proof {
            assert(out@ =~= meth_spec(*self, *s, this@)->Ok_0);
        }
        Result::Ok(out)
    }

    /// The whole Haxe declaration for the interface: every method, in
    /// declaration order, named `P<hex>_<method>`.
    #[verifier::rlimit(50)]
    pub fn interface(&self, i: &Interface) -> (r: Result<String, GenError>)
        ensures
            res_view(r) == interface_spec(*self, *i),
    {
        let this = i.rid();
        proof {
            assert(this@ =~= i.resource_id@);
        }
        if !check_names_unique(&i.methods) {
            return Result::Err(GenError::DuplicateMethodName);
        }
        let ghost f = fragment_fn(*self, i.resource_id@);
        let mut out: String = "interface P".to_owned();
        out.append(encode_hex(&this).as_str());
        out.append(" {");
        let ghost pre = out@;
        let mut k: usize = 0;
        while k < i.methods.len()
            invariant
                k <= i.methods@.len(),
                f == fragment_fn(*self, i.resource_id@),
                this@ == i.resource_id@,
                names_unique(i.methods@),
                render_all(f, i.methods@.take(k as int)) is Ok,
                out@ == pre + sep_join(render_all(f, i.methods@.take(k as int))->Ok_0, Seq::empty()),
            decreases i.methods@.len() - k,
        {
            let ghost parts = render_all(f, i.methods@.take(k as int))->Ok_0;
            let m = match self.meth(&i.methods[k].sig, this) {
                Result::Ok(m) => m,
                Result::Err(e) => {
                    proof {
                        lemma_render_all_err_at(f, i.methods@, k as int);
                    }
                    return Result::Err(e);
                },
            };
            proof {
                lemma_render_all_snoc(f, i.methods@, k as int);
                lemma_sep_join_push(parts, f(i.methods@[k as int])->Ok_0, Seq::empty());
            }
            out.append("P");
            out.append(encode_hex(&this).as_str());
            out.append("_");
            out.append(i.methods[k].name.as_str());
            out.append(" ");
            out.append(m.as_str());
            proof {
                assert(out@ =~= pre + sep_join(
                    render_all(f, i.methods@.take(k as int + 1))->Ok_0,
                    Seq::empty(),
                ));
            }
            k += 1;
        }
        proof {
            assert(i.methods@.take(i.methods@.len() as int) =~~= i.methods@);
        }
        out.append("}");
        proof {
            assert(out@ =~= interface_spec(*self, *i)->Ok_0);
        }
        Result::Ok(out)
    }
}

} // verus!
