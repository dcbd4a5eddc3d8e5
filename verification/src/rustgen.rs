//! The Rust backend: renders an interface description as a Rust trait
//! declaration with an associated error type, and optionally a
//! specializable default implementation.  The naming prefix encodes
//! the generation variants (`S` for specialization, `async` for async
//! mode), so two generations of one interface under different
//! configurations never collide on a name.

use vstd::prelude::*;
use vstd::string::StringExecFns;

use crate::GenError;
use crate::hexid::{encode_hex, hex_of};
use crate::model::{
    Argument, Interface, Method, ResourceKind, Signature, check_names_unique, names_unique,
};
use crate::text::{
    lemma_numbered_push, lemma_sep_join_push, lemma_texts_take_push, numbered, push_dec, res_view,
    sep_join, texts_of,
};

verus! {

/// Feature flags of this backend.
#[derive(Clone, Copy, PartialEq, Eq, PartialOrd, Ord, Hash, Debug, Default)]
pub struct FeatureFlags {
    /// When set, a specializable default implementation is emitted,
    /// and unknown argument kinds fall back to a generic `Sized`
    /// bound instead of a statically unreachable marker type.
    pub specialization: bool,
}

/// Parameters of one generation pass.
#[derive(Clone, Debug)]
pub struct Params {
    /// The path the standard library is reached under in the emitted
    /// code, such as `::core` or `::std`.
    pub core: String,
    /// Feature flags.
    pub flags: FeatureFlags,
    /// When set, trait methods are emitted `async`.
    pub asyncness: bool,
}

/// The async keyword of a method declaration, when async mode is set.
pub open spec fn async_kw(p: Params) -> Seq<char> {
    if p.asyncness {
        "async "@
    } else {
        Seq::empty()
    }
}

/// The trait name an identifier is rendered under:
/// `P`, the variant letters, then the hex payload.
pub open spec fn ident_spec(p: Params, id: Seq<u8>) -> Seq<char> {
    "P"@ + (if p.flags.specialization {
        "S"@
    } else {
        Seq::empty()
    }) + (if p.asyncness {
        "async"@
    } else {
        Seq::empty()
    }) + hex_of(id)
}

/// The type-erased fallback: a generic `Sized` bound.
pub open spec fn sized_spec(p: Params) -> Seq<char> {
    "impl "@ + p.core@ + "::marker::Sized + 'bound"@
}

/// The statically unreachable marker type.
pub open spec fn infallible_spec(p: Params) -> Seq<char> {
    p.core@ + "::convert::Infallible"@
}

/// What an unknown argument kind renders as, chosen by the
/// specialization flag.
pub open spec fn fallback_spec(p: Params) -> Seq<char> {
    if p.flags.specialization {
        sized_spec(p)
    } else {
        infallible_spec(p)
    }
}

/// A direct handle to the interface identified by `id`.
pub open spec fn base_ref_spec(p: Params, id: Seq<u8>) -> Seq<char> {
    "impl "@ + ident_spec(p, id) + "<'bound,Error = Self::Error> + 'bound"@
}

/// The borrowed-handle idiom around `inner`.
pub open spec fn borrow_wrap_spec(p: Params, inner: Seq<char>) -> Seq<char> {
    "impl "@ + p.core@ + "::ops::DerefMut<Target = "@ + inner + "> + 'bound"@
}

/// The optional idiom around `inner`.
pub open spec fn option_wrap_spec(p: Params, inner: Seq<char>) -> Seq<char> {
    p.core@ + "::option::Option<"@ + inner + ">"@
}

/// A resource reference: ownership wrapping first (`take` false means
/// a borrowed handle), nullability wrapping outermost.
pub open spec fn resource_ref_spec(p: Params, id: Seq<u8>, nullable: bool, take: bool) -> Seq<
    char,
> {
    let direct = base_ref_spec(p, id);
    let owned = if !take {
        borrow_wrap_spec(p, direct)
    } else {
        direct
    };
    if nullable {
        option_wrap_spec(p, owned)
    } else {
        owned
    }
}

/// The Rust type text for one argument.  This backend defines a
/// fallback for every kind, so rendering never fails.  A nullable
/// erased resource still takes the `Option` layer outermost.
pub open spec fn arg_spec(p: Params, a: Argument, root: Seq<u8>) -> Seq<char> {
    match a {
        Argument::I32 => p.core@ + "::primitive::u32"@,
        Argument::I64 => p.core@ + "::primitive::u64"@,
        Argument::F32 => p.core@ + "::primitive::f32"@,
        Argument::F64 => p.core@ + "::primitive::f64"@,
        Argument::Resource { kind, nullable, take } => match kind {
            ResourceKind::Erased => if nullable {
                option_wrap_spec(p, sized_spec(p))
            } else {
                sized_spec(p)
            },
            ResourceKind::Of(x) => resource_ref_spec(p, x@, nullable, take),
            ResourceKind::This => resource_ref_spec(p, root, nullable, take),
            ResourceKind::Reserved => fallback_spec(p),
        },
        Argument::Reserved => fallback_spec(p),
    }
}

/// `arg_spec` partially applied.
pub open spec fn arg_fn(p: Params, root: Seq<u8>) -> spec_fn(Argument) -> Seq<char> {
    |a: Argument| arg_spec(p, a, root)
}

/// The method signature text:
/// `(&mut self, p0: T0, ...) -> <core>::result::Result<(R0,R1),Self::Error>`.
pub open spec fn sig_spec(p: Params, s: Signature, root: Seq<u8>) -> Seq<char> {
    "(&mut self"@ + sep_join(
        numbered(texts_of(arg_fn(p, root), s.params@), ", p"@, ": "@),
        Seq::empty(),
    ) + ") -> "@ + p.core@ + "::result::Result<("@ + sep_join(
        texts_of(arg_fn(p, root), s.rets@),
        ","@,
    ) + "),Self::Error>"@
}

/// One method's declaration: `fn <name><sig>`, `async` first in async
/// mode.
pub open spec fn decl_spec(p: Params, m: Method, root: Seq<u8>) -> Seq<char> {
    async_kw(p) + "fn "@ + m.name@ + sig_spec(p, m.sig, root)
}

/// One method's fragment inside the trait body.
pub open spec fn trait_frag_spec(p: Params, m: Method, root: Seq<u8>) -> Seq<char> {
    decl_spec(p, m, root) + ";\n"@
}

/// `trait_frag_spec` partially applied.
pub open spec fn trait_frag_fn(p: Params, root: Seq<u8>) -> spec_fn(Method) -> Seq<char> {
    |m: Method| trait_frag_spec(p, m, root)
}

/// One method's fragment inside the specializable default
/// implementation: the declaration with an always-failing body.
pub open spec fn impl_frag_spec(p: Params, m: Method, root: Seq<u8>) -> Seq<char> {
    decl_spec(p, m, root) + "{\nreturn "@ + p.core@ + "::result::Result::Err("@ + ident_spec(
        p,
        root,
    ) + "Error{})\n}\n"@
}

/// `impl_frag_spec` partially applied.
pub open spec fn impl_frag_fn(p: Params, root: Seq<u8>) -> spec_fn(Method) -> Seq<char> {
    |m: Method| impl_frag_spec(p, m, root)
}

/// The specializable default implementation, emitted only under the
/// specialization flag.
pub open spec fn spec_block_spec(p: Params, i: Interface) -> Seq<char> {
    if p.flags.specialization {
        "const _: () = {\ndefault impl<'bound,T: "@ + p.core@ + "::marker::Sized + 'bound> "@
            + ident_spec(p, i.resource_id@) + "<'bound> for T{\ntype Error = "@ + ident_spec(
            p,
            i.resource_id@,
        ) + "Error;\n"@ + sep_join(
            texts_of(impl_frag_fn(p, i.resource_id@), i.methods@),
            Seq::empty(),
        ) + "}\n};\n"@
    } else {
        Seq::empty()
    }
}

/// The whole declaration unit: the error type with its impls, the
/// trait with every method in declaration order, and optionally the
/// specializable default implementation.
pub open spec fn interface_spec(p: Params, i: Interface) -> Result<Seq<char>, GenError> {
    if !names_unique(i.methods@) {
        Result::Err(GenError::DuplicateMethodName)
    } else {
        Result::Ok(
            "#[derive("@ + p.core@ + "::Clone,"@ + p.core@ + "::Copy,"@ + p.core@
                + "::Debug)]\nstruct "@ + ident_spec(p, i.resource_id@)
                + "Error{}\nconst _: () = {\nimpl "@ + p.core@ + "::fmt::Display for "@
                + ident_spec(p, i.resource_id@) + "Error{\nfn fmt(&self, a: &mut "@ + p.core@
                + "::fmt::Formatter) -> "@ + p.core@ + "::fmt::Result{\n"@ + p.core@
                + "::fmt::Result::Ok(())\n}\n}\nimpl "@ + p.core@ + "::error::Error for "@
                + ident_spec(p, i.resource_id@) + "Error{}\n};\npub trait "@ + ident_spec(
                p,
                i.resource_id@,
            ) + "<'bound>: 'bound{\ntype Error: "@ + p.core@ + "::error::Error;\n"@ + sep_join(
                texts_of(trait_frag_fn(p, i.resource_id@), i.methods@),
                Seq::empty(),
            ) + "}\n"@ + spec_block_spec(p, i),
        )
    }
}

/// The trait name for an identifier, with the variant letters of the
/// configuration.
pub fn ident(p: &Params, id: &[u8; 32]) -> (r: String)
    ensures
        r@ == ident_spec(*p, id@),
{
    let mut s = "P".to_owned();
    if p.flags.specialization {
        s.append("S");
    }
    if p.asyncness {
        s.append("async");
    }
    s.append(encode_hex(id).as_str());
    proof {
        assert(s@ =~= ident_spec(*p, id@));
    }
    s
}

/// The Rust type for one argument of the interface identified by
/// `root`.  Ownership wrapping is applied first, nullability
/// outermost; unknown kinds take the configured fallback.
pub fn arg(p: &Params, a: &Argument, root: [u8; 32]) -> (r: String)
    ensures
        r@ == arg_spec(*p, *a, root@),
{
    match a {
        Argument::I32 => {
            let mut s = p.core.clone();
            s.append("::primitive::u32");
            s
        },
        Argument::I64 => {
            let mut s = p.core.clone();
            s.append("::primitive::u64");
            s
        },
        Argument::F32 => {
            let mut s = p.core.clone();
            s.append("::primitive::f32");
            s
        },
        Argument::F64 => {
            let mut s = p.core.clone();
            s.append("::primitive::f64");
            s
        },
        Argument::Resource { kind, nullable, take } => match kind {
            ResourceKind::Erased => {
                let base = sized_fallback(p);
                if *nullable {
                    let mut w = p.core.clone();
                    w.append("::option::Option<");
                    w.append(base.as_str());
                    w.append(">");
                    proof {
                        assert(w@ =~= option_wrap_spec(*p, sized_spec(*p)));
                    }
                    w
                } else {
                    base
                }
            },
            ResourceKind::Of(x) => resource_ref(p, x, *nullable, *take),
            ResourceKind::This => resource_ref(p, &root, *nullable, *take),
            ResourceKind::Reserved => reserved_fallback(p),
        },
        Argument::Reserved => reserved_fallback(p),
    }
}

/// The generic `Sized` bound.
fn sized_fallback(p: &Params) -> (r: String)
    ensures
        r@ == sized_spec(*p),
{
    let mut s = "impl ".to_owned();
    s.append(p.core.as_str());
    s.append("::marker::Sized + 'bound");
    proof {
        assert(s@ =~= sized_spec(*p));
    }
    s
}

/// What an unknown kind renders as.
fn reserved_fallback(p: &Params) -> (r: String)
    ensures
        r@ == fallback_spec(*p),
{
    if p.flags.specialization {
        sized_fallback(p)
    } else {
        let mut s = p.core.clone();
        s.append("::convert::Infallible");
        s
    }
}

/// A reference to the interface identified by `id`, wrapped for
/// ownership and nullability.
fn resource_ref(p: &Params, id: &[u8; 32], nullable: bool, take: bool) -> (r: String)
    ensures
        r@ == resource_ref_spec(*p, id@, nullable, take),
{
    let mut b = "impl ".to_owned();
    b.append(ident(p, id).as_str());
    b.append("<'bound,Error = Self::Error> + 'bound");
    proof {
        assert(b@ =~= base_ref_spec(*p, id@));
    }
    if !take {
        let mut w = "impl ".to_owned();
        w.append(p.core.as_str());
        w.append("::ops::DerefMut<Target = ");
        w.append(b.as_str());
        w.append("> + 'bound");
        proof {
            assert(w@ =~= borrow_wrap_spec(*p, base_ref_spec(*p, id@)));
        }
        b = w;
    }
    if nullable {
        let mut w = p.core.clone();
        w.append("::option::Option<");
        w.append(b.as_str());
        w.append(">");
        proof {
            assert(w@ =~= option_wrap_spec(*p, b@));
        }
        b = w;
    }
    b
}

/// The Rust signature for one method of the interface identified by
/// `root`: parameters and returns in their declared order, the
/// returns as one `Result`-wrapped tuple.
pub fn sig(p: &Params, s: &Signature, root: [u8; 32]) -> (r: String)
    ensures
        r@ == sig_spec(*p, *s, root@),
{
    let ghost f = arg_fn(*p, root@);
    let mut out: String = "(&mut self".to_owned();
    let mut k: usize = 0;
    while k < s.params.len()
        invariant
            k <= s.params@.len(),
            f == arg_fn(*p, root@),
            out@ == "(&mut self"@ + sep_join(
                numbered(texts_of(f, s.params@.take(k as int)), ", p"@, ": "@),
                Seq::empty(),
            ),
        decreases s.params@.len() - k,
    {
        let ghost parts = texts_of(f, s.params@.take(k as int));
        let t = arg(p, &s.params[k], root);
        proof {
            lemma_texts_take_push(f, s.params@, k as int);
            lemma_numbered_push(parts, t@, ", p"@, ": "@);
            assert(parts.len() == k as int);
            lemma_sep_join_push(numbered(parts, ", p"@, ": "@), ", p"@ + crate::text::dec_of(
                k as nat,
            ) + ": "@ + t@, Seq::empty());
        }
        out.append(", p");
        push_dec(&mut out, k);
        out.append(": ");
        out.append(t.as_str());
        proof {
            assert(out@ =~= "(&mut self"@ + sep_join(
                numbered(texts_of(f, s.params@.take(k as int + 1)), ", p"@, ": "@),
                Seq::empty(),
            ));
        }
        k += 1;
    }
    proof {
        assert(s.params@.take(s.params@.len() as int) =~~= s.params@);
    }
    out.append(") -> ");
    out.append(p.core.as_str());
    out.append("::result::Result<(");
    let ghost pre = out@;
    let mut k: usize = 0;
    while k < s.rets.len()
        invariant
            k <= s.rets@.len(),
            f == arg_fn(*p, root@),
            out@ == pre + sep_join(texts_of(f, s.rets@.take(k as int)), ","@),
        decreases s.rets@.len() - k,
    {
        let ghost parts = texts_of(f, s.rets@.take(k as int));
        let t = arg(p, &s.rets[k], root);
        proof {
            lemma_texts_take_push(f, s.rets@, k as int);
            lemma_sep_join_push(parts, t@, ","@);
        }
        if k > 0 {
            out.append(",");
        }
        out.append(t.as_str());
        proof {
            assert(out@ =~= pre + sep_join(texts_of(f, s.rets@.take(k as int + 1)), ","@));
        }
        k += 1;
    }
    proof {
        assert(s.rets@.take(s.rets@.len() as int) =~~= s.rets@);
    }
    out.append("),Self::Error>");
    proof {
        assert(out@ =~= sig_spec(*p, *s, root@));
    }
    out
}

/// Appends one method declaration.
fn push_decl(p: &Params, m: &Method, root: [u8; 32], out: &mut String)
    ensures
        final(out)@ == old(out)@ + decl_spec(*p, *m, root@),
{
    if p.asyncness {
        out.append("async ");
    }
    out.append("fn ");
    out.append(m.name.as_str());
    let t = sig(p, &m.sig, root);
    out.append(t.as_str());
    proof {
        assert(out@ =~= old(out)@ + decl_spec(*p, *m, root@));
    }
}

/// The whole declaration unit for the interface: the error type, the
/// trait with every method in declaration order, and, under the
/// specialization flag, the specializable default implementation.
#[verifier::rlimit(100)]
pub fn interface(p: &Params, i: &Interface) -> (r: Result<String, GenError>)
    ensures
        res_view(r) == interface_spec(*p, *i),
{
    let this = i.rid();
    proof {
        assert(this@ =~= i.resource_id@);
    }
    if !check_names_unique(&i.methods) {
        return Result::Err(GenError::DuplicateMethodName);
    }
    let x = ident(p, &this);
    let mut out: String = "#[derive(".to_owned();
    out.append(p.core.as_str());
    out.append("::Clone,");
    out.append(p.core.as_str());
    out.append("::Copy,");
    out.append(p.core.as_str());
    out.append("::Debug)]\nstruct ");
    out.append(x.as_str());
    out.append("Error{}\nconst _: () = {\nimpl ");
    out.append(p.core.as_str());
    out.append("::fmt::Display for ");
    out.append(x.as_str());
    out.append("Error{\nfn fmt(&self, a: &mut ");
    out.append(p.core.as_str());
    out.append("::fmt::Formatter) -> ");
    out.append(p.core.as_str());
    out.append("::fmt::Result{\n");
    out.append(p.core.as_str());
    out.append("::fmt::Result::Ok(())\n}\n}\nimpl ");
    out.append(p.core.as_str());
    out.append("::error::Error for ");
    out.append(x.as_str());
    out.append("Error{}\n};\npub trait ");
    out.append(x.as_str());
    out.append("<'bound>: 'bound{\ntype Error: ");
    out.append(p.core.as_str());
    out.append("::error::Error;\n");
    let ghost f = trait_frag_fn(*p, i.resource_id@);
    let ghost pre = out@;
    let mut k: usize = 0;
    while k < i.methods.len()
        invariant
            k <= i.methods@.len(),
            f == trait_frag_fn(*p, i.resource_id@),
            this@ == i.resource_id@,
            out@ == pre + sep_join(texts_of(f, i.methods@.take(k as int)), Seq::empty()),
        decreases i.methods@.len() - k,
    {
        let ghost parts = texts_of(f, i.methods@.take(k as int));
        proof {
            lemma_texts_take_push(f, i.methods@, k as int);
            lemma_sep_join_push(parts, f(i.methods@[k as int]), Seq::empty());
        }
        push_decl(p, &i.methods[k], this, &mut out);
        out.append(";\n");
        proof {
            assert(out@ =~= pre + sep_join(
                texts_of(f, i.methods@.take(k as int + 1)),
                Seq::empty(),
            ));
        }
        k += 1;
    }
    proof {
        assert(i.methods@.take(i.methods@.len() as int) =~~= i.methods@);
    }
    out.append("}\n");
    if p.flags.specialization {
        out.append("const _: () = {\ndefault impl<'bound,T: ");
        out.append(p.core.as_str());
        out.append("::marker::Sized + 'bound> ");
        out.append(x.as_str());
        out.append("<'bound> for T{\ntype Error = ");
        out.append(x.as_str());
        out.append("Error;\n");
        let ghost g = impl_frag_fn(*p, i.resource_id@);
        let ghost pre2 = out@;
        let mut k: usize = 0;
        while k < i.methods.len()
            invariant
                k <= i.methods@.len(),
                g == impl_frag_fn(*p, i.resource_id@),
                this@ == i.resource_id@,
                x@ == ident_spec(*p, i.resource_id@),
                out@ == pre2 + sep_join(texts_of(g, i.methods@.take(k as int)), Seq::empty()),
            decreases i.methods@.len() - k,
        {
            let ghost parts = texts_of(g, i.methods@.take(k as int));
            proof {
                lemma_texts_take_push(g, i.methods@, k as int);
                lemma_sep_join_push(parts, g(i.methods@[k as int]), Seq::empty());
            }
            push_decl(p, &i.methods[k], this, &mut out);
            out.append("{\nreturn ");
            out.append(p.core.as_str());
            out.append("::result::Result::Err(");
            out.append(x.as_str());
            out.append("Error{})\n}\n");
            proof {
                assert(out@ =~= pre2 + sep_join(
                    texts_of(g, i.methods@.take(k as int + 1)),
                    Seq::empty(),
                ));
            }
            k += 1;
        }
        proof {
            assert(i.methods@.take(i.methods@.len() as int) =~~= i.methods@);
        }
        out.append("}\n};\n");
    }
    proof {
        assert(out@ =~= interface_spec(*p, *i)->Ok_0);
    }
    Result::Ok(out)
}

} // verus!
