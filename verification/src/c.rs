//! The C backend: renders an interface description as a two-level
//! macro table.  One macro per method captures the formatted signature
//! behind a `vfunc` virtual-dispatch wrapper; a combined macro binds
//! every per-method macro to the current type and method name; an
//! `interface(...)` invocation instantiates the table.

use vstd::prelude::*;
use vstd::string::StringExecFns;

use crate::GenError;
use crate::hexid::{encode_hex, hex_of};
use crate::model::{
    Argument, Interface, Method, ResourceKind, Signature, check_names_unique, names_unique,
};
use crate::text::{
    lemma_numbered_after_push, lemma_render_all_err_at, lemma_render_all_ok, lemma_render_all_snoc,
    lemma_sep_join_push, lemma_texts_take_push, numbered_after, push_dec, render_all, res_view,
    sep_join, texts_of,
};

verus! {

/// A value paired with the rendering context it is rendered under.
#[derive(Clone, Copy, PartialEq, Eq, PartialOrd, Ord, Hash, Debug, Default)]
pub struct C<T, Kind> {
    /// The value to be rendered.
    pub value: T,
    /// The rendering context.
    pub kind: Kind,
}

/// The rendering context for C code: a configurable prefix for
/// generated type names.
#[derive(Clone, PartialEq, Eq, PartialOrd, Ord, Hash, Debug, Default)]
pub struct PureC {
    /// The prefix generated type names carry.
    pub cx: String,
}

/// The C type text for one argument.  The enclosing interface appears
/// as the placeholder `CUR`, bound by the combined macro.
pub open spec fn arg_spec(cx: Seq<char>, t: Argument) -> Result<Seq<char>, GenError> {
    match t {
        Argument::I32 => Result::Ok("uint32_t"@),
        Argument::I64 => Result::Ok("uint64_t"@),
        Argument::F32 => Result::Ok("float"@),
        Argument::F64 => Result::Ok("double"@),
        Argument::Resource { kind, nullable, take } => match kind {
            ResourceKind::Erased => Result::Ok("Any_T"@),
            ResourceKind::Of(a) => Result::Ok(cx + hex_of(a@) + "_t"@),
            ResourceKind::This => Result::Ok("CUR"@),
            ResourceKind::Reserved => Result::Err(GenError::UnsupportedResourceKind),
        },
        Argument::Reserved => Result::Err(GenError::UnsupportedResourceKind),
    }
}

/// `arg_spec` partially applied.
pub open spec fn arg_fn(cx: Seq<char>) -> spec_fn(Argument) -> Result<Seq<char>, GenError> {
    |a: Argument| arg_spec(cx, a)
}

/// The `vfunc` fragment for one method: returns in a struct, then the
/// placeholder method and self tokens, then the parameters.
pub open spec fn sig_spec(cx: Seq<char>, s: Signature) -> Result<Seq<char>, GenError> {
    match render_all(arg_fn(cx), s.rets@) {
        Result::Err(e) => Result::Err(e),
        Result::Ok(rs) => match render_all(arg_fn(cx), s.params@) {
            Result::Err(e) => Result::Err(e),
            Result::Ok(ps) => Result::Ok(
                "vfunc(struct{"@ + sep_join(numbered_after(rs, " r"@), Seq::empty())
                    + "},METH,VSelf,"@ + sep_join(numbered_after(ps, " p"@), Seq::empty()),
            ),
        },
    }
}

/// One method's `#define`: `#define <cx><hex>_t_IFACE_<name>(CUR,METH) <sig>`.
pub open spec fn define_spec(cx: Seq<char>, m: Method, this: Seq<u8>) -> Result<
    Seq<char>,
    GenError,
> {
    match sig_spec(cx, m.sig) {
        Result::Err(e) => Result::Err(e),
        Result::Ok(t) => Result::Ok(
            "#define "@ + cx + hex_of(this) + "_t_IFACE_"@ + m.name@ + "(CUR,METH) "@ + t + "\n"@,
        ),
    }
}

/// `define_spec` partially applied.
pub open spec fn define_fn(cx: Seq<char>, this: Seq<u8>) -> spec_fn(Method) -> Result<
    Seq<char>,
    GenError,
> {
    |m: Method| define_spec(cx, m, this)
}

/// One method's invocation inside the combined macro:
/// `<cx><hex>_t_IFACE_<name>(<cx><hex>_t,<name>) `.
pub open spec fn invoke_spec(cx: Seq<char>, m: Method, this: Seq<u8>) -> Seq<char> {
    cx + hex_of(this) + "_t_IFACE_"@ + m.name@ + "("@ + cx + hex_of(this) + "_t,"@ + m.name@
        + ") "@
}

/// `invoke_spec` partially applied.
pub open spec fn invoke_fn(cx: Seq<char>, this: Seq<u8>) -> spec_fn(Method) -> Seq<char> {
    |m: Method| invoke_spec(cx, m, this)
}

/// The whole macro table: the per-method defines, the combined define,
/// and the `interface(...)` instantiation.
pub open spec fn interface_spec(cx: Seq<char>, i: Interface) -> Result<Seq<char>, GenError> {
    if !names_unique(i.methods@) {
        Result::Err(GenError::DuplicateMethodName)
    } else {
        match render_all(define_fn(cx, i.resource_id@), i.methods@) {
            Result::Err(e) => Result::Err(e),
            Result::Ok(ds) => Result::Ok(
                sep_join(ds, Seq::empty()) + "#define "@ + cx + hex_of(i.resource_id@)
                    + "_t_IFACE "@ + sep_join(
                    texts_of(invoke_fn(cx, i.resource_id@), i.methods@),
                    Seq::empty(),
                ) + "\n"@ + "interface("@ + cx + hex_of(i.resource_id@) + "_t)\n"@,
            ),
        }
    }
}

/// The C type for one argument, under the prefix `cx`.
pub fn render_arg(cx: &str, t: &Argument) -> (r: Result<String, GenError>)
    ensures
        res_view(r) == arg_spec(cx@, *t),
{
    match t {
        Argument::I32 => Result::Ok("uint32_t".to_owned()),
        Argument::I64 => Result::Ok("uint64_t".to_owned()),
        Argument::F32 => Result::Ok("float".to_owned()),
        Argument::F64 => Result::Ok("double".to_owned()),
        Argument::Resource { kind, nullable: _, take: _ } => match kind {
            ResourceKind::Erased => Result::Ok("Any_T".to_owned()),
            ResourceKind::Of(a) => {
                let mut s = cx.to_owned();
                s.append(encode_hex(a).as_str());
                s.append("_t");
                Result::Ok(s)
            },
            ResourceKind::This => Result::Ok("CUR".to_owned()),
            ResourceKind::Reserved => Result::Err(GenError::UnsupportedResourceKind),
        },
        Argument::Reserved => Result::Err(GenError::UnsupportedResourceKind),
    }
}

/// The `vfunc` fragment for one method, under the prefix `cx`:
/// returns and parameters in their declared order.
pub fn render_sig(cx: &str, s: &Signature) -> (r: Result<String, GenError>)
    ensures
        res_view(r) == sig_spec(cx@, *s),
{
    let ghost f = arg_fn(cx@);
    let mut out: String = "vfunc(struct{".to_owned();
    let mut k: usize = 0;
    while k < s.rets.len()
        invariant
            k <= s.rets@.len(),
            f == arg_fn(cx@),
            render_all(f, s.rets@.take(k as int)) is Ok,
            out@ == "vfunc(struct{"@ + sep_join(
                numbered_after(render_all(f, s.rets@.take(k as int))->Ok_0, " r"@),
                Seq::empty(),
            ),
        decreases s.rets@.len() - k,
    {
        let ghost parts = render_all(f, s.rets@.take(k as int))->Ok_0;
        let t = match render_arg(cx, &s.rets[k]) {
            Result::Ok(t) => t,
            Result::Err(e) => {
                proof {
                    lemma_render_all_err_at(f, s.rets@, k as int);
                }
                return Result::Err(e);
            },
        };
        proof {
            lemma_render_all_ok(f, s.rets@.take(k as int));
            lemma_render_all_snoc(f, s.rets@, k as int);
            lemma_numbered_after_push(parts, t@, " r"@);
            lemma_sep_join_push(
                numbered_after(parts, " r"@),
                t@ + " r"@ + crate::text::dec_of(k as nat),
                Seq::empty(),
            );
        }
        out.append(t.as_str());
        out.append(" r");
        push_dec(&mut out, k);
        proof {
            assert(out@ =~= "vfunc(struct{"@ + sep_join(
                numbered_after(render_all(f, s.rets@.take(k as int + 1))->Ok_0, " r"@),
                Seq::empty(),
            ));
        }
        k += 1;
    }
    proof {
        assert(s.rets@.take(s.rets@.len() as int) =~~= s.rets@);
    }
    out.append("},METH,VSelf,");
    let ghost pre = out@;
    let mut k: usize = 0;
    while k < s.params.len()
        invariant
            k <= s.params@.len(),
            f == arg_fn(cx@),
            render_all(f, s.rets@) is Ok,
            render_all(f, s.params@.take(k as int)) is Ok,
            out@ == pre + sep_join(
                numbered_after(render_all(f, s.params@.take(k as int))->Ok_0, " p"@),
                Seq::empty(),
            ),
        decreases s.params@.len() - k,
    {
        let ghost parts = render_all(f, s.params@.take(k as int))->Ok_0;
        let t = match render_arg(cx, &s.params[k]) {
            Result::Ok(t) => t,
            Result::Err(e) => {
                proof {
                    lemma_render_all_err_at(f, s.params@, k as int);
                }
                return Result::Err(e);
            },
        };
        proof {
            lemma_render_all_ok(f, s.params@.take(k as int));
            lemma_render_all_snoc(f, s.params@, k as int);
            lemma_numbered_after_push(parts, t@, " p"@);
            lemma_sep_join_push(
                numbered_after(parts, " p"@),
                t@ + " p"@ + crate::text::dec_of(k as nat),
                Seq::empty(),
            );
        }
        out.append(t.as_str());
        out.append(" p");
        push_dec(&mut out, k);
        proof {
            assert(out@ =~= pre + sep_join(
                numbered_after(render_all(f, s.params@.take(k as int + 1))->Ok_0, " p"@),
                Seq::empty(),
            ));
        }
        k += 1;
    }
    proof {
        assert(s.params@.take(s.params@.len() as int) =~~= s.params@);
        assert(out@ =~= sig_spec(cx@, *s)->Ok_0);
    }
    Result::Ok(out)
}

/// The whole macro table for the interface, under the prefix `cx`.
#[verifier::rlimit(100)]
pub fn render_interface(cx: &str, i: &Interface) -> (r: Result<String, GenError>)
    ensures
        res_view(r) == interface_spec(cx@, *i),
{
    let this = i.rid();
    proof {
        assert(this@ =~= i.resource_id@);
    }
    if !check_names_unique(&i.methods) {
        return Result::Err(GenError::DuplicateMethodName);
    }
    let ghost f = define_fn(cx@, i.resource_id@);
    let mut out: String = String::new();
    let mut k: usize = 0;
    while k < i.methods.len()
        invariant
            k <= i.methods@.len(),
            f == define_fn(cx@, i.resource_id@),
            this@ == i.resource_id@,
            names_unique(i.methods@),
            render_all(f, i.methods@.take(k as int)) is Ok,
            out@ == sep_join(render_all(f, i.methods@.take(k as int))->Ok_0, Seq::empty()),
        decreases i.methods@.len() - k,
    {
        let ghost parts = render_all(f, i.methods@.take(k as int))->Ok_0;
        let m = match render_sig(cx, &i.methods[k].sig) {
            Result::Ok(m) => m,
            Result::Err(e) => {
                proof {
                    lemma_render_all_err_at(f, i.methods@, k as int);
                }
                return Result::Err(e);
            },
        };
        proof {
            lemma_render_all_snoc(f, i.methods@, k as int);
            lemma_sep_join_push(parts, f(i.methods@[k as int])->Ok_0, Seq::empty());
        }
        out.append("#define ");
        out.append(cx);
        out.append(encode_hex(&this).as_str());
        out.append("_t_IFACE_");
        out.append(i.methods[k].name.as_str());
        out.append("(CUR,METH) ");
        out.append(m.as_str());
        out.append("\n");
        proof {
            assert(out@ =~= sep_join(
                render_all(f, i.methods@.take(k as int + 1))->Ok_0,
                Seq::empty(),
            ));
        }
        k += 1;
    }
    proof {
        assert(i.methods@.take(i.methods@.len() as int) =~~= i.methods@);
    }
    out.append("#define ");
    out.append(cx);
    out.append(encode_hex(&this).as_str());
    out.append("_t_IFACE ");
    let ghost g = invoke_fn(cx@, i.resource_id@);
    let ghost pre = out@;
    let mut k: usize = 0;
    while k < i.methods.len()
        invariant
            k <= i.methods@.len(),
            g == invoke_fn(cx@, i.resource_id@),
            this@ == i.resource_id@,
            out@ == pre + sep_join(texts_of(g, i.methods@.take(k as int)), Seq::empty()),
        decreases i.methods@.len() - k,
    {
        let ghost parts = texts_of(g, i.methods@.take(k as int));
        proof {
            lemma_texts_take_push(g, i.methods@, k as int);
            lemma_sep_join_push(parts, g(i.methods@[k as int]), Seq::empty());
        }
        out.append(cx);
        out.append(encode_hex(&this).as_str());
        out.append("_t_IFACE_");
        out.append(i.methods[k].name.as_str());
        out.append("(");
        out.append(cx);
        out.append(encode_hex(&this).as_str());
        out.append("_t,");
        out.append(i.methods[k].name.as_str());
        out.append(") ");
        proof {
            assert(out@ =~= pre + sep_join(
                texts_of(g, i.methods@.take(k as int + 1)),
                Seq::empty(),
            ));
        }
        k += 1;
    }
    proof {
        assert(i.methods@.take(i.methods@.len() as int) =~~= i.methods@);
    }
    out.append("\n");
    out.append("interface(");
    out.append(cx);
    out.append(encode_hex(&this).as_str());
    out.append("_t)\n");
    proof {
        assert(out@ =~= interface_spec(cx@, *i)->Ok_0);
    }
    Result::Ok(out)
}

impl C<Argument, PureC> {
    /// The C type text for the paired argument.
    pub fn render(&self) -> (r: Result<String, GenError>)
        ensures
            res_view(r) == arg_spec(self.kind.cx@, self.value),
    {
        render_arg(self.kind.cx.as_str(), &self.value)
    }
}

impl C<Signature, PureC> {
    /// The `vfunc` fragment for the paired method signature.
    pub fn render(&self) -> (r: Result<String, GenError>)
        ensures
            res_view(r) == sig_spec(self.kind.cx@, self.value),
    {
        render_sig(self.kind.cx.as_str(), &self.value)
    }
}

impl C<Interface, PureC> {
    /// The whole macro table for the paired interface.
    pub fn render(&self) -> (r: Result<String, GenError>)
        ensures
            res_view(r) == interface_spec(self.kind.cx@, self.value),
    {
        render_interface(self.kind.cx.as_str(), &self.value)
    }
}

} // verus!
