//! The scoped C backend: an earlier shape of the macro table with a
//! fixed `Cx` prefix.  It binds the placeholders `CUR` and `METH` with
//! `#define`s of its own, wraps each fragment in `_X(...)`, and cleans
//! every placeholder macro up again with symmetric `#undef`s, so that
//! no definition leaks into the including file's macro namespace.

use vstd::prelude::*;
use vstd::string::StringExecFns;

use crate::GenError;
use crate::c::{C, render_sig, sig_spec};
use crate::hexid::{encode_hex, hex_of};
use crate::model::{Interface, Method, check_names_unique, names_unique};
use crate::text::{
    lemma_render_all_err_at, lemma_render_all_snoc, lemma_sep_join_push, lemma_texts_take_push,
    render_all, res_view, sep_join, texts_of,
};

verus! {

/// The rendering context of this backend; the prefix is fixed.
#[derive(Clone, Copy, PartialEq, Eq, PartialOrd, Ord, Hash, Debug, Default)]
pub struct PureC;

/// One method's `#define METH` binding and macro definition:
/// `#define METH <name>` then `#define Cx<hex>_t_IFACE_<name> _X(<sig>)`.
pub open spec fn define_spec(m: Method, this: Seq<u8>) -> Result<Seq<char>, GenError> {
    match sig_spec("Cx"@, m.sig) {
        Result::Err(e) => Result::Err(e),
        Result::Ok(t) => Result::Ok(
            "#define METH "@ + m.name@ + "\n#define Cx"@ + hex_of(this) + "_t_IFACE_"@ + m.name@
                + " _X("@ + t + ")\n"@,
        ),
    }
}

/// `define_spec` partially applied.
pub open spec fn define_fn(this: Seq<u8>) -> spec_fn(Method) -> Result<Seq<char>, GenError> {
    |m: Method| define_spec(m, this)
}

/// One method's invocation inside the combined macro.
pub open spec fn invoke_spec(m: Method, this: Seq<u8>) -> Seq<char> {
    "Cx"@ + hex_of(this) + "_t_IFACE_"@ + m.name@ + " "@
}

/// `invoke_spec` partially applied.
pub open spec fn invoke_fn(this: Seq<u8>) -> spec_fn(Method) -> Seq<char> {
    |m: Method| invoke_spec(m, this)
}

/// One method's cleanup line.
pub open spec fn undef_spec(m: Method, this: Seq<u8>) -> Seq<char> {
    "#undef Cx"@ + hex_of(this) + "_t_IFACE_"@ + m.name@ + "\n"@
}

/// `undef_spec` partially applied.
pub open spec fn undef_fn(this: Seq<u8>) -> spec_fn(Method) -> Seq<char> {
    |m: Method| undef_spec(m, this)
}

/// The whole macro table: placeholder bindings, per-method defines,
/// the combined define, the instantiation, and the symmetric cleanup.
pub open spec fn interface_spec(i: Interface) -> Result<Seq<char>, GenError> {
    if !names_unique(i.methods@) {
        Result::Err(GenError::DuplicateMethodName)
    } else {
        match render_all(define_fn(i.resource_id@), i.methods@) {
            Result::Err(e) => Result::Err(e),
            Result::Ok(ds) => Result::Ok(
                "#define CUR Cx"@ + hex_of(i.resource_id@) + "_t\n"@ + sep_join(ds, Seq::empty())
                    + "#define Cx"@ + hex_of(i.resource_id@) + "_t_IFACE _X("@ + sep_join(
                    texts_of(invoke_fn(i.resource_id@), i.methods@),
                    Seq::empty(),
                ) + ")\n"@ + "interface(Cx"@ + hex_of(i.resource_id@)
                    + "_t)\n#undef CUR\n#undef METH\n"@ + sep_join(
                    texts_of(undef_fn(i.resource_id@), i.methods@),
                    Seq::empty(),
                ),
            ),
        }
    }
}

/// The whole macro table for the interface.
#[verifier::rlimit(100)]
pub fn render_interface(i: &Interface) -> (r: Result<String, GenError>)
    ensures
        res_view(r) == interface_spec(*i),
{
    let this = i.rid();
    proof {
        assert(this@ =~= i.resource_id@);
    }
    if !check_names_unique(&i.methods) {
        return Result::Err(GenError::DuplicateMethodName);
    }
    let ghost f = define_fn(i.resource_id@);
    let mut out: String = "#define CUR Cx".to_owned();
    out.append(encode_hex(&this).as_str());
    out.append("_t\n");
    let ghost pre = out@;
    let mut k: usize = 0;
    while k < i.methods.len()
        invariant
            k <= i.methods@.len(),
            f == define_fn(i.resource_id@),
            this@ == i.resource_id@,
            names_unique(i.methods@),
            render_all(f, i.methods@.take(k as int)) is Ok,
            out@ == pre + sep_join(render_all(f, i.methods@.take(k as int))->Ok_0, Seq::empty()),
        decreases i.methods@.len() - k,
    {
        let ghost parts = render_all(f, i.methods@.take(k as int))->Ok_0;
        let m = match render_sig("Cx", &i.methods[k].sig) {
            Result::Ok(m) => m,
            Result::Err(e) => {
                proof {
                    lemma_render_all_err_at(f, i.methods@, k as int);
                }
                return Result::Err(e);
            },
        };
        proof {
            lemma_render_all_snoc(f, i.methods@, k as int);
            lemma_sep_join_push(parts, f(i.methods@[k as int])->Ok_0, Seq::empty());
        }
        out.append("#define METH ");
        out.append(i.methods[k].name.as_str());
        out.append("\n#define Cx");
        out.append(encode_hex(&this).as_str());
        out.append("_t_IFACE_");
        out.append(i.methods[k].name.as_str());
        out.append(" _X(");
        out.append(m.as_str());
        out.append(")\n");
        proof {
            assert(out@ =~= pre + sep_join(
                render_all(f, i.methods@.take(k as int + 1))->Ok_0,
                Seq::empty(),
            ));
        }
        k += 1;
    }
    proof {
        assert(i.methods@.take(i.methods@.len() as int) =~~= i.methods@);
    }
    out.append("#define Cx");
    out.append(encode_hex(&this).as_str());
    out.append("_t_IFACE _X(");
    let ghost g = invoke_fn(i.resource_id@);
    let ghost pre2 = out@;
    let mut k: usize = 0;
    while k < i.methods.len()
        invariant
            k <= i.methods@.len(),
            g == invoke_fn(i.resource_id@),
            this@ == i.resource_id@,
            out@ == pre2 + sep_join(texts_of(g, i.methods@.take(k as int)), Seq::empty()),
        decreases i.methods@.len() - k,
    {
        let ghost parts = texts_of(g, i.methods@.take(k as int));
        proof {
            lemma_texts_take_push(g, i.methods@, k as int);
            lemma_sep_join_push(parts, g(i.methods@[k as int]), Seq::empty());
        }
        out.append("Cx");
        out.append(encode_hex(&this).as_str());
        out.append("_t_IFACE_");
        out.append(i.methods[k].name.as_str());
        out.append(" ");
        proof {
            assert(out@ =~= pre2 + sep_join(
                texts_of(g, i.methods@.take(k as int + 1)),
                Seq::empty(),
            ));
        }
        k += 1;
    }
    proof {
        assert(i.methods@.take(i.methods@.len() as int) =~~= i.methods@);
    }
    out.append(")\n");
    out.append("interface(Cx");
    out.append(encode_hex(&this).as_str());
    out.append("_t)\n#undef CUR\n#undef METH\n");
    let ghost h = undef_fn(i.resource_id@);
    let ghost pre3 = out@;
    let mut k: usize = 0;
    while k < i.methods.len()
        invariant
            k <= i.methods@.len(),
            h == undef_fn(i.resource_id@),
            this@ == i.resource_id@,
            out@ == pre3 + sep_join(texts_of(h, i.methods@.take(k as int)), Seq::empty()),
        decreases i.methods@.len() - k,
    {
        let ghost parts = texts_of(h, i.methods@.take(k as int));
        proof {
            lemma_texts_take_push(h, i.methods@, k as int);
            lemma_sep_join_push(parts, h(i.methods@[k as int]), Seq::empty());
        }
        out.append("#undef Cx");
        out.append(encode_hex(&this).as_str());
        out.append("_t_IFACE_");
        out.append(i.methods[k].name.as_str());
        out.append("\n");
        proof {
            assert(out@ =~= pre3 + sep_join(
                texts_of(h, i.methods@.take(k as int + 1)),
                Seq::empty(),
            ));
        }
        k += 1;
    }
    proof {
        assert(i.methods@.take(i.methods@.len() as int) =~~= i.methods@);
        assert(out@ =~= interface_spec(*i)->Ok_0);
    }
    Result::Ok(out)
}

impl C<Interface, PureC> {
    /// The whole macro table for the paired interface.
    pub fn render(&self) -> (r: Result<String, GenError>)
        ensures
            res_view(r) == interface_spec(self.value),
    {
        render_interface(&self.value)
    }
}

} // verus!
