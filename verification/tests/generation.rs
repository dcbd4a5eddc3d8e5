//! Scenario tests for every backend, on concrete interfaces.

use pit_codegen::c::{C, PureC, render_arg};
use pit_codegen::c_scoped;
use pit_codegen::go::GoOpts;
use pit_codegen::haxe::HaxeOpts;
use pit_codegen::model::{Argument, Interface, Method, ResourceKind, Signature};
use pit_codegen::rustgen::{self, FeatureFlags, Params};
use pit_codegen::swift::SwiftOpts;
use pit_codegen::ts::TsOpts;

fn zero_id() -> [u8; 32] {
    [0u8; 32]
}

fn zero_hex() -> String {
    "0".repeat(64)
}

/// One method `foo(I32) -> I64`.
fn foo_iface(id: [u8; 32]) -> Interface {
    Interface {
        resource_id: id,
        methods: vec![Method {
            name: "foo".to_string(),
            sig: Signature { params: vec![Argument::I32], rets: vec![Argument::I64] },
        }],
    }
}

fn res(kind: ResourceKind, nullable: bool, take: bool) -> Argument {
    Argument::Resource { kind, nullable, take }
}

#[test]
fn ts_sync_scenario() {
    let out = TsOpts { async_mode: false }.interface(&foo_iface(zero_id())).unwrap();
    let h = zero_hex();
    assert_eq!(out, format!("export type P{h} = {{P{h}_foo (p0: number): [bigint]}}"));
}

#[test]
fn ts_async_scenario() {
    let out = TsOpts { async_mode: true }.interface(&foo_iface(zero_id())).unwrap();
    let h = zero_hex();
    assert_eq!(
        out,
        format!("export type AP{h} = {{AP{h}_foo (p0: number): [bigint]| Promise<[bigint]>}}")
    );
}

#[test]
fn go_scenario() {
    let out = GoOpts::default().interface(&foo_iface(zero_id())).unwrap();
    let h = zero_hex();
    assert_eq!(out, format!("type P{h} interface{{P{h}_foo (p0 uint32) (uint64)}}"));
}

#[test]
fn haxe_scenario() {
    let out = HaxeOpts::default().interface(&foo_iface(zero_id())).unwrap();
    let h = zero_hex();
    assert_eq!(out, format!("interface P{h} {{P{h}_foo (p0: haxe.Int32): {{r0: haxe.Int64}}}}"));
}

#[test]
fn swift_scenario() {
    let out = SwiftOpts::default().interface(&foo_iface(zero_id())).unwrap();
    let h = zero_hex();
    assert_eq!(
        out,
        format!("open protocol P{h} {{open P{h}_foo (p0 _: UInt32) -> (r0 _: UInt64)}}")
    );
}

#[test]
fn c_scenario() {
    let c = C { value: foo_iface(zero_id()), kind: PureC { cx: "my_".to_string() } };
    let out = c.render().unwrap();
    let h = zero_hex();
    assert_eq!(
        out,
        format!(
            "#define my_{h}_t_IFACE_foo(CUR,METH) vfunc(struct{{uint64_t r0}},METH,VSelf,uint32_t p0\n\
             #define my_{h}_t_IFACE my_{h}_t_IFACE_foo(my_{h}_t,foo) \n\
             interface(my_{h}_t)\n"
        )
    );
}

#[test]
fn c_scoped_scenario() {
    let c = C { value: foo_iface(zero_id()), kind: c_scoped::PureC };
    let out = c.render().unwrap();
    let h = zero_hex();
    assert_eq!(
        out,
        format!(
            "#define CUR Cx{h}_t\n\
             #define METH foo\n\
             #define Cx{h}_t_IFACE_foo _X(vfunc(struct{{uint64_t r0}},METH,VSelf,uint32_t p0)\n\
             #define Cx{h}_t_IFACE _X(Cx{h}_t_IFACE_foo )\n\
             interface(Cx{h}_t)\n\
             #undef CUR\n\
             #undef METH\n\
             #undef Cx{h}_t_IFACE_foo\n"
        )
    );
}

fn plain_params() -> Params {
    Params {
        core: "::core".to_string(),
        flags: FeatureFlags { specialization: false },
        asyncness: false,
    }
}

#[test]
fn rust_scenario_nesting() {
    // A borrowed nullable self-reference: the optional idiom wraps the
    // borrowed-handle idiom, which wraps the self-trait reference.
    let p = plain_params();
    let out = rustgen::arg(&p, &res(ResourceKind::This, true, false), zero_id());
    let h = zero_hex();
    assert_eq!(
        out,
        format!(
            "::core::option::Option<impl ::core::ops::DerefMut<Target = \
             impl P{h}<'bound,Error = Self::Error> + 'bound> + 'bound>"
        )
    );
}

#[test]
fn rust_interface_scenario() {
    let out = rustgen::interface(&plain_params(), &foo_iface(zero_id())).unwrap();
    let h = zero_hex();
    assert_eq!(
        out,
        format!(
            "#[derive(::core::Clone,::core::Copy,::core::Debug)]\n\
             struct P{h}Error{{}}\n\
             const _: () = {{\n\
             impl ::core::fmt::Display for P{h}Error{{\n\
             fn fmt(&self, a: &mut ::core::fmt::Formatter) -> ::core::fmt::Result{{\n\
             ::core::fmt::Result::Ok(())\n\
             }}\n\
             }}\n\
             impl ::core::error::Error for P{h}Error{{}}\n\
             }};\n\
             pub trait P{h}<'bound>: 'bound{{\n\
             type Error: ::core::error::Error;\n\
             fn foo(&mut self, p0: ::core::primitive::u32) -> \
             ::core::result::Result<(::core::primitive::u64),Self::Error>;\n\
             }}\n"
        )
    );
}

#[test]
fn rust_specialization_block() {
    let p = Params {
        core: "::core".to_string(),
        flags: FeatureFlags { specialization: true },
        asyncness: false,
    };
    let out = rustgen::interface(&p, &foo_iface(zero_id())).unwrap();
    let h = zero_hex();
    assert!(out.contains(&format!("pub trait PS{h}<'bound>: 'bound{{")));
    assert!(out.contains(&format!(
        "const _: () = {{\ndefault impl<'bound,T: ::core::marker::Sized + 'bound> \
         PS{h}<'bound> for T{{\ntype Error = PS{h}Error;\n"
    )));
    assert!(out.contains(&format!(
        "fn foo(&mut self, p0: ::core::primitive::u32) -> \
         ::core::result::Result<(::core::primitive::u64),Self::Error>\
         {{\nreturn ::core::result::Result::Err(PS{h}Error{{}})\n}}\n"
    )));
}

#[test]
fn rust_async_naming() {
    let p = Params {
        core: "::core".to_string(),
        flags: FeatureFlags { specialization: false },
        asyncness: true,
    };
    let out = rustgen::interface(&p, &foo_iface(zero_id())).unwrap();
    let h = zero_hex();
    assert!(out.contains(&format!("pub trait Pasync{h}<'bound>: 'bound{{")));
    assert!(out.contains("async fn foo(&mut self"));
}

#[test]
fn multiple_params_order() {
    let sig = Signature {
        params: vec![Argument::I32, Argument::I64, Argument::F32],
        rets: vec![Argument::F64, Argument::I32],
    };
    let out = GoOpts::default().meth(&sig, zero_id()).unwrap();
    assert_eq!(out, "(p0 uint32,p1 uint64,p2 float32) (float64,uint32)");
    let out = SwiftOpts::default().meth(&sig, zero_id()).unwrap();
    assert_eq!(out, "(p0 _: UInt32,p1 _: UInt64,p2 _: Float) -> (r0 _: Double,r1 _: UInt32)");
}

#[test]
fn two_digit_positions() {
    let sig = Signature { params: vec![Argument::I32; 11], rets: vec![] };
    let out = GoOpts::default().meth(&sig, zero_id()).unwrap();
    assert!(out.contains("p9 uint32,p10 uint32"));
    assert_eq!(out, format!("({}) ()", (0..11).map(|i| format!("p{i} uint32")).collect::<Vec<_>>().join(",")));
}

#[test]
fn empty_signature() {
    let sig = Signature { params: vec![], rets: vec![] };
    assert_eq!(GoOpts::default().meth(&sig, zero_id()).unwrap(), "() ()");
    assert_eq!(TsOpts::default().meth(&sig, zero_id()).unwrap(), "(): []");
    assert_eq!(rustgen::sig(&plain_params(), &sig, zero_id()), "(&mut self) -> ::core::result::Result<(),Self::Error>");
}

#[test]
fn empty_interface() {
    let i = Interface { resource_id: zero_id(), methods: vec![] };
    let h = zero_hex();
    assert_eq!(GoOpts::default().interface(&i).unwrap(), format!("type P{h} interface{{}}"));
}

#[test]
fn erased_resources() {
    let id = zero_id();
    let erased = res(ResourceKind::Erased, false, true);
    assert_eq!(GoOpts::default().ty(&erased, id).unwrap(), "interface{}");
    assert_eq!(HaxeOpts::default().ty(&erased, id).unwrap(), "Dynamic");
    assert_eq!(SwiftOpts::default().ty(&erased, id).unwrap(), "Any");
    assert_eq!(TsOpts::default().ty(&erased, id).unwrap(), "any");
    assert_eq!(render_arg("my_", &erased).unwrap(), "Any_T");
    assert_eq!(rustgen::arg(&plain_params(), &erased, id), "impl ::core::marker::Sized + 'bound");
}

#[test]
fn ts_nullable_is_outermost() {
    let id = zero_id();
    let h = zero_hex();
    let o = TsOpts { async_mode: false };
    assert_eq!(o.ty(&res(ResourceKind::Erased, true, true), id).unwrap(), "any | undefined");
    assert_eq!(o.ty(&res(ResourceKind::This, true, false), id).unwrap(), format!("P{h} | undefined"));
}

#[test]
fn go_package_rewrites() {
    let mut id = zero_id();
    id[31] = 1;
    let h = hex::encode(id);
    let o = GoOpts { rewrites: vec![(id, "mypkg".to_string())] };
    assert_eq!(o.ty(&res(ResourceKind::Of(id), false, true), zero_id()).unwrap(), format!("mypkg.P{h}"));
    // An absent entry selects the synthesized default package.
    let other = zero_id();
    let oh = zero_hex();
    assert_eq!(o.ty(&res(ResourceKind::Of(other), false, true), id).unwrap(), format!("pit{oh}.P{oh}"));
    // A reference to the enclosing interface's own id renders bare,
    // exactly as a self-reference does.
    assert_eq!(o.ty(&res(ResourceKind::Of(id), false, true), id).unwrap(), format!("P{h}"));
    assert_eq!(o.ty(&res(ResourceKind::This, false, true), id).unwrap(), format!("P{h}"));
}

#[test]
fn haxe_package_rewrites() {
    let mut id = zero_id();
    id[0] = 0xab;
    let h = hex::encode(id);
    let o = HaxeOpts { rewrites: vec![(id, "my.pack".to_string())] };
    assert_eq!(o.ty(&res(ResourceKind::Of(id), false, true), zero_id()).unwrap(), format!("my.pack.P{h}"));
    assert_eq!(o.ty(&res(ResourceKind::Of(id), false, true), id).unwrap(), format!("P{h}"));
}

#[test]
fn haxe_fixed_width_integers() {
    let id = zero_id();
    let o = HaxeOpts::default();
    assert_eq!(o.ty(&Argument::I32, id).unwrap(), "haxe.Int32");
    assert_eq!(o.ty(&Argument::I64, id).unwrap(), "haxe.Int64");
    assert_eq!(o.ty(&Argument::F32, id).unwrap(), "Float");
    assert_eq!(o.ty(&Argument::F64, id).unwrap(), "Float");
}

#[test]
fn swift_nullable_is_outermost() {
    let id = zero_id();
    let h = zero_hex();
    let o = SwiftOpts::default();
    assert_eq!(o.ty(&res(ResourceKind::This, true, false), id).unwrap(), format!("(any P{h})?"));
    assert_eq!(o.ty(&res(ResourceKind::Of(id), true, true), id).unwrap(), format!("(any P{h})?"));
    assert_eq!(o.ty(&res(ResourceKind::Erased, true, true), id).unwrap(), "(Any)?");
}

#[test]
fn rust_erased_nullable_is_wrapped() {
    let out = rustgen::arg(&plain_params(), &res(ResourceKind::Erased, true, true), zero_id());
    assert_eq!(out, "::core::option::Option<impl ::core::marker::Sized + 'bound>");
}
