//! Tests of the cross-cutting properties: determinism, self-reference
//! consistency, the error taxonomy, the hex round trip, and the
//! adapter capabilities.

use pit_codegen::GenError;
use pit_codegen::go::GoOpts;
use pit_codegen::haxe::HaxeOpts;
use pit_codegen::c::{C, PureC};
use pit_codegen::capnp::{Capnp, ViaCapnp};
use pit_codegen::model::{Argument, Interface, Method, ResourceKind, Signature};
use pit_codegen::rustgen::{self, FeatureFlags, Params};
use pit_codegen::swift::SwiftOpts;
use pit_codegen::ts::TsOpts;
use pit_codegen::wit::{ToWIT, ViaWIT};

fn sample_id() -> [u8; 32] {
    let mut id = [0u8; 32];
    for (k, b) in id.iter_mut().enumerate() {
        *b = (7 * k + 3) as u8;
    }
    id
}

fn rich_iface(id: [u8; 32]) -> Interface {
    Interface {
        resource_id: id,
        methods: vec![
            Method {
                name: "alpha".to_string(),
                sig: Signature {
                    params: vec![
                        Argument::I32,
                        Argument::Resource {
                            kind: ResourceKind::This,
                            nullable: true,
                            take: false,
                        },
                    ],
                    rets: vec![Argument::I64],
                },
            },
            Method {
                name: "beta".to_string(),
                sig: Signature { params: vec![], rets: vec![Argument::F64] },
            },
        ],
    }
}

#[test]
fn repeated_generation_is_identical() {
    let i = rich_iface(sample_id());
    let o = TsOpts { async_mode: true };
    assert_eq!(o.interface(&i).unwrap(), o.interface(&i).unwrap());
    let g = GoOpts::default();
    assert_eq!(g.interface(&i).unwrap(), g.interface(&i).unwrap());
    let p = Params {
        core: "::std".to_string(),
        flags: FeatureFlags { specialization: true },
        asyncness: true,
    };
    assert_eq!(
        rustgen::interface(&p, &i).unwrap(),
        rustgen::interface(&p, &i).unwrap()
    );
}

#[test]
fn self_reference_matches_own_id() {
    let id = sample_id();
    let this_arg = Argument::Resource { kind: ResourceKind::This, nullable: false, take: true };
    let of_arg = Argument::Resource { kind: ResourceKind::Of(id), nullable: false, take: true };
    let o = TsOpts { async_mode: true };
    assert_eq!(o.ty(&this_arg, id).unwrap(), o.ty(&of_arg, id).unwrap());
    let s = SwiftOpts::default();
    assert_eq!(s.ty(&this_arg, id).unwrap(), s.ty(&of_arg, id).unwrap());
    let g = GoOpts::default();
    assert_eq!(g.ty(&this_arg, id).unwrap(), g.ty(&of_arg, id).unwrap());
    let x = HaxeOpts::default();
    assert_eq!(x.ty(&this_arg, id).unwrap(), x.ty(&of_arg, id).unwrap());
    let p = Params {
        core: "::core".to_string(),
        flags: FeatureFlags { specialization: false },
        asyncness: false,
    };
    assert_eq!(rustgen::arg(&p, &this_arg, id), rustgen::arg(&p, &of_arg, id));
}

#[test]
fn embedded_identifier_round_trips() {
    let id = sample_id();
    let i = Interface {
        resource_id: id,
        methods: vec![Method {
            name: "foo".to_string(),
            sig: Signature { params: vec![Argument::I32], rets: vec![Argument::I64] },
        }],
    };
    // Go: `type P<hex> ...` embeds the hex at bytes 6..70.
    let out = GoOpts::default().interface(&i).unwrap();
    let embedded = &out[6..70];
    assert_eq!(embedded, hex::encode(id));
    assert_eq!(hex::decode(embedded).unwrap(), id.to_vec());
    // TypeScript: `export type P<hex> ...` embeds it at bytes 13..77.
    let out = TsOpts { async_mode: false }.interface(&i).unwrap();
    let embedded = &out[13..77];
    assert_eq!(hex::decode(embedded).unwrap(), id.to_vec());
}

#[test]
fn distinct_ids_render_distinct_names() {
    let a = sample_id();
    let mut b = sample_id();
    b[17] ^= 0xff;
    let i_a = rich_iface(a);
    let i_b = rich_iface(b);
    let o = GoOpts::default();
    assert_ne!(o.interface(&i_a).unwrap(), o.interface(&i_b).unwrap());
}

fn reserved_method() -> Method {
    Method {
        name: "bad".to_string(),
        sig: Signature {
            params: vec![Argument::Resource {
                kind: ResourceKind::Reserved,
                nullable: false,
                take: true,
            }],
            rets: vec![],
        },
    }
}

#[test]
fn reserved_kind_is_reported_not_panicked() {
    let i = Interface { resource_id: sample_id(), methods: vec![reserved_method()] };
    assert_eq!(
        TsOpts::default().interface(&i),
        Err(GenError::UnsupportedResourceKind)
    );
    assert_eq!(GoOpts::default().interface(&i), Err(GenError::UnsupportedResourceKind));
    assert_eq!(HaxeOpts::default().interface(&i), Err(GenError::UnsupportedResourceKind));
    assert_eq!(SwiftOpts::default().interface(&i), Err(GenError::UnsupportedResourceKind));
    let c = C { value: i, kind: PureC { cx: "Cx".to_string() } };
    assert_eq!(c.render(), Err(GenError::UnsupportedResourceKind));
}

#[test]
fn reserved_argument_is_reported() {
    let arg = Argument::Reserved;
    assert_eq!(GoOpts::default().ty(&arg, sample_id()), Err(GenError::UnsupportedResourceKind));
    assert_eq!(TsOpts::default().ty(&arg, sample_id()), Err(GenError::UnsupportedResourceKind));
}

#[test]
fn rust_reserved_kind_takes_documented_fallback() {
    // This backend never fails: without the specialization flag the
    // statically unreachable marker type, with it the erased bound.
    let id = sample_id();
    let arg = Argument::Resource { kind: ResourceKind::Reserved, nullable: false, take: true };
    let plain = Params {
        core: "::core".to_string(),
        flags: FeatureFlags { specialization: false },
        asyncness: false,
    };
    assert_eq!(rustgen::arg(&plain, &arg, id), "::core::convert::Infallible");
    let special = Params {
        core: "::core".to_string(),
        flags: FeatureFlags { specialization: true },
        asyncness: false,
    };
    assert_eq!(rustgen::arg(&special, &arg, id), "impl ::core::marker::Sized + 'bound");
}

#[test]
fn duplicate_method_names_are_fatal() {
    let m = Method {
        name: "foo".to_string(),
        sig: Signature { params: vec![], rets: vec![] },
    };
    let i = Interface { resource_id: sample_id(), methods: vec![m.clone(), m] };
    assert_eq!(GoOpts::default().interface(&i), Err(GenError::DuplicateMethodName));
    assert_eq!(TsOpts::default().interface(&i), Err(GenError::DuplicateMethodName));
    assert_eq!(HaxeOpts::default().interface(&i), Err(GenError::DuplicateMethodName));
    assert_eq!(SwiftOpts::default().interface(&i), Err(GenError::DuplicateMethodName));
    assert_eq!(
        rustgen::interface(
            &Params {
                core: "::core".to_string(),
                flags: FeatureFlags::default(),
                asyncness: false,
            },
            &i,
        ),
        Err(GenError::DuplicateMethodName)
    );
    let c = C { value: i, kind: pit_codegen::c_scoped::PureC };
    assert_eq!(c.render(), Err(GenError::DuplicateMethodName));
}

struct Schema;

impl Capnp for Schema {
    fn capnp(&self) -> String {
        "struct Point { x @0 :Int32; }".to_string()
    }
}

impl ToWIT for Schema {
    fn to_wit(&self) -> String {
        "interface point { }".to_string()
    }
}

#[test]
fn capnp_adapter_renders_through_trait() {
    let s = Schema;
    assert_eq!(ViaCapnp(&s).render(), "struct Point { x @0 :Int32; }");
}

#[test]
fn wit_adapter_renders_through_trait() {
    let s = Schema;
    assert_eq!(ViaWIT(&s).render(), "interface point { }");
}
