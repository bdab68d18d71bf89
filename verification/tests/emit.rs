use fixed_typemap::emit::{
    build_cell_type, build_constructors, build_error_type, build_fallible_getters, build_impl_block,
    build_infallible_getters, build_insert, build_iter_type, build_iterators, build_struct,
    build_trait_impls, build_unsafe_getters, decl_fixed_typemap, fast_unwrap, join, write_attrs,
    write_bounds, write_declaration, write_visibility, Written,
};
use fixed_typemap::layout::{generate, IterationPlan, Layout};
use fixed_typemap::schema::{
    CapabilityIteration, ContainerSchema, FieldSpec, SchemaError, Visibility,
};

fn field(name: Option<&str>, token: u64, key_type: &str, initializer: &str) -> FieldSpec<Written> {
    FieldSpec {
        declared_name: name.map(|n| n.to_string()),
        key_type: token,
        initializer: Written {
            key_type: key_type.to_string(),
            initializer: initializer.to_string(),
        },
        attrs: Vec::new(),
        vis: if name.is_some() {
            Visibility::Public
        } else {
            Visibility::Inherited
        },
    }
}

fn schema(dynamic: bool, capabilities: &[(&str, &str)]) -> ContainerSchema<Written> {
    ContainerSchema {
        name: "PluginMap".to_string(),
        vis: Visibility::Public,
        attrs: vec!["#[derive(Debug)]".to_string()],
        fields: vec![
            field(Some("graphics"), 0, "GraphicsPlugin", "Default::default()"),
            field(None, 1, "SoundPlugin", "Default::default()"),
            field(None, 2, "NetworkingPlugin", "NetworkingPlugin(100)"),
        ],
        dynamic,
        iterable_traits: capabilities
            .iter()
            .map(|(capability, method)| CapabilityIteration {
                capability: capability.to_string(),
                method: method.to_string(),
            })
            .collect(),
    }
}

fn layout(dynamic: bool, capabilities: &[(&str, &str)]) -> Layout<Written> {
    generate(schema(dynamic, capabilities)).ok().expect("no defect")
}

/// The text as its tokens, so that spacing does not matter.
fn tokens(text: &str) -> String {
    text.parse::<proc_macro2::TokenStream>()
        .expect("the text is made of tokens")
        .to_string()
}

fn strings(parts: &[&str]) -> Vec<String> {
    parts.iter().map(|p| p.to_string()).collect()
}

#[test]
fn joining_puts_the_separator_between() {
    assert_eq!(join(&strings(&["a", "b", "c"]), ", "), "a, b, c");
    assert_eq!(join(&strings(&["a"]), ", "), "a");
    assert_eq!(join(&strings(&[]), ", "), "");
    assert_eq!(join(&strings(&["a", "b"]), ""), "ab");
}

#[test]
fn visibilities_are_written_with_a_trailing_space() {
    assert_eq!(write_visibility(&Visibility::Inherited), "");
    assert_eq!(write_visibility(&Visibility::Public), "pub ");
    assert_eq!(write_visibility(&Visibility::Crate), "pub(crate) ");
    assert_eq!(
        write_visibility(&Visibility::Restricted("crate::a".to_string())),
        "pub(in crate::a) "
    );
}

#[test]
fn annotations_are_written_one_after_the_other() {
    assert_eq!(write_attrs(&strings(&[])), "");
    assert_eq!(
        write_attrs(&strings(&["#[a]", "#[b(c)]"])),
        "#[a] #[b(c)] "
    );
}

#[test]
fn bounds_follow_plus_signs() {
    let plans = |names: &[&str]| {
        names
            .iter()
            .map(|n| IterationPlan {
                capability: n.to_string(),
                method: "m".to_string(),
                method_mut: "m_mut".to_string(),
            })
            .collect::<Vec<_>>()
    };
    assert_eq!(write_bounds(&plans(&[])), "");
    assert_eq!(write_bounds(&plans(&["Plugin"])), " + Plugin");
    assert_eq!(
        write_bounds(&plans(&["Plugin", "std::fmt::Display"])),
        " + Plugin + std::fmt::Display"
    );
}

#[test]
fn the_fast_unwrap_matches_on_the_expression() {
    assert_eq!(
        fast_unwrap("self.f()"),
        "{ match self.f() { Some(x) => x, None => unsafe { ::core::hint::unreachable_unchecked() }, } }"
    );
}

#[test]
fn the_struct_has_a_field_per_slot() {
    assert_eq!(
        build_struct(&layout(false, &[])),
        "#[derive(Debug)] pub struct PluginMap { pub graphics: GraphicsPlugin, slot_0: SoundPlugin, slot_1: NetworkingPlugin }"
    );
    assert_eq!(
        build_struct(&layout(true, &[])),
        "#[derive(Debug)] pub struct PluginMap { pub graphics: GraphicsPlugin, slot_0: SoundPlugin, slot_1: NetworkingPlugin, dynamic_keys: std::collections::HashMap<std::any::TypeId, PluginMapCell> }"
    );
}

#[test]
fn the_constructor_takes_the_initializers_in_order() {
    assert_eq!(
        build_constructors(&layout(false, &[])),
        "pub fn new() -> Self { Self { graphics: Default::default(), slot_0: Default::default(), slot_1: NetworkingPlugin(100) } }"
    );
    assert_eq!(
        build_constructors(&layout(true, &[])),
        "pub fn new() -> Self { Self { graphics: Default::default(), slot_0: Default::default(), slot_1: NetworkingPlugin(100), dynamic_keys: Default::default() } }"
    );
}

#[test]
fn the_iterator_type_chains_the_fixed_part_with_the_open_part() {
    assert_eq!(
        build_iter_type(&layout(false, &[]), "Plugin", false),
        "core::iter::Chain<core::array::IntoIter<&dyn Plugin, 3>, core::iter::Empty<&dyn Plugin>>"
    );
    assert_eq!(
        build_iter_type(&layout(false, &[]), "Plugin", true),
        "core::iter::Chain<core::array::IntoIter<&mut dyn Plugin, 3>, core::iter::Empty<&mut dyn Plugin>>"
    );
    assert_eq!(
        build_iter_type(&layout(true, &[]), "Plugin", false),
        "core::iter::Chain<core::array::IntoIter<&dyn Plugin, 3>, core::iter::Map<std::collections::hash_map::Values<'_, core::any::TypeId, PluginMapCell>, for<'r> fn(&'r PluginMapCell) -> &'r (dyn Plugin + 'r)>>"
    );
    assert_eq!(
        build_iter_type(&layout(true, &[]), "Plugin", true),
        "core::iter::Chain<core::array::IntoIter<&mut dyn Plugin, 3>, core::iter::Map<std::collections::hash_map::ValuesMut<'_, core::any::TypeId, PluginMapCell>, for<'r> fn(&'r mut PluginMapCell) -> &'r mut (dyn Plugin + 'r)>>"
    );
}

#[test]
fn the_marker_trait_is_implemented_for_every_fixed_type() {
    assert_eq!(
        build_trait_impls(&layout(false, &[])),
        "pub unsafe trait PluginMapKey: core::any::Any {} unsafe impl PluginMapKey for GraphicsPlugin {} unsafe impl PluginMapKey for SoundPlugin {} unsafe impl PluginMapKey for NetworkingPlugin {} impl core::default::Default for PluginMap { fn default() -> Self { Self::new() } }"
    );
}

#[test]
fn without_an_open_extension_there_is_no_cell_type() {
    assert_eq!(build_cell_type(&layout(false, &[("Plugin", "iter_plugins")])), "");
}

#[test]
fn the_cell_type_holds_the_value_and_the_adapters() {
    assert_eq!(
        tokens(&build_cell_type(&layout(true, &[("Plugin", "iter_plugins")]))),
        tokens(
            "struct PluginMapCell {
                value: std::boxed::Box<dyn std::any::Any>,
                iter_plugins: fn(&dyn core::any::Any) -> &dyn Plugin,
                iter_plugins_mut: fn(&mut dyn core::any::Any) -> &mut dyn Plugin
            }
            impl PluginMapCell {
                fn new<K: core::any::Any + Plugin>(value: K) -> Self {
                    Self {
                        value: Box::new(value),
                        iter_plugins: |x| match x.downcast_ref::<K>() {
                            Some(x) => (&*x) as &dyn Plugin,
                            None => unsafe { core::hint::unreachable_unchecked() }
                        },
                        iter_plugins_mut: |x| match x.downcast_mut::<K>() {
                            Some(x) => (&mut *x) as &mut dyn Plugin,
                            None => unsafe { core::hint::unreachable_unchecked() }
                        }
                    }
                }
            }"
        )
    );
}

#[test]
fn the_dispatch_compares_in_declaration_order() {
    let text = build_unsafe_getters(&layout(false, &[]));
    assert_eq!(
        tokens(&text),
        tokens(
            "fn get_const_ptr<K: core::any::Any>(&self) -> Option<*const u8> {
                use core::any::Any;
                if core::any::TypeId::of::<K>() == core::any::TypeId::of::<GraphicsPlugin>() {
                    return Some(&self.graphics as *const GraphicsPlugin as *const u8);
                }
                if core::any::TypeId::of::<K>() == core::any::TypeId::of::<SoundPlugin>() {
                    return Some(&self.slot_0 as *const SoundPlugin as *const u8);
                }
                if core::any::TypeId::of::<K>() == core::any::TypeId::of::<NetworkingPlugin>() {
                    return Some(&self.slot_1 as *const NetworkingPlugin as *const u8);
                }
                None
            }
            fn get_mut_ptr<K: core::any::Any>(&mut self) -> Option<*mut u8> {
                use core::any::Any;
                if core::any::TypeId::of::<K>() == core::any::TypeId::of::<GraphicsPlugin>() {
                    return Some(&mut self.graphics as *mut GraphicsPlugin as *mut u8);
                }
                if core::any::TypeId::of::<K>() == core::any::TypeId::of::<SoundPlugin>() {
                    return Some(&mut self.slot_0 as *mut SoundPlugin as *mut u8);
                }
                if core::any::TypeId::of::<K>() == core::any::TypeId::of::<NetworkingPlugin>() {
                    return Some(&mut self.slot_1 as *mut NetworkingPlugin as *mut u8);
                }
                None
            }"
        )
    );
}

#[test]
fn the_dispatch_falls_back_to_the_open_extension() {
    let text = build_unsafe_getters(&ContainerLayouts::empty_dynamic());
    assert_eq!(
        tokens(&text),
        tokens(
            "fn get_const_ptr<K: core::any::Any>(&self) -> Option<*const u8> {
                use core::any::Any;
                {
                    self.dynamic_keys.get(&core::any::TypeId::of::<K>()).map(|x| {
                        ({
                            match (&*x.value).downcast_ref::<K>() {
                                Some(x) => x,
                                None => unsafe { ::core::hint::unreachable_unchecked() },
                            }
                        }) as *const K as *const u8
                    })
                }
            }
            fn get_mut_ptr<K: core::any::Any>(&mut self) -> Option<*mut u8> {
                use core::any::Any;
                {
                    self.dynamic_keys.get_mut(&core::any::TypeId::of::<K>()).map(|x| {
                        ({
                            match (&mut *x.value).downcast_mut::<K>() {
                                Some(x) => x,
                                None => unsafe { ::core::hint::unreachable_unchecked() },
                            }
                        }) as *mut K as *mut u8
                    })
                }
            }"
        )
    );
}

struct ContainerLayouts;

impl ContainerLayouts {
    fn empty_dynamic() -> Layout<Written> {
        generate(ContainerSchema {
            name: "Open".to_string(),
            vis: Visibility::Inherited,
            attrs: Vec::new(),
            fields: Vec::new(),
            dynamic: true,
            iterable_traits: Vec::new(),
        })
        .ok()
        .expect("no defect")
    }
}

#[test]
fn the_fallible_getters_take_any_type() {
    assert_eq!(
        tokens(&build_fallible_getters()),
        tokens(
            "pub fn get<K: core::any::Any>(&self) -> Option<&K> {
                self.get_const_ptr::<K>().map(|x| unsafe { &*(x as *const K) })
            }
            pub fn get_mut<K: core::any::Any>(&mut self) -> Option<&mut K> {
                self.get_mut_ptr::<K>().map(|x| unsafe { &mut *(x as *mut K) })
            }"
        )
    );
    // Whatever the capabilities are, a fallible getter asks nothing of the type but that it is one.
    let bounded = layout(true, &[("Plugin", "iter_plugins")]);
    assert!(build_impl_block(&bounded).contains("pub fn get<K: core::any::Any>(&self) -> Option<&K>"));
    assert!(build_impl_block(&bounded)
        .contains("pub fn get_mut<K: core::any::Any>(&mut self) -> Option<&mut K>"));
}

#[test]
fn the_other_operations_are_bounded_by_the_capabilities() {
    let bounded = layout(true, &[("Plugin", "iter_plugins")]);
    assert!(build_infallible_getters(&bounded)
        .contains("pub fn get_infallible<K: PluginMapKey + Plugin>(&self) -> &K"));
    assert!(build_infallible_getters(&bounded)
        .contains("pub fn get_infallible_mut<K: PluginMapKey + Plugin>(&mut self) -> &mut K"));
    assert!(build_insert(&bounded).contains("pub fn insert<K: core::any::Any + Plugin>(&mut self, mut value: K)"));
}

#[test]
fn the_error_type_has_one_variant() {
    assert_eq!(
        build_error_type(&layout(false, &[])),
        "#[derive(Debug, Clone, Copy, PartialEq, Eq)] pub enum PluginMapInsertError { UnknownType }"
    );
    let file = syn::parse_file(&build_error_type(&layout(true, &[]))).expect("the error type parses");
    match &file.items[0] {
        syn::Item::Enum(e) => {
            assert_eq!(e.ident.to_string(), "PluginMapInsertError");
            let variants: Vec<String> = e.variants.iter().map(|v| v.ident.to_string()).collect();
            assert_eq!(variants, vec!["UnknownType"]);
        }
        _ => panic!("the error type is an enum"),
    }
}

#[test]
fn insertion_fails_with_unknown_type_without_an_open_extension() {
    assert_eq!(
        tokens(&build_insert(&layout(false, &[]))),
        tokens(
            "pub fn insert<K: core::any::Any>(&mut self, mut value: K) -> Result<Option<K>, PluginMapInsertError> {
                use core::any::Any;
                if let Some(x) = self.get_mut_ptr::<K>() {
                    core::mem::swap(&mut value, unsafe { &mut *(x as *mut K) });
                    return Ok(Some(value));
                }
                Err(PluginMapInsertError::UnknownType)
            }"
        )
    );
    let open = build_insert(&layout(true, &[]));
    assert!(open.contains("-> Result<Option<K>, PluginMapInsertError>"));
    assert!(open.contains("Ok(self.dynamic_keys.insert(tid, PluginMapCell::new(value))"));
    assert!(!open.contains("Err("));
}

#[test]
fn there_are_two_iteration_methods_per_capability() {
    assert_eq!(build_iterators(&layout(true, &[])), "");
    let text = build_iterators(&layout(true, &[("Plugin", "iter_plugins")]));
    assert_eq!(
        tokens(&text),
        tokens(
            "fn iter_plugins(&self) -> core::iter::Chain<core::array::IntoIter<&dyn Plugin, 3>, core::iter::Map<std::collections::hash_map::Values<'_, core::any::TypeId, PluginMapCell>, for<'r> fn(&'r PluginMapCell) -> &'r (dyn Plugin + 'r)>> {
                let static_arr: [&dyn Plugin; 3] = [&self.graphics as &dyn Plugin, &self.slot_0 as &dyn Plugin, &self.slot_1 as &dyn Plugin];
                let static_iter = static_arr.into_iter();
                let dyn_ref = &self.dynamic_keys;
                fn conv<'b>(cell: &'b PluginMapCell) -> &'b dyn Plugin {
                    (cell.iter_plugins)(&*cell.value)
                }
                let dyn_iter = dyn_ref.values().map(conv as fn(&PluginMapCell) -> &dyn Plugin);
                static_iter.chain(dyn_iter)
            }
            fn iter_plugins_mut(&mut self) -> core::iter::Chain<core::array::IntoIter<&mut dyn Plugin, 3>, core::iter::Map<std::collections::hash_map::ValuesMut<'_, core::any::TypeId, PluginMapCell>, for<'r> fn(&'r mut PluginMapCell) -> &'r mut (dyn Plugin + 'r)>> {
                let static_arr: [&mut dyn Plugin; 3] = [&mut self.graphics as &mut dyn Plugin, &mut self.slot_0 as &mut dyn Plugin, &mut self.slot_1 as &mut dyn Plugin];
                let static_iter = static_arr.into_iter();
                let dyn_ref = &mut self.dynamic_keys;
                fn conv<'b>(cell: &'b mut PluginMapCell) -> &'b mut dyn Plugin {
                    (cell.iter_plugins_mut)(&mut *cell.value)
                }
                let dyn_iter = dyn_ref.values_mut().map(conv as fn(&mut PluginMapCell) -> &mut dyn Plugin);
                static_iter.chain(dyn_iter)
            }"
        )
    );
    let fixed = build_iterators(&layout(false, &[("Plugin", "iter_plugins")]));
    assert!(fixed.contains("let dyn_iter = core::iter::empty();"));
}

fn names_of(items: &[syn::Item]) -> Vec<String> {
    items
        .iter()
        .map(|item| match item {
            syn::Item::Struct(s) => format!("struct {}", s.ident),
            syn::Item::Enum(e) => format!("enum {}", e.ident),
            syn::Item::Trait(t) => format!("trait {}", t.ident),
            syn::Item::Impl(i) => match &i.trait_ {
                Some((_, path, _)) => format!(
                    "impl {} for {}",
                    path.segments.last().expect("a path has segments").ident,
                    tokens_of_type(&i.self_ty)
                ),
                None => format!("impl {}", tokens_of_type(&i.self_ty)),
            },
            _ => "other".to_string(),
        })
        .collect()
}

fn tokens_of_type(ty: &syn::Type) -> String {
    match ty {
        syn::Type::Path(p) => p.path.segments.last().expect("a path has segments").ident.to_string(),
        _ => "?".to_string(),
    }
}

#[test]
fn the_declaration_is_rust() {
    for dynamic in [false, true] {
        for capabilities in [vec![], vec![("Plugin", "iter_plugins"), ("std::fmt::Display", "iter_display")]] {
            let text = decl_fixed_typemap(schema(dynamic, &capabilities)).expect("no defect");
            let file = syn::parse_file(&text).expect("the declaration parses as Rust");
            let mut expected = vec![
                "struct PluginMap".to_string(),
                "enum PluginMapInsertError".to_string(),
                "trait PluginMapKey".to_string(),
                "impl PluginMapKey for GraphicsPlugin".to_string(),
                "impl PluginMapKey for SoundPlugin".to_string(),
                "impl PluginMapKey for NetworkingPlugin".to_string(),
                "impl Default for PluginMap".to_string(),
            ];
            if dynamic {
                expected.push("struct PluginMapCell".to_string());
                expected.push("impl PluginMapCell".to_string());
            }
            expected.push("impl PluginMap".to_string());
            assert_eq!(names_of(&file.items), expected);

            let methods: Vec<String> = match file.items.last() {
                Some(syn::Item::Impl(block)) => block
                    .items
                    .iter()
                    .map(|item| match item {
                        syn::ImplItem::Method(m) => m.sig.ident.to_string(),
                        _ => "other".to_string(),
                    })
                    .collect(),
                _ => panic!("the impl block comes last"),
            };
            let mut expected_methods = vec![
                "new",
                "get_const_ptr",
                "get_mut_ptr",
                "get_infallible",
                "get_infallible_mut",
                "get",
                "get_mut",
                "insert",
            ];
            if !capabilities.is_empty() {
                expected_methods.extend(["iter_plugins", "iter_plugins_mut", "iter_display", "iter_display_mut"]);
            }
            assert_eq!(methods, expected_methods);
        }
    }
}

#[test]
fn the_same_schema_is_declared_alike() {
    let first = decl_fixed_typemap(schema(true, &[("Plugin", "iter_plugins")])).expect("no defect");
    let second = decl_fixed_typemap(schema(true, &[("Plugin", "iter_plugins")])).expect("no defect");
    assert_eq!(first, second);
    let layout = layout(true, &[("Plugin", "iter_plugins")]);
    assert_eq!(write_declaration(&layout), first);
    assert_eq!(
        first,
        [
            build_struct(&layout),
            build_error_type(&layout),
            build_trait_impls(&layout),
            build_cell_type(&layout),
            build_impl_block(&layout),
        ]
        .join(" ")
    );
}

#[test]
fn a_defective_schema_is_not_declared() {
    let mut twice = schema(true, &[]);
    twice.fields[2].key_type = 0;
    assert_eq!(decl_fixed_typemap(twice), Err(SchemaError::DuplicateType));
    let mut unnamed = schema(false, &[]);
    unnamed.fields[1].vis = Visibility::Public;
    assert_eq!(decl_fixed_typemap(unnamed), Err(SchemaError::VisibilityOnUnnamed));
    assert_eq!(
        decl_fixed_typemap(schema(true, &[("Plugin", "get")])),
        Err(SchemaError::MethodConflict)
    );
}

#[test]
fn types_written_alike_are_not_declared_twice() {
    // The type tokens differ, the written types do not.
    let mut alike = schema(true, &[]);
    alike.fields[2].initializer.key_type = "SoundPlugin".to_string();
    assert_eq!(decl_fixed_typemap(alike), Err(SchemaError::DuplicateType));
    // A field without a name that carries a visibility modifier is reported first.
    let mut both = schema(true, &[]);
    both.fields[2].initializer.key_type = "SoundPlugin".to_string();
    both.fields[1].vis = Visibility::Crate;
    assert_eq!(decl_fixed_typemap(both), Err(SchemaError::VisibilityOnUnnamed));
    // A name declared twice is reported after it.
    let mut named = schema(true, &[]);
    named.fields[1].declared_name = Some("graphics".to_string());
    named.fields[2].initializer.key_type = "SoundPlugin".to_string();
    assert_eq!(decl_fixed_typemap(named), Err(SchemaError::DuplicateType));
    let mut name_only = schema(true, &[]);
    name_only.fields[1].declared_name = Some("graphics".to_string());
    assert_eq!(decl_fixed_typemap(name_only), Err(SchemaError::DuplicateName));
}
