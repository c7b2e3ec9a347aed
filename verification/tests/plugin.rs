use transfer_manager::plugin::{IdentityPlugin, Plugin, PluginStack};

#[test]
fn stack_applies_inner_then_outer() {
    let stack = PluginStack::new(IdentityPlugin, IdentityPlugin);
    let out: u32 = <PluginStack<IdentityPlugin, IdentityPlugin> as Plugin<(), (), u32>>::apply(
        &stack, 7,
    );
    assert_eq!(out, 7);
}

#[test]
fn stacks_nest() {
    let stack = PluginStack::new(PluginStack::new(IdentityPlugin, IdentityPlugin), IdentityPlugin);
    let out: String = <PluginStack<PluginStack<IdentityPlugin, IdentityPlugin>, IdentityPlugin> as Plugin<
        (),
        (),
        String,
    >>::apply(&stack, "service".to_owned());
    assert_eq!(out, "service");
}
