use as3_parser::directive_context::{ControlContext, DirectiveContext};

fn loop_context() -> ControlContext {
    ControlContext { breakable: true, iteration: true }
}

#[test]
fn labeled_loop_accepts_break_and_continue_to_its_label() {
    let context = DirectiveContext::Default.put_label("outer".to_owned());
    let inside = context.override_control_context(false, loop_context());
    assert!(inside.is_label_defined("outer".to_owned()));
    assert_eq!(inside.resolve_label("outer".to_owned()), Some(loop_context()));
    assert!(inside.is_break_allowed(Some("outer".to_owned())));
    assert!(inside.is_continue_allowed(Some("outer".to_owned())));
    assert!(inside.is_break_allowed(None));
    assert!(!inside.is_label_defined("inner".to_owned()));
    assert!(!inside.is_break_allowed(Some("inner".to_owned())));
}

#[test]
fn labeled_block_accepts_break_only() {
    let block = ControlContext { breakable: true, iteration: false };
    let inside = DirectiveContext::Default.put_label("done".to_owned()).override_control_context(true, block);
    assert!(inside.is_break_allowed(Some("done".to_owned())));
    assert!(!inside.is_continue_allowed(Some("done".to_owned())));
    // Only the label is at stake: there is no enclosing loop.
    assert!(!inside.is_break_allowed(None));
    assert!(!inside.is_continue_allowed(None));
}

#[test]
fn switch_inside_loop_keeps_outer_labels() {
    let switch = ControlContext { breakable: true, iteration: false };
    let in_loop = DirectiveContext::Default.put_label("l".to_owned()).override_control_context(false, loop_context());
    let in_switch = in_loop.override_control_context(false, switch);
    assert!(in_switch.is_break_allowed(None));
    assert!(!in_switch.is_continue_allowed(None));
    assert!(in_switch.is_continue_allowed(Some("l".to_owned())));
}

#[test]
fn relabeling_takes_the_new_statement() {
    let switch = ControlContext { breakable: true, iteration: false };
    let outer = DirectiveContext::Default.put_label("a".to_owned()).override_control_context(false, loop_context());
    let inner = outer.put_label("a".to_owned()).override_control_context(false, switch);
    assert_eq!(inner.resolve_label("a".to_owned()), Some(switch));
    assert_eq!(outer.resolve_label("a".to_owned()), Some(loop_context()));
}

#[test]
fn no_jumps_outside_control() {
    for context in [DirectiveContext::Default, DirectiveContext::TopLevel, DirectiveContext::PackageBlock] {
        assert!(!context.is_break_allowed(None));
        assert!(!context.is_continue_allowed(None));
        assert!(!context.is_label_defined("x".to_owned()));
        assert!(matches!(context.clone_control(), DirectiveContext::Default));
    }
}

#[test]
fn clone_control_keeps_labels() {
    let inside = DirectiveContext::Default.put_label("x".to_owned()).override_control_context(false, loop_context());
    let copy = inside.clone_control();
    assert!(copy.is_label_defined("x".to_owned()));
    assert!(copy.is_continue_allowed(None));
}

#[test]
fn type_blocks() {
    assert!(DirectiveContext::ClassBlock { name: "C".to_owned() }.is_type_block());
    assert!(DirectiveContext::InterfaceBlock.is_type_block());
    assert!(DirectiveContext::EnumBlock.is_type_block());
    assert!(!DirectiveContext::PackageBlock.is_type_block());
    assert!(!DirectiveContext::ConstructorBlock { super_statement_found: false }.is_type_block());
}
