use stubby::resolve_explicit;
use stubby::resolve_implicit;
use stubby::StubbyName;

// The descriptors below are what the host's introspection facility yields:
// for a callable named explicitly, its qualified path (plus a generic
// argument list for an instantiation); for a marker function `f` defined at
// a call site, the enclosing callable's path, a `::{{closure}}` segment per
// enclosing anonymous closure, and the marker's own `::f` segment.

#[test]
fn generics() {
    let from_inside = resolve_implicit("resolver::f::f");
    assert_eq!(resolve_explicit("resolver::f<i32>"), from_inside);
    assert_eq!(resolve_explicit("resolver::f<bool>"), from_inside);
}

#[test]
fn closures() {
    let from_inside_closure = resolve_implicit("resolver::f::{{closure}}::f");
    assert_eq!(resolve_explicit("resolver::f"), from_inside_closure);
}

#[test]
fn implicit_matches_explicit() {
    assert_eq!(resolve_explicit("resolver::plain_fn"), resolve_implicit("resolver::plain_fn::f"));
}

#[test]
fn implicit_strips_marker_suffix() {
    let name = resolve_implicit("my_crate::my_module::compute::f");
    assert_eq!(name, StubbyName::__macro_new("my_crate::my_module::compute"));
    assert_eq!(name.as_str(), "my_crate::my_module::compute");
}

#[test]
fn implicit_strips_closure_markers() {
    let nested_once = resolve_implicit("my_crate::compute::{{closure}}::f");
    assert_eq!(nested_once, StubbyName::__macro_new("my_crate::compute"));
    let nested_twice = resolve_implicit("my_crate::compute::{{closure}}::{{closure}}::f");
    assert_eq!(nested_twice, StubbyName::__macro_new("my_crate::compute"));
}

#[test]
fn explicit_strips_generic_arguments() {
    let generic = resolve_explicit("my_crate::compute<i32>");
    assert_eq!(generic, StubbyName::__macro_new("my_crate::compute"));
    let plain = resolve_explicit("my_crate::compute");
    assert_eq!(plain, StubbyName::__macro_new("my_crate::compute"));
}

#[test]
fn explicit_without_opening_bracket_strips_all() {
    assert_eq!(resolve_explicit("odd>"), StubbyName::__macro_new(""));
}
