use stubby::resolve_explicit;
use stubby::resolve_implicit;
use stubby::StubbyState;

// An instance embedding a registry, with the conditional call-site lookup at
// the top of each instrumented method: if a stub is registered for the
// method's resolved name, it is produced and returned early; otherwise the
// body runs unmodified. Each method resolves its own name from its call-site
// marker's descriptor; the test resolves the same names explicitly.

struct Widget(StubbyState);

impl Widget {
    fn size(&self) -> u32 {
        if let Some(stubbed) = self.0.get(resolve_implicit("widget::Widget::size::f")) {
            return stubbed;
        }
        4
    }

    fn weight(&self) -> u32 {
        if let Some(stubbed) = self.0.get(resolve_implicit("widget::Widget::weight::f")) {
            return stubbed;
        }
        7
    }
}

#[test]
fn stubbed_method_returns_stub_and_unstubbed_falls_through() {
    let mut stubs = StubbyState::new();
    stubs.insert(resolve_explicit("widget::Widget::size"), 42u32);
    let widget = Widget(stubs);
    assert_eq!(widget.size(), 42);
    assert_eq!(widget.weight(), 7);
}
