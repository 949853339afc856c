//! The name resolver: derives a stable, normalized identifier for a callable
//! from the textual descriptor that the host's compile-time introspection
//! facility yields.
//!
//! Two entry points cover the two capture styles. [`resolve_implicit`] takes
//! the descriptor of an anonymous marker function defined at the call site,
//! inside the callable whose identity is sought; it strips the suffix the
//! marker itself contributes, and then every trailing closure marker, so a
//! capture from inside an inline closure reports the enclosing callable.
//! [`resolve_explicit`] takes the descriptor of a callable named directly
//! (as test code does); it strips a trailing generic-argument list, so all
//! instantiations of one generic callable collapse to one identifier.

use vstd::prelude::*;
use vstd::string::StrSliceExecFns;

verus! {

/// The segment the introspection facility appends to a descriptor captured
/// inside an anonymous closure.
pub open spec fn closure_marker() -> Seq<char> {
    "::{{closure}}"@
}

/// The suffix a call-site marker function named `f` contributes to its own
/// descriptor: a path separator and the marker's name.
pub open spec fn marker_suffix() -> Seq<char> {
    "::f"@
}

/// Whether `s` ends with `suffix`.
pub open spec fn ends_with(s: Seq<char>, suffix: Seq<char>) -> bool {
    s.len() >= suffix.len() && s.subrange(s.len() - suffix.len(), s.len() as int) == suffix
}

/// `s` with every trailing closure marker removed.
pub open spec fn strip_closure_markers(s: Seq<char>) -> Seq<char>
    decreases s.len()
    via strip_closure_markers_termination
{
    if ends_with(s, closure_marker()) {
        strip_closure_markers(s.subrange(0, s.len() - closure_marker().len()))
    } else {
        s
    }
}

#[via_fn]
proof fn strip_closure_markers_termination(s: Seq<char>) {
    reveal_strlit("::{{closure}}");
}

/// What resolving implicitly from a call-site marker's descriptor yields:
/// the marker's own suffix goes, then every trailing closure marker.
pub open spec fn implicit_resolved(descriptor: Seq<char>) -> Seq<char>
    recommends
        descriptor.len() >= marker_suffix().len(),
{
    strip_closure_markers(descriptor.subrange(0, descriptor.len() - marker_suffix().len()))
}

/// The index of the rightmost `<` in `d`, or `-1` if there is none.
pub open spec fn last_open_angle(d: Seq<char>) -> int
    decreases d.len(),
{
    if d.len() == 0 {
        -1
    } else if d.last() == '<' {
        d.len() - 1
    } else {
        last_open_angle(d.drop_last())
    }
}

/// What resolving an explicitly named callable's descriptor yields: a
/// trailing generic-argument list, detected by a closing angle bracket at
/// the very end, is stripped back to the rightmost opening angle bracket
/// (everything goes when no opening bracket exists); any other descriptor
/// passes through unchanged.
pub open spec fn explicit_resolved(d: Seq<char>) -> Seq<char> {
    if d.len() > 0 && d.last() == '>' {
        if last_open_angle(d) >= 0 {
            d.subrange(0, last_open_angle(d))
        } else {
            Seq::empty()
        }
    } else {
        d
    }
}

proof fn lemma_last_open_angle(d: Seq<char>)
    ensures
        -1 <= last_open_angle(d) < d.len(),
        last_open_angle(d) >= 0 ==> d[last_open_angle(d)] == '<',
        forall|j: int| last_open_angle(d) < j < d.len() ==> d[j] != '<',
    decreases d.len(),
{
    if d.len() == 0 {
    } else if d.last() == '<' {
    } else {
        lemma_last_open_angle(d.drop_last());
        assert(forall|j: int| 0 <= j < d.len() - 1 ==> d.drop_last()[j] == d[j]);
    }
}

proof fn lemma_last_open_angle_at(d: Seq<char>, k: int)
    requires
        0 <= k < d.len(),
        d[k] == '<',
        forall|j: int| k < j < d.len() ==> d[j] != '<',
    ensures
        last_open_angle(d) == k,
{
    lemma_last_open_angle(d);
    if last_open_angle(d) < k {
        assert(d[k] != '<');
    }
}

/// An interned-text name for a callable: the registry's key. Wraps the
/// normalized identifier, which lives for the life of the program since it
/// originates from compile-time introspection of static binary metadata.
#[derive(Debug, Copy, Clone, PartialEq, Eq, PartialOrd, Ord, Hash)]
pub struct StubbyName(&'static str);

impl View for StubbyName {
    type V = Seq<char>;

    closed spec fn view(&self) -> Seq<char> {
        self.0@
    }
}

impl StubbyName {
    /// Wraps text that is already normalized. Intended for call-site
    /// injection code, not for direct use: names should come from
    /// [`resolve_implicit`] or [`resolve_explicit`].
    pub fn __macro_new(name: &'static str) -> (r: Self)
        ensures
            r@ == name@,
    {
        StubbyName(name)
    }

    /// The normalized text of the name.
    pub fn as_str(&self) -> (r: &'static str)
        ensures
            r@ == self@,
    {
        self.0
    }

    /// Whether two names hold the same text.
    pub fn is_same(&self, other: &StubbyName) -> (r: bool)
        ensures
            r == (self@ == other@),
    {
        str_eq(self.0, other.0)
    }
}

impl Default for StubbyName {
    /// The empty name.
    fn default() -> (r: Self)
        ensures
            r@ == Seq::<char>::empty(),
    {
        proof {
            reveal_strlit("");
            assert(""@ =~= Seq::<char>::empty());
        }
        StubbyName("")
    }
}

/// Compares two string slices character by character.
pub(crate) fn str_eq(a: &str, b: &str) -> (r: bool)
    ensures
        r == (a@ == b@),
{
    let n: usize = a.unicode_len();
    if n != b.unicode_len() {
        return false;
    }
    let mut i: usize = 0;
    while i < n
        invariant
            n == a@.len(),
            n == b@.len(),
            i <= n,
            forall|j: int| 0 <= j < i ==> a@[j] == b@[j],
        decreases n - i,
    {
        if a.get_char(i) != b.get_char(i) {
            return false;
        }
        i = i + 1;
    }
    proof {
        assert(a@ =~= b@);
    }
    true
}

/// Resolves the name of the callable enclosing a call site, from the
/// descriptor of the anonymous marker function `f` defined there. The marker
/// contributes its own trailing path segment, which goes first; a descriptor
/// captured inside an anonymous inline closure then carries trailing closure
/// markers, which go too, so the result matches what [`resolve_explicit`]
/// yields for the enclosing callable itself.
pub fn resolve_implicit(descriptor: &'static str) -> (r: StubbyName)
    requires
        descriptor@.len() >= 3,
    ensures
        r@ == implicit_resolved(descriptor@),
{
    proof {
        reveal_strlit("::f");
        reveal_strlit("::{{closure}}");
    }
    let n: usize = descriptor.unicode_len();
    // 3 is the length of the marker's own `::f` suffix
    let mut s: &'static str = descriptor.substring_char(0, n - 3);
    loop
        invariant
            strip_closure_markers(s@) == implicit_resolved(descriptor@),
        decreases s@.len(),
    {
        proof {
            reveal_strlit("::{{closure}}");
        }
        let m: usize = s.unicode_len();
        if m >= 13 && str_eq(s.substring_char(m - 13, m), "::{{closure}}") {
            // 13 is the length of one `::{{closure}}` marker
            s = s.substring_char(0, m - 13);
        } else {
            return StubbyName(s);
        }
    }
}

/// Resolves the name of an explicitly referenced callable from its
/// descriptor. A trailing generic-argument list is stripped back to the
/// rightmost opening angle bracket, so distinct instantiations of one
/// generic callable collapse to the same name.
pub fn resolve_explicit(descriptor: &'static str) -> (r: StubbyName)
    ensures
        r@ == explicit_resolved(descriptor@),
{
    let n: usize = descriptor.unicode_len();
    if n == 0 {
        return StubbyName(descriptor);
    }
    if descriptor.get_char(n - 1) != '>' {
        return StubbyName(descriptor);
    }
    let mut i: usize = n;
    while i > 0
        invariant
            n == descriptor@.len(),
            1 <= n,
            descriptor@[n - 1] == '>',
            i <= n,
            forall|j: int| i <= j < n ==> descriptor@[j] != '<',
        decreases i,
    {
        if descriptor.get_char(i - 1) == '<' {
            proof {
                lemma_last_open_angle_at(descriptor@, i - 1);
            }
            return StubbyName(descriptor.substring_char(0, i - 1));
        }
        i = i - 1;
    }
    proof {
        lemma_last_open_angle(descriptor@);
        if last_open_angle(descriptor@) >= 0 {
            assert(descriptor@[last_open_angle(descriptor@)] != '<');
        }
        assert(descriptor@.subrange(0, 0) =~= Seq::<char>::empty());
    }
    StubbyName(descriptor.substring_char(0, 0))
}

/// Law: for a callable whose qualified path ends in no closure marker and in
/// no closing angle bracket (one that is neither closure-nested nor carrying
/// a generic-argument list), resolving implicitly from inside its body and
/// resolving it explicitly by reference yield the same name: the path itself.
pub proof fn lemma_implicit_matches_explicit(path: Seq<char>)
    requires
        !ends_with(path, closure_marker()),
        path.len() > 0 ==> path.last() != '>',
    ensures
        implicit_resolved(path + marker_suffix()) == path,
        explicit_resolved(path) == path,
{
    reveal_strlit("::f");
    let d = path + marker_suffix();
    assert(d.subrange(0, d.len() - marker_suffix().len()) =~= path);
}

/// Law: two instantiations of one generic callable resolve explicitly to the
/// same name. An instantiation's descriptor is the callable's path followed
/// by its generic-argument text in angle brackets; as long as that text holds
/// no opening angle bracket of its own (no nested generic arguments), the
/// whole list is stripped and the path alone remains.
pub proof fn lemma_generic_instantiations_collapse(
    path: Seq<char>,
    args1: Seq<char>,
    args2: Seq<char>,
)
    requires
        !args1.contains('<'),
        !args2.contains('<'),
    ensures
        explicit_resolved(path + "<"@ + args1 + ">"@) == path,
        explicit_resolved(path + "<"@ + args2 + ">"@) == path,
{
    lemma_explicit_strips_argument_list(path, args1);
    lemma_explicit_strips_argument_list(path, args2);
}

proof fn lemma_explicit_strips_argument_list(path: Seq<char>, args: Seq<char>)
    requires
        !args.contains('<'),
    ensures
        explicit_resolved(path + "<"@ + args + ">"@) == path,
{
    reveal_strlit("<");
    reveal_strlit(">");
    let d = path + "<"@ + args + ">"@;
    assert(d.last() == '>');
    assert(d[path.len() as int] == '<');
    assert forall|j: int| path.len() < j < d.len() implies d[j] != '<' by {
        if j < d.len() - 1 {
            assert(d[j] == args[j - path.len() - 1]);
            assert(!args.contains('<'));
        }
    }
    lemma_last_open_angle_at(d, path.len() as int);
    assert(d.subrange(0, path.len() as int) =~= path);
}

/// Law: a descriptor captured from inside an anonymous inline closure within
/// a callable resolves to the enclosing callable's own name, the same name
/// an implicit capture at the callable's top level yields.
pub proof fn lemma_closure_resolves_to_enclosing(path: Seq<char>)
    requires
        !ends_with(path, closure_marker()),
    ensures
        implicit_resolved(path + closure_marker() + marker_suffix()) == implicit_resolved(
            path + marker_suffix(),
        ),
        implicit_resolved(path + marker_suffix()) == path,
{
    reveal_strlit("::f");
    reveal_strlit("::{{closure}}");
    let nested = path + closure_marker() + marker_suffix();
    let plain = path + marker_suffix();
    assert(plain.subrange(0, plain.len() - marker_suffix().len()) =~= path);
    let stripped = nested.subrange(0, nested.len() - marker_suffix().len());
    assert(stripped =~= path + closure_marker());
    assert(ends_with(path + closure_marker(), closure_marker())) by {
        let pc = path + closure_marker();
        assert(pc.subrange(pc.len() - closure_marker().len(), pc.len() as int)
            =~= closure_marker());
    }
    assert((path + closure_marker()).subrange(
        0,
        (path + closure_marker()).len() - closure_marker().len(),
    ) =~= path);
}

} // verus!
