//! The order of repository paths.
//!
//! Changed files are kept ordered and identified by their path the way
//! `std::path::Path` orders and compares Unix paths: component by
//! component, where a path's components are its `/`-separated parts with
//! empty and `.` parts dropped, a leading `/` giving a root component, a
//! leading `.` part giving a current-directory component and `..` giving
//! a parent-directory component. Two paths with the same components are
//! the same path (`a//b` and `a/b/` are both `a/b`).
use vstd::prelude::*;
use vstd::utf8::encode_utf8;

verus! {

/// The byte of the path separator `/`.
pub const SLASH: u8 = 0x2f;

/// The byte of `.`.
pub const DOT: u8 = 0x2e;

/// A component of a path, as its model.
pub enum ComponentView {
    RootDir,
    CurDir,
    ParentDir,
    Normal(Seq<u8>),
}

/// A component of a path.
#[derive(Clone, Debug)]
pub enum Component {
    RootDir,
    CurDir,
    ParentDir,
    Normal(Vec<u8>),
}

impl View for Component {
    type V = ComponentView;

    open spec fn view(&self) -> ComponentView {
        match self {
            Component::RootDir => ComponentView::RootDir,
            Component::CurDir => ComponentView::CurDir,
            Component::ParentDir => ComponentView::ParentDir,
            Component::Normal(b) => ComponentView::Normal(b@),
        }
    }
}

/// The models of a sequence of components.
pub open spec fn components_view(cs: Seq<Component>) -> Seq<ComponentView> {
    cs.map_values(|c: Component| c@)
}

// ---------------------------------------------------------------------------
// Splitting a path into its components
// ---------------------------------------------------------------------------

/// Splitting `b` at every `/`: the parts before the last separator, and the
/// part after it.
pub open spec fn split_state(b: Seq<u8>) -> (Seq<Seq<u8>>, Seq<u8>)
    decreases b.len(),
{
    if b.len() == 0 {
        (Seq::empty(), Seq::empty())
    } else {
        let (done, cur) = split_state(b.drop_last());
        if b.last() == SLASH {
            (done.push(cur), Seq::empty())
        } else {
            (done, cur.push(b.last()))
        }
    }
}

/// The parts of `b` between separators, empty ones included; never empty.
pub open spec fn raw_segments(b: Seq<u8>) -> Seq<Seq<u8>> {
    split_state(b).0.push(split_state(b).1)
}

/// What a part between separators contributes to the components.
pub open spec fn classify(seg: Seq<u8>) -> Option<ComponentView> {
    if seg.len() == 0 || seg == seq![DOT] {
        None
    } else if seg == seq![DOT, DOT] {
        Some(ComponentView::ParentDir)
    } else {
        Some(ComponentView::Normal(seg))
    }
}

/// The components contributed by a sequence of parts.
pub open spec fn normal_components(segs: Seq<Seq<u8>>) -> Seq<ComponentView>
    decreases segs.len(),
{
    if segs.len() == 0 {
        Seq::empty()
    } else {
        let rest = normal_components(segs.drop_last());
        match classify(segs.last()) {
            Some(c) => rest.push(c),
            None => rest,
        }
    }
}

/// The components of the path whose bytes are `b`.
pub open spec fn path_components(b: Seq<u8>) -> Seq<ComponentView> {
    let segs = raw_segments(b);
    if b.len() > 0 && b[0] == SLASH {
        seq![ComponentView::RootDir] + normal_components(segs.drop_first())
    } else if segs[0] == seq![DOT] {
        seq![ComponentView::CurDir] + normal_components(segs.drop_first())
    } else {
        normal_components(segs)
    }
}

/// The components of the path with text `p`.
pub open spec fn path_key(p: Seq<char>) -> Seq<ComponentView> {
    path_components(encode_utf8(p))
}

// ---------------------------------------------------------------------------
// Orders
// ---------------------------------------------------------------------------

/// Lexicographic order of sequences under the element order `less`.
pub open spec fn lex_less<T>(a: Seq<T>, b: Seq<T>, less: spec_fn(T, T) -> bool) -> bool
    decreases a.len(),
{
    if a.len() == 0 {
        b.len() > 0
    } else if b.len() == 0 {
        false
    } else if a[0] == b[0] {
        lex_less(a.drop_first(), b.drop_first(), less)
    } else {
        less(a[0], b[0])
    }
}

/// `less` is a strict total order.
pub open spec fn is_strict_total<T>(less: spec_fn(T, T) -> bool) -> bool {
    &&& forall|x: T| !#[trigger] less(x, x)
    &&& forall|x: T, y: T, z: T| #[trigger] less(x, y) && #[trigger] less(y, z) ==> less(x, z)
    &&& forall|x: T, y: T| #![trigger less(x, y)] x == y || less(x, y) || less(y, x)
}

/// The order of bytes.
pub open spec fn byte_order() -> spec_fn(u8, u8) -> bool {
    |x: u8, y: u8| x < y
}

/// The order of the component kinds: root, current directory, parent
/// directory, then named components.
pub open spec fn rank(c: ComponentView) -> int {
    match c {
        ComponentView::RootDir => 0,
        ComponentView::CurDir => 1,
        ComponentView::ParentDir => 2,
        ComponentView::Normal(_) => 3,
    }
}

/// The order of two components: by kind, named components by their bytes.
pub open spec fn component_less(a: ComponentView, b: ComponentView) -> bool {
    rank(a) < rank(b) || match (a, b) {
        (ComponentView::Normal(x), ComponentView::Normal(y)) => lex_less(x, y, byte_order()),
        _ => false,
    }
}

/// The order of components, as a function value.
pub open spec fn component_order() -> spec_fn(ComponentView, ComponentView) -> bool {
    |a: ComponentView, b: ComponentView| component_less(a, b)
}

/// Path `a` comes before path `b`.
pub open spec fn path_less(a: Seq<char>, b: Seq<char>) -> bool {
    lex_less(path_key(a), path_key(b), component_order())
}

/// Paths `a` and `b` are the same path.
pub open spec fn same_path(a: Seq<char>, b: Seq<char>) -> bool {
    path_key(a) == path_key(b)
}

// ---------------------------------------------------------------------------
// Lemmas on the lexicographic order
// ---------------------------------------------------------------------------

proof fn lemma_lex_irreflexive<T>(a: Seq<T>, less: spec_fn(T, T) -> bool)
    ensures
        !lex_less(a, a, less),
    decreases a.len(),
{
    if a.len() > 0 {
        lemma_lex_irreflexive(a.drop_first(), less);
    }
}

proof fn lemma_lex_transitive<T>(a: Seq<T>, b: Seq<T>, c: Seq<T>, less: spec_fn(T, T) -> bool)
    requires
        is_strict_total(less),
        lex_less(a, b, less),
        lex_less(b, c, less),
    ensures
        lex_less(a, c, less),
    decreases a.len(),
{
    if a.len() > 0 && b.len() > 0 && c.len() > 0 {
        if a[0] == b[0] && b[0] == c[0] {
            lemma_lex_transitive(a.drop_first(), b.drop_first(), c.drop_first(), less);
        } else if a[0] == b[0] {
            assert(less(b[0], c[0]));
        } else if b[0] == c[0] {
            assert(less(a[0], b[0]));
        } else {
            assert(less(a[0], b[0]) && less(b[0], c[0]));
            assert(less(a[0], c[0]));
            if a[0] == c[0] {
                assert(!less(a[0], a[0]));
            }
        }
    }
}

proof fn lemma_lex_total<T>(a: Seq<T>, b: Seq<T>, less: spec_fn(T, T) -> bool)
    requires
        is_strict_total(less),
    ensures
        a == b || lex_less(a, b, less) || lex_less(b, a, less),
    decreases a.len(),
{
    if a.len() > 0 && b.len() > 0 {
        if a[0] == b[0] {
            lemma_lex_total(a.drop_first(), b.drop_first(), less);
            if a.drop_first() == b.drop_first() {
                assert(a =~= seq![a[0]] + a.drop_first());
                assert(b =~= seq![b[0]] + b.drop_first());
            }
        } else {
            assert(less(a[0], b[0]) || less(b[0], a[0]));
        }
    } else if a.len() == 0 && b.len() == 0 {
        assert(a =~= b);
    }
}

/// A lexicographic order over a strict total order is a strict total order.
proof fn lemma_lex_strict_total<T>(less: spec_fn(T, T) -> bool)
    requires
        is_strict_total(less),
    ensures
        is_strict_total(|a: Seq<T>, b: Seq<T>| lex_less(a, b, less)),
{
    let lex = |a: Seq<T>, b: Seq<T>| lex_less(a, b, less);
    assert forall|x: Seq<T>| !#[trigger] lex(x, x) by {
        lemma_lex_irreflexive(x, less);
    }
    assert forall|x: Seq<T>, y: Seq<T>, z: Seq<T>| #[trigger] lex(x, y) && #[trigger] lex(y, z) implies lex(x, z) by {
        lemma_lex_transitive(x, y, z, less);
    }
    assert forall|x: Seq<T>, y: Seq<T>| #![trigger lex(x, y)] x == y || lex(x, y) || lex(y, x) by {
        lemma_lex_total(x, y, less);
    }
}

/// The lexicographic order after a common prefix of length `i` is the order
/// of what follows it.
proof fn lemma_lex_skip<T>(a: Seq<T>, b: Seq<T>, i: int, less: spec_fn(T, T) -> bool)
    requires
        0 <= i <= a.len(),
        i <= b.len(),
        forall|j: int| 0 <= j < i ==> a[j] == b[j],
    ensures
        lex_less(a, b, less) == lex_less(a.skip(i), b.skip(i), less),
    decreases i,
{
    if i > 0 {
        lemma_lex_skip(a.drop_first(), b.drop_first(), i - 1, less);
        assert(a.drop_first().skip(i - 1) =~= a.skip(i));
        assert(b.drop_first().skip(i - 1) =~= b.skip(i));
    } else {
        assert(a.skip(0) =~= a);
        assert(b.skip(0) =~= b);
    }
}

/// The order of bytes is a strict total order.
proof fn lemma_byte_order_strict_total()
    ensures
        is_strict_total(byte_order()),
{
}

/// The order of components is a strict total order.
proof fn lemma_component_order_strict_total()
    ensures
        is_strict_total(component_order()),
{
    lemma_byte_order_strict_total();
    lemma_lex_strict_total(byte_order());
    let bl = |a: Seq<u8>, b: Seq<u8>| lex_less(a, b, byte_order());
    let cl = component_order();
    assert forall|x: ComponentView| !#[trigger] cl(x, x) by {
        if let ComponentView::Normal(n) = x {
            assert(!bl(n, n));
        }
    }
    assert forall|x: ComponentView, y: ComponentView, z: ComponentView|
        #[trigger] cl(x, y) && #[trigger] cl(y, z) implies cl(x, z) by {
        if let (ComponentView::Normal(a), ComponentView::Normal(b), ComponentView::Normal(c)) = (x, y, z) {
            assert(bl(a, b) && bl(b, c));
            assert(bl(a, c));
        }
    }
    assert forall|x: ComponentView, y: ComponentView| #![trigger cl(x, y)] x == y || cl(x, y) || cl(y, x) by {
        if let (ComponentView::Normal(a), ComponentView::Normal(b)) = (x, y) {
            assert(a == b || bl(a, b) || bl(b, a));
        }
    }
}

/// The order of paths is a strict total order on paths taken up to
/// sameness: no path comes before itself, it is transitive, and of two
/// paths either they are the same path or one comes before the other.
pub proof fn law_path_order(a: Seq<char>, b: Seq<char>, c: Seq<char>)
    ensures
        !path_less(a, a),
        path_less(a, b) && path_less(b, c) ==> path_less(a, c),
        same_path(a, b) || path_less(a, b) || path_less(b, a),
        !(same_path(a, b) && path_less(a, b)),
        !(path_less(a, b) && path_less(b, a)),
{
    lemma_component_order_strict_total();
    lemma_lex_strict_total(component_order());
    let pl = |x: Seq<ComponentView>, y: Seq<ComponentView>| lex_less(x, y, component_order());
    assert(!pl(path_key(a), path_key(a)));
    if path_less(a, b) && path_less(b, c) {
        assert(pl(path_key(a), path_key(b)) && pl(path_key(b), path_key(c)));
    }
    assert(path_key(a) == path_key(b) || pl(path_key(a), path_key(b)) || pl(path_key(b), path_key(a)));
    if path_less(a, b) && path_less(b, a) {
        assert(pl(path_key(a), path_key(b)) && pl(path_key(b), path_key(a)));
        assert(pl(path_key(a), path_key(a)));
    }
}


// ---------------------------------------------------------------------------
// Executable splitting and comparison
// ---------------------------------------------------------------------------

/// The outcome of comparing two paths (or parts of paths).
#[derive(Clone, Copy, Debug, PartialEq, Eq, Structural)]
pub enum PathOrder {
    Less,
    Same,
    Greater,
}

/// `r` is the outcome of comparing `a` with `b` under the lexicographic
/// order over `less`.
pub open spec fn lex_outcome<T>(r: PathOrder, a: Seq<T>, b: Seq<T>, less: spec_fn(T, T) -> bool) -> bool {
    &&& (r == PathOrder::Less <==> lex_less(a, b, less))
    &&& (r == PathOrder::Same <==> a == b)
    &&& (r == PathOrder::Greater <==> lex_less(b, a, less))
}

/// The models of a sequence of byte vectors.
pub open spec fn seg_views(v: Seq<Vec<u8>>) -> Seq<Seq<u8>> {
    v.map_values(|s: Vec<u8>| s@)
}

/// The parts of the path with bytes `b` between separators.
fn raw_segments_of(b: &[u8]) -> (r: Vec<Vec<u8>>)
    ensures
        seg_views(r@) == raw_segments(b@),
        r@.len() >= 1,
{
    let mut done: Vec<Vec<u8>> = Vec::new();
    let mut cur: Vec<u8> = Vec::new();
    let n = b.len();
    for i in 0..n
        invariant
            n == b@.len(),
            (seg_views(done@), cur@) == split_state(b@.take(i as int)),
    {
        assert(b@.take(i + 1).drop_last() =~= b@.take(i as int));
        if b[i] == SLASH {
            let ghost old_done = seg_views(done@);
            let ghost old_cur = cur@;
            done.push(cur);
            cur = Vec::new();
            assert(seg_views(done@) =~= old_done.push(old_cur));
            assert(cur@ =~= Seq::<u8>::empty());
        } else {
            cur.push(b[i]);
        }
    }
    assert(b@.take(n as int) =~= b@);
    let ghost old_done = seg_views(done@);
    let ghost old_cur = cur@;
    done.push(cur);
    assert(seg_views(done@) =~= old_done.push(old_cur));
    done
}

/// Whether a part is exactly `.`.
fn is_dot(seg: &Vec<u8>) -> (r: bool)
    ensures
        r == (seg@ == seq![DOT]),
{
    if seg.len() == 1 && seg[0] == DOT {
        assert(seg@ =~= seq![DOT]);
        true
    } else {
        false
    }
}

/// What a part between separators contributes to the components.
fn classify_segment(seg: &Vec<u8>) -> (r: Option<Component>)
    ensures
        match r {
            Some(c) => classify(seg@) == Some(c@),
            None => classify(seg@).is_none(),
        },
{
    if seg.len() == 0 || is_dot(seg) {
        None
    } else if seg.len() == 2 && seg[0] == DOT && seg[1] == DOT {
        assert(seg@ =~= seq![DOT, DOT]);
        Some(Component::ParentDir)
    } else {
        assert(seg@ != seq![DOT, DOT]) by {
            if seg@ == seq![DOT, DOT] {
                assert(seg@.len() == 2 && seg@[0] == DOT && seg@[1] == DOT);
            }
        }
        Some(Component::Normal(seg.clone()))
    }
}

/// The components of the path whose bytes are `b`.
pub fn path_components_of(b: &[u8]) -> (r: Vec<Component>)
    ensures
        components_view(r@) == path_components(b@),
{
    let segs = raw_segments_of(b);
    let ghost sv = seg_views(segs@);
    let mut out: Vec<Component> = Vec::new();
    let start: usize;
    if b.len() > 0 && b[0] == SLASH {
        out.push(Component::RootDir);
        start = 1;
    } else if is_dot(&segs[0]) {
        out.push(Component::CurDir);
        start = 1;
    } else {
        start = 0;
    }
    let ghost prefix = components_view(out@);
    assert(normal_components(sv.subrange(start as int, start as int)) =~= Seq::<ComponentView>::empty()) by {
        assert(sv.subrange(start as int, start as int) =~= Seq::<Seq<u8>>::empty());
    }
    assert(components_view(out@) =~= prefix + normal_components(sv.subrange(start as int, start as int)));
    let n = segs.len();
    for j in start..n
        invariant
            n == segs@.len(),
            sv == seg_views(segs@),
            start <= n,
            components_view(out@) == prefix + normal_components(sv.subrange(start as int, j as int)),
    {
        let ghost before = components_view(out@);
        let c = classify_segment(&segs[j]);
        assert(sv.subrange(start as int, j + 1).drop_last() =~= sv.subrange(start as int, j as int));
        assert(sv.subrange(start as int, j + 1).last() == segs@[j as int]@);
        match c {
            Some(c) => {
                out.push(c);
                assert(components_view(out@) =~= before.push(c@));
            },
            None => {},
        }
    }
    assert(sv.subrange(start as int, n as int) =~= if start == 1 { sv.drop_first() } else { sv });
    if start == 0 {
        assert(prefix =~= Seq::<ComponentView>::empty());
        assert(components_view(out@) =~= normal_components(sv));
    } else if b.len() > 0 && b[0] == SLASH {
        assert(prefix =~= seq![ComponentView::RootDir]);
    } else {
        assert(prefix =~= seq![ComponentView::CurDir]);
    }
    out
}

/// Compares two byte strings in lexicographic order.
fn compare_bytes(a: &Vec<u8>, b: &Vec<u8>) -> (r: PathOrder)
    ensures
        lex_outcome(r, a@, b@, byte_order()),
{
    proof {
        lemma_byte_order_strict_total();
        lemma_lex_strict_total(byte_order());
        lemma_lex_total(a@, b@, byte_order());
        lemma_lex_irreflexive(a@, byte_order());
    }
    let mut i: usize = 0;
    while i < a.len() && i < b.len() && a[i] == b[i]
        invariant
            i <= a@.len(),
            i <= b@.len(),
            forall|j: int| 0 <= j < i ==> a@[j] == b@[j],
        decreases a@.len() - i,
    {
        i = i + 1;
    }
    proof {
        lemma_lex_skip(a@, b@, i as int, byte_order());
        lemma_lex_skip(b@, a@, i as int, byte_order());
    }
    if i == a.len() && i == b.len() {
        assert(a@ =~= b@);
        PathOrder::Same
    } else if i == a.len() {
        PathOrder::Less
    } else if i == b.len() {
        PathOrder::Greater
    } else if a[i] < b[i] {
        assert(a@.skip(i as int)[0] == a@[i as int]);
        assert(b@.skip(i as int)[0] == b@[i as int]);
        PathOrder::Less
    } else {
        assert(a@.skip(i as int)[0] == a@[i as int]);
        assert(b@.skip(i as int)[0] == b@[i as int]);
        PathOrder::Greater
    }
}

/// Compares two components.
fn compare_component(a: &Component, b: &Component) -> (r: PathOrder)
    ensures
        (r == PathOrder::Less <==> component_less(a@, b@)),
        (r == PathOrder::Same <==> a@ == b@),
        (r == PathOrder::Greater <==> component_less(b@, a@)),
{
    proof {
        lemma_component_order_strict_total();
    }
    let ghost cl = component_order();
    assert(!cl(a@, a@) && !cl(b@, b@));
    assert(cl(a@, b@) ==> !cl(b@, a@)) by {
        if cl(a@, b@) && cl(b@, a@) {
            assert(cl(a@, a@));
        }
    }
    match (a, b) {
        (Component::Normal(x), Component::Normal(y)) => {
            let r = compare_bytes(x, y);
            r
        },
        _ => {
            let ra: u8 = match a {
                Component::RootDir => 0,
                Component::CurDir => 1,
                Component::ParentDir => 2,
                Component::Normal(_) => 3,
            };
            let rb: u8 = match b {
                Component::RootDir => 0,
                Component::CurDir => 1,
                Component::ParentDir => 2,
                Component::Normal(_) => 3,
            };
            assert(ra == rank(a@) && rb == rank(b@));
            if ra < rb {
                PathOrder::Less
            } else if rb < ra {
                PathOrder::Greater
            } else {
                PathOrder::Same
            }
        },
    }
}

/// Compares two sequences of components in lexicographic order.
fn compare_components(a: &Vec<Component>, b: &Vec<Component>) -> (r: PathOrder)
    ensures
        lex_outcome(r, components_view(a@), components_view(b@), component_order()),
{
    let ghost av = components_view(a@);
    let ghost bv = components_view(b@);
    proof {
        lemma_component_order_strict_total();
        lemma_lex_strict_total(component_order());
        lemma_lex_total(av, bv, component_order());
        lemma_lex_irreflexive(av, component_order());
    }
    let mut i: usize = 0;
    let mut diff: Option<PathOrder> = None;
    while i < a.len() && i < b.len()
        invariant_except_break
            diff.is_none(),
        invariant
            i <= a@.len(),
            i <= b@.len(),
            av == components_view(a@),
            bv == components_view(b@),
            forall|j: int| 0 <= j < i ==> av[j] == bv[j],
        ensures
            i <= a@.len(),
            i <= b@.len(),
            forall|j: int| 0 <= j < i ==> av[j] == bv[j],
            diff.is_none() ==> i == a@.len() || i == b@.len(),
            diff matches Some(d) ==> i < a@.len() && i < b@.len() && d != PathOrder::Same
                && (d == PathOrder::Less <==> component_less(av[i as int], bv[i as int]))
                && (d == PathOrder::Greater <==> component_less(bv[i as int], av[i as int]))
                && av[i as int] != bv[i as int],
        decreases a@.len() - i,
    {
        let c = compare_component(&a[i], &b[i]);
        if c != PathOrder::Same {
            diff = Some(c);
            break;
        }
        i = i + 1;
    }
    proof {
        lemma_lex_skip(av, bv, i as int, component_order());
        lemma_lex_skip(bv, av, i as int, component_order());
    }
    match diff {
        Some(d) => {
            assert(av.skip(i as int)[0] == av[i as int]);
            assert(bv.skip(i as int)[0] == bv[i as int]);
            d
        },
        None => {
            if i == a.len() && i == b.len() {
                assert(av =~= bv);
                PathOrder::Same
            } else if i == a.len() {
                PathOrder::Less
            } else {
                PathOrder::Greater
            }
        },
    }
}

/// Compares two paths in the order of `std::path::Path` on Unix.
pub fn compare_paths(a: &str, b: &str) -> (r: PathOrder)
    ensures
        (r == PathOrder::Less <==> path_less(a@, b@)),
        (r == PathOrder::Same <==> same_path(a@, b@)),
        (r == PathOrder::Greater <==> path_less(b@, a@)),
{
    let ca = path_components_of(a.as_bytes());
    let cb = path_components_of(b.as_bytes());
    compare_components(&ca, &cb)
}

} // verus!
