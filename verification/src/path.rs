//! Local paths, as far as decisions depend on them.
//!
//! How a path splits into components, and whether it is absolute, is a matter
//! of the platform. A [`LocalPath`] holds the platform's answers beside the
//! path's text.

use crate::text::{ascii_lower, chars_of, same_ignoring_ascii_case, same_text};
use vstd::prelude::*;

verus! {

/// One component of a path.
#[derive(Debug)]
pub enum PathComponent {
    /// A drive or a share.
    Prefix(String),
    /// The root directory.
    RootDir,
    /// The directory itself.
    CurDir,
    /// The directory above.
    ParentDir,
    /// A name.
    Normal(String),
}

/// A [`PathComponent`] with its text as a sequence of characters.
pub enum ComponentView {
    Prefix(Seq<char>),
    RootDir,
    CurDir,
    ParentDir,
    Normal(Seq<char>),
}

impl View for PathComponent {
    type V = ComponentView;

    open spec fn view(&self) -> ComponentView {
        match *self {
            PathComponent::Prefix(s) => ComponentView::Prefix(s@),
            PathComponent::RootDir => ComponentView::RootDir,
            PathComponent::CurDir => ComponentView::CurDir,
            PathComponent::ParentDir => ComponentView::ParentDir,
            PathComponent::Normal(s) => ComponentView::Normal(s@),
        }
    }
}

impl Clone for PathComponent {
    fn clone(&self) -> (r: PathComponent)
        ensures
            r@ == self@,
    {
        match self {
            PathComponent::Prefix(s) => PathComponent::Prefix(s.clone()),
            PathComponent::RootDir => PathComponent::RootDir,
            PathComponent::CurDir => PathComponent::CurDir,
            PathComponent::ParentDir => PathComponent::ParentDir,
            PathComponent::Normal(s) => PathComponent::Normal(s.clone()),
        }
    }
}

/// A path of the local machine.
#[derive(Debug)]
pub struct LocalPath {
    /// The path as it is shown.
    pub text: String,
    /// Whether it stands on its own, without a current directory.
    pub absolute: bool,
    /// Its components, from the left.
    pub components: Vec<PathComponent>,
}

/// A [`LocalPath`] with its texts as sequences of characters.
pub struct PathView {
    pub text: Seq<char>,
    pub absolute: bool,
    pub components: Seq<ComponentView>,
}

/// The views of some components.
pub open spec fn component_views(components: Seq<PathComponent>) -> Seq<ComponentView> {
    components.map_values(|c: PathComponent| c@)
}

impl View for LocalPath {
    type V = PathView;

    open spec fn view(&self) -> PathView {
        PathView {
            text: self.text@,
            absolute: self.absolute,
            components: component_views(self.components@),
        }
    }
}

impl Clone for LocalPath {
    fn clone(&self) -> (r: LocalPath)
        ensures
            r@ == self@,
    {
        let mut components: Vec<PathComponent> = Vec::new();
        let mut i: usize = 0;
        while i < self.components.len()
            invariant
                i <= self.components@.len(),
                components@.len() == i,
                forall|j: int| 0 <= j < i ==> (#[trigger] components@[j])@ == self.components@[j]@,
            decreases self.components@.len() - i,
        {
            components.push(self.components[i].clone());
            i += 1;
        }
        assert(component_views(components@) =~= component_views(self.components@));
        LocalPath { text: self.text.clone(), absolute: self.absolute, components }
    }
}

// ---------------------------------------------------------------------------
// What follows from the components
// ---------------------------------------------------------------------------

/// How many of the components are names.
pub open spec fn name_count(components: Seq<ComponentView>) -> nat
    decreases components.len(),
{
    if components.len() == 0 {
        0
    } else {
        name_count(components.drop_last()) + (if components.last() is Normal {
            1nat
        } else {
            0nat
        })
    }
}

/// Where one more component leads: a name leads down, `.` nowhere, and `..` up. At
/// the root it stays there, and where there is no name to take back it stands.
pub open spec fn followed(place: Seq<ComponentView>, component: ComponentView) -> Seq<
    ComponentView,
> {
    match component {
        ComponentView::CurDir => place,
        ComponentView::ParentDir => if place.len() > 0 && place.last() is Normal {
            place.drop_last()
        } else if place.len() > 0 && place.last() is RootDir {
            place
        } else {
            place.push(component)
        },
        _ => place.push(component),
    }
}

/// Where components lead, one after the other.
pub open spec fn resolved(components: Seq<ComponentView>) -> Seq<ComponentView>
    decreases components.len(),
{
    if components.len() == 0 {
        Seq::empty()
    } else {
        followed(resolved(components.drop_last()), components.last())
    }
}

/// The component, with the letters A to Z of a name made small.
pub open spec fn small(component: ComponentView) -> ComponentView {
    match component {
        ComponentView::Normal(name) => ComponentView::Normal(ascii_lower(name)),
        _ => component,
    }
}

/// A place lies below another: it goes on, with a name, where the other ends. The
/// case of ASCII letters in names does not count.
pub open spec fn lies_below(place: Seq<ComponentView>, root: Seq<ComponentView>) -> bool {
    &&& root.len() < place.len()
    &&& place[root.len() as int] is Normal
    &&& forall|i: int| 0 <= i < root.len() ==> small(#[trigger] place[i]) == small(root[i])
}

impl PathView {
    /// A path has one above it unless it is empty or ends in a root or a prefix.
    pub open spec fn has_parent(self) -> bool {
        self.components.len() > 0 && !(self.components.last() is Prefix)
            && !(self.components.last() is RootDir)
    }

    /// The path is `root`, or lies below it.
    pub open spec fn lies_within(self, root: PathView) -> bool {
        root.components.is_prefix_of(self.components)
    }

    /// The path is written as one in `root`, and leads to a place below it.
    pub open spec fn descends(self, root: PathView) -> bool {
        self.lies_within(root) && lies_below(resolved(self.components), resolved(root.components))
    }

    /// The path of a name in the directory. A separator stands between the two
    /// unless the directory's text is empty, ends in one, or is a bare drive.
    pub open spec fn child(self, name: Seq<char>, separator: char) -> PathView {
        let bare = self.text.len() == 0 || self.text.last() == separator || self.text.last() == '/'
            || (self.components.len() > 0 && self.components.last() is Prefix);
        PathView {
            text: if bare {
                self.text + name
            } else {
                self.text.push(separator) + name
            },
            absolute: self.absolute,
            components: self.components.push(ComponentView::Normal(name)),
        }
    }

    /// The path leads somewhere by name, below a root.
    pub open spec fn is_named_place(self) -> bool {
        name_count(self.components) >= 1 && self.has_parent()
    }
}

/// Two paths have the same text but for the case of ASCII letters.
pub open spec fn same_place(a: PathView, b: PathView) -> bool {
    ascii_lower(a.text) == ascii_lower(b.text)
}

impl PathComponent {
    fn is_name(&self) -> (r: bool)
        ensures
            r == (self@ is Normal),
    {
        match self {
            PathComponent::Normal(_) => true,
            _ => false,
        }
    }

    fn same(&self, other: &PathComponent) -> (r: bool)
        ensures
            r == (self@ == other@),
    {
        match (self, other) {
            (PathComponent::Prefix(a), PathComponent::Prefix(b)) => same_text(
                a.as_str(),
                b.as_str(),
            ),
            (PathComponent::RootDir, PathComponent::RootDir) => true,
            (PathComponent::CurDir, PathComponent::CurDir) => true,
            (PathComponent::ParentDir, PathComponent::ParentDir) => true,
            (PathComponent::Normal(a), PathComponent::Normal(b)) => same_text(
                a.as_str(),
                b.as_str(),
            ),
            _ => false,
        }
    }
}

impl PathComponent {
    fn same_ignoring_case(&self, other: &PathComponent) -> (r: bool)
        ensures
            r == (small(self@) == small(other@)),
    {
        match (self, other) {
            (PathComponent::Normal(a), PathComponent::Normal(b)) => same_ignoring_ascii_case(
                a.as_str(),
                b.as_str(),
            ),
            _ => self.same(other),
        }
    }
}

impl LocalPath {
    /// Whether the path leads somewhere by name, below a root: a drive's root
    /// does not.
    pub fn is_named_place(&self) -> (r: bool)
        ensures
            r == self@.is_named_place(),
    {
        let mut names: usize = 0;
        let mut i: usize = 0;
        let ghost views = self@.components;
        assert(views.take(0) =~= Seq::empty());
        while i < self.components.len()
            invariant
                i <= self.components@.len(),
                views == component_views(self.components@),
                names == name_count(views.take(i as int)),
                names <= i,
            decreases self.components@.len() - i,
        {
            assert(views.take(i + 1).drop_last() =~= views.take(i as int));
            assert(views.take(i + 1).last() == self.components@[i as int]@);
            if self.components[i].is_name() {
                names += 1;
            }
            i += 1;
        }
        assert(views.take(views.len() as int) =~= views);
        if names < 1 {
            return false;
        }
        let last = &self.components[self.components.len() - 1];
        assert(views.last() == last@);
        match last {
            PathComponent::Prefix(_) => false,
            PathComponent::RootDir => false,
            _ => true,
        }
    }

    /// Whether the path is `root`, or lies below it.
    pub fn lies_within(&self, root: &LocalPath) -> (r: bool)
        ensures
            r == self@.lies_within(root@),
    {
        if root.components.len() > self.components.len() {
            return false;
        }
        let mut i: usize = 0;
        while i < root.components.len()
            invariant
                i <= root.components@.len() <= self.components@.len(),
                forall|j: int|
                    0 <= j < i ==> root@.components[j] == #[trigger] self@.components[j],
            decreases root.components@.len() - i,
        {
            if !root.components[i].same(&self.components[i]) {
                assert(root@.components[i as int] != self@.components.subrange(
                    0,
                    root@.components.len() as int,
                )[i as int]);
                return false;
            }
            i += 1;
        }
        assert(root@.components =~= self@.components.subrange(0, root@.components.len() as int));
        true
    }
}

impl LocalPath {
    /// The components of the place that the path leads to.
    fn resolve(&self) -> (r: Vec<PathComponent>)
        ensures
            component_views(r@) == resolved(self@.components),
    {
        let ghost views = self@.components;
        let mut place: Vec<PathComponent> = Vec::new();
        let mut i: usize = 0;
        proof {
            assert(views.take(0) =~= Seq::empty());
            assert(component_views(place@) =~= Seq::empty());
        }
        while i < self.components.len()
            invariant
                i <= self.components@.len(),
                views == component_views(self.components@),
                component_views(place@) == resolved(views.take(i as int)),
            decreases self.components@.len() - i,
        {
            let component = &self.components[i];
            let ghost before = component_views(place@);
            proof {
                assert(views.take(i + 1).drop_last() =~= views.take(i as int));
                assert(views.take(i + 1).last() == component@);
                assert(place@.len() > 0 ==> before.last() == place@.last()@);
            }
            match component {
                PathComponent::CurDir => {},
                PathComponent::ParentDir => {
                    let (name, at_root): (bool, bool) = if place.len() > 0 {
                        match &place[place.len() - 1] {
                            PathComponent::Normal(_) => (true, false),
                            PathComponent::RootDir => (false, true),
                            _ => (false, false),
                        }
                    } else {
                        (false, false)
                    };
                    if name {
                        place.pop();
                        assert(component_views(place@) =~= before.drop_last());
                    } else if !at_root {
                        place.push(PathComponent::ParentDir);
                        assert(component_views(place@) =~= before.push(component@));
                    }
                },
                _ => {
                    place.push(component.clone());
                    assert(component_views(place@) =~= before.push(component@));
                },
            }
            i += 1;
        }
        assert(views.take(views.len() as int) =~= views);
        place
    }

    /// Whether the path is written as one in `root`, and leads to a place below it.
    pub fn descends(&self, root: &LocalPath) -> (r: bool)
        ensures
            r == self@.descends(root@),
    {
        if !self.lies_within(root) {
            return false;
        }
        let place = self.resolve();
        let above = root.resolve();
        let ghost views = component_views(place@);
        let ghost root_views = component_views(above@);
        if place.len() <= above.len() {
            return false;
        }
        let mut i: usize = 0;
        while i < above.len()
            invariant
                i <= above@.len() < place@.len(),
                views == component_views(place@),
                root_views == component_views(above@),
                views == resolved(self@.components),
                root_views == resolved(root@.components),
                forall|j: int| 0 <= j < i ==> small(#[trigger] views[j]) == small(root_views[j]),
            decreases above@.len() - i,
        {
            if !place[i].same_ignoring_case(&above[i]) {
                assert(small(views[i as int]) != small(root_views[i as int]));
                return false;
            }
            i += 1;
        }
        assert(views[above@.len() as int] == place@[above@.len() as int]@);
        place[above.len()].is_name()
    }

    /// The path of a name in the directory. The name is a plain one: it holds no
    /// separator, and is neither empty nor a dot or two.
    pub(crate) fn child(&self, name: &str, separator: char) -> (r: LocalPath)
        ensures
            r@ == self@.child(name@, separator),
    {
        let mut path = self.clone();
        let chars = chars_of(path.text.as_str());
        let bare_drive: bool = if path.components.len() > 0 {
            match &path.components[path.components.len() - 1] {
                PathComponent::Prefix(_) => true,
                _ => false,
            }
        } else {
            false
        };
        assert(path.components@.len() > 0 ==> path@.components.last()
            == path.components@.last()@);
        let ends: bool = chars.len() == 0 || chars[chars.len() - 1] == separator
            || chars[chars.len() - 1] == '/';
        if !ends && !bare_drive {
            path.text.push(separator);
        }
        path.text.append(name);
        let ghost before = path@.components;
        path.components.push(PathComponent::Normal(name.to_owned()));
        assert(path@.components =~= before.push(ComponentView::Normal(name@)));
        path
    }
}

proof fn lemma_names_are_kept(components: Seq<ComponentView>, names: Seq<ComponentView>)
    requires
        forall|i: int| 0 <= i < names.len() ==> (#[trigger] names[i]) is Normal,
    ensures
        resolved(components + names) == resolved(components) + names,
    decreases names.len(),
{
    if names.len() == 0 {
        assert(components + names =~= components);
        assert(resolved(components) + names =~= resolved(components));
    } else {
        let init = names.drop_last();
        assert forall|i: int| 0 <= i < init.len() implies (#[trigger] init[i]) is Normal by {
            assert(init[i] == names[i]);
        }
        lemma_names_are_kept(components, init);
        assert((components + names).drop_last() =~= components + init);
        assert(names.last() == names[names.len() - 1]);
        assert(resolved(components + names) =~= resolved(components) + names);
    }
}

/// What lies below a directory is written as in it and is not the directory
/// itself; what lies below something below it lies below it; and whatever names
/// are put behind a directory lead below it.
pub proof fn law_descent(
    path: PathView,
    middle: PathView,
    root: PathView,
    names: Seq<ComponentView>,
)
    ensures
        path.descends(root) ==> path.lies_within(root) && resolved(path.components) != resolved(
            root.components,
        ),
        path.descends(middle) && middle.descends(root) ==> path.descends(root),
        names.len() > 0 && (forall|i: int| 0 <= i < names.len() ==> (#[trigger] names[i]) is Normal)
            && path.components == root.components + names ==> path.descends(root),
{
    let p = resolved(path.components);
    let m = resolved(middle.components);
    let r = resolved(root.components);
    if path.descends(middle) && middle.descends(root) {
        let n = root.components.len() as int;
        let k = middle.components.len() as int;
        assert(root.components =~= path.components.subrange(0, n)) by {
            assert forall|i: int| 0 <= i < n implies root.components[i] == path.components[i] by {
                assert(root.components[i] == middle.components.subrange(0, n)[i]);
                assert(middle.components[i] == path.components.subrange(0, k)[i]);
            }
        }
        assert(small(p[r.len() as int]) == small(m[r.len() as int]));
        assert forall|i: int| 0 <= i < r.len() implies small(#[trigger] p[i]) == small(r[i]) by {
            assert(small(p[i]) == small(m[i]));
            assert(small(m[i]) == small(r[i]));
        }
    }
    if names.len() > 0 && (forall|i: int| 0 <= i < names.len() ==> (#[trigger] names[i]) is Normal)
        && path.components == root.components + names {
        lemma_names_are_kept(root.components, names);
        assert(root.components =~= path.components.subrange(0, root.components.len() as int));
        assert(p[r.len() as int] == names[0]);
        assert forall|i: int| 0 <= i < r.len() implies small(#[trigger] p[i]) == small(r[i]) by {
            assert(p[i] == r[i]);
        }
    }
}

/// Whether two paths have the same text but for the case of ASCII letters.
pub fn paths_equal(left: &LocalPath, right: &LocalPath) -> (r: bool)
    ensures
        r == same_place(left@, right@),
{
    same_ignoring_ascii_case(left.text.as_str(), right.text.as_str())
}

/// A path lies in a directory exactly where it goes on from it, component by
/// component.
pub proof fn law_paths_go_on_from_their_directories(path: LocalPath, root: LocalPath, r: bool)
    requires
        call_ensures(LocalPath::lies_within, (&path, &root), r),
    ensures
        r <==> exists|rest: Seq<ComponentView>|
            path@.components == #[trigger] (root@.components + rest),
{
    let a = path@.components;
    let b = root@.components;
    if r {
        let rest = a.skip(b.len() as int);
        assert(a =~= b + rest);
    }
    if exists|rest: Seq<ComponentView>| a == #[trigger] (b + rest) {
        let rest = choose|rest: Seq<ComponentView>| a == #[trigger] (b + rest);
        assert(b =~= a.subrange(0, b.len() as int));
    }
}

/// Going up from a name leads back to where the name was, and going on from a place
/// leads on from where the place is, however it was reached.
pub proof fn law_going_up_undoes_going_down(place: Seq<ComponentView>, name: Seq<char>)
    ensures
        resolved(
            place.push(ComponentView::Normal(name)).push(ComponentView::ParentDir),
        ) == resolved(place),
        resolved(place.push(ComponentView::CurDir)) == resolved(place),
        resolved(place.push(ComponentView::Normal(name))) == resolved(place).push(
            ComponentView::Normal(name),
        ),
{
    let down = place.push(ComponentView::Normal(name));
    assert(down.drop_last() =~= place);
    assert(resolved(down) == resolved(place).push(ComponentView::Normal(name)));
    assert(down.push(ComponentView::ParentDir).drop_last() =~= down);
    assert(place.push(ComponentView::CurDir).drop_last() =~= place);
    assert(resolved(place).push(ComponentView::Normal(name)).drop_last() =~= resolved(place));
}

/// A path that goes up from a directory and down again by a name lies below the
/// directory exactly where that name is the directory's own, but for the case of
/// ASCII letters, and the path goes on from there.
pub proof fn law_only_the_way_back_leads_below(
    root: LocalPath,
    own: Seq<char>,
    name: Seq<char>,
    file: Seq<char>,
    out: LocalPath,
    back: LocalPath,
    left: bool,
    returned: bool,
)
    requires
        resolved(root@.components).len() > 0,
        resolved(root@.components).last() == ComponentView::Normal(own),
        out@.components == root@.components.push(ComponentView::ParentDir).push(
            ComponentView::Normal(name),
        ),
        back@.components == out@.components.push(ComponentView::Normal(file)),
        call_ensures(LocalPath::descends, (&out, &root), left),
        call_ensures(LocalPath::descends, (&back, &root), returned),
    ensures
        !left,
        returned <==> ascii_lower(name) == ascii_lower(own),
{
    let r = resolved(root@.components);
    let up = root@.components.push(ComponentView::ParentDir);
    assert(up.drop_last() =~= root@.components);
    assert(resolved(up) == r.drop_last());
    assert(out@.components.drop_last() =~= up);
    let there = r.drop_last().push(ComponentView::Normal(name));
    assert(resolved(out@.components) == there);
    assert(back@.components.drop_last() =~= out@.components);
    let place = there.push(ComponentView::Normal(file));
    assert(resolved(back@.components) == place);
    assert(root@.components =~= back@.components.subrange(0, root@.components.len() as int));
    let last = r.len() - 1;
    assert(place[last] == ComponentView::Normal(name));
    assert(r[last] == ComponentView::Normal(own));
    assert forall|i: int| 0 <= i < last implies small(#[trigger] place[i]) == small(r[i]) by {
        assert(place[i] == r[i]);
    }
    if ascii_lower(name) == ascii_lower(own) {
        assert(small(place[last]) == small(r[last]));
        assert(lies_below(place, r));
    } else {
        assert(small(place[last]) != small(r[last]));
    }
}

proof fn lemma_name_count(components: Seq<ComponentView>)
    ensures
        name_count(components) >= 1 <==> exists|i: int|
            0 <= i < components.len() && (#[trigger] components[i]) is Normal,
    decreases components.len(),
{
    if components.len() > 0 {
        let init = components.drop_last();
        lemma_name_count(init);
        assert(components.last() == components[components.len() - 1]);
        if name_count(init) >= 1 {
            let i = choose|i: int| 0 <= i < init.len() && (#[trigger] init[i]) is Normal;
            assert(components[i] == init[i]);
        }
        if exists|i: int| 0 <= i < components.len() && (#[trigger] components[i]) is Normal {
            let i = choose|i: int|
                0 <= i < components.len() && (#[trigger] components[i]) is Normal;
            if i < init.len() {
                assert(init[i] == components[i]);
            }
        }
    }
}

/// A path leads somewhere by name where there is a name in it, and it does not end
/// with a drive or a root. So no drive does, and no root.
pub proof fn law_roots_are_no_named_places(path: LocalPath, r: bool)
    requires
        call_ensures(LocalPath::is_named_place, (&path,), r),
    ensures
        r <==> {
            &&& exists|i: int|
                0 <= i < path@.components.len() && (#[trigger] path@.components[i]) is Normal
            &&& !(path@.components.last() is Prefix)
            &&& !(path@.components.last() is RootDir)
        },
{
    lemma_name_count(path@.components);
}

} // verus!
