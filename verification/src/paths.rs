//! A model of Unix path syntax: the component list that `Path::components`
//! yields, and the component-wise operations built on it.
use vstd::prelude::*;

use crate::text::{char_vecs_equal, chars_of, push_char, str_equal, string_from_chars};

verus! {

broadcast use vstd::string::group_string_axioms;

/// One component of a Unix path.
#[derive(Debug)]
pub enum Component {
    RootDir,
    CurDir,
    ParentDir,
    Normal(String),
}

/// The mathematical value of a path component.
pub enum ComponentView {
    RootDir,
    CurDir,
    ParentDir,
    Normal(Seq<char>),
}

impl View for Component {
    type V = ComponentView;

    open spec fn view(&self) -> ComponentView {
        match self {
            Component::RootDir => ComponentView::RootDir,
            Component::CurDir => ComponentView::CurDir,
            Component::ParentDir => ComponentView::ParentDir,
            Component::Normal(s) => ComponentView::Normal(s@),
        }
    }
}

impl DeepView for Component {
    type V = ComponentView;

    open spec fn deep_view(&self) -> ComponentView {
        self@
    }
}

impl Clone for Component {
    fn clone(&self) -> (copy: Self)
        ensures
            copy@ == self@,
    {
        match self {
            Component::RootDir => Component::RootDir,
            Component::CurDir => Component::CurDir,
            Component::ParentDir => Component::ParentDir,
            Component::Normal(s) => Component::Normal(s.clone()),
        }
    }
}

/// Whether two components are equal.
pub fn component_equal(a: &Component, b: &Component) -> (equal: bool)
    ensures
        equal == (a@ == b@),
{
    match (a, b) {
        (Component::RootDir, Component::RootDir) => true,
        (Component::CurDir, Component::CurDir) => true,
        (Component::ParentDir, Component::ParentDir) => true,
        (Component::Normal(x), Component::Normal(y)) => str_equal(x.as_str(), y.as_str()),
        _ => false,
    }
}

/// What one `/`-separated segment contributes: nothing for an empty segment or a
/// `.` that is not the first segment, `CurDir` for a leading `.`, `ParentDir` for
/// `..`, and the segment itself otherwise.
pub open spec fn classify(segment: Seq<char>, first: bool) -> Seq<ComponentView> {
    if segment.len() == 0 {
        seq![]
    } else if segment == seq!['.'] {
        if first {
            seq![ComponentView::CurDir]
        } else {
            seq![]
        }
    } else if segment == seq!['.', '.'] {
        seq![ComponentView::ParentDir]
    } else {
        seq![ComponentView::Normal(segment)]
    }
}

/// Reading `s` left to right: the components of the finished segments, the
/// segment being read, and whether it is the path's first segment.
pub open spec fn scan(s: Seq<char>) -> (Seq<ComponentView>, Seq<char>, bool)
    decreases s.len(),
{
    if s.len() == 0 {
        (seq![], seq![], true)
    } else {
        let (done, segment, first) = scan(s.drop_last());
        if s.last() == '/' {
            (done + classify(segment, first), seq![], false)
        } else {
            (done, segment.push(s.last()), first)
        }
    }
}

/// Whether the path text begins at the root.
pub open spec fn is_absolute_spec(s: Seq<char>) -> bool {
    s.len() > 0 && s[0] == '/'
}

/// The components of the path text `s`, as `Path::components` gives them on Unix:
/// repeated separators and non-leading `.` segments are dropped.
pub open spec fn components_spec(s: Seq<char>) -> Seq<ComponentView> {
    let (done, segment, first) = scan(s);
    (if is_absolute_spec(s) {
        seq![ComponentView::RootDir]
    } else {
        seq![]
    }) + done + classify(segment, first)
}

fn classify_exec(segment: &Vec<char>, first: bool, out: &mut Vec<Component>)
    ensures
        final(out).deep_view() == old(out).deep_view() + classify(segment@, first),
{
    if segment.len() == 0 {
        assert(old(out).deep_view() + seq![] =~= old(out).deep_view());
        return ;
    }
    if segment.len() == 1 && segment[0] == '.' {
        assert(segment@ =~= seq!['.']);
        if first {
            out.push(Component::CurDir);
            assert(out.deep_view() =~= old(out).deep_view() + seq![ComponentView::CurDir]);
        } else {
            assert(old(out).deep_view() + seq![] =~= old(out).deep_view());
        }
        return ;
    }
    if segment.len() == 2 && segment[0] == '.' && segment[1] == '.' {
        assert(segment@ =~= seq!['.', '.']);
        out.push(Component::ParentDir);
        assert(out.deep_view() =~= old(out).deep_view() + seq![ComponentView::ParentDir]);
        return ;
    }
    assert(segment@ != seq!['.']) by {
        if segment@ == seq!['.'] {
            assert(segment@.len() == 1);
        }
    }
    assert(segment@ != seq!['.', '.']) by {
        if segment@ == seq!['.', '.'] {
            assert(segment@.len() == 2);
            assert(segment@[0] == '.' && segment@[1] == '.');
        }
    }
    let text = string_from_chars(segment, 0, segment.len());
    assert(segment@.subrange(0, segment@.len() as int) =~= segment@);
    out.push(Component::Normal(text));
    assert(out.deep_view() =~= old(out).deep_view() + seq![ComponentView::Normal(segment@)]);
}

/// The components of `path`.
pub fn components(path: &str) -> (parts: Vec<Component>)
    ensures
        parts.deep_view() == components_spec(path@),
{
    let chars = chars_of(path);
    let mut parts: Vec<Component> = Vec::new();
    let absolute = chars.len() > 0 && chars[0] == '/';
    if absolute {
        parts.push(Component::RootDir);
    }
    let ghost root: Seq<ComponentView> = if absolute {
        seq![ComponentView::RootDir]
    } else {
        seq![]
    };
    assert(parts.deep_view() =~= root);
    let mut segment: Vec<char> = Vec::new();
    let mut first = true;
    let mut i: usize = 0;
    while i < chars.len()
        invariant
            chars@ == path@,
            i <= chars@.len(),
            root == (if is_absolute_spec(path@) {
                seq![ComponentView::RootDir]
            } else {
                seq![]
            }),
            parts.deep_view() == root + scan(chars@.take(i as int)).0,
            segment@ == scan(chars@.take(i as int)).1,
            first == scan(chars@.take(i as int)).2,
        decreases chars@.len() - i,
    {
        let c = chars[i];
        assert(chars@.take(i + 1).drop_last() =~= chars@.take(i as int));
        assert(chars@.take(i + 1).last() == c);
        if c == '/' {
            let ghost before = parts.deep_view();
            classify_exec(&segment, first, &mut parts);
            assert(parts.deep_view() =~= root + scan(chars@.take(i + 1)).0);
            segment = Vec::new();
            first = false;
        } else {
            segment.push(c);
        }
        i += 1;
    }
    assert(chars@.take(chars@.len() as int) =~= chars@);
    classify_exec(&segment, first, &mut parts);
    assert(parts.deep_view() =~= components_spec(path@));
    parts
}

/// The text of a single component.
pub open spec fn component_text(c: ComponentView) -> Seq<char> {
    match c {
        ComponentView::RootDir => seq!['/'],
        ComponentView::CurDir => seq!['.'],
        ComponentView::ParentDir => seq!['.', '.'],
        ComponentView::Normal(s) => s,
    }
}

/// The text of a single component.
pub fn component_text_exec(c: &Component) -> (text: String)
    ensures
        text@ == component_text(c@),
{
    match c {
        Component::RootDir => {
            let mut t = String::new();
            crate::text::push_char(&mut t, '/');
            t
        },
        Component::CurDir => {
            let mut t = String::new();
            crate::text::push_char(&mut t, '.');
            t
        },
        Component::ParentDir => {
            let mut t = String::new();
            crate::text::push_char(&mut t, '.');
            crate::text::push_char(&mut t, '.');
            t
        },
        Component::Normal(s) => s.clone(),
    }
}

/// The path text that `PathBuf` shows for a component list: components joined by
/// `/`, with the root written once at the front.
pub open spec fn render_spec(parts: Seq<ComponentView>) -> Seq<char>
    decreases parts.len(),
{
    if parts.len() == 0 {
        seq![]
    } else {
        let init = parts.drop_last();
        let head = render_spec(init);
        if head.len() == 0 || head == seq!['/'] {
            head + component_text(parts.last())
        } else {
            head + seq!['/'] + component_text(parts.last())
        }
    }
}

fn append_str(out: &mut String, s: &str)
    ensures
        final(out)@ == old(out)@ + s@,
{
    out.append(s);
}

/// The path text for a component list.
pub fn render(parts: &Vec<Component>) -> (text: String)
    ensures
        text@ == render_spec(parts.deep_view()),
{
    let mut text = String::new();
    let mut i: usize = 0;
    while i < parts.len()
        invariant
            i <= parts@.len(),
            text@ == render_spec(parts.deep_view().take(i as int)),
        decreases parts@.len() - i,
    {
        let ghost prefix = parts.deep_view().take(i as int);
        assert(parts.deep_view().take(i + 1).drop_last() =~= prefix);
        let ghost head = text@;
        let chars = chars_of(text.as_str());
        let empty_or_root = chars.len() == 0 || (chars.len() == 1 && chars[0] == '/');
        assert(empty_or_root == (head.len() == 0 || head == seq!['/'])) by {
            if head.len() == 1 && head[0] == '/' {
                assert(head =~= seq!['/']);
            }
        }
        if !empty_or_root {
            push_char(&mut text, '/');
        }
        match &parts[i] {
            Component::RootDir => push_char(&mut text, '/'),
            Component::CurDir => push_char(&mut text, '.'),
            Component::ParentDir => {
                push_char(&mut text, '.');
                push_char(&mut text, '.');
            },
            Component::Normal(s) => append_str(&mut text, s.as_str()),
        }
        assert(text@ =~= render_spec(parts.deep_view().take(i + 1)));
        i += 1;
    }
    assert(parts.deep_view().take(parts@.len() as int) =~= parts.deep_view());
    text
}

/// Whether `base` is a component-wise prefix of `path`, as `Path::starts_with` decides.
pub open spec fn starts_with_spec(path: Seq<ComponentView>, base: Seq<ComponentView>) -> bool {
    base.len() <= path.len() && path.take(base.len() as int) == base
}

pub fn starts_with(path: &Vec<Component>, base: &Vec<Component>) -> (prefix: bool)
    ensures
        prefix == starts_with_spec(path.deep_view(), base.deep_view()),
{
    if base.len() > path.len() {
        return false;
    }
    let mut i: usize = 0;
    while i < base.len()
        invariant
            base@.len() <= path@.len(),
            i <= base@.len(),
            forall|j: int| 0 <= j < i ==> path.deep_view()[j] == base.deep_view()[j],
        decreases base@.len() - i,
    {
        if !component_equal(&path[i], &base[i]) {
            assert(path.deep_view().take(base@.len() as int)[i as int] != base.deep_view()[i as int]);
            return false;
        }
        i += 1;
    }
    assert(path.deep_view().take(base@.len() as int) =~= base.deep_view());
    true
}

/// The final component's text when it is a normal name, as `Path::file_name` gives it.
pub open spec fn file_name_spec(parts: Seq<ComponentView>) -> Option<Seq<char>> {
    if parts.len() > 0 && parts.last() is Normal {
        Some(parts.last()->Normal_0)
    } else {
        None
    }
}

pub fn file_name(parts: &Vec<Component>) -> (name: Option<String>)
    ensures
        match name {
            Some(n) => file_name_spec(parts.deep_view()) == Some(n@),
            None => file_name_spec(parts.deep_view()) is None,
        },
{
    if parts.len() == 0 {
        return None;
    }
    match &parts[parts.len() - 1] {
        Component::Normal(s) => Some(s.clone()),
        _ => None,
    }
}

/// The position of the last `.` in `name`, if there is one.
pub open spec fn last_dot(name: Seq<char>) -> Option<int>
    decreases name.len(),
{
    if name.len() == 0 {
        None
    } else if name.last() == '.' {
        Some(name.len() - 1)
    } else {
        last_dot(name.drop_last())
    }
}

/// The stem of a file name, as `Path::file_stem` gives it: the whole name when
/// it holds no `.` or only a leading one, and otherwise the part before the last `.`.
pub open spec fn stem_spec(name: Seq<char>) -> Seq<char> {
    match last_dot(name) {
        Some(i) => if i == 0 {
            name
        } else {
            name.take(i)
        },
        None => name,
    }
}

/// The extension of a file name, as `Path::extension` gives it: the part after
/// the last `.`, unless that `.` is the first character or there is none.
pub open spec fn extension_spec(name: Seq<char>) -> Option<Seq<char>> {
    match last_dot(name) {
        Some(i) => if i == 0 {
            None
        } else {
            Some(name.skip(i + 1))
        },
        None => None,
    }
}

proof fn lemma_last_dot_bounds(name: Seq<char>)
    ensures
        match last_dot(name) {
            Some(i) => 0 <= i < name.len() && name[i] == '.' && forall|j: int|
                i < j < name.len() ==> name[j] != '.',
            None => forall|j: int| 0 <= j < name.len() ==> name[j] != '.',
        },
    decreases name.len(),
{
    if name.len() > 0 && name.last() != '.' {
        lemma_last_dot_bounds(name.drop_last());
        assert forall|j: int| 0 <= j < name.len() - 1 implies name.drop_last()[j] == name[j] by {}
    }
}

fn find_last_dot(name: &Vec<char>) -> (pos: Option<usize>)
    ensures
        match pos {
            Some(i) => last_dot(name@) == Some(i as int),
            None => last_dot(name@) is None,
        },
{
    let mut k: usize = name.len();
    assert(name@.take(k as int) =~= name@);
    while k > 0
        invariant
            k <= name@.len(),
            last_dot(name@) == last_dot(name@.take(k as int)),
        decreases k,
    {
        assert(name@.take(k as int).drop_last() =~= name@.take(k - 1));
        if name[k - 1] == '.' {
            return Some(k - 1);
        }
        k -= 1;
    }
    None
}

proof fn lemma_last_dot_prefix(name: Seq<char>)
    ensures
        last_dot(name) == last_dot(name.take(name.len() as int)),
{
    assert(name.take(name.len() as int) =~= name);
}

/// The stem of a file name.
pub fn file_stem(name: &str) -> (stem: String)
    ensures
        stem@ == stem_spec(name@),
{
    let chars = chars_of(name);
    proof {
        lemma_last_dot_prefix(chars@);
    }
    match find_last_dot(&chars) {
        Some(i) => {
            if i == 0 {
                string_from_chars(&chars, 0, chars.len())
            } else {
                proof {
                    lemma_last_dot_bounds(chars@);
                }
                string_from_chars(&chars, 0, i)
            }
        },
        None => string_from_chars(&chars, 0, chars.len()),
    }
}

/// The extension of a file name.
pub fn extension(name: &str) -> (ext: Option<String>)
    ensures
        match ext {
            Some(e) => extension_spec(name@) == Some(e@),
            None => extension_spec(name@) is None,
        },
{
    let chars = chars_of(name);
    proof {
        lemma_last_dot_prefix(chars@);
    }
    match find_last_dot(&chars) {
        Some(i) => {
            if i == 0 {
                None
            } else {
                proof {
                    lemma_last_dot_bounds(chars@);
                }
                assert(i < chars.len());
                let e = string_from_chars(&chars, i + 1, chars.len());
                assert(chars@.subrange(i + 1, chars@.len() as int) =~= chars@.skip(i + 1));
                Some(e)
            }
        },
        None => None,
    }
}

} // verus!

verus! {

/// `path` joined onto `base` as `PathBuf::join` does on Unix: an absolute
/// `path` replaces `base`, and otherwise a `/` separates them unless `base` is
/// empty or already ends with one.
pub open spec fn join_path_spec(base: Seq<char>, path: Seq<char>) -> Seq<char> {
    if is_absolute_spec(path) || base.len() == 0 {
        path
    } else if base.last() == '/' {
        base + path
    } else {
        base + seq!['/'] + path
    }
}

pub fn join_path(base: &str, path: &str) -> (joined: String)
    ensures
        joined@ == join_path_spec(base@, path@),
{
    let b = chars_of(base);
    let p = chars_of(path);
    if (p.len() > 0 && p[0] == '/') || b.len() == 0 {
        return path.to_owned();
    }
    let mut joined = base.to_owned();
    if b[b.len() - 1] != '/' {
        push_char(&mut joined, '/');
    }
    joined.append(path);
    joined
}

} // verus!
