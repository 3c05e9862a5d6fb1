//! Relative content paths, as sequences of component names.
use crate::text::same_text;
use vstd::prelude::*;
use vstd::string::*;

verus! {

/// The components of a path joined by slashes.
pub open spec fn slashed(components: Seq<Seq<char>>) -> Seq<char>
    decreases components.len(),
{
    if components.len() == 0 {
        Seq::empty()
    } else if components.len() == 1 {
        components[0]
    } else {
        slashed(components.drop_last()) + "/"@ + components.last()
    }
}

/// The path with one more component. An empty name adds none.
pub open spec fn joined(components: Seq<Seq<char>>, name: Seq<char>) -> Seq<Seq<char>> {
    if name.len() == 0 {
        components
    } else {
        components.push(name)
    }
}

/// The texts of a vector of strings.
pub open spec fn texts(strings: Seq<String>) -> Seq<Seq<char>> {
    strings.map_values(|s: String| s@)
}

/// The text of an optional string.
pub open spec fn optional_text(value: Option<String>) -> Option<Seq<char>> {
    match value {
        Some(text) => Some(text@),
        None => None,
    }
}

/// A path below the content root.
#[derive(Debug)]
pub struct ContentPath {
    components: Vec<String>,
}

impl View for ContentPath {
    type V = Seq<Seq<char>>;

    closed spec fn view(&self) -> Seq<Seq<char>> {
        texts(self.components@)
    }
}

impl Clone for ContentPath {
    fn clone(&self) -> (copy: Self)
        ensures
            copy@ == self@,
    {
        ContentPath { components: copy_texts(&self.components) }
    }
}

/// A copy of a vector of strings.
pub fn copy_texts(source: &Vec<String>) -> (copy: Vec<String>)
    ensures
        copy@ == source@,
{
    let mut copy: Vec<String> = Vec::new();
    let mut i: usize = 0;
    while i < source.len()
        invariant
            i <= source@.len(),
            copy@ == source@.take(i as int),
        decreases source@.len() - i,
    {
        copy.push(source[i].clone());
        assert(source@.take(i as int).push(source@[i as int]) =~= source@.take(i + 1));
        i += 1;
    }
    assert(source@.take(source@.len() as int) =~= source@);
    copy
}

/// Whether two vectors of strings hold the same texts in the same order.
pub fn same_texts(left: &Vec<String>, right: &Vec<String>) -> (same: bool)
    ensures
        same == (texts(left@) == texts(right@)),
{
    if left.len() != right.len() {
        assert(texts(left@).len() != texts(right@).len());
        return false;
    }
    let mut i: usize = 0;
    while i < left.len()
        invariant
            i <= left@.len(),
            left@.len() == right@.len(),
            forall|j: int| 0 <= j < i ==> texts(left@)[j] == texts(right@)[j],
        decreases left@.len() - i,
    {
        if left[i] != right[i] {
            assert(texts(left@)[i as int] != texts(right@)[i as int]);
            return false;
        }
        i += 1;
    }
    assert(texts(left@) =~= texts(right@));
    true
}

/// Whether a vector of strings holds a text.
pub fn holds_text(strings: &Vec<String>, text: &str) -> (found: bool)
    ensures
        found == texts(strings@).contains(text@),
{
    let mut i: usize = 0;
    while i < strings.len()
        invariant
            i <= strings@.len(),
            forall|j: int| 0 <= j < i ==> texts(strings@)[j] != text@,
        decreases strings@.len() - i,
    {
        if same_text(strings[i].as_str(), text) {
            assert(texts(strings@)[i as int] == text@);
            return true;
        }
        assert(texts(strings@)[i as int] != text@);
        i += 1;
    }
    false
}

impl ContentPath {
    /// The content root itself.
    pub fn root() -> (path: ContentPath)
        ensures
            path@ == Seq::<Seq<char>>::empty(),
    {
        let path = ContentPath { components: Vec::new() };
        assert(path@ =~= Seq::<Seq<char>>::empty());
        path
    }

    /// The path made of the given components.
    pub fn from_components(components: Vec<String>) -> (path: ContentPath)
        ensures
            path@ == texts(components@),
    {
        ContentPath { components }
    }

    /// The path with one more component. An empty name adds none.
    pub fn join(&self, name: &str) -> (path: ContentPath)
        ensures
            path@ == joined(self@, name@),
    {
        let mut components = copy_texts(&self.components);
        if !name.is_empty() {
            components.push(name.to_owned());
        }
        let path = ContentPath { components };
        assert(path@ =~= joined(self@, name@));
        path
    }

    /// The path with one more component, even an empty one.
    pub fn child(&self, name: String) -> (path: ContentPath)
        ensures
            path@ == self@.push(name@),
    {
        let mut components = copy_texts(&self.components);
        components.push(name);
        let path = ContentPath { components };
        assert(path@ =~= self@.push(name@));
        path
    }

    /// The components from `count` on, below another path.
    pub fn rebase(&self, count: usize, onto: &ContentPath) -> (path: ContentPath)
        requires
            count <= self@.len(),
        ensures
            path@ == onto@ + self@.skip(count as int),
    {
        let mut components = copy_texts(&onto.components);
        let mut i: usize = count;
        while i < self.components.len()
            invariant
                count <= i <= self@.len(),
                self@ == texts(self.components@),
                components@ == onto.components@ + self.components@.subrange(count as int, i as int),
            decreases self@.len() - i,
        {
            components.push(self.components[i].clone());
            assert(components@ =~= onto.components@ + self.components@.subrange(
                count as int,
                i + 1,
            ));
            i += 1;
        }
        let path = ContentPath { components };
        assert(path@ =~= onto@ + self@.skip(count as int));
        path
    }

    /// The number of components.
    pub fn len(&self) -> (count: usize)
        ensures
            count == self@.len(),
    {
        self.components.len()
    }

    /// The component at a position.
    pub fn component(&self, index: usize) -> (name: &String)
        requires
            index < self@.len(),
        ensures
            name@ == self@[index as int],
    {
        &self.components[index]
    }

    /// Whether the component at a position exists and has a given text.
    pub fn component_is(&self, index: usize, name: &str) -> (same: bool)
        ensures
            same == (index < self@.len() && self@[index as int] == name@),
    {
        index < self.components.len() && same_text(self.components[index].as_str(), name)
    }

    /// The path without its last component; the root has no parent.
    pub fn parent(&self) -> (result: Option<ContentPath>)
        ensures
            self@.len() == 0 <==> result is None,
            result matches Some(path) ==> path@ == self@.drop_last(),
    {
        if self.components.len() == 0 {
            return None;
        }
        let mut components = copy_texts(&self.components);
        let _last = components.pop();
        let path = ContentPath { components };
        assert(path@ =~= self@.drop_last());
        Some(path)
    }

    /// The last component.
    pub fn file_name(&self) -> (result: Option<&String>)
        ensures
            self@.len() == 0 <==> result is None,
            result matches Some(name) ==> name@ == self@.last(),
    {
        if self.components.len() == 0 {
            None
        } else {
            Some(&self.components[self.components.len() - 1])
        }
    }

    /// Whether two paths have the same components.
    pub fn same(&self, other: &ContentPath) -> (same: bool)
        ensures
            same == (self@ == other@),
    {
        same_texts(&self.components, &other.components)
    }

    /// Whether this path begins with all components of another.
    pub fn starts_with(&self, other: &ContentPath) -> (result: bool)
        ensures
            result == other@.is_prefix_of(self@),
    {
        if other.components.len() > self.components.len() {
            return false;
        }
        let mut i: usize = 0;
        while i < other.components.len()
            invariant
                i <= other@.len() <= self@.len(),
                self@ == texts(self.components@),
                other@ == texts(other.components@),
                forall|j: int| 0 <= j < i ==> self@[j] == other@[j],
            decreases other@.len() - i,
        {
            if self.components[i] != other.components[i] {
                assert(self@[i as int] != other@[i as int]);
                assert(self@.subrange(0, other@.len() as int)[i as int] == self@[i as int]);
                return false;
            }
            i += 1;
        }
        assert(other@ =~= self@.subrange(0, other@.len() as int));
        true
    }

    /// Whether a component is the given name.
    pub fn holds(&self, name: &str) -> (found: bool)
        ensures
            found == self@.contains(name@),
    {
        holds_text(&self.components, name)
    }

    /// The components joined by slashes.
    pub fn text(&self) -> (text: String)
        ensures
            text@ == slashed(self@),
    {
        let mut text = String::new();
        let mut i: usize = 0;
        assert(self@.take(0) =~= Seq::<Seq<char>>::empty());
        while i < self.components.len()
            invariant
                i <= self@.len(),
                self@ == texts(self.components@),
                text@ == slashed(self@.take(i as int)),
            decreases self@.len() - i,
        {
            assert(self@.take(i + 1).drop_last() =~= self@.take(i as int));
            if i > 0 {
                text.append("/");
            }
            text.append(self.components[i].as_str());
            assert(text@ =~= slashed(self@.take(i + 1)));
            i += 1;
        }
        assert(self@.take(self@.len() as int) =~= self@);
        text
    }
}

/// Whether a list of paths holds a path.
pub fn holds_path(paths: &Vec<ContentPath>, path: &ContentPath) -> (found: bool)
    ensures
        found == path_views(paths@).contains(path@),
{
    let mut i: usize = 0;
    while i < paths.len()
        invariant
            i <= paths@.len(),
            forall|j: int| 0 <= j < i ==> path_views(paths@)[j] != path@,
        decreases paths@.len() - i,
    {
        if paths[i].same(path) {
            assert(path_views(paths@)[i as int] == path@);
            return true;
        }
        assert(path_views(paths@)[i as int] != path@);
        i += 1;
    }
    false
}

/// The components of each path in a list.
pub open spec fn path_views(paths: Seq<ContentPath>) -> Seq<Seq<Seq<char>>> {
    paths.map_values(|p: ContentPath| p@)
}

} // verus!
