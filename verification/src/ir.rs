//! The finished description of a library's surface, as the emitter reads it.
use vstd::prelude::*;
use vstd::std_specs::cmp::PartialEqSpecImpl;

verus! {

/// The views of the elements of `items`, in order.
pub open spec fn views<T: View>(items: Seq<T>) -> Seq<T::V> {
    Seq::new(items.len(), |i: int| items[i]@)
}

/// The qualified name of a type. Two paths are the same type exactly when
/// their text is the same.
#[derive(Debug)]
pub struct Path {
    name: String,
}

impl View for Path {
    type V = Seq<char>;

    closed spec fn view(&self) -> Seq<char> {
        self.name@
    }
}

impl Path {
    pub fn new(name: &str) -> (path: Path)
        ensures
            path@ == name@,
    {
        Path { name: name.to_owned() }
    }

    pub fn name(&self) -> (name: &str)
        ensures
            name@ == self@,
    {
        self.name.as_str()
    }
}

impl Clone for Path {
    fn clone(&self) -> (path: Path)
        ensures
            path@ == self@,
    {
        Path { name: self.name.clone() }
    }
}

impl PartialEq for Path {
    fn eq(&self, other: &Path) -> (same: bool) {
        self.name == other.name
    }
}

impl PartialEqSpecImpl for Path {
    open spec fn obeys_eq_spec() -> bool {
        true
    }

    open spec fn eq_spec(&self, other: &Path) -> bool {
        self@ == other@
    }
}

impl Eq for Path {

}

/// The type that a typedef stands for.
#[derive(Debug)]
pub enum Type {
    /// A bare reference to a named type.
    Path(Path),
    /// Anything else: a pointer, an array, a primitive, a function type.
    Other,
}

pub enum TypeView {
    Path(Seq<char>),
    Other,
}

impl View for Type {
    type V = TypeView;

    open spec fn view(&self) -> TypeView {
        match self {
            Type::Path(p) => TypeView::Path(p@),
            Type::Other => TypeView::Other,
        }
    }
}

/// A type alias.
#[derive(Debug)]
pub struct Typedef {
    pub aliased: Type,
}

impl View for Typedef {
    type V = TypeView;

    open spec fn view(&self) -> TypeView {
        self.aliased@
    }
}

/// A field of a struct.
#[derive(Debug)]
pub struct Field {
    pub name: String,
}

/// One instantiation of a struct.
#[derive(Debug)]
pub struct Struct {
    /// Whether the struct is laid out exactly as its single field.
    pub is_transparent: bool,
    pub fields: Vec<Field>,
}

pub struct StructView {
    pub is_transparent: bool,
    /// The names of the fields, in declaration order.
    pub fields: Seq<Seq<char>>,
}

impl View for Struct {
    type V = StructView;

    open spec fn view(&self) -> StructView {
        StructView {
            is_transparent: self.is_transparent,
            fields: Seq::new(self.fields@.len(), |i: int| self.fields@[i].name@),
        }
    }
}

/// The text of one declaration, line by line, relative to the indentation
/// at the place where it is emitted.
#[derive(Debug)]
pub struct Declaration {
    pub lines: Vec<String>,
}

impl View for Declaration {
    type V = Seq<Seq<char>>;

    open spec fn view(&self) -> Seq<Seq<char>> {
        self.lines.deep_view()
    }
}

/// A constant.
#[derive(Debug)]
pub struct Constant {
    /// Whether the value is computed from primitive numbers and booleans
    /// alone.
    pub uses_only_primitive_types: bool,
    pub declaration: Declaration,
}

pub struct ConstantView {
    pub uses_only_primitive_types: bool,
    pub lines: Seq<Seq<char>>,
}

impl View for Constant {
    type V = ConstantView;

    open spec fn view(&self) -> ConstantView {
        ConstantView {
            uses_only_primitive_types: self.uses_only_primitive_types,
            lines: self.declaration@,
        }
    }
}

/// A global variable.
#[derive(Debug)]
pub struct Static {
    pub declaration: Declaration,
}

impl View for Static {
    type V = Seq<Seq<char>>;

    open spec fn view(&self) -> Seq<Seq<char>> {
        self.declaration@
    }
}

/// A function.
#[derive(Debug)]
pub struct Function {
    pub declaration: Declaration,
}

impl View for Function {
    type V = Seq<Seq<char>>;

    open spec fn view(&self) -> Seq<Seq<char>> {
        self.declaration@
    }
}

/// The kinds of item that are emitted between the two groups of constants.
#[derive(Clone, Copy, Debug, PartialEq, Eq, Structural)]
pub enum ItemKind {
    Enum,
    Struct,
    Union,
    OpaqueItem,
    Typedef,
}

/// An enum, struct, union, opaque item or typedef, ready to be emitted.
#[derive(Debug)]
pub struct ItemContainer {
    pub kind: ItemKind,
    /// The item's `no-export` annotation, if it carries one.
    pub no_export: Option<bool>,
    pub declaration: Declaration,
}

pub struct ItemView {
    pub kind: ItemKind,
    pub no_export: Option<bool>,
    pub lines: Seq<Seq<char>>,
}

impl ItemView {
    /// Whether the item is kept out of the output.
    pub open spec fn suppressed(self) -> bool {
        self.no_export == Some(true)
    }
}

impl View for ItemContainer {
    type V = ItemView;

    open spec fn view(&self) -> ItemView {
        ItemView { kind: self.kind, no_export: self.no_export, lines: self.declaration@ }
    }
}

/// The definitions bound to `path` in `entries`, in the order in which they
/// were bound.
pub open spec fn items_at<V>(entries: Seq<(Seq<char>, V)>, path: Seq<char>) -> Seq<V>
    decreases entries.len(),
{
    if entries.len() == 0 {
        Seq::empty()
    } else {
        let before = items_at(entries.drop_last(), path);
        if entries.last().0 == path {
            before.push(entries.last().1)
        } else {
            before
        }
    }
}

/// A map from a path to every definition that shares it, in the order in
/// which the definitions were found.
#[derive(Debug)]
pub struct ItemMap<T> {
    entries: Vec<(Path, T)>,
}

impl<T: View> View for ItemMap<T> {
    type V = Seq<(Seq<char>, T::V)>;

    closed spec fn view(&self) -> Seq<(Seq<char>, T::V)> {
        Seq::new(self.entries@.len(), |i: int| (self.entries@[i].0@, self.entries@[i].1@))
    }
}

impl<T: View> ItemMap<T> {
    /// A map that binds nothing.
    pub fn new() -> (map: ItemMap<T>)
        ensures
            map@ == Seq::<(Seq<char>, T::V)>::empty(),
    {
        let map = ItemMap { entries: Vec::new() };
        assert(map@ =~= Seq::empty());
        map
    }

    /// Binds one more definition to `path`.
    pub fn insert(&mut self, path: Path, item: T)
        ensures
            final(self)@ == old(self)@.push((path@, item@)),
    {
        self.entries.push((path, item));
        assert(self@ =~= old(self)@.push((path@, item@)));
    }

    /// The number of bindings.
    pub fn len(&self) -> (n: usize)
        ensures
            n == self@.len(),
    {
        self.entries.len()
    }

    /// The definitions bound to `path`, in the order in which they were
    /// bound.
    pub fn items(&self, path: &Path) -> (found: Vec<&T>)
        ensures
            found@.len() == items_at(self@, path@).len(),
            forall|i: int|
                0 <= i < found@.len() ==> (#[trigger] found@[i])@ == items_at(self@, path@)[i],
    {
        let mut found: Vec<&T> = Vec::new();
        let mut i: usize = 0;
        while i < self.entries.len()
            invariant
                i <= self.entries@.len(),
                found@.len() == items_at(self@.take(i as int), path@).len(),
                forall|k: int|
                    0 <= k < found@.len() ==> (#[trigger] found@[k])@ == items_at(
                        self@.take(i as int),
                        path@,
                    )[k],
            decreases self.entries@.len() - i,
        {
            assert(self@.take(i + 1).drop_last() =~= self@.take(i as int));
            if self.entries[i].0 == *path {
                found.push(&self.entries[i].1);
            }
            i = i + 1;
        }
        assert(self@.take(i as int) =~= self@);
        found
    }
}

} // verus!
