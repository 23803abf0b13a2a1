//! The bindings of one generation pass: what they hold, what they answer
//! about structs and aliases, and how they are written out.
use vstd::prelude::*;
use vstd::hash_map::StringHashMap;
use crate::config::{Config, ConfigView};
use crate::ir::{
    items_at, views, Constant, ConstantView, Function, ItemContainer, ItemMap, ItemView, Path,
    Static, Struct, StructView, Type, TypeView, Typedef,
};
use crate::resolve::{
    alias_of, any_transparent, canonical, last_named, lemma_resolve_end, merge_struct_fields,
    merged_fields, resolve,
};
use crate::config::Language;
use crate::emit::{
    all_namespaces, open_close_namespaces, str_views, write_close_linkage, write_headers,
    write_open_linkage, write_trailer, NamespaceOperation,
};
use crate::render::{constant_declarations, item_declarations, plain_declarations};
use crate::depfile::{depfile_text, generate_depfile};
use crate::text::{bytes_eq, clone_names, push_bytes, utf8};
use crate::writer::{utf8_lines, SourceWriter};

verus! {

/// What a destination holds: nothing where there is no file.
pub open spec fn contents(destination: Option<Vec<u8>>) -> Option<Seq<u8>> {
    match destination {
        Some(bytes) => Some(bytes@),
        None => None,
    }
}

/// A bindings header that can be written.
pub struct Bindings {
    config: Config,
    /// The map from path to struct, used to look up whether a given type is
    /// a transparent struct. This is needed to generate code for constants.
    struct_map: ItemMap<Struct>,
    typedef_map: ItemMap<Typedef>,
    /// The merged field orders computed so far, by the path asked for.
    struct_fields_memo: StringHashMap<Vec<String>>,
    globals: Vec<Static>,
    constants: Vec<Constant>,
    items: Vec<ItemContainer>,
    functions: Vec<Function>,
    source_files: Vec<String>,
    /// Bindings that were generated from within another generation pass
    /// and do nothing when written anywhere.
    noop: bool,
    package_version: String,
}

/// What a [`Bindings`] value holds, as plain mathematical values. The memo
/// of field orders is no part of it.
pub struct BindingsView {
    pub config: ConfigView,
    /// Every struct instantiation with the path it is bound to, in discovery
    /// order.
    pub structs: Seq<(Seq<char>, StructView)>,
    /// Every typedef with the path it is bound to, in discovery order.
    pub typedefs: Seq<(Seq<char>, TypeView)>,
    pub globals: Seq<Seq<Seq<char>>>,
    pub constants: Seq<ConstantView>,
    pub items: Seq<ItemView>,
    pub functions: Seq<Seq<Seq<char>>>,
    pub source_files: Seq<Seq<char>>,
    pub noop: bool,
    pub package_version: Seq<char>,
}

impl BindingsView {
    /// The alias-free path that `path` stands for, if its alias chain ends.
    pub open spec fn canonical(self, path: Seq<char>) -> Option<Seq<char>> {
        canonical(self.typedefs, path)
    }

    /// The struct instantiations that `path` stands for.
    pub open spec fn instantiations(self, path: Seq<char>) -> Seq<StructView> {
        match self.canonical(path) {
            Some(end) => items_at(self.structs, end),
            None => Seq::empty(),
        }
    }

    /// Whether `path` stands for a struct, any of whose instantiations is
    /// transparent.
    pub open spec fn struct_is_transparent(self, path: Seq<char>) -> bool {
        any_transparent(self.instantiations(path))
    }

    /// Whether `path` stands for at least one struct.
    pub open spec fn struct_exists(self, path: Seq<char>) -> bool {
        self.instantiations(path).len() > 0
    }

    /// The field names of the struct that `path` stands for, merged over its
    /// instantiations.
    pub open spec fn struct_field_names(self, path: Seq<char>) -> Seq<Seq<char>> {
        merged_fields(self.instantiations(path))
    }
}

impl View for Bindings {
    type V = BindingsView;

    closed spec fn view(&self) -> BindingsView {
        BindingsView {
            config: self.config@,
            structs: self.struct_map@,
            typedefs: self.typedef_map@,
            globals: views(self.globals@),
            constants: views(self.constants@),
            items: views(self.items@),
            functions: views(self.functions@),
            source_files: self.source_files.deep_view(),
            noop: self.noop,
            package_version: self.package_version@,
        }
    }
}

impl Bindings {
    /// Every remembered field order is the one that would be computed anew,
    /// and with a path its canonical path is remembered too. The memo is a
    /// map, so that no path is remembered twice. `new` establishes this and
    /// every method keeps it.
    pub closed spec fn wf(&self) -> bool {
        forall|path: Seq<char>| #[trigger]
            self.remembers(path) ==> {
                &&& self.struct_fields_memo@[path].deep_view() == self@.struct_field_names(path)
                &&& self@.canonical(path) matches Some(end) ==> self.remembers(end)
            }
    }

    /// Bindings over the finished collections of one pass. No field order
    /// is remembered yet.
    pub fn new(
        config: Config,
        struct_map: ItemMap<Struct>,
        typedef_map: ItemMap<Typedef>,
        constants: Vec<Constant>,
        globals: Vec<Static>,
        items: Vec<ItemContainer>,
        functions: Vec<Function>,
        source_files: Vec<String>,
        noop: bool,
        package_version: String,
    ) -> (bindings: Bindings)
        ensures
            bindings.wf(),
            forall|path: Seq<char>| !bindings.remembers(path),
            bindings@ == (BindingsView {
                config: config@,
                structs: struct_map@,
                typedefs: typedef_map@,
                globals: views(globals@),
                constants: views(constants@),
                items: views(items@),
                functions: views(functions@),
                source_files: source_files.deep_view(),
                noop,
                package_version: package_version@,
            }),
    {
        Bindings {
            config,
            struct_map,
            typedef_map,
            struct_fields_memo: StringHashMap::new(),
            globals,
            constants,
            items,
            functions,
            source_files,
            noop,
            package_version,
        }
    }

    /// Whether the field order of the struct at `path` has been computed
    /// and is remembered.
    pub closed spec fn remembers(&self, path: Seq<char>) -> bool {
        self.struct_fields_memo@.contains_key(path)
    }

    /// The settings of this pass.
    pub fn config(&self) -> (config: &Config)
        ensures
            config@ == self@.config,
    {
        &self.config
    }

    /// Whether these bindings can be written: Cython output is indented by
    /// tab stops, which a tab width of zero does not give.
    pub fn can_be_written(&self) -> (yes: bool)
        ensures
            yes == self@.can_be_written(),
    {
        self.noop || self.config.language != Language::Cython || self.config.tab_width > 0
    }

    /// Whether these bindings do nothing when written anywhere.
    pub fn noop(&self) -> (noop: bool)
        ensures
            noop == self@.noop,
    {
        self.noop
    }

    /// The type that `path` is another name for, if it is one.
    fn alias_of(&self, path: &Path) -> (target: Option<Path>)
        ensures
            match target {
                Some(p) => alias_of(self@.typedefs, path@) == Some(p@),
                None => alias_of(self@.typedefs, path@) is None,
            },
    {
        let found = self.typedef_map.items(path);
        let ghost aliased = items_at(self@.typedefs, path@);
        let mut target: Option<Path> = None;
        let mut i: usize = 0;
        while i < found.len()
            invariant
                i <= found@.len(),
                found@.len() == aliased.len(),
                forall|k: int| 0 <= k < found@.len() ==> (#[trigger] found@[k])@ == aliased[k],
                match target {
                    Some(p) => last_named(aliased.take(i as int)) == Some(p@),
                    None => last_named(aliased.take(i as int)) is None,
                },
            decreases found@.len() - i,
        {
            assert(aliased.take(i + 1).drop_last() =~= aliased.take(i as int));
            assert(aliased.take(i + 1).last() == found@[i as int]@);
            match &found[i].aliased {
                Type::Path(p) => {
                    target = Some(p.clone());
                },
                Type::Other => {},
            }
            i = i + 1;
        }
        assert(aliased.take(i as int) =~= aliased);
        target
    }

    /// Peels through typedefs to the path that `path` stands for. `None`
    /// when the aliases run in a circle.
    pub fn resolved_struct_path(&self, path: &Path) -> (resolved: Option<Path>)
        ensures
            match resolved {
                Some(end) => self@.canonical(path@) == Some(end@),
                None => self@.canonical(path@) is None,
            },
    {
        let mut current = path.clone();
        let mut fuel: usize = self.typedef_map.len();
        loop
            invariant
                resolve(self@.typedefs, current@, fuel as nat) == self@.canonical(path@),
            decreases fuel,
        {
            match self.alias_of(&current) {
                None => {
                    return Some(current);
                },
                Some(next) => {
                    if fuel == 0 {
                        return None;
                    }
                    fuel = fuel - 1;
                    current = next;
                },
            }
        }
    }

    /// Whether `path` stands for a struct that is laid out exactly as its
    /// single field, in any of its instantiations.
    pub fn struct_is_transparent(&self, path: &Path) -> (transparent: bool)
        ensures
            transparent == self@.struct_is_transparent(path@),
    {
        match self.resolved_struct_path(path) {
            None => false,
            Some(end) => {
                let found = self.struct_map.items(&end);
                let ghost all = self@.instantiations(path@);
                let mut i: usize = 0;
                while i < found.len()
                    invariant
                        i <= found@.len(),
                        all == self@.instantiations(path@),
                        found@.len() == all.len(),
                        forall|k: int| 0 <= k < found@.len() ==> (#[trigger] found@[k])@ == all[k],
                        forall|k: int| 0 <= k < i ==> !(#[trigger] all[k]).is_transparent,
                    decreases found@.len() - i,
                {
                    if found[i].is_transparent {
                        assert(all[i as int].is_transparent);
                        return true;
                    }
                    i = i + 1;
                }
                false
            },
        }
    }

    /// Whether `path` stands for at least one struct.
    pub fn struct_exists(&self, path: &Path) -> (exists: bool)
        ensures
            exists == self@.struct_exists(path@),
    {
        match self.resolved_struct_path(path) {
            None => false,
            Some(end) => self.struct_map.items(&end).len() > 0,
        }
    }

    /// The field names of the struct that `path` stands for, merged over its
    /// instantiations. The answer is remembered under `path` and under the
    /// path it stands for.
    pub fn struct_field_names(&mut self, path: &Path) -> (names: Vec<String>)
        requires
            old(self).wf(),
        ensures
            final(self).wf(),
            final(self)@ == old(self)@,
            names.deep_view() == old(self)@.struct_field_names(path@),
            final(self).remembers(path@),
            old(self)@.canonical(path@) matches Some(end) ==> final(self).remembers(end),
            forall|other: Seq<char>| old(self).remembers(other) ==> final(self).remembers(other),
    {
        if let Some(memo) = self.struct_fields_memo.get(path.name()) {
            assert(self.remembers(path@));
            return clone_names(memo);
        }
        let ghost remembered = self.struct_fields_memo@;
        let resolved = self.resolved_struct_path(path);
        let mut fields: Vec<String> = Vec::new();
        assert(fields.deep_view() =~= Seq::<Seq<char>>::empty());
        match &resolved {
            None => {},
            Some(end) => {
                let found = self.struct_map.items(end);
                let ghost all = self@.instantiations(path@);
                let mut k: usize = 0;
                assert(all.take(0) =~= Seq::<StructView>::empty());
                while k < found.len()
                    invariant
                        k <= found@.len(),
                        found@.len() == all.len(),
                        forall|j: int| 0 <= j < found@.len() ==> (#[trigger] found@[j])@ == all[j],
                        fields.deep_view() == merged_fields(all.take(k as int)),
                    decreases found@.len() - k,
                {
                    assert(all.take(k + 1).drop_last() =~= all.take(k as int));
                    merge_struct_fields(&mut fields, found[k]);
                    k = k + 1;
                }
                assert(all.take(k as int) =~= all);
            },
        }
        self.struct_fields_memo.insert(path.name().to_owned(), clone_names(&fields));
        match resolved {
            None => {},
            Some(end) => {
                if end != *path {
                    proof {
                        lemma_resolve_end(self@.typedefs, path@, self@.typedefs.len());
                    }
                    self.struct_fields_memo.insert(end.name().to_owned(), clone_names(&fields));
                }
            },
        }
        assert forall|other: Seq<char>| #[trigger] self.remembers(other) implies {
            &&& self.struct_fields_memo@[other].deep_view() == self@.struct_field_names(other)
            &&& self@.canonical(other) matches Some(end) ==> self.remembers(end)
        } by {
            if remembered.contains_key(other) {
                assert(old(self).remembers(other));
            }
        }
        fields
    }

    /// Writes everything that precedes the namespaces: the banner and the
    /// includes. Bindings that do nothing write nothing.
    pub fn write_headers(&self, out: &mut SourceWriter)
        requires
            old(out)@.wf(),
            old(out)@.laid_out_for(self@.config),
            !self@.noop && self@.config.headers_open_block() ==> old(out)@.can_push_tab(),
        ensures
            final(out)@ == self@.headers(old(out)@),
            final(out)@.wf(),
            final(out)@.continues(old(out)@),
    {
        if self.noop {
            return ;
        }
        write_headers(&self.config, self.package_version.as_str(), out);
    }

    /// The namespaces that enclose the declarations, outermost first: the
    /// primary namespace, then the extra ones. Empty where the dialect has
    /// no namespaces.
    pub fn all_namespaces(&self) -> (names: Vec<&str>)
        ensures
            str_views(names@) == self@.config.all_namespaces(),
    {
        all_namespaces(&self.config)
    }

    /// Opens or closes what encloses the declarations.
    pub fn open_close_namespaces(&self, op: NamespaceOperation, out: &mut SourceWriter)
        requires
            old(out)@.wf(),
            old(out)@.laid_out_for(self@.config),
            self@.config.language == Language::Cython && op == NamespaceOperation::Open ==> old(
                out,
            )@.can_push_tab(),
            self@.config.language == Language::Cython && op == NamespaceOperation::Close ==> old(
                out,
            )@.spaces.len() >= 2,
        ensures
            final(out)@ == match op {
                NamespaceOperation::Open => self@.config.open_namespaces(old(out)@),
                NamespaceOperation::Close => self@.config.close_namespaces(old(out)@),
            },
            final(out)@.wf(),
            final(out)@.laid_out_for(self@.config),
            self@.config.language != Language::Cython ==> final(out)@.continues(old(out)@),
    {
        open_close_namespaces(&self.config, op, out);
    }

    /// Opens what encloses the declarations: in Cython the one
    /// `cdef extern from` block, elsewhere the namespaces, outermost first.
    pub fn open_namespaces(&self, out: &mut SourceWriter)
        requires
            old(out)@.wf(),
            old(out)@.laid_out_for(self@.config),
            self@.config.language == Language::Cython ==> old(out)@.can_push_tab(),
        ensures
            final(out)@ == self@.config.open_namespaces(old(out)@),
            final(out)@.wf(),
            final(out)@.laid_out_for(self@.config),
            self@.config.language != Language::Cython ==> final(out)@.continues(old(out)@),
    {
        self.open_close_namespaces(NamespaceOperation::Open, out);
    }

    /// Closes what `open_namespaces` opened, innermost first.
    pub fn close_namespaces(&self, out: &mut SourceWriter)
        requires
            old(out)@.wf(),
            old(out)@.laid_out_for(self@.config),
            self@.config.language == Language::Cython ==> old(out)@.spaces.len() >= 2,
        ensures
            final(out)@ == self@.config.close_namespaces(old(out)@),
            final(out)@.wf(),
            final(out)@.laid_out_for(self@.config),
            self@.config.language != Language::Cython ==> final(out)@.continues(old(out)@),
    {
        self.open_close_namespaces(NamespaceOperation::Close, out);
    }

    /// Writes the constants that are (`primitive`) or are not computed from
    /// primitive values alone.
    fn write_constants(&self, primitive: bool, out: &mut SourceWriter)
        requires
            old(out)@.wf(),
        ensures
            final(out)@ == old(out)@.declarations(
                constant_declarations(self@.constants, primitive),
            ),
            final(out)@.wf(),
            final(out)@.continues(old(out)@),
    {
        let ghost all = self@.constants;
        let mut i: usize = 0;
        assert(all.take(0) =~= Seq::<ConstantView>::empty());
        while i < self.constants.len()
            invariant
                i <= self.constants@.len(),
                all == self@.constants,
                out@.wf(),
                out@.continues(old(out)@),
                out@ == old(out)@.declarations(
                    constant_declarations(all.take(i as int), primitive),
                ),
            decreases self.constants@.len() - i,
        {
            assert(all.take(i + 1).drop_last() =~= all.take(i as int));
            assert(all.take(i + 1).last() == self.constants@[i as int]@);
            let ghost before = constant_declarations(all.take(i as int), primitive);
            if self.constants[i].uses_only_primitive_types == primitive {
                let ghost lines = utf8_lines(self.constants@[i as int]@.lines);
                assert(before.push(lines).drop_last() =~= before);
                out.declaration(&self.constants[i].declaration.lines);
            }
            i = i + 1;
        }
        assert(all.take(i as int) =~= all);
    }

    /// Writes the items that are not kept out of the output.
    fn write_items(&self, out: &mut SourceWriter)
        requires
            old(out)@.wf(),
        ensures
            final(out)@ == old(out)@.declarations(item_declarations(self@.items)),
            final(out)@.wf(),
            final(out)@.continues(old(out)@),
    {
        let ghost all = self@.items;
        let mut i: usize = 0;
        assert(all.take(0) =~= Seq::<ItemView>::empty());
        while i < self.items.len()
            invariant
                i <= self.items@.len(),
                all == self@.items,
                out@.wf(),
                out@.continues(old(out)@),
                out@ == old(out)@.declarations(item_declarations(all.take(i as int))),
            decreases self.items@.len() - i,
        {
            assert(all.take(i + 1).drop_last() =~= all.take(i as int));
            assert(all.take(i + 1).last() == self.items@[i as int]@);
            let ghost before = item_declarations(all.take(i as int));
            let suppressed = match self.items[i].no_export {
                Some(flag) => flag,
                None => false,
            };
            if !suppressed {
                let ghost lines = utf8_lines(self.items@[i as int]@.lines);
                assert(before.push(lines).drop_last() =~= before);
                out.declaration(&self.items[i].declaration.lines);
            }
            i = i + 1;
        }
        assert(all.take(i as int) =~= all);
    }

    /// Writes the globals.
    fn write_globals(&self, out: &mut SourceWriter)
        requires
            old(out)@.wf(),
        ensures
            final(out)@ == old(out)@.declarations(plain_declarations(self@.globals)),
            final(out)@.wf(),
            final(out)@.continues(old(out)@),
    {
        let ghost all = plain_declarations(self@.globals);
        let mut i: usize = 0;
        assert(all.take(0) =~= Seq::<Seq<Seq<u8>>>::empty());
        while i < self.globals.len()
            invariant
                i <= self.globals@.len(),
                all == plain_declarations(self@.globals),
                out@.wf(),
                out@.continues(old(out)@),
                out@ == old(out)@.declarations(all.take(i as int)),
            decreases self.globals@.len() - i,
        {
            assert(all.take(i + 1).drop_last() =~= all.take(i as int));
            out.declaration(&self.globals[i].declaration.lines);
            i = i + 1;
        }
        assert(all.take(i as int) =~= all);
    }

    /// Writes the functions.
    fn write_functions(&self, out: &mut SourceWriter)
        requires
            old(out)@.wf(),
        ensures
            final(out)@ == old(out)@.declarations(plain_declarations(self@.functions)),
            final(out)@.wf(),
            final(out)@.continues(old(out)@),
    {
        let ghost all = plain_declarations(self@.functions);
        let mut i: usize = 0;
        assert(all.take(0) =~= Seq::<Seq<Seq<u8>>>::empty());
        while i < self.functions.len()
            invariant
                i <= self.functions@.len(),
                all == plain_declarations(self@.functions),
                out@.wf(),
                out@.continues(old(out)@),
                out@ == old(out)@.declarations(all.take(i as int)),
            decreases self.functions@.len() - i,
        {
            assert(all.take(i + 1).drop_last() =~= all.take(i as int));
            out.declaration(&self.functions[i].declaration.lines);
            i = i + 1;
        }
        assert(all.take(i as int) =~= all);
    }

    /// Writes the globals and the functions inside their linkage region.
    fn write_linkage_region(&self, out: &mut SourceWriter)
        requires
            old(out)@.wf(),
            old(out)@.laid_out_for(self@.config),
        ensures
            final(out)@ == self@.linkage_region(old(out)@),
            final(out)@.wf(),
            final(out)@.continues(old(out)@),
    {
        if self.functions.len() == 0 && self.globals.len() == 0 {
            return ;
        }
        write_open_linkage(&self.config, out);
        self.write_globals(out);
        self.write_functions(out);
        write_close_linkage(&self.config, out);
    }

    /// Writes the declarations.
    fn write_body(&self, out: &mut SourceWriter)
        requires
            old(out)@.wf(),
            old(out)@.laid_out_for(self@.config),
        ensures
            final(out)@ == self@.body(old(out)@),
            final(out)@.wf(),
            final(out)@.continues(old(out)@),
    {
        self.write_constants(true, out);
        self.write_items(out);
        self.write_constants(false, out);
        self.write_linkage_region(out);
        if self.config.language == Language::Cython && self.globals.len() == 0
            && self.constants.len() == 0 && self.items.len() == 0 && self.functions.len() == 0 {
            out.write("pass");
        }
    }

    /// Appends the generated file to `file`. Bindings that do nothing append
    /// nothing.
    pub fn write(&self, file: &mut Vec<u8>)
        requires
            self@.can_be_written(),
        ensures
            final(file)@ == old(file)@ + self@.rendered(),
    {
        if self.noop {
            assert(file@ =~= old(file)@ + self@.rendered());
            return ;
        }
        let mut out = SourceWriter::new(&self.config);
        let ghost start = out@;
        assert(start.tab_width > 0 ==> start.can_push_tab()) by {
            assert(start.indent() == 0);
        }
        self.write_headers(&mut out);
        self.open_namespaces(&mut out);
        assert(self@.config.language == Language::Cython ==> out@.spaces.len() >= 2);
        self.write_body(&mut out);
        self.close_namespaces(&mut out);
        write_trailer(&self.config, &mut out);
        push_bytes(file, out.as_bytes());
    }

    /// Brings `destination` up to date: what a file holds, or `None` where
    /// there is none yet. The generated file is put there unless that very
    /// text is there already; the result says whether anything changed.
    /// Bindings that do nothing change nothing.
    pub fn write_to_file(&self, destination: &mut Option<Vec<u8>>) -> (changed: bool)
        requires
            self@.can_be_written(),
        ensures
            (contents(*final(destination)), changed) == self@.written_to(
                contents(*old(destination)),
            ),
    {
        if self.noop {
            return false;
        }
        let mut new_file_contents: Vec<u8> = Vec::new();
        self.write(&mut new_file_contents);
        assert(new_file_contents@ =~= self@.rendered());
        let same = match destination {
            Some(old_file_contents) => bytes_eq(
                old_file_contents.as_slice(),
                new_file_contents.as_slice(),
            ),
            None => false,
        };
        if same {
            false
        } else {
            *destination = Some(new_file_contents);
            true
        }
    }

    /// The paths that the dependency file lists, before they are made
    /// canonical: the source files, then the configuration file if there
    /// is one.
    pub fn depfile_inputs(&self) -> (inputs: Vec<&str>)
        ensures
            str_views(inputs@) == self@.depfile_inputs(),
    {
        let mut inputs: Vec<&str> = Vec::new();
        let mut i: usize = 0;
        while i < self.source_files.len()
            invariant
                i <= self.source_files@.len(),
                inputs@.len() == i,
                forall|j: int| 0 <= j < i ==> inputs@[j]@ == self.source_files@[j]@,
            decreases self.source_files@.len() - i,
        {
            inputs.push(self.source_files[i].as_str());
            i = i + 1;
        }
        if let Some(path) = &self.config.config_path {
            inputs.push(path.as_str());
        }
        assert(str_views(inputs@) =~= self@.depfile_inputs());
        inputs
    }

    /// The text of the dependency file for the header at `header_path`:
    /// one make rule with the header as its target and `source_files`, in
    /// lexicographic order, as its prerequisites, each on a continuation
    /// line of its own; spaces in paths are escaped. The paths are taken as
    /// they stand: the caller hands in the canonical ones.
    pub fn generate_depfile(header_path: &str, source_files: &Vec<String>) -> (depfile: Vec<u8>)
        ensures
            depfile@ == depfile_text(utf8(header_path@), utf8_lines(source_files.deep_view())),
    {
        generate_depfile(header_path, source_files)
    }
}

} // verus!
