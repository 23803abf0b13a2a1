//! The resolved settings that steer emission.
use vstd::prelude::*;

verus! {

/// The dialect of the generated file.
#[derive(Clone, Copy, Debug, PartialEq, Eq, Structural)]
pub enum Language {
    Cxx,
    C,
    Cython,
}

/// Where an opening brace goes in the C dialects.
#[derive(Clone, Copy, Debug, PartialEq, Eq, Structural)]
pub enum Braces {
    SameLine,
    NextLine,
}

/// The bytes that end a line.
#[derive(Clone, Copy, Debug, PartialEq, Eq, Structural)]
pub enum LineEndingStyle {
    LF,
    CR,
    CRLF,
}

/// One `from <module> cimport <names>` line of the Cython dialect.
#[derive(Clone, Debug)]
pub struct CythonImport {
    pub module: String,
    pub names: Vec<String>,
}

pub struct CythonImportView {
    pub module: Seq<char>,
    pub names: Seq<Seq<char>>,
}

impl View for CythonImport {
    type V = CythonImportView;

    open spec fn view(&self) -> CythonImportView {
        CythonImportView { module: self.module@, names: self.names.deep_view() }
    }
}

/// Settings of the Cython dialect.
#[derive(Clone, Debug)]
pub struct CythonConfig {
    /// The header named after `cdef extern from`; `*` stands in when absent.
    pub header: Option<String>,
    /// The import table, in the order in which its lines are emitted.
    pub cimports: Vec<CythonImport>,
}

/// Settings for generated enum helpers.
#[derive(Clone, Debug)]
pub struct EnumConfig {
    pub cast_assert_name: Option<String>,
    pub derive_mut_casts: bool,
    pub derive_const_casts: bool,
}

/// The settings of one generation pass.
#[derive(Clone, Debug)]
pub struct Config {
    pub language: Language,
    /// In the C dialect, also make the output usable from C++.
    pub cpp_compat: bool,
    pub header: Option<String>,
    pub include_guard: Option<String>,
    pub package_version: bool,
    pub pragma_once: bool,
    pub include_version: bool,
    pub autogen_warning: Option<String>,
    pub no_includes: bool,
    pub sys_includes: Vec<String>,
    pub includes: Vec<String>,
    pub after_includes: Option<String>,
    pub trailer: Option<String>,
    pub usize_is_size_t: bool,
    pub enumeration: EnumConfig,
    pub using_namespaces: Option<Vec<String>>,
    pub namespace: Option<String>,
    pub namespaces: Option<Vec<String>>,
    pub cython: CythonConfig,
    pub tab_width: usize,
    pub line_endings: LineEndingStyle,
    pub braces: Braces,
    /// The file the settings were read from, if any.
    pub config_path: Option<String>,
}

/// What a [`Config`] says, as plain mathematical values.
pub struct ConfigView {
    pub language: Language,
    pub cpp_compat: bool,
    pub header: Option<Seq<char>>,
    pub include_guard: Option<Seq<char>>,
    pub package_version: bool,
    pub pragma_once: bool,
    pub include_version: bool,
    pub autogen_warning: Option<Seq<char>>,
    pub no_includes: bool,
    pub sys_includes: Seq<Seq<char>>,
    pub includes: Seq<Seq<char>>,
    pub after_includes: Option<Seq<char>>,
    pub trailer: Option<Seq<char>>,
    pub usize_is_size_t: bool,
    pub cast_assert_name: Option<Seq<char>>,
    pub derive_mut_casts: bool,
    pub derive_const_casts: bool,
    pub using_namespaces: Option<Seq<Seq<char>>>,
    pub namespace: Option<Seq<char>>,
    pub namespaces: Option<Seq<Seq<char>>>,
    pub cython_header: Option<Seq<char>>,
    pub cimports: Seq<CythonImportView>,
    pub tab_width: usize,
    pub line_endings: LineEndingStyle,
    pub braces: Braces,
    pub config_path: Option<Seq<char>>,
}

impl View for Config {
    type V = ConfigView;

    open spec fn view(&self) -> ConfigView {
        ConfigView {
            language: self.language,
            cpp_compat: self.cpp_compat,
            header: self.header.deep_view(),
            include_guard: self.include_guard.deep_view(),
            package_version: self.package_version,
            pragma_once: self.pragma_once,
            include_version: self.include_version,
            autogen_warning: self.autogen_warning.deep_view(),
            no_includes: self.no_includes,
            sys_includes: self.sys_includes.deep_view(),
            includes: self.includes.deep_view(),
            after_includes: self.after_includes.deep_view(),
            trailer: self.trailer.deep_view(),
            usize_is_size_t: self.usize_is_size_t,
            cast_assert_name: self.enumeration.cast_assert_name.deep_view(),
            derive_mut_casts: self.enumeration.derive_mut_casts,
            derive_const_casts: self.enumeration.derive_const_casts,
            using_namespaces: self.using_namespaces.deep_view(),
            namespace: self.namespace.deep_view(),
            namespaces: self.namespaces.deep_view(),
            cython_header: self.cython.header.deep_view(),
            cimports: Seq::new(self.cython.cimports@.len(), |i: int| self.cython.cimports@[i]@),
            tab_width: self.tab_width,
            line_endings: self.line_endings,
            braces: self.braces,
            config_path: self.config_path.deep_view(),
        }
    }
}

impl ConfigView {
    /// The C dialect with C++ compatibility switched on.
    pub open spec fn cpp_compatible_c(self) -> bool {
        self.language == Language::C && self.cpp_compat
    }

    /// Whether the dialect knows namespaces and `extern "C"` regions.
    pub open spec fn speaks_cxx(self) -> bool {
        self.language == Language::Cxx || self.cpp_compatible_c()
    }

    /// The namespaces that enclose the declarations, outermost first: the
    /// primary namespace, then the extra ones. Empty where the dialect has no
    /// namespaces.
    pub open spec fn all_namespaces(self) -> Seq<Seq<char>> {
        if !self.speaks_cxx() {
            Seq::empty()
        } else {
            let primary = match self.namespace {
                Some(n) => seq![n],
                None => Seq::empty(),
            };
            let extra = match self.namespaces {
                Some(ns) => ns,
                None => Seq::empty(),
            };
            primary + extra
        }
    }
}

impl Config {
    /// The C dialect with C++ compatibility switched on.
    pub fn cpp_compatible_c(&self) -> (yes: bool)
        ensures
            yes == self@.cpp_compatible_c(),
    {
        self.language == Language::C && self.cpp_compat
    }
}

impl Default for Config {
    /// C++ output, two-space tabs, braces on the same line, `\n` line
    /// endings, and every optional part switched off.
    fn default() -> (config: Config)
        ensures
            config@ == (ConfigView {
                language: Language::Cxx,
                cpp_compat: false,
                header: None,
                include_guard: None,
                package_version: false,
                pragma_once: false,
                include_version: false,
                autogen_warning: None,
                no_includes: false,
                sys_includes: Seq::empty(),
                includes: Seq::empty(),
                after_includes: None,
                trailer: None,
                usize_is_size_t: false,
                cast_assert_name: None,
                derive_mut_casts: false,
                derive_const_casts: false,
                using_namespaces: None,
                namespace: None,
                namespaces: None,
                cython_header: None,
                cimports: Seq::empty(),
                tab_width: 2,
                line_endings: LineEndingStyle::LF,
                braces: Braces::SameLine,
                config_path: None,
            }),
    {
        let config = Config {
            language: Language::Cxx,
            cpp_compat: false,
            header: None,
            include_guard: None,
            package_version: false,
            pragma_once: false,
            include_version: false,
            autogen_warning: None,
            no_includes: false,
            sys_includes: Vec::new(),
            includes: Vec::new(),
            after_includes: None,
            trailer: None,
            usize_is_size_t: false,
            enumeration: EnumConfig {
                cast_assert_name: None,
                derive_mut_casts: false,
                derive_const_casts: false,
            },
            using_namespaces: None,
            namespace: None,
            namespaces: None,
            cython: CythonConfig { header: None, cimports: Vec::new() },
            tab_width: 2,
            line_endings: LineEndingStyle::LF,
            braces: Braces::SameLine,
            config_path: None,
        };
        assert(config@.sys_includes =~= Seq::empty());
        assert(config@.includes =~= Seq::empty());
        assert(config@.cimports =~= Seq::empty());
        config
    }
}

} // verus!
