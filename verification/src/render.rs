//! What the generated file holds: the preamble, the namespaces, the body
//! and the trailer, each as a step from one writer state to the next.
use vstd::prelude::*;
use crate::bindings::BindingsView;
use crate::config::{ConfigView, Language};
use crate::ir::{ConstantView, ItemView};
use crate::text::utf8;
use crate::writer::{utf8_lines, WriterView};

verus! {

/// The version that the generator banner reports.
pub const VERSION: &'static str = "0.27.0";

/// The bytes of a piece of fixed text.
pub open spec fn lit(text: &str) -> Seq<u8> {
    utf8(text@)
}

/// Whether `text` ends in a line feed.
pub open spec fn ends_with_line_feed(text: Seq<u8>) -> bool {
    text.len() > 0 && text.last() == 10u8
}

/// `names`, separated by a comma and a space.
pub open spec fn comma_separated(names: Seq<Seq<char>>) -> Seq<u8>
    decreases names.len(),
{
    if names.len() == 0 {
        Seq::empty()
    } else if names.len() == 1 {
        utf8(names[0])
    } else {
        comma_separated(names.drop_last()) + lit(", ") + utf8(names.last())
    }
}

/// The line that opens namespace `name`.
pub open spec fn namespace_opening(name: Seq<char>) -> Seq<u8> {
    lit("namespace ") + utf8(name) + lit(" {")
}

/// The line that closes namespace `name`.
pub open spec fn namespace_closing(name: Seq<char>) -> Seq<u8> {
    lit("} // namespace ") + utf8(name)
}

/// The declarations of the constants that are, or are not, computed from
/// primitive values alone, in the order of `constants`.
pub open spec fn constant_declarations(constants: Seq<ConstantView>, primitive: bool) -> Seq<
    Seq<Seq<u8>>,
>
    decreases constants.len(),
{
    if constants.len() == 0 {
        Seq::empty()
    } else {
        let before = constant_declarations(constants.drop_last(), primitive);
        if constants.last().uses_only_primitive_types == primitive {
            before.push(utf8_lines(constants.last().lines))
        } else {
            before
        }
    }
}

/// The declarations of the items that are not kept out of the output, in
/// the order of `items`.
pub open spec fn item_declarations(items: Seq<ItemView>) -> Seq<Seq<Seq<u8>>>
    decreases items.len(),
{
    if items.len() == 0 {
        Seq::empty()
    } else {
        let before = item_declarations(items.drop_last());
        if items.last().suppressed() {
            before
        } else {
            before.push(utf8_lines(items.last().lines))
        }
    }
}

/// The declarations of globals or of functions, in the order given.
pub open spec fn plain_declarations(all: Seq<Seq<Seq<char>>>) -> Seq<Seq<Seq<u8>>> {
    Seq::new(all.len(), |i: int| utf8_lines(all[i]))
}

impl ConfigView {
    /// The opening of the include guard, where one is configured.
    pub open spec fn guard_opening(self, w: WriterView) -> WriterView {
        match self.include_guard {
            Some(guard) => w.section(lit("#ifndef ") + utf8(guard)).line(
                lit("#define ") + utf8(guard),
            ),
            None => w,
        }
    }

    /// The line that reports the version of the package, where asked for.
    pub open spec fn package_banner(self, package_version: Seq<char>, w: WriterView) -> WriterView {
        if self.package_version {
            w.section(lit("/* Package version: ") + utf8(package_version) + lit(" */"))
        } else {
            w
        }
    }

    /// `#pragma once`, where asked for; never in Cython.
    pub open spec fn pragma_once_line(self, w: WriterView) -> WriterView {
        if self.pragma_once && self.language != Language::Cython {
            w.section(lit("#pragma once"))
        } else {
            w
        }
    }

    /// The line that reports the version of the generator, where asked for.
    pub open spec fn generator_banner(self, w: WriterView) -> WriterView {
        if self.include_version {
            w.section(lit("/* Generated with cbindgen:") + lit(VERSION) + lit(" */"))
        } else {
            w
        }
    }

    /// What precedes the includes: the verbatim header, the include guard,
    /// the package version, `#pragma once`, the generator version and the
    /// verbatim warning, each where configured.
    pub open spec fn banner(self, package_version: Seq<char>, w: WriterView) -> WriterView {
        let w = w.optional_section(self.header);
        let w = self.guard_opening(w);
        let w = self.package_banner(package_version, w);
        let w = self.pragma_once_line(w);
        let w = self.generator_banner(w);
        w.optional_section(self.autogen_warning)
    }

    /// Whether there is nothing to include or import, so that the block of
    /// includes is left out altogether.
    pub open spec fn skips_includes(self) -> bool {
        &&& self.no_includes
        &&& self.sys_includes.len() == 0
        &&& self.includes.len() == 0
        &&& (self.cimports.len() == 0 || self.language != Language::Cython)
        &&& self.after_includes is None
    }

    /// Whether generated enum casts need `assert`.
    pub open spec fn needs_cassert(self) -> bool {
        self.cast_assert_name is None && (self.derive_mut_casts || self.derive_const_casts)
    }

    /// The lines that bring in what every generated file relies on.
    pub open spec fn standard_includes(self) -> Seq<Seq<u8>> {
        let size = if self.usize_is_size_t {
            match self.language {
                Language::C => seq![lit("#include <stddef.h>")],
                _ => seq![lit("#include <cstddef>")],
            }
        } else {
            Seq::empty()
        };
        match self.language {
            Language::C => seq![lit("#include <stdarg.h>"), lit("#include <stdbool.h>")] + size
                + seq![lit("#include <stdint.h>"), lit("#include <stdlib.h>")],
            Language::Cxx => seq![lit("#include <cstdarg>")] + size + seq![
                lit("#include <cstdint>"),
                lit("#include <cstdlib>"),
                lit("#include <ostream>"),
                lit("#include <new>"),
            ] + if self.needs_cassert() {
                seq![lit("#include <cassert>")]
            } else {
                Seq::empty()
            },
            Language::Cython => seq![
                lit("from libc.stdint cimport int8_t, int16_t, int32_t, int64_t, intptr_t"),
                lit("from libc.stdint cimport uint8_t, uint16_t, uint32_t, uint64_t, uintptr_t"),
            ],
        }
    }

    /// The standard includes and, in Cython, the block that declares `bool`
    /// and `va_list`.
    pub open spec fn standard_block(self, w: WriterView) -> WriterView {
        let w = w.lines(self.standard_includes());
        match self.language {
            Language::Cython => w.write(lit("cdef extern from *")).open_brace().line(
                lit("ctypedef bint bool"),
            ).line(lit("ctypedef struct va_list")).close_brace(false),
            _ => w,
        }
    }

    /// One line for each configured system include.
    pub open spec fn sys_include_lines(self) -> Seq<Seq<u8>> {
        Seq::new(
            self.sys_includes.len(),
            |i: int| lit("#include <") + utf8(self.sys_includes[i]) + lit(">"),
        )
    }

    /// One line for each configured local include.
    pub open spec fn include_lines(self) -> Seq<Seq<u8>> {
        Seq::new(
            self.includes.len(),
            |i: int| lit("#include \"") + utf8(self.includes[i]) + lit("\""),
        )
    }

    /// One line for each entry of the Cython import table; none in the
    /// other dialects.
    pub open spec fn cimport_lines(self) -> Seq<Seq<u8>> {
        if self.language == Language::Cython {
            Seq::new(
                self.cimports.len(),
                |i: int|
                    lit("from ") + utf8(self.cimports[i].module) + lit(" cimport ")
                        + comma_separated(self.cimports[i].names),
            )
        } else {
            Seq::empty()
        }
    }

    /// The block of includes and imports.
    pub open spec fn include_block(self, w: WriterView) -> WriterView {
        let w = if self.no_includes {
            w
        } else {
            self.standard_block(w)
        };
        let w = w.lines(self.sys_include_lines()).lines(self.include_lines()).lines(
            self.cimport_lines(),
        );
        match self.after_includes {
            Some(text) => w.line(utf8(text)),
            None => w,
        }
    }

    /// Everything that precedes the namespaces.
    pub open spec fn headers(self, package_version: Seq<char>, w: WriterView) -> WriterView {
        let w = self.banner(package_version, w);
        if self.skips_includes() {
            w
        } else {
            self.include_block(w.new_line_if_not_start())
        }
    }

    /// Whether writing the headers opens a block.
    pub open spec fn headers_open_block(self) -> bool {
        self.language == Language::Cython && !self.no_includes
    }

    /// The lines that open the namespaces, outermost first.
    pub open spec fn opening_lines(self) -> Seq<Seq<u8>> {
        Seq::new(
            self.all_namespaces().len(),
            |i: int| namespace_opening(self.all_namespaces()[i]),
        )
    }

    /// The lines that close the namespaces, innermost first.
    pub open spec fn closing_lines(self) -> Seq<Seq<u8>> {
        Seq::new(
            self.all_namespaces().len(),
            |i: int| namespace_closing(self.all_namespaces().reverse()[i]),
        )
    }

    /// Writes the opening or the closing lines of the namespaces, inside
    /// `#ifdef __cplusplus` where the output is C that C++ can read.
    pub open spec fn namespace_lines(self, lines: Seq<Seq<u8>>, w: WriterView) -> WriterView {
        let w = if self.cpp_compatible_c() {
            w.new_line_if_not_start().write(lit("#ifdef __cplusplus"))
        } else {
            w
        };
        let w = w.continue_with(lines).new_line();
        if self.cpp_compatible_c() {
            w.line(lit("#endif // __cplusplus"))
        } else {
            w
        }
    }

    /// The name after `cdef extern from`.
    pub open spec fn cython_header(self) -> Seq<u8> {
        match self.cython_header {
            Some(header) => utf8(header),
            None => lit("*"),
        }
    }

    /// Opens what encloses the declarations: in Cython the one
    /// `cdef extern from` block, elsewhere the namespaces, if there are any.
    pub open spec fn open_namespaces(self, w: WriterView) -> WriterView {
        if self.language == Language::Cython {
            w.new_line().write(lit("cdef extern from ") + self.cython_header()).open_brace()
        } else if self.all_namespaces().len() == 0 {
            w
        } else {
            self.namespace_lines(self.opening_lines(), w)
        }
    }

    /// Closes what `open_namespaces` opened.
    pub open spec fn close_namespaces(self, w: WriterView) -> WriterView {
        if self.language == Language::Cython {
            w.close_brace(false)
        } else if self.all_namespaces().len() == 0 {
            w
        } else {
            self.namespace_lines(self.closing_lines(), w)
        }
    }

    /// One `using namespace` line for each namespace configured for it, in
    /// C++ only.
    pub open spec fn using_lines(self) -> Option<Seq<Seq<u8>>> {
        match self.using_namespaces {
            Some(names) if self.language == Language::Cxx => Some(
                Seq::new(
                    names.len(),
                    |i: int| lit("using namespace ") + utf8(names[i]) + lit(";"),
                ),
            ),
            _ => None,
        }
    }

    /// Opens the region in which globals and functions have C linkage. The
    /// `using namespace` lines are the first thing inside it.
    pub open spec fn open_linkage(self, w: WriterView) -> WriterView {
        let w = if self.cpp_compatible_c() {
            w.new_line_if_not_start().write(lit("#ifdef __cplusplus"))
        } else {
            w
        };
        let w = if self.speaks_cxx() {
            w.new_line().line(lit("extern \"C\" {"))
        } else {
            w
        };
        let w = if self.cpp_compatible_c() {
            w.line(lit("#endif // __cplusplus"))
        } else {
            w
        };
        match self.using_lines() {
            Some(lines) => w.continue_with(lines).new_line(),
            None => w,
        }
    }

    /// Closes the region that `open_linkage` opened.
    pub open spec fn close_linkage(self, w: WriterView) -> WriterView {
        let w = if self.cpp_compatible_c() {
            w.new_line().write(lit("#ifdef __cplusplus"))
        } else {
            w
        };
        let w = if self.speaks_cxx() {
            w.new_line().line(lit("} // extern \"C\""))
        } else {
            w
        };
        if self.cpp_compatible_c() {
            w.line(lit("#endif // __cplusplus"))
        } else {
            w
        }
    }

    /// The end of the include guard, where one is configured.
    pub open spec fn guard_closing(self, w: WriterView) -> WriterView {
        match self.include_guard {
            Some(guard) => if self.language == Language::C {
                w.section(lit("#endif /* ") + utf8(guard) + lit(" */"))
            } else {
                w.section(lit("#endif // ") + utf8(guard))
            },
            None => w,
        }
    }

    /// What follows the namespaces: the end of the include guard and the
    /// verbatim trailer, each where configured.
    pub open spec fn trailer(self, w: WriterView) -> WriterView {
        let w = self.guard_closing(w);
        match self.trailer {
            Some(text) => {
                let w = w.new_line_if_not_start().write(utf8(text));
                if ends_with_line_feed(utf8(text)) {
                    w
                } else {
                    w.new_line()
                }
            },
            None => w,
        }
    }
}

impl BindingsView {
    /// Whether the bindings can be written: they do nothing, or their tab
    /// width gives the tab stops by which Cython output is indented.
    pub open spec fn can_be_written(self) -> bool {
        self.noop || self.config.language != Language::Cython || self.config.tab_width > 0
    }

    /// Whether there is nothing at all to declare.
    pub open spec fn is_empty(self) -> bool {
        &&& self.globals.len() == 0
        &&& self.constants.len() == 0
        &&& self.items.len() == 0
        &&& self.functions.len() == 0
    }

    /// The globals and the functions inside their linkage region; nothing
    /// where there is neither.
    pub open spec fn linkage_region(self, w: WriterView) -> WriterView {
        if self.functions.len() == 0 && self.globals.len() == 0 {
            w
        } else {
            self.config.close_linkage(
                self.config.open_linkage(w).declarations(
                    plain_declarations(self.globals),
                ).declarations(plain_declarations(self.functions)),
            )
        }
    }

    /// The declarations: the constants made of primitive values, the items
    /// that are exported, the other constants, then the globals and the
    /// functions. Empty Cython output gets a `pass`.
    pub open spec fn body(self, w: WriterView) -> WriterView {
        let w = w.declarations(constant_declarations(self.constants, true)).declarations(
            item_declarations(self.items),
        ).declarations(constant_declarations(self.constants, false));
        let w = self.linkage_region(w);
        if self.config.language == Language::Cython && self.is_empty() {
            w.write(lit("pass"))
        } else {
            w
        }
    }

    /// The headers, written to `w`; nothing for bindings that do nothing.
    pub open spec fn headers(self, w: WriterView) -> WriterView {
        if self.noop {
            w
        } else {
            self.config.headers(self.package_version, w)
        }
    }

    /// The whole file, written to `w`.
    pub open spec fn document(self, w: WriterView) -> WriterView {
        self.config.trailer(
            self.config.close_namespaces(
                self.body(self.config.open_namespaces(self.headers(w))),
            ),
        )
    }

    /// The paths that the dependency file lists, before they are made
    /// canonical: the source files, then the configuration file if there
    /// is one.
    pub open spec fn depfile_inputs(self) -> Seq<Seq<char>> {
        match self.config.config_path {
            Some(path) => self.source_files.push(path),
            None => self.source_files,
        }
    }

    /// What `write_to_file` leaves at a destination that held
    /// `destination`, and whether that is a change. Bindings that do
    /// nothing leave everything alone; so do others where the destination
    /// already holds the generated file.
    pub open spec fn written_to(self, destination: Option<Seq<u8>>) -> (Option<Seq<u8>>, bool) {
        if self.noop || destination == Some(self.rendered()) {
            (destination, false)
        } else {
            (Some(self.rendered()), true)
        }
    }

    /// The bytes of the generated file; none for bindings that do nothing.
    pub open spec fn rendered(self) -> Seq<u8> {
        if self.noop {
            Seq::empty()
        } else {
            self.document(
                WriterView::start(
                    self.config.language,
                    self.config.braces,
                    self.config.tab_width,
                    self.config.line_endings,
                ),
            ).out
        }
    }
}

} // verus!
