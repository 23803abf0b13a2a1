//! Writing the parts of the file that the configuration alone decides.
use vstd::prelude::*;
use crate::config::{Config, CythonImport, Language};
use crate::render::{comma_separated, lit, namespace_closing, VERSION};
use crate::text::{push_str, utf8};
use crate::writer::{str_lines, SourceWriter};

verus! {

/// Which way the namespaces are passed.
#[derive(Clone, Copy, Debug, PartialEq, Eq, Structural)]
pub enum NamespaceOperation {
    Open,
    Close,
}

/// Writes the opening of the include guard, where one is configured.
fn write_guard_opening(config: &Config, out: &mut SourceWriter)
    requires
        old(out)@.wf(),
    ensures
        final(out)@ == config@.guard_opening(old(out)@),
        final(out)@.wf(),
        final(out)@.continues(old(out)@),
{
    if let Some(guard) = &config.include_guard {
        out.new_line_if_not_start();
        out.write2("#ifndef ", guard.as_str());
        out.new_line();
        out.write2("#define ", guard.as_str());
        out.new_line();
    }
}

/// Writes the line that reports the version of the package, where asked for.
fn write_package_banner(config: &Config, package_version: &str, out: &mut SourceWriter)
    requires
        old(out)@.wf(),
    ensures
        final(out)@ == config@.package_banner(package_version@, old(out)@),
        final(out)@.wf(),
        final(out)@.continues(old(out)@),
{
    if config.package_version {
        out.new_line_if_not_start();
        out.write3("/* Package version: ", package_version, " */");
        out.new_line();
    }
}

/// Writes `#pragma once`, where asked for.
fn write_pragma_once(config: &Config, out: &mut SourceWriter)
    requires
        old(out)@.wf(),
    ensures
        final(out)@ == config@.pragma_once_line(old(out)@),
        final(out)@.wf(),
        final(out)@.continues(old(out)@),
{
    if config.pragma_once && config.language != Language::Cython {
        out.section("#pragma once");
    }
}

/// Writes the line that reports the version of the generator, where asked
/// for.
fn write_generator_banner(config: &Config, out: &mut SourceWriter)
    requires
        old(out)@.wf(),
    ensures
        final(out)@ == config@.generator_banner(old(out)@),
        final(out)@.wf(),
        final(out)@.continues(old(out)@),
{
    if config.include_version {
        out.new_line_if_not_start();
        out.write3("/* Generated with cbindgen:", VERSION, " */");
        out.new_line();
    }
}

/// Writes what precedes the includes.
pub fn write_banner(config: &Config, package_version: &str, out: &mut SourceWriter)
    requires
        old(out)@.wf(),
        old(out)@.laid_out_for(config@),
    ensures
        final(out)@ == config@.banner(package_version@, old(out)@),
        final(out)@.wf(),
        final(out)@.continues(old(out)@),
{
    out.optional_section(&config.header);
    write_guard_opening(config, out);
    write_package_banner(config, package_version, out);
    write_pragma_once(config, out);
    write_generator_banner(config, out);
    out.optional_section(&config.autogen_warning);
}

/// The lines that bring in what every generated file relies on.
fn standard_includes(config: &Config) -> (lines: Vec<&'static str>)
    ensures
        str_lines(lines@) == config@.standard_includes(),
{
    let mut lines: Vec<&'static str> = Vec::new();
    match config.language {
        Language::C => {
            lines.push("#include <stdarg.h>");
            lines.push("#include <stdbool.h>");
            if config.usize_is_size_t {
                lines.push("#include <stddef.h>");
            }
            lines.push("#include <stdint.h>");
            lines.push("#include <stdlib.h>");
        },
        Language::Cxx => {
            lines.push("#include <cstdarg>");
            if config.usize_is_size_t {
                lines.push("#include <cstddef>");
            }
            lines.push("#include <cstdint>");
            lines.push("#include <cstdlib>");
            lines.push("#include <ostream>");
            lines.push("#include <new>");
            if config.enumeration.cast_assert_name.is_none() && (
            config.enumeration.derive_mut_casts || config.enumeration.derive_const_casts) {
                lines.push("#include <cassert>");
            }
        },
        Language::Cython => {
            lines.push("from libc.stdint cimport int8_t, int16_t, int32_t, int64_t, intptr_t");
            lines.push(
                "from libc.stdint cimport uint8_t, uint16_t, uint32_t, uint64_t, uintptr_t",
            );
        },
    }
    assert(str_lines(lines@) =~= config@.standard_includes());
    lines
}

/// Writes the standard includes and, in Cython, the block that declares
/// `bool` and `va_list`.
fn write_standard_block(config: &Config, out: &mut SourceWriter)
    requires
        old(out)@.wf(),
        config@.language == Language::Cython ==> old(out)@.can_push_tab(),
    ensures
        final(out)@ == config@.standard_block(old(out)@),
        final(out)@.wf(),
        final(out)@.continues(old(out)@),
{
    let lines = standard_includes(config);
    out.lines(&lines);
    match config.language {
        Language::Cython => {
            out.write("cdef extern from *");
            out.open_brace();
            out.write("ctypedef bint bool");
            out.new_line();
            out.write("ctypedef struct va_list");
            out.new_line();
            out.close_brace(false);
            assert(out@.spaces =~= old(out)@.spaces);
        },
        _ => {},
    }
}

/// Writes one line for each of `names`: `before`, the name, `after`.
fn write_wrapped_lines(
    out: &mut SourceWriter,
    before: &str,
    names: &Vec<String>,
    after: &str,
)
    requires
        old(out)@.wf(),
    ensures
        final(out)@ == old(out)@.lines(
            Seq::new(
                names.deep_view().len(),
                |i: int| utf8(before@) + utf8(names.deep_view()[i]) + utf8(after@),
            ),
        ),
        final(out)@.wf(),
        final(out)@.continues(old(out)@),
{
    let ghost all = Seq::new(
        names.deep_view().len(),
        |i: int| utf8(before@) + utf8(names.deep_view()[i]) + utf8(after@),
    );
    let mut i: usize = 0;
    assert(all.take(0) =~= Seq::<Seq<u8>>::empty());
    while i < names.len()
        invariant
            i <= names@.len(),
            all == Seq::new(
                names.deep_view().len(),
                |i: int| utf8(before@) + utf8(names.deep_view()[i]) + utf8(after@),
            ),
            out@.wf(),
            out@.continues(old(out)@),
            out@ == old(out)@.lines(all.take(i as int)),
        decreases names@.len() - i,
    {
        assert(all.take(i + 1).drop_last() =~= all.take(i as int));
        out.write3(before, names[i].as_str(), after);
        out.new_line();
        i = i + 1;
    }
    assert(all.take(i as int) =~= all);
}

/// The text of one line of the Cython import table.
fn cimport_line(import: &CythonImport) -> (line: Vec<u8>)
    ensures
        line@ == lit("from ") + utf8(import@.module) + lit(" cimport ") + comma_separated(
            import@.names,
        ),
{
    let mut line: Vec<u8> = Vec::new();
    push_str(&mut line, "from ");
    push_str(&mut line, import.module.as_str());
    push_str(&mut line, " cimport ");
    let ghost head = line@;
    let ghost names = import@.names;
    let mut i: usize = 0;
    assert(names.take(0) =~= Seq::<Seq<char>>::empty());
    assert(line@ =~= head + comma_separated(names.take(0)));
    while i < import.names.len()
        invariant
            i <= import.names@.len(),
            names == import.names.deep_view(),
            line@ == head + comma_separated(names.take(i as int)),
        decreases import.names@.len() - i,
    {
        assert(names.take(i + 1).drop_last() =~= names.take(i as int));
        assert(names.take(i + 1).last() == import.names@[i as int]@);
        if i > 0 {
            push_str(&mut line, ", ");
        }
        push_str(&mut line, import.names[i].as_str());
        i = i + 1;
        assert(line@ =~= head + comma_separated(names.take(i as int)));
    }
    assert(names.take(i as int) =~= names);
    assert(head =~= lit("from ") + utf8(import@.module) + lit(" cimport "));
    line
}

/// Writes one line for each entry of the Cython import table.
fn write_cimports(config: &Config, out: &mut SourceWriter)
    requires
        old(out)@.wf(),
    ensures
        final(out)@ == old(out)@.lines(config@.cimport_lines()),
        final(out)@.wf(),
        final(out)@.continues(old(out)@),
{
    if config.language != Language::Cython {
        return ;
    }
    let ghost all = config@.cimport_lines();
    let mut i: usize = 0;
    assert(all.take(0) =~= Seq::<Seq<u8>>::empty());
    while i < config.cython.cimports.len()
        invariant
            i <= config.cython.cimports@.len(),
            config@.language == Language::Cython,
            all == config@.cimport_lines(),
            out@.wf(),
            out@.continues(old(out)@),
            out@ == old(out)@.lines(all.take(i as int)),
        decreases config.cython.cimports@.len() - i,
    {
        assert(all.take(i + 1).drop_last() =~= all.take(i as int));
        let line = cimport_line(&config.cython.cimports[i]);
        out.write_bytes(line.as_slice());
        out.new_line();
        i = i + 1;
    }
    assert(all.take(i as int) =~= all);
}

/// Writes the block of includes and imports.
pub fn write_include_block(config: &Config, out: &mut SourceWriter)
    requires
        old(out)@.wf(),
        old(out)@.laid_out_for(config@),
        config@.headers_open_block() ==> old(out)@.can_push_tab(),
    ensures
        final(out)@ == config@.include_block(old(out)@),
        final(out)@.wf(),
        final(out)@.continues(old(out)@),
{
    if !config.no_includes {
        write_standard_block(config, out);
    }
    write_wrapped_lines(out, "#include <", &config.sys_includes, ">");
    write_wrapped_lines(out, "#include \"", &config.includes, "\"");
    write_cimports(config, out);
    if let Some(text) = &config.after_includes {
        out.write(text.as_str());
        out.new_line();
    }
}

/// Writes everything that precedes the namespaces.
pub fn write_headers(config: &Config, package_version: &str, out: &mut SourceWriter)
    requires
        old(out)@.wf(),
        old(out)@.laid_out_for(config@),
        config@.headers_open_block() ==> old(out)@.can_push_tab(),
    ensures
        final(out)@ == config@.headers(package_version@, old(out)@),
        final(out)@.wf(),
        final(out)@.continues(old(out)@),
{
    write_banner(config, package_version, out);
    if config.no_includes && config.sys_includes.len() == 0 && config.includes.len() == 0 && (
    config.cython.cimports.len() == 0 || config.language != Language::Cython)
        && config.after_includes.is_none() {
        return ;
    }
    out.new_line_if_not_start();
    write_include_block(config, out);
}

/// The text of each of `names`.
pub open spec fn str_views(names: Seq<&str>) -> Seq<Seq<char>> {
    Seq::new(names.len(), |i: int| names[i]@)
}

/// Borrows each of `names`.
fn as_strs(names: &Vec<String>) -> (strs: Vec<&str>)
    ensures
        str_views(strs@) == names.deep_view(),
{
    let mut strs: Vec<&str> = Vec::new();
    let mut i: usize = 0;
    while i < names.len()
        invariant
            i <= names@.len(),
            strs@.len() == i,
            forall|j: int| 0 <= j < i ==> strs@[j]@ == names@[j]@,
        decreases names@.len() - i,
    {
        strs.push(names[i].as_str());
        i = i + 1;
    }
    assert(str_views(strs@) =~= names.deep_view());
    strs
}

/// `names` from the last to the first.
fn reversed<'a>(names: &Vec<&'a str>) -> (back: Vec<&'a str>)
    ensures
        str_views(back@) == str_views(names@).reverse(),
{
    let mut back: Vec<&'a str> = Vec::new();
    let mut i: usize = names.len();
    while i > 0
        invariant
            i <= names@.len(),
            back@.len() == names@.len() - i,
            forall|j: int| 0 <= j < back@.len() ==> back@[j]@ == names@[names@.len() - 1 - j]@,
        decreases i,
    {
        i = i - 1;
        back.push(names[i]);
    }
    assert(str_views(back@) =~= str_views(names@).reverse());
    back
}

/// The namespaces that enclose the declarations, outermost first.
pub fn all_namespaces(config: &Config) -> (names: Vec<&str>)
    ensures
        str_views(names@) == config@.all_namespaces(),
{
    let mut names: Vec<&str> = Vec::new();
    if config.language != Language::Cxx && !config.cpp_compatible_c() {
        assert(str_views(names@) =~= config@.all_namespaces());
        return names;
    }
    if let Some(namespace) = &config.namespace {
        names.push(namespace.as_str());
    }
    let ghost primary = str_views(names@);
    if let Some(namespaces) = &config.namespaces {
        let mut i: usize = 0;
        while i < namespaces.len()
            invariant
                i <= namespaces@.len(),
                names@.len() == primary.len() + i,
                forall|j: int| 0 <= j < primary.len() ==> names@[j]@ == primary[j],
                forall|j: int| 0 <= j < i ==> names@[primary.len() + j]@ == namespaces@[j]@,
            decreases namespaces@.len() - i,
        {
            names.push(namespaces[i].as_str());
            i = i + 1;
        }
        assert(str_views(names@) =~= primary + namespaces.deep_view());
    }
    assert(str_views(names@) =~= config@.all_namespaces());
    names
}

/// Starts a new line for each of `names` and writes there `before`, the
/// name and `after`.
fn continue_with_wrapped(out: &mut SourceWriter, before: &str, names: &Vec<&str>, after: &str)
    requires
        old(out)@.wf(),
    ensures
        final(out)@ == old(out)@.continue_with(
            Seq::new(
                names@.len(),
                |i: int| utf8(before@) + utf8(str_views(names@)[i]) + utf8(after@),
            ),
        ),
        final(out)@.wf(),
        final(out)@.continues(old(out)@),
{
    let ghost all = Seq::new(
        names@.len(),
        |i: int| utf8(before@) + utf8(str_views(names@)[i]) + utf8(after@),
    );
    let mut i: usize = 0;
    assert(all.take(0) =~= Seq::<Seq<u8>>::empty());
    while i < names.len()
        invariant
            i <= names@.len(),
            all == Seq::new(
                names@.len(),
                |i: int| utf8(before@) + utf8(str_views(names@)[i]) + utf8(after@),
            ),
            out@.wf(),
            out@.continues(old(out)@),
            out@ == old(out)@.continue_with(all.take(i as int)),
        decreases names@.len() - i,
    {
        assert(all.take(i + 1).drop_last() =~= all.take(i as int));
        out.new_line();
        out.write3(before, names[i], after);
        i = i + 1;
    }
    assert(all.take(i as int) =~= all);
}

/// Writes the opening or the closing lines of the namespaces `names`.
fn write_namespace_lines(
    config: &Config,
    op: NamespaceOperation,
    names: &Vec<&str>,
    out: &mut SourceWriter,
)
    requires
        old(out)@.wf(),
        str_views(names@) == config@.all_namespaces(),
    ensures
        final(out)@ == config@.namespace_lines(
            match op {
                NamespaceOperation::Open => config@.opening_lines(),
                NamespaceOperation::Close => config@.closing_lines(),
            },
            old(out)@,
        ),
        final(out)@.wf(),
        final(out)@.continues(old(out)@),
{
    if config.cpp_compatible_c() {
        out.new_line_if_not_start();
        out.write("#ifdef __cplusplus");
    }
    let ghost w = out@;
    match op {
        NamespaceOperation::Open => {
            continue_with_wrapped(out, "namespace ", names, " {");
            assert(out@ == w.continue_with(config@.opening_lines())) by {
                assert(config@.opening_lines() =~= Seq::new(
                    names@.len(),
                    |i: int| utf8("namespace "@) + utf8(str_views(names@)[i]) + utf8(" {"@),
                ));
            }
        },
        NamespaceOperation::Close => {
            let back = reversed(names);
            continue_with_wrapped(out, "} // namespace ", &back, "");
            assert(out@ == w.continue_with(config@.closing_lines())) by {
                reveal_strlit("");
                assert(utf8(""@) =~= Seq::<u8>::empty());
                let written = Seq::new(
                    back@.len(),
                    |i: int| utf8("} // namespace "@) + utf8(str_views(back@)[i]) + utf8(""@),
                );
                let all = config@.all_namespaces();
                assert(str_views(back@) == all.reverse());
                assert(all.reverse().len() == all.len());
                assert(back@.len() == str_views(back@).len());
                assert forall|i: int| 0 <= i < written.len() implies written[i]
                    == config@.closing_lines()[i] by {
                    assert(str_views(back@)[i] == all.reverse()[i]);
                    assert(written[i] =~= namespace_closing(all.reverse()[i]));
                }
                assert(config@.closing_lines() =~= written);
            }
        },
    }
    out.new_line();
    if config.cpp_compatible_c() {
        out.write("#endif // __cplusplus");
        out.new_line();
    }
}

/// Opens or closes what encloses the declarations.
pub fn open_close_namespaces(config: &Config, op: NamespaceOperation, out: &mut SourceWriter)
    requires
        old(out)@.wf(),
        old(out)@.laid_out_for(config@),
        config@.language == Language::Cython && op == NamespaceOperation::Open ==> old(
            out,
        )@.can_push_tab(),
        config@.language == Language::Cython && op == NamespaceOperation::Close ==> old(
            out,
        )@.spaces.len() >= 2,
    ensures
        final(out)@ == match op {
            NamespaceOperation::Open => config@.open_namespaces(old(out)@),
            NamespaceOperation::Close => config@.close_namespaces(old(out)@),
        },
        final(out)@.wf(),
        final(out)@.laid_out_for(config@),
        config@.language != Language::Cython ==> final(out)@.continues(old(out)@),
{
    if config.language == Language::Cython {
        match op {
            NamespaceOperation::Open => {
                out.new_line();
                match &config.cython.header {
                    Some(header) => out.write2("cdef extern from ", header.as_str()),
                    None => out.write2("cdef extern from ", "*"),
                }
                out.open_brace();
            },
            NamespaceOperation::Close => {
                out.close_brace(false);
            },
        }
        return ;
    }
    let names = all_namespaces(config);
    if names.len() == 0 {
        return ;
    }
    write_namespace_lines(config, op, &names, out);
}

/// Writes the `using namespace` lines, in C++ and where configured.
fn write_using_namespaces(config: &Config, out: &mut SourceWriter)
    requires
        old(out)@.wf(),
    ensures
        final(out)@ == match config@.using_lines() {
            Some(lines) => old(out)@.continue_with(lines).new_line(),
            None => old(out)@,
        },
        final(out)@.wf(),
        final(out)@.continues(old(out)@),
{
    if config.language == Language::Cxx {
        if let Some(using_namespaces) = &config.using_namespaces {
            let names = as_strs(using_namespaces);
            continue_with_wrapped(out, "using namespace ", &names, ";");
            assert(config@.using_lines()->0 =~= Seq::new(
                names@.len(),
                |i: int| utf8("using namespace "@) + utf8(str_views(names@)[i]) + utf8(";"@),
            ));
            out.new_line();
        }
    }
}

/// Opens the region in which globals and functions have C linkage.
pub fn write_open_linkage(config: &Config, out: &mut SourceWriter)
    requires
        old(out)@.wf(),
        old(out)@.laid_out_for(config@),
    ensures
        final(out)@ == config@.open_linkage(old(out)@),
        final(out)@.wf(),
        final(out)@.continues(old(out)@),
{
    if config.cpp_compatible_c() {
        out.new_line_if_not_start();
        out.write("#ifdef __cplusplus");
    }
    if config.language == Language::Cxx || config.cpp_compatible_c() {
        out.new_line();
        out.write("extern \"C\" {");
        out.new_line();
    }
    if config.cpp_compatible_c() {
        out.write("#endif // __cplusplus");
        out.new_line();
    }
    write_using_namespaces(config, out);
}

/// Closes the region in which globals and functions have C linkage.
pub fn write_close_linkage(config: &Config, out: &mut SourceWriter)
    requires
        old(out)@.wf(),
        old(out)@.laid_out_for(config@),
    ensures
        final(out)@ == config@.close_linkage(old(out)@),
        final(out)@.wf(),
        final(out)@.continues(old(out)@),
{
    if config.cpp_compatible_c() {
        out.new_line();
        out.write("#ifdef __cplusplus");
    }
    if config.language == Language::Cxx || config.cpp_compatible_c() {
        out.new_line();
        out.write("} // extern \"C\"");
        out.new_line();
    }
    if config.cpp_compatible_c() {
        out.write("#endif // __cplusplus");
        out.new_line();
    }
}

/// Writes the end of the include guard, where one is configured.
fn write_guard_closing(config: &Config, out: &mut SourceWriter)
    requires
        old(out)@.wf(),
    ensures
        final(out)@ == config@.guard_closing(old(out)@),
        final(out)@.wf(),
        final(out)@.continues(old(out)@),
{
    if let Some(guard) = &config.include_guard {
        out.new_line_if_not_start();
        if config.language == Language::C {
            out.write3("#endif /* ", guard.as_str(), " */");
        } else {
            out.write2("#endif // ", guard.as_str());
        }
        out.new_line();
    }
}

/// Writes what follows the namespaces.
pub fn write_trailer(config: &Config, out: &mut SourceWriter)
    requires
        old(out)@.wf(),
        old(out)@.laid_out_for(config@),
    ensures
        final(out)@ == config@.trailer(old(out)@),
        final(out)@.wf(),
        final(out)@.continues(old(out)@),
{
    write_guard_closing(config, out);
    if let Some(text) = &config.trailer {
        out.new_line_if_not_start();
        out.write(text.as_str());
        let bytes = text.as_str().as_bytes();
        if !(bytes.len() > 0 && bytes[bytes.len() - 1] == 10u8) {
            out.new_line();
        }
    }
}

} // verus!
