//! The sink that lays text out in lines and indents it.
use vstd::prelude::*;
use crate::config::{Braces, Config, ConfigView, Language, LineEndingStyle};
use crate::text::{blanks, push_blanks, push_bytes, utf8};

verus! {

/// The bytes that end a line in the given style.
pub open spec fn line_ending(style: LineEndingStyle) -> Seq<u8> {
    match style {
        LineEndingStyle::LF => seq![10u8],
        LineEndingStyle::CR => seq![13u8],
        LineEndingStyle::CRLF => seq![13u8, 10u8],
    }
}

/// The bytes of each of `lines`.
pub open spec fn utf8_lines(lines: Seq<Seq<char>>) -> Seq<Seq<u8>> {
    Seq::new(lines.len(), |i: int| utf8(lines[i]))
}

/// The bytes of each of `lines`.
pub open spec fn str_lines(lines: Seq<&str>) -> Seq<Seq<u8>> {
    Seq::new(lines.len(), |i: int| utf8(lines[i]@))
}

/// The state of a [`SourceWriter`]: what it has written and where the next
/// byte goes.
pub struct WriterView {
    /// Everything written so far.
    pub out: Seq<u8>,
    /// The indentation levels in force, innermost last.
    pub spaces: Seq<usize>,
    /// Whether the current line already holds text.
    pub line_started: bool,
    /// Whether no line has been ended yet.
    pub first_line: bool,
    pub language: Language,
    pub braces: Braces,
    pub tab_width: usize,
    pub line_endings: LineEndingStyle,
}

impl WriterView {
    /// A writer always has an indentation level in force.
    pub open spec fn wf(self) -> bool {
        self.spaces.len() > 0
    }

    /// The state of a writer that has written nothing.
    pub open spec fn start(
        language: Language,
        braces: Braces,
        tab_width: usize,
        line_endings: LineEndingStyle,
    ) -> WriterView {
        WriterView {
            out: Seq::empty(),
            spaces: seq![0usize],
            line_started: false,
            first_line: true,
            language,
            braces,
            tab_width,
            line_endings,
        }
    }

    /// The indentation of the current line.
    pub open spec fn indent(self) -> usize {
        self.spaces.last()
    }

    /// Writes `text` on the current line. The first text of a line is
    /// preceded by the indentation; empty text writes nothing at all.
    pub open spec fn write(self, text: Seq<u8>) -> WriterView {
        if text.len() == 0 {
            self
        } else if self.line_started {
            WriterView { out: self.out + text, ..self }
        } else {
            WriterView {
                out: self.out + blanks(self.indent() as nat) + text,
                line_started: true,
                ..self
            }
        }
    }

    /// Ends the current line.
    pub open spec fn new_line(self) -> WriterView {
        WriterView {
            out: self.out + line_ending(self.line_endings),
            line_started: false,
            first_line: false,
            ..self
        }
    }

    /// Ends the current line unless the writer is still on its first line.
    pub open spec fn new_line_if_not_start(self) -> WriterView {
        if self.first_line {
            self
        } else {
            self.new_line()
        }
    }

    /// Writes `text` and ends the line.
    pub open spec fn line(self, text: Seq<u8>) -> WriterView {
        self.write(text).new_line()
    }

    /// The indentation one tab stop further in.
    pub open spec fn next_tab(self) -> int {
        self.indent() - self.indent() % self.tab_width + self.tab_width
    }

    /// Whether one more tab stop fits the machine's integers.
    pub open spec fn can_push_tab(self) -> bool {
        self.tab_width > 0 && self.next_tab() <= usize::MAX
    }

    /// Indents what follows by one tab stop.
    pub open spec fn push_tab(self) -> WriterView {
        WriterView { spaces: self.spaces.push(self.next_tab() as usize), ..self }
    }

    /// Returns to the indentation before the last `push_tab`.
    pub open spec fn pop_tab(self) -> WriterView {
        WriterView { spaces: self.spaces.drop_last(), ..self }
    }

    /// Opens a block in the writer's dialect.
    pub open spec fn open_brace(self) -> WriterView {
        match self.language {
            Language::Cython => self.write(utf8(":"@)).new_line().push_tab(),
            _ => match self.braces {
                Braces::SameLine => self.write(utf8(" {"@)).push_tab().new_line(),
                Braces::NextLine => self.new_line().write(utf8("{"@)).push_tab().new_line(),
            },
        }
    }

    /// Closes the innermost block in the writer's dialect.
    pub open spec fn close_brace(self, semicolon: bool) -> WriterView {
        match self.language {
            Language::Cython => self.pop_tab(),
            _ => self.pop_tab().new_line().write(
                if semicolon {
                    utf8("};"@)
                } else {
                    utf8("}"@)
                },
            ),
        }
    }

    /// Writes `lines`, ending all but the last.
    pub open spec fn emit(self, lines: Seq<Seq<u8>>) -> WriterView
        decreases lines.len(),
    {
        if lines.len() == 0 {
            self
        } else if lines.len() == 1 {
            self.write(lines[0])
        } else {
            self.emit(lines.drop_last()).new_line().write(lines.last())
        }
    }

    /// Writes each of `lines` and ends it.
    pub open spec fn lines(self, lines: Seq<Seq<u8>>) -> WriterView
        decreases lines.len(),
    {
        if lines.len() == 0 {
            self
        } else {
            self.lines(lines.drop_last()).line(lines.last())
        }
    }

    /// Starts a new line for each of `lines` and writes it there, leaving
    /// the last one open.
    pub open spec fn continue_with(self, lines: Seq<Seq<u8>>) -> WriterView
        decreases lines.len(),
    {
        if lines.len() == 0 {
            self
        } else {
            self.continue_with(lines.drop_last()).new_line().write(lines.last())
        }
    }

    /// Writes `text` as a line of its own, set off from what came before.
    pub open spec fn section(self, text: Seq<u8>) -> WriterView {
        self.new_line_if_not_start().line(text)
    }

    /// Writes `text`, if there is any, as a section.
    pub open spec fn optional_section(self, text: Option<Seq<char>>) -> WriterView {
        match text {
            Some(text) => self.section(utf8(text)),
            None => self,
        }
    }

    /// Writes one declaration, set off from what came before.
    pub open spec fn declaration(self, lines: Seq<Seq<u8>>) -> WriterView {
        self.new_line_if_not_start().emit(lines).new_line()
    }

    /// Writes `declarations` one after the other.
    pub open spec fn declarations(self, declarations: Seq<Seq<Seq<u8>>>) -> WriterView
        decreases declarations.len(),
    {
        if declarations.len() == 0 {
            self
        } else {
            self.declarations(declarations.drop_last()).declaration(declarations.last())
        }
    }

    /// Whether the writer lays text out as `config` asks.
    pub open spec fn laid_out_for(self, config: ConfigView) -> bool {
        &&& self.language == config.language
        &&& self.braces == config.braces
        &&& self.tab_width == config.tab_width
        &&& self.line_endings == config.line_endings
    }

    /// Whether `self` differs from `before` in what was written and in
    /// where on the line the writer stands, and in nothing else.
    pub open spec fn continues(self, before: WriterView) -> bool {
        &&& self.spaces == before.spaces
        &&& self.language == before.language
        &&& self.braces == before.braces
        &&& self.tab_width == before.tab_width
        &&& self.line_endings == before.line_endings
    }

    /// Two writes in a row are one write of the joined text.
    pub proof fn lemma_write_concat(self, a: Seq<u8>, b: Seq<u8>)
        ensures
            self.write(a).write(b) == self.write(a + b),
    {
        if a.len() == 0 {
            assert(a + b =~= b);
        } else if b.len() == 0 {
            assert(a + b =~= a);
        } else {
            assert(self.write(a).write(b).out =~= self.write(a + b).out);
        }
    }
}

/// A byte sink that keeps track of lines and indentation.
pub struct SourceWriter {
    out: Vec<u8>,
    spaces: Vec<usize>,
    line_started: bool,
    first_line: bool,
    language: Language,
    braces: Braces,
    tab_width: usize,
    line_endings: LineEndingStyle,
}

impl View for SourceWriter {
    type V = WriterView;

    closed spec fn view(&self) -> WriterView {
        WriterView {
            out: self.out@,
            spaces: self.spaces@,
            line_started: self.line_started,
            first_line: self.first_line,
            language: self.language,
            braces: self.braces,
            tab_width: self.tab_width,
            line_endings: self.line_endings,
        }
    }
}

impl SourceWriter {
    /// A writer that has written nothing, laid out as `config` asks.
    pub fn new(config: &Config) -> (writer: SourceWriter)
        ensures
            writer@ == WriterView::start(
                config@.language,
                config@.braces,
                config@.tab_width,
                config@.line_endings,
            ),
    {
        let mut spaces: Vec<usize> = Vec::new();
        spaces.push(0);
        let writer = SourceWriter {
            out: Vec::new(),
            spaces,
            line_started: false,
            first_line: true,
            language: config.language,
            braces: config.braces,
            tab_width: config.tab_width,
            line_endings: config.line_endings,
        };
        assert(writer@.spaces =~= seq![0usize]);
        writer
    }

    /// The bytes written so far.
    pub fn as_bytes(&self) -> (bytes: &[u8])
        ensures
            bytes@ == self@.out,
    {
        self.out.as_slice()
    }

    /// Hands over the bytes written.
    pub fn into_bytes(self) -> (bytes: Vec<u8>)
        ensures
            bytes@ == self@.out,
    {
        self.out
    }

    /// Writes `text` on the current line, after the indentation if the line
    /// is still empty. Empty text writes nothing.
    pub fn write(&mut self, text: &str)
        requires
            old(self)@.wf(),
        ensures
            final(self)@ == old(self)@.write(utf8(text@)),
            final(self)@.wf(),
    {
        self.write_bytes(text.as_bytes());
    }

    /// Writes `text` on the current line, as `write` does.
    pub fn write_bytes(&mut self, text: &[u8])
        requires
            old(self)@.wf(),
        ensures
            final(self)@ == old(self)@.write(text@),
            final(self)@.wf(),
    {
        if text.len() == 0 {
            return ;
        }
        if !self.line_started {
            let indent: usize = self.spaces[self.spaces.len() - 1];
            push_blanks(&mut self.out, indent);
            self.line_started = true;
        }
        push_bytes(&mut self.out, text);
    }

    /// Writes `first` and `second` as one piece of text.
    pub fn write2(&mut self, first: &str, second: &str)
        requires
            old(self)@.wf(),
        ensures
            final(self)@ == old(self)@.write(utf8(first@) + utf8(second@)),
    {
        proof {
            old(self)@.lemma_write_concat(utf8(first@), utf8(second@));
        }
        self.write(first);
        self.write(second);
    }

    /// Writes `first`, `second` and `third` as one piece of text.
    pub fn write3(&mut self, first: &str, second: &str, third: &str)
        requires
            old(self)@.wf(),
        ensures
            final(self)@ == old(self)@.write(utf8(first@) + utf8(second@) + utf8(third@)),
    {
        proof {
            old(self)@.lemma_write_concat(utf8(first@) + utf8(second@), utf8(third@));
        }
        self.write2(first, second);
        self.write(third);
    }

    /// Writes `text` as a line of its own, set off from what came before.
    pub fn section(&mut self, text: &str)
        requires
            old(self)@.wf(),
        ensures
            final(self)@ == old(self)@.section(utf8(text@)),
            final(self)@.wf(),
            final(self)@.continues(old(self)@),
    {
        self.new_line_if_not_start();
        self.write(text);
        self.new_line();
    }

    /// Writes `text`, if there is any, as a section.
    pub fn optional_section(&mut self, text: &Option<String>)
        requires
            old(self)@.wf(),
        ensures
            final(self)@ == old(self)@.optional_section(text.deep_view()),
            final(self)@.wf(),
            final(self)@.continues(old(self)@),
    {
        if let Some(text) = text {
            self.section(text.as_str());
        }
    }

    /// Writes `lines`, ending all but the last.
    pub fn emit(&mut self, lines: &Vec<String>)
        requires
            old(self)@.wf(),
        ensures
            final(self)@ == old(self)@.emit(utf8_lines(lines.deep_view())),
            final(self)@.wf(),
            final(self)@.continues(old(self)@),
    {
        let ghost all = utf8_lines(lines.deep_view());
        let mut i: usize = 0;
        assert(all.take(0) =~= Seq::<Seq<u8>>::empty());
        while i < lines.len()
            invariant
                i <= lines@.len(),
                all == utf8_lines(lines.deep_view()),
                self@.wf(),
                self@.continues(old(self)@),
                self@ == old(self)@.emit(all.take(i as int)),
            decreases lines@.len() - i,
        {
            assert(all.take(i + 1).drop_last() =~= all.take(i as int));
            assert(all.take(i + 1).last() == utf8(lines@[i as int]@));
            if i > 0 {
                self.new_line();
            }
            self.write(lines[i].as_str());
            i = i + 1;
        }
        assert(all.take(i as int) =~= all);
    }

    /// Writes one declaration, set off from what came before.
    pub fn declaration(&mut self, lines: &Vec<String>)
        requires
            old(self)@.wf(),
        ensures
            final(self)@ == old(self)@.declaration(utf8_lines(lines.deep_view())),
            final(self)@.wf(),
            final(self)@.continues(old(self)@),
    {
        self.new_line_if_not_start();
        self.emit(lines);
        self.new_line();
    }

    /// Writes each of `lines` and ends it.
    pub fn lines(&mut self, lines: &Vec<&str>)
        requires
            old(self)@.wf(),
        ensures
            final(self)@ == old(self)@.lines(str_lines(lines@)),
            final(self)@.wf(),
            final(self)@.continues(old(self)@),
    {
        let ghost all = str_lines(lines@);
        let mut i: usize = 0;
        assert(all.take(0) =~= Seq::<Seq<u8>>::empty());
        while i < lines.len()
            invariant
                i <= lines@.len(),
                all == str_lines(lines@),
                self@.wf(),
                self@.continues(old(self)@),
                self@ == old(self)@.lines(all.take(i as int)),
            decreases lines@.len() - i,
        {
            assert(all.take(i + 1).drop_last() =~= all.take(i as int));
            assert(all.take(i + 1).last() == utf8(lines@[i as int]@));
            self.write(lines[i]);
            self.new_line();
            i = i + 1;
        }
        assert(all.take(i as int) =~= all);
    }

    /// Ends the current line.
    pub fn new_line(&mut self)
        ensures
            final(self)@ == old(self)@.new_line(),
            old(self)@.wf() ==> final(self)@.wf(),
    {
        match self.line_endings {
            LineEndingStyle::LF => {
                self.out.push(10u8);
            },
            LineEndingStyle::CR => {
                self.out.push(13u8);
            },
            LineEndingStyle::CRLF => {
                self.out.push(13u8);
                self.out.push(10u8);
            },
        }
        self.line_started = false;
        self.first_line = false;
        assert(self@.out =~= old(self)@.out + line_ending(old(self)@.line_endings));
    }

    /// Ends the current line unless the writer is still on its first line.
    pub fn new_line_if_not_start(&mut self)
        ensures
            final(self)@ == old(self)@.new_line_if_not_start(),
            old(self)@.wf() ==> final(self)@.wf(),
    {
        if !self.first_line {
            self.new_line();
        }
    }

    /// Indents what follows by one tab stop.
    pub fn push_tab(&mut self)
        requires
            old(self)@.wf(),
            old(self)@.can_push_tab(),
        ensures
            final(self)@ == old(self)@.push_tab(),
            final(self)@.wf(),
    {
        let indent: usize = self.spaces[self.spaces.len() - 1];
        let rest: usize = indent % self.tab_width;
        assert(rest <= indent) by (nonlinear_arith)
            requires
                rest == indent % self.tab_width,
                self.tab_width > 0,
        ;
        let next: usize = indent - rest + self.tab_width;
        self.spaces.push(next);
    }

    /// Returns to the indentation before the last `push_tab`.
    pub fn pop_tab(&mut self)
        requires
            old(self)@.spaces.len() >= 2,
        ensures
            final(self)@ == old(self)@.pop_tab(),
            final(self)@.wf(),
    {
        self.spaces.pop();
    }

    /// Opens a block in the writer's dialect.
    pub fn open_brace(&mut self)
        requires
            old(self)@.wf(),
            old(self)@.can_push_tab(),
        ensures
            final(self)@ == old(self)@.open_brace(),
            final(self)@.wf(),
    {
        match self.language {
            Language::Cython => {
                self.write(":");
                self.new_line();
                self.push_tab();
            },
            _ => match self.braces {
                Braces::SameLine => {
                    self.write(" {");
                    self.push_tab();
                    self.new_line();
                },
                Braces::NextLine => {
                    self.new_line();
                    self.write("{");
                    self.push_tab();
                    self.new_line();
                },
            },
        }
    }

    /// Closes the innermost block in the writer's dialect.
    pub fn close_brace(&mut self, semicolon: bool)
        requires
            old(self)@.spaces.len() >= 2,
        ensures
            final(self)@ == old(self)@.close_brace(semicolon),
            final(self)@.wf(),
    {
        self.pop_tab();
        match self.language {
            Language::Cython => {},
            _ => {
                self.new_line();
                if semicolon {
                    self.write("};");
                } else {
                    self.write("}");
                }
            },
        }
    }
}

} // verus!
