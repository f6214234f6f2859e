use vstd::prelude::*;

use crate::gap_buffer::GapBuffer;

verus! {

/// One line to draw: its number on screen and its characters.
pub struct Line {
    pub number: usize,
    pub text: Vec<char>,
}

impl View for Line {
    type V = (nat, Seq<char>);

    open spec fn view(&self) -> (nat, Seq<char>) {
        (self.number as nat, self.text@)
    }
}

/// What has been laid out after reading `s`: the finished lines, the number
/// of the line being built, and its characters so far. A carriage return is
/// skipped; a newline ends the line, which is kept only if it holds
/// characters, and the line number advances either way.
pub open spec fn layout_state(s: Seq<char>) -> (Seq<(nat, Seq<char>)>, nat, Seq<char>)
    decreases s.len(),
{
    if s.len() == 0 {
        (Seq::empty(), 0, Seq::empty())
    } else {
        let (done, line, cur) = layout_state(s.drop_last());
        let ch = s.last();
        if ch == '\r' {
            (done, line, cur)
        } else if ch == '\n' {
            if cur.len() > 0 {
                (done.push((line, cur)), line + 1, Seq::empty())
            } else {
                (done, line + 1, cur)
            }
        } else {
            (done, line, cur.push(ch))
        }
    }
}

/// The lines to draw for text `s`: the finished lines, then the last line,
/// which is drawn even when it is empty.
pub open spec fn display_lines_of(s: Seq<char>) -> Seq<(nat, Seq<char>)> {
    let (done, line, cur) = layout_state(s);
    done.push((line, cur))
}

/// The state of the editor window: the text being shown.
#[derive(Debug)]
pub struct MainApp {
    buffer: GapBuffer,
}

impl MainApp {
    /// The buffer is well formed.
    pub closed spec fn wf(&self) -> bool {
        self.buffer.wf()
    }

    /// The text being shown.
    pub closed spec fn content(&self) -> Seq<char> {
        self.buffer@
    }

    /// Shows `text` in place of what was shown.
    pub fn open_text(&mut self, text: String)
        ensures
            final(self).wf(),
            final(self).content() == text@,
    {
        self.buffer = GapBuffer::from_string(text);
    }

    /// The lines to draw for the text being shown.
    pub fn display_lines(&self) -> (r: Vec<Line>)
        requires
            self.wf(),
        ensures
            r@.map_values(|l: Line| l@) == display_lines_of(self.content()),
    {
        let mut done: Vec<Line> = Vec::new();
        let mut current: Vec<char> = Vec::new();
        let mut line: usize = 0;
        let total = self.buffer.content_len();
        let mut it = self.buffer.iter();
        loop
            invariant
                it.wf(),
                total == it.content().len(),
                it.content() == self.buffer@,
                it.position() <= it.content().len(),
                line <= it.position(),
                (done@.map_values(|l: Line| l@), line as nat, current@) == layout_state(
                    it.content().take(it.position() as int),
                ),
            ensures
                it.content() == self.buffer@,
                it.position() == it.content().len(),
                (done@.map_values(|l: Line| l@), line as nat, current@) == layout_state(
                    it.content().take(it.position() as int),
                ),
            decreases it.content().len() - it.position(),
        {
            let ghost s = it.content();
            let ghost p = it.position() as int;
            match it.next() {
                None => {
                    break ;
                },
                Some(ch) => {
                    assert(s.take(p + 1).drop_last() =~= s.take(p));
                    if ch == '\r' {
                    } else if ch == '\n' {
                        if current.len() > 0 {
                            let text = current;
                            done.push(Line { number: line, text });
                            current = Vec::new();
                            assert(done@.map_values(|l: Line| l@) =~= layout_state(s.take(p)).0.push(
                                (line as nat, text@),
                            ));
                        }
                        line = line + 1;
                    } else {
                        current.push(ch);
                    }
                },
            }
        }
        assert(it.content().take(it.position() as int) =~= self.buffer@);
        let ghost finished = done@.map_values(|l: Line| l@);
        done.push(Line { number: line, text: current });
        assert(done@.map_values(|l: Line| l@) =~= finished.push((line as nat, current@)));
        done
    }
}

impl Default for MainApp {
    /// A window that shows no text.
    fn default() -> (r: Self)
        ensures
            r.wf(),
            r.content() == Seq::<char>::empty(),
    {
        MainApp { buffer: GapBuffer::default() }
    }
}

} // verus!
