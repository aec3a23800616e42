//! The in-memory line store with its disk round-trip.
//!
//! `View` owns the ordered sequence of lines loaded from a file and the
//! path it persists back to.  Reading and writing the file itself happens
//! outside the library; the methods here compute the exact image a save
//! writes and take apart the exact text a load read.

use crate::lines::{file_image, line_len, load_lines, loaded_lines, render_image, spliced};
pub use crate::lines::EditError;
use vstd::prelude::{int, old, verus, Seq, SpecAdd, SpecOrd};
use vstd::view::DeepView;

verus! {

/// The in-memory line store, together with the path it was loaded from
/// and will be persisted to.
pub struct View {
    pub text: Vec<String>,
    pub file_path: String,
}

impl View {
    /// The buffer contents as a sequence of character sequences, the
    /// model every contract speaks of.
    pub open spec fn lines(&self) -> Seq<Seq<char>> {
        self.text.deep_view()
    }

    /// A buffer over the given lines.
    pub fn from_lines(text: Vec<String>, file_path: String) -> (r: Self)
        ensures
            r.lines() =~= text.deep_view(),
            r.file_path == file_path,
    {
        View { text, file_path }
    }

    /// A buffer loaded from the file text that was read at `file_path`:
    /// the text split line by line, an empty file opening as one empty
    /// line.
    pub fn from_content(content: &str, file_path: String) -> (r: Self)
        ensures
            r.lines() =~= loaded_lines(content.deep_view()),
            r.file_path == file_path,
    {
        View { text: load_lines(content), file_path }
    }

    /// A read-only view of all lines, in document order; used for
    /// rendering.
    pub fn get_text(&self) -> (r: &Vec<String>)
        ensures
            r.deep_view() =~= self.lines(),
    {
        &self.text
    }

    /// Insert a whole line at `index`, shifting later lines down.
    pub fn add_line(&mut self, line: String, index: usize)
        requires
            index <= old(self).lines().len(),
        ensures
            final(self).lines() =~= old(self).lines().insert(index as int, line.deep_view()),
            final(self).file_path == old(self).file_path,
    {
        self.text.insert(index, line);
        proof {
            assert(self.lines() =~= old(self).lines().insert(index as int, line.deep_view()));
        }
    }

    /// Insert `new_char` at column `char_pos` of line `str_num`, shifting
    /// the rest of that line right.  Fails with `InvalidRow` exactly when
    /// the row is past the last line, and with `InvalidColumn` exactly
    /// when the row is valid but the column is past the line's end.
    pub fn insert_char(&mut self, str_num: usize, char_pos: usize, new_char: char) -> (r: Result<
        (),
        EditError,
    >)
        ensures
            final(self).file_path == old(self).file_path,
            str_num >= old(self).lines().len() ==> {
                &&& r == Result::<(), EditError>::Err(EditError::InvalidRow)
                &&& *final(self) == *old(self)
            },
            str_num < old(self).lines().len() && char_pos > old(self).lines()[
                str_num as int
            ].len() ==> {
                &&& r == Result::<(), EditError>::Err(EditError::InvalidColumn)
                &&& *final(self) == *old(self)
            },
            str_num < old(self).lines().len() && char_pos <= old(self).lines()[
                str_num as int
            ].len() ==> {
                &&& r == Result::<(), EditError>::Ok(())
                &&& final(self).lines() =~= old(self).lines().update(
                    str_num as int,
                    old(self).lines()[str_num as int].insert(char_pos as int, new_char),
                )
                &&& final(self).lines()[str_num as int].len() == old(self).lines()[
                    str_num as int
                ].len() + 1
                &&& final(self).lines()[str_num as int][char_pos as int] == new_char
            },
    {
        if str_num >= self.text.len() {
            return Err(EditError::InvalidRow);
        }
        let len = line_len(&self.text[str_num]);
        if char_pos > len {
            return Err(EditError::InvalidColumn);
        }
        let newline = spliced(&self.text[str_num], char_pos, new_char);
        self.text[str_num] = newline;
        proof {
            assert(self.lines() =~= old(self).lines().update(
                str_num as int,
                old(self).lines()[str_num as int].insert(char_pos as int, new_char),
            ));
        }
        Ok(())
    }

    /// The exact text a save writes: every line followed by CRLF.
    pub fn file_content(&self) -> (r: String)
        ensures
            r.deep_view() =~= file_image(self.lines()),
    {
        render_image(&self.text)
    }
}

impl Default for View {
    /// An empty buffer with an empty path.
    fn default() -> (r: Self)
        ensures
            r.lines() =~= Seq::<Seq<char>>::empty(),
            r.file_path.deep_view() =~= Seq::<char>::empty(),
    {
        View { text: Vec::new(), file_path: String::new() }
    }
}

} // verus!
