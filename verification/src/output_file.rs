use vstd::prelude::*;

use crate::text::line;

verus! {

/// What an output file is: where it goes and what it holds.
pub struct OutputFileView {
    /// Folder that the file is written to
    pub path: Seq<char>,
    /// Name of the file below that folder
    pub name: Seq<char>,
    /// The text written so far
    pub text: Seq<char>,
}

/// A file that is built up line by line and written out at the end.
pub struct OutputFile {
    path: String,
    name: String,
    string_buffer: String,
}

/// A file name without the slash that may stand in front of it.
pub open spec fn relative_name(file_name: Seq<char>) -> Seq<char> {
    if file_name.len() > 0 && file_name[0] == '/' {
        file_name.subrange(1, file_name.len() as int)
    } else {
        file_name
    }
}

impl View for OutputFile {
    type V = OutputFileView;

    closed spec fn view(&self) -> OutputFileView {
        OutputFileView { path: self.path@, name: self.name@, text: self.string_buffer@ }
    }
}

impl OutputFile {
    /// An empty file. One slash in front of the name is dropped.
    pub fn new(output_path: String, file_name: String) -> (file: OutputFile)
        ensures
            file@.path == output_path@,
            file@.name == relative_name(file_name@),
            file@.text == Seq::<char>::empty(),
    {
        // Create string buffer
        let string_buffer: String = String::new();
        let length = file_name.as_str().unicode_len();
        let name = if length > 0 && file_name.as_str().get_char(0) == '/' {
            String::from_str(file_name.as_str().substring_char(1, length))
        } else {
            file_name
        };
        OutputFile { path: output_path, name, string_buffer }
    }

    /// Adds a line to the end of the file.
    pub fn add_line(&mut self, string: String)
        ensures
            final(self)@.path == old(self)@.path,
            final(self)@.name == old(self)@.name,
            final(self)@.text == old(self)@.text + line(string@),
    {
        let mut text = string;
        text.append("\n");
        self.string_buffer.append(text.as_str());
    }

    /// Adds an empty line to the end of the file.
    pub fn add_newline(&mut self)
        ensures
            final(self)@.path == old(self)@.path,
            final(self)@.name == old(self)@.name,
            final(self)@.text == old(self)@.text + "\n"@,
    {
        self.string_buffer.append("\n");
    }

    /// Adds a piece of text that is already broken into lines.
    pub fn add_text(&mut self, text: &str)
        ensures
            final(self)@.path == old(self)@.path,
            final(self)@.name == old(self)@.name,
            final(self)@.text == old(self)@.text + text@,
    {
        self.string_buffer.append(text);
    }

    /// Folder that the file is written to.
    pub fn path(&self) -> (path: &str)
        ensures
            path@ == self@.path,
    {
        self.path.as_str()
    }

    /// Name of the file below its folder.
    pub fn name(&self) -> (name: &str)
        ensures
            name@ == self@.name,
    {
        self.name.as_str()
    }

    /// The text written so far.
    pub fn contents(&self) -> (text: &str)
        ensures
            text@ == self@.text,
    {
        self.string_buffer.as_str()
    }
}

/// Whether a file has grown by a piece of text, and by nothing else.
pub open spec fn appended(before: OutputFileView, after: OutputFileView, text: Seq<char>) -> bool {
    after.path == before.path && after.name == before.name && after.text == before.text + text
}

/// Whether a step that adds text to a file did what was expected of it: on
/// success the file has grown by the text, on failure the file is as it was and
/// the error is the expected one.
pub open spec fn written<E>(
    before: OutputFileView,
    after: OutputFileView,
    result: Result<(), E>,
    expected: Result<Seq<char>, E>,
) -> bool {
    match expected {
        Ok(text) => result is Ok && appended(before, after, text),
        Err(error) => result == Err::<(), E>(error) && after == before,
    }
}

} // verus!
