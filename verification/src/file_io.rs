use vstd::prelude::*;
use vstd::utf8::{valid_utf8, decode_utf8};
use crate::position::Position;
use crate::selection::Selection;
use crate::text::{normalize_crlf, split_lines, to_chars, push_char, lemma_split_len};
use crate::buffer::LineBuffer;
use crate::undo::UndoManager;
use crate::editor_state::{EditorState, EditorMode};

verus! {

/// Why reading or writing a file failed.
#[derive(Debug, Clone, Copy, PartialEq, Eq, Structural)]
pub enum FileError {
    NotFound,
    PermissionDenied,
    InvalidUtf8,
    WriteFailed,
}

impl FileError {
    /// The variant's name, as shown in messages.
    pub fn name(&self) -> (s: &'static str)
        ensures
            s@ == file_error_name(*self),
    {
        match self {
            FileError::NotFound => "NotFound",
            FileError::PermissionDenied => "PermissionDenied",
            FileError::InvalidUtf8 => "InvalidUtf8",
            FileError::WriteFailed => "WriteFailed",
        }
    }
}

/// The name of an error's variant.
pub open spec fn file_error_name(e: FileError) -> Seq<char> {
    match e {
        FileError::NotFound => "NotFound"@,
        FileError::PermissionDenied => "PermissionDenied"@,
        FileError::InvalidUtf8 => "InvalidUtf8"@,
        FileError::WriteFailed => "WriteFailed"@,
    }
}

/// Every `"\r\n"` and every other `'\r'` of `t` turned into `'\n'`.
pub open spec fn unify_newlines(t: Seq<char>) -> Seq<char>
    decreases t.len(),
{
    if t.len() == 0 {
        t
    } else if t[0] == '\r' && t.len() >= 2 && t[1] == '\n' {
        seq!['\n'] + unify_newlines(t.subrange(2, t.len() as int))
    } else if t[0] == '\r' {
        seq!['\n'] + unify_newlines(t.drop_first())
    } else {
        seq![t[0]] + unify_newlines(t.drop_first())
    }
}

/// A text with no `'\r'` left.
pub open spec fn no_carriage_return(t: Seq<char>) -> bool {
    forall|i: int| 0 <= i < t.len() ==> t[i] != '\r'
}

/// Line endings unified to `'\n'`: `"\r\n"` and a lone `'\r'` each become
/// one `'\n'`.
pub fn normalize_newlines(text: &str) -> (r: String)
    ensures
        r@ == unify_newlines(text@),
{
    let cs = to_chars(text);
    let mut out = String::new();
    let mut i: usize = 0;
    proof {
        assert(cs@.subrange(0, cs.len() as int) =~= cs@);
        assert(out@ + cs@ =~= cs@);
    }
    while i < cs.len()
        invariant
            cs@ == text@,
            i <= cs.len(),
            out@ + unify_newlines(cs@.subrange(i as int, cs.len() as int)) == unify_newlines(cs@),
        decreases cs.len() - i,
    {
        let ghost rest = cs@.subrange(i as int, cs.len() as int);
        if cs[i] == '\r' {
            push_char(&mut out, '\n');
            if i + 1 < cs.len() && cs[i + 1] == '\n' {
                proof {
                    assert(rest.subrange(2, rest.len() as int) =~= cs@.subrange(i + 2, cs.len() as int));
                }
                i = i + 2;
            } else {
                proof {
                    assert(rest.drop_first() =~= cs@.subrange(i + 1, cs.len() as int));
                }
                i = i + 1;
            }
        } else {
            push_char(&mut out, cs[i]);
            proof {
                assert(rest.drop_first() =~= cs@.subrange(i + 1, cs.len() as int));
            }
            i = i + 1;
        }
    }
    proof {
        assert(cs@.subrange(i as int, cs.len() as int) =~= Seq::<char>::empty());
        assert(out@ + Seq::<char>::empty() =~= out@);
    }
    out
}

/// Calls std's `String::from_utf8`, which by its documentation fails
/// exactly when the bytes are not UTF-8. Claimed: the result is present
/// exactly for valid UTF-8 (as vstd models it) and then holds the decoded
/// characters.
#[verifier::external_body]
fn from_utf8(bytes: Vec<u8>) -> (r: Option<String>)
    ensures
        r is Some <==> valid_utf8(bytes@),
        r matches Some(s) ==> s@ == decode_utf8(bytes@),
{
    String::from_utf8(bytes).ok()
}

/// The text of a file's bytes: `InvalidUtf8` unless they are UTF-8, else
/// the text with its line endings unified.
pub fn decode_text(bytes: Vec<u8>) -> (r: Result<String, FileError>)
    ensures
        !valid_utf8(bytes@) ==> r == Err::<String, FileError>(FileError::InvalidUtf8),
        valid_utf8(bytes@) ==> (r matches Ok(s) && s@ == unify_newlines(decode_utf8(bytes@))),
{
    match from_utf8(bytes) {
        Some(s) => Ok(normalize_newlines(s.as_str())),
        None => Err(FileError::InvalidUtf8),
    }
}

/// `b` is `a` after opening the file `path` whose text is `text`: the
/// text is replaced, the cursor goes to the start, the file becomes the
/// current one, unmodified, with no history, message, command line or
/// search query.
pub open spec fn opened(a: EditorState, b: EditorState, path: Seq<char>, text: Seq<char>) -> bool {
    &&& b.buffer@ == split_lines(normalize_crlf(text))
    &&& b.selection == Selection::cursor_spec(Position { line: 0, col: 0 })
    &&& b.file_path matches Some(p) && p@ == path
    &&& !b.dirty
    &&& b.message is None
    &&& b.command_buffer@.len() == 0
    &&& b.search_query@.len() == 0
    &&& b.undo_stack().len() == 0
    &&& b.redo_stack().len() == 0
    &&& b.wf()
    &&& b.mode == a.mode
    &&& b.yank_buffer == a.yank_buffer
    &&& b.skk_engine == a.skk_engine
    &&& b.skk_enabled == a.skk_enabled
}

impl EditorState {
    /// Replaces the text by a file's contents, given the outcome of reading
    /// the file at `path`. On success the cursor goes to the start, the
    /// file becomes the current one, unmodified, with no history, message,
    /// command line or search query; a failed read changes nothing and is
    /// passed on.
    pub fn open_file(&mut self, path: &str, read: Result<String, FileError>) -> (r: Result<(), FileError>)
        ensures
            read matches Err(e) ==> r == Err::<(), FileError>(e) && *final(self) == *old(self),
            read matches Ok(text) ==> r is Ok && opened(*old(self), *final(self), path@, text@),
    {
        match read {
            Err(e) => Err(e),
            Ok(text) => {
                self.buffer = LineBuffer::from_str(text.as_str());
                self.selection = Selection::cursor(Position::new(0, 0));
                self.file_path = Some(path.to_string());
                self.dirty = false;
                self.message = None;
                self.command_buffer = String::new();
                self.search_query = String::new();
                self.undo_manager = UndoManager::new();
                proof {
                    lemma_split_len(normalize_crlf(text@));
                }
                Ok(())
            },
        }
    }

    /// Marks the text saved, given the outcome of writing it to the current
    /// file. Without a current file this fails with `WriteFailed` (and
    /// nothing should have been written); a failed write changes nothing
    /// and is passed on.
    pub fn save_file(&mut self, written: Result<(), FileError>) -> (r: Result<(), FileError>)
        ensures
            old(self).file_path is None ==> r == Err::<(), FileError>(FileError::WriteFailed) && *final(self)
                == *old(self),
            old(self).file_path is Some ==> r == written,
            old(self).file_path is Some && written is Ok ==> *final(self) == (EditorState {
                dirty: false,
                ..*old(self)
            }),
            written is Err ==> *final(self) == *old(self),
            old(self).wf() ==> final(self).wf(),
    {
        if self.file_path.is_none() {
            return Err(FileError::WriteFailed);
        }
        if written.is_err() {
            return written;
        }
        self.dirty = false;
        written
    }

    /// Marks the text saved under `path`, given the outcome of writing it
    /// there: on success `path` becomes the current file and the text is
    /// unmodified; a failed write changes nothing and is passed on.
    pub fn save_file_as(&mut self, path: &str, written: Result<(), FileError>) -> (r: Result<(), FileError>)
        ensures
            r == written,
            written is Err ==> *final(self) == *old(self),
            old(self).wf() ==> final(self).wf(),
            written is Ok ==> {
                &&& final(self).file_path matches Some(p) && p@ == path@
                &&& *final(self) == (EditorState {
                    dirty: false,
                    file_path: final(self).file_path,
                    ..*old(self)
                })
            },
    {
        if written.is_err() {
            return written;
        }
        self.file_path = Some(path.to_string());
        self.dirty = false;
        written
    }
}

} // verus!
