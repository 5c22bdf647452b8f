use vstd::prelude::*;
use vstd::string::*;

use super::history::{History, HistoryView};
use crate::{ProgView, Response, ResponseView};

verus! {

/// A key as the terminal reports it.
#[derive(Debug, PartialEq, Eq, Clone, Copy, Structural)]
pub enum Key {
    Char(char),
    Ctrl(char),
    Backspace,
    Up,
    Down,
    /// Any key that the editor has no use for.
    Other,
}

/// The state of the line editor: what the next turn of its loop has to do,
/// and the process names that the status reports have shown.
#[derive(Debug)]
pub struct Editor {
    pub quit: bool,
    pub newline: bool,
    pub clear: bool,
    pub proc_lst: Vec<String>,
}

/// Mathematical model of an [`Editor`].
pub ghost struct EditorView {
    pub quit: bool,
    pub newline: bool,
    pub clear: bool,
    pub proc_lst: Seq<Seq<char>>,
}

impl View for Editor {
    type V = EditorView;

    open spec fn view(&self) -> EditorView {
        EditorView {
            quit: self.quit,
            newline: self.newline,
            clear: self.clear,
            proc_lst: self.proc_lst.deep_view(),
        }
    }
}

/// `String::push`: the text with one more character at its end.
#[verifier::external_body]
fn push_char(line: &mut String, c: char)
    ensures
        final(line)@ == old(line)@.push(c),
{
    line.push(c);
}

/// The line that a status report shows for one process.
pub open spec fn status_line(p: ProgView) -> Seq<char> {
    "\n\r"@ + p.proc_name + "\t\t\t"@ + p.status.label() + "\t\t"@ + p.info
}

/// The lines that a status report shows.
pub open spec fn status_text(content: Seq<ProgView>) -> Seq<char> {
    content.map_values(|p: ProgView| status_line(p)).flatten()
}

/// The names of the processes of a status report.
pub open spec fn names_of(content: Seq<ProgView>) -> Seq<Seq<char>> {
    content.map_values(|p: ProgView| p.proc_name)
}

/// What is shown for the answer to a command: the lines of a status
/// report, the message of any other command, or why nothing was sent.
pub open spec fn answer_text(reply: Result<ResponseView, Seq<char>>) -> Seq<char> {
    match reply {
        Ok(res) => match res.cmd {
            crate::CallOnView::Status => status_text(res.content),
            _ => match res.success {
                Ok(success) => "\n\r"@ + success,
                Err(failed) => "\n\r"@ + failed,
            },
        },
        Err(e) => "\n\r\t"@ + e,
    }
}

/// The place before `index` in a history; the first place stays.
pub open spec fn place_before(index: i32) -> i32 {
    if index > i32::MIN {
        (index - 1) as i32
    } else {
        index
    }
}

/// The place after `index` in a history; the last place stays.
pub open spec fn place_after(index: i32) -> i32 {
    if index < i32::MAX {
        (index + 1) as i32
    } else {
        index
    }
}

impl EditorView {
    /// The editor after the key `key`.
    pub open spec fn keyed(self, key: Key) -> EditorView {
        match key {
            Key::Char('q') | Key::Ctrl('c') => EditorView { quit: true, ..self },
            Key::Ctrl('l') => EditorView { clear: true, ..self },
            Key::Char('\n') => EditorView { newline: true, ..self },
            _ => self,
        }
    }
}

/// The history after the key `key` was typed on the line `line`.
pub open spec fn history_keyed(history: HistoryView, key: Key, line: Seq<char>) -> HistoryView {
    match key {
        Key::Up => history.looked(place_before(history.index)),
        Key::Down => history.looked(place_after(history.index)),
        Key::Char('\n') => history.added(line),
        _ => history,
    }
}

/// The line after the key `key`.
pub open spec fn line_keyed(history: HistoryView, key: Key, line: Seq<char>) -> Seq<char> {
    match key {
        Key::Char('q') | Key::Ctrl('c') => line,
        Key::Backspace => if line.len() > 0 {
            line.drop_last()
        } else {
            line
        },
        Key::Up => history.line(place_before(history.index)),
        Key::Down => history.line(place_after(history.index)),
        Key::Ctrl('l') => line,
        Key::Char('\n') => line,
        Key::Char(c) => line.push(c),
        _ => line,
    }
}

/// The command that the key `key` sends: the line, when it is entered.
pub open spec fn sent(key: Key, line: Seq<char>) -> Option<Seq<char>> {
    match key {
        Key::Char('\n') => Some(line),
        _ => None,
    }
}

/// The model of an answer.
pub open spec fn reply_view(reply: Result<Response, String>) -> Result<ResponseView, Seq<char>> {
    match reply {
        Ok(res) => Ok(res@),
        Err(e) => Err(e@),
    }
}

impl Editor {
    pub fn init() -> (r: Self)
        ensures
            r@ == (EditorView {
                quit: false,
                newline: true,
                clear: false,
                proc_lst: Seq::empty(),
            }),
    {
        let r = Self { quit: false, newline: true, clear: false, proc_lst: Vec::new() };
        assert(r.proc_lst.deep_view() =~= Seq::<Seq<char>>::empty());
        r
    }

    /// Takes one key. Returns the command to send, if the key enters the line.
    pub fn key_manager(&mut self, key: Key, history: &mut History, line: &mut String) -> (r: Option<
        String,
    >)
        requires
            old(history)@.wf(),
            old(history)@.histo.len() <= i32::MAX,
        ensures
            final(self)@ == old(self)@.keyed(key),
            final(history)@ == history_keyed(old(history)@, key, old(line)@),
            final(line)@ == line_keyed(old(history)@, key, old(line)@),
            r.deep_view() == sent(key, old(line)@),
            final(history)@.wf(),
    {
        match key {
            Key::Char('q') | Key::Ctrl('c') => {
                self.quit = true;
                None
            },
            Key::Backspace => {
                let n = line.as_str().unicode_len();
                if n > 0 {
                    let shorter = String::from_str(line.as_str().substring_char(0, n - 1));
                    *line = shorter;
                }
                None
            },
            Key::Up => {
                let place = if history.index > i32::MIN {
                    history.index - 1
                } else {
                    history.index
                };
                let previous_cmd = history.get(place).clone();
                *line = previous_cmd;
                None
            },
            Key::Down => {
                let place = if history.index < i32::MAX {
                    history.index + 1
                } else {
                    history.index
                };
                let next_cmd = history.get(place).clone();
                *line = next_cmd;
                None
            },
            Key::Ctrl('l') => {
                self.clear = true;
                None
            },
            Key::Char('\n') => {
                self.newline = true;
                history.add(line.clone());
                Some(line.clone())
            },
            Key::Char(c) => {
                push_char(line, c);
                None
            },
            _ => None,
        }
    }

    /// Shows the answer to the command that was sent: it is added to the
    /// line, and a new prompt after it.
    pub fn answer(&mut self, reply: Result<Response, String>, line: &mut String)
        ensures
            final(line)@ == old(line)@ + answer_text(reply_view(reply)) + "\n\rtaskctl > "@,
            final(self)@ == (match reply {
                Ok(res) => match res.cmd {
                    crate::CallOn::Status => EditorView {
                        proc_lst: old(self)@.proc_lst + names_of(res@.content),
                        ..old(self)@
                    },
                    _ => old(self)@,
                },
                Err(_) => old(self)@,
            }),
    {
        match reply {
            Ok(res) => match res.cmd {
                crate::CallOn::Status => {
                    let status = self.get_status(res);
                    line.append(status.as_str());
                },
                _ => match res.success {
                    Ok(success) => {
                        line.append("\n\r");
                        line.append(success.as_str());
                    },
                    Err(failed) => {
                        line.append("\n\r");
                        line.append(failed.as_str());
                    },
                },
            },
            Err(e) => {
                line.append("\n\r\t");
                line.append(e.as_str());
            },
        }
        line.append("\n\rtaskctl > ");
    }

    /// The lines that show a status report; the names of its processes are
    /// added to those that are known.
    pub fn get_status(&mut self, response: Response) -> (r: String)
        ensures
            r@ == status_text(response@.content),
            final(self)@ == (EditorView {
                proc_lst: old(self)@.proc_lst + names_of(response@.content),
                ..old(self)@
            }),
    {
        let ghost content = response@.content;
        let ghost part = |p: ProgView| status_line(p);
        let ghost known = self@.proc_lst;
        let mut line = String::new();
        let mut i: usize = 0;
        while i < response.content.len()
            invariant
                i <= response.content.len(),
                content == response@.content,
                part == |p: ProgView| status_line(p),
                known == old(self)@.proc_lst,
                self@ == (EditorView { proc_lst: self@.proc_lst, ..old(self)@ }),
                self@.proc_lst == known + names_of(content).take(i as int),
                line@ == content.take(i as int).map_values(part).flatten(),
            decreases response.content.len() - i,
        {
            let proc = &response.content[i];
            let ghost listed = self@.proc_lst;
            self.proc_lst.push(proc.proc_name.clone());
            line.append("\n\r");
            line.append(proc.proc_name.as_str());
            line.append("\t\t\t");
            line.append(proc.status.name());
            line.append("\t\t");
            line.append(proc.info.as_str());
            proof {
                assert(self@.proc_lst =~= listed.push(proc.proc_name@));
                crate::server::loop_exec::lemma_flatten_step(content, part, i as int);
            }
            i = i + 1;
        }
        assert(content.take(i as int) =~= content);
        assert(names_of(content).take(i as int) =~= names_of(content));
        line
    }
}

} // verus!
