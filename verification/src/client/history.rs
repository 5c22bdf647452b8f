use vstd::prelude::*;
use vstd::string::*;

verus! {

/// The lines typed so far, oldest first, and after them the line being
/// typed; `index` is the line that was last looked at.
#[derive(Debug)]
pub struct History {
    pub index: i32,
    pub histo: Vec<String>,
}

/// Mathematical model of a [`History`].
pub ghost struct HistoryView {
    pub index: i32,
    pub histo: Seq<Seq<char>>,
}

impl View for History {
    type V = HistoryView;

    open spec fn view(&self) -> HistoryView {
        HistoryView { index: self.index, histo: self.histo.deep_view() }
    }
}

impl HistoryView {
    /// A history always holds the line being typed.
    pub open spec fn wf(self) -> bool {
        self.histo.len() >= 1
    }

    /// The history after the line `command` was entered: it takes the last
    /// place, a new empty line follows it, and `index` stands on that one.
    pub open spec fn added(self, command: Seq<char>) -> HistoryView {
        HistoryView {
            index: self.histo.len() as i32,
            histo: self.histo.update(self.histo.len() - 1, command).push(Seq::empty()),
        }
    }

    /// The line that a look at place `index` gives: the first line before
    /// the start, the last one after the end.
    pub open spec fn line(self, index: i32) -> Seq<char> {
        if index < 0 {
            self.histo[0]
        } else if index >= self.histo.len() {
            self.histo[self.histo.len() - 1]
        } else {
            self.histo[index as int]
        }
    }

    /// Only a look at a place that exists moves `index`.
    pub open spec fn looked(self, index: i32) -> HistoryView {
        if 0 <= index < self.histo.len() {
            HistoryView { index, ..self }
        } else {
            self
        }
    }
}

impl History {
    pub fn initialize() -> (r: Self)
        ensures
            r@ == (HistoryView { index: 0, histo: seq![Seq::<char>::empty()] }),
            r@.wf(),
    {
        let str = String::new();
        let mut histo: Vec<String> = Vec::new();
        histo.push(str);
        let r = History { index: 0, histo };
        assert(r.histo.deep_view() =~= seq![Seq::<char>::empty()]);
        r
    }

    pub fn add(&mut self, command: String)
        requires
            old(self)@.wf(),
            old(self)@.histo.len() <= i32::MAX,
        ensures
            final(self)@ == old(self)@.added(command@),
            final(self)@.wf(),
    {
        let size = self.histo.len();
        self.index = size as i32;
        self.histo.set(size - 1, command);
        self.histo.push(String::new());
        assert(self.histo.deep_view() =~= old(self)@.histo.update(size - 1, command@).push(
            Seq::empty(),
        ));
    }

    pub fn get(&mut self, index: i32) -> (r: &String)
        requires
            old(self)@.wf(),
        ensures
            r@ == old(self)@.line(index),
            final(self)@ == old(self)@.looked(index),
    {
        let histo_len = self.histo.len();
        if index < 0 {
            return &self.histo[0];
        } else if index as u64 >= histo_len as u64 {
            return &self.histo[histo_len - 1];
        }
        self.index = index;
        &self.histo[index as usize]
    }
}

} // verus!
