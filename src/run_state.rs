//! The state a front end keeps for one run, changed only by the events it
//! receives and by its own start and file-selection commands.
use vstd::prelude::*;

use crate::event::WorkerMessage;

verus! {

pub open spec fn done_line() -> Seq<char> {
    "\n--- DONE! Check references.bib ---\n"@
}

pub open spec fn selected_line(path: Seq<char>) -> Seq<char> {
    "Selected: "@ + path + "\n"@
}

pub struct RunState {
    /// The input file chosen, if any.
    pub csv_path: Option<String>,
    /// The log text shown to the user.
    pub logs: String,
    /// Whether a run is under way.
    pub is_processing: bool,
    /// The last progress count received.
    pub processed_count: usize,
    /// The last total received.
    pub total_count: usize,
}

impl RunState {
    /// No file chosen, no run under way, nothing logged.
    pub fn new() -> (r: RunState)
        ensures
            r.csv_path is None,
            r.logs@ == Seq::<char>::empty(),
            !r.is_processing,
            r.processed_count == 0,
            r.total_count == 0,
    {
        RunState {
            csv_path: None,
            logs: String::new(),
            is_processing: false,
            processed_count: 0,
            total_count: 0,
        }
    }

    /// Whether a run may start: a file is chosen and no run is under way.
    pub fn can_start(&self) -> (r: bool)
        ensures
            r == (!self.is_processing && self.csv_path is Some),
    {
        !self.is_processing && self.csv_path.is_some()
    }

    /// Chooses the input file, unless a run is under way.
    pub fn select_file(&mut self, path: String)
        ensures
            old(self).is_processing ==> *final(self) == *old(self),
            !old(self).is_processing ==> {
                &&& final(self).csv_path == Some(path)
                &&& final(self).logs@ == old(self).logs@ + selected_line(path@)
                &&& !final(self).is_processing
                &&& final(self).processed_count == old(self).processed_count
                &&& final(self).total_count == old(self).total_count
            },
    {
        if self.is_processing {
            return;
        }
        self.logs.append("Selected: ");
        self.logs.append(path.as_str());
        self.logs.append("\n");
        self.csv_path = Some(path);
    }

    /// Starts a run where one may start: marks it under way, clears the log
    /// and the counters, and returns the path to convert.
    pub fn start(&mut self) -> (r: Option<String>)
        ensures
            !(!old(self).is_processing && old(self).csv_path is Some) ==> r is None
                && *final(self) == *old(self),
            !old(self).is_processing && old(self).csv_path is Some ==> {
                &&& r matches Some(p) && p@ == old(self).csv_path->0@
                &&& final(self).is_processing
                &&& final(self).logs@ == Seq::<char>::empty()
                &&& final(self).processed_count == 0
                &&& final(self).total_count == 0
                &&& final(self).csv_path == old(self).csv_path
            },
    {
        if self.is_processing {
            return None;
        }
        let path = match &self.csv_path {
            Some(p) => p.clone(),
            None => {
                return None;
            },
        };
        self.is_processing = true;
        self.logs = String::new();
        self.processed_count = 0;
        self.total_count = 0;
        Some(path)
    }

    /// Applies one received event.
    pub fn apply(&mut self, msg: WorkerMessage)
        ensures
            final(self).csv_path == old(self).csv_path,
            match msg {
                WorkerMessage::Log(t) => {
                    &&& final(self).logs@ == old(self).logs@ + t@ + "\n"@
                    &&& final(self).is_processing == old(self).is_processing
                    &&& final(self).processed_count == old(self).processed_count
                    &&& final(self).total_count == old(self).total_count
                },
                WorkerMessage::Progress(n) => {
                    &&& final(self).logs@ == old(self).logs@
                    &&& final(self).is_processing == old(self).is_processing
                    &&& final(self).processed_count == n
                    &&& final(self).total_count == old(self).total_count
                },
                WorkerMessage::Total(n) => {
                    &&& final(self).logs@ == old(self).logs@
                    &&& final(self).is_processing == old(self).is_processing
                    &&& final(self).processed_count == old(self).processed_count
                    &&& final(self).total_count == n
                },
                WorkerMessage::Finished => {
                    &&& final(self).logs@ == old(self).logs@ + done_line()
                    &&& !final(self).is_processing
                    &&& final(self).processed_count == old(self).processed_count
                    &&& final(self).total_count == old(self).total_count
                },
            },
    {
        match msg {
            WorkerMessage::Log(t) => {
                self.logs.append(t.as_str());
                self.logs.append("\n");
            },
            WorkerMessage::Progress(n) => {
                self.processed_count = n;
            },
            WorkerMessage::Total(n) => {
                self.total_count = n;
            },
            WorkerMessage::Finished => {
                self.is_processing = false;
                self.logs.append("\n--- DONE! Check references.bib ---\n");
            },
        }
    }
}

} // verus!
