//! The native function that guest scripts may call: `download(url, outPath)`.
//!
//! It fetches `url` and, once the whole body is in memory, writes it to
//! `outPath`, answering the guest `true`; any failure answers `false` and
//! raises nothing in the guest. The fetch and the write are done by the
//! caller; this module decides which of them happen and what is answered.

use vstd::prelude::*;

verus! {

/// What the caller is to do next for one `download` call.
#[derive(Debug, Clone, PartialEq, Eq)]
pub enum DownloadAction {
    /// Issue a blocking GET of this URL and report the body, if one came.
    Fetch(String),
    /// Create or truncate the file at `path` and write `bytes` to it.
    WriteFile { path: String, bytes: Vec<u8> },
    /// Hand this value back to the guest; nothing follows.
    Answer(bool),
}

#[derive(Debug, Clone, Copy, PartialEq, Eq, Structural)]
pub enum DownloadStage {
    Fetching,
    Writing,
    Answered,
}

/// One call of `download`.
pub struct Download {
    stage: DownloadStage,
    out_path: String,
}

impl Download {
    pub closed spec fn stage(&self) -> DownloadStage {
        self.stage
    }

    pub closed spec fn out_path(&self) -> Seq<char> {
        self.out_path@
    }

    /// Starts a call from the guest's two arguments, each `None` where it is
    /// not a string. Without both, the call answers `false` at once.
    pub fn new(url: Option<String>, out_path: Option<String>) -> (r: (Download, DownloadAction))
        ensures
            (url is Some && out_path is Some) ==> r.0.stage() == DownloadStage::Fetching
                && r.0.out_path() == out_path->Some_0@ && (r.1 matches DownloadAction::Fetch(u) && u@
                == url->Some_0@),
            !(url is Some && out_path is Some) ==> r.0.stage() == DownloadStage::Answered && (r.1
                matches DownloadAction::Answer(false)),
    {
        match (url, out_path) {
            (Some(u), Some(p)) => (
                Download { stage: DownloadStage::Fetching, out_path: p },
                DownloadAction::Fetch(u),
            ),
            _ => (
                Download { stage: DownloadStage::Answered, out_path: String::new() },
                DownloadAction::Answer(false),
            ),
        }
    }

    /// The fetch ended with this body, or with none where the request failed.
    /// A body, of any length and any status, is written whole; without one
    /// the output file is not touched and the answer is `false`.
    pub fn fetched(&mut self, body: Option<Vec<u8>>) -> (r: Option<DownloadAction>)
        ensures
            final(self).out_path() == old(self).out_path(),
            old(self).stage() != DownloadStage::Fetching ==> r is None && final(self).stage()
                == old(self).stage(),
            old(self).stage() == DownloadStage::Fetching ==> match body {
                None => final(self).stage() == DownloadStage::Answered && (r matches Some(
                    DownloadAction::Answer(false),
                )),
                Some(b) => final(self).stage() == DownloadStage::Writing && (r matches Some(
                    DownloadAction::WriteFile { path, bytes },
                ) && path@ == old(self).out_path() && bytes@ == b@),
            },
    {
        if self.stage != DownloadStage::Fetching {
            return None;
        }
        match body {
            None => {
                self.stage = DownloadStage::Answered;
                Some(DownloadAction::Answer(false))
            },
            Some(b) => {
                self.stage = DownloadStage::Writing;
                Some(DownloadAction::WriteFile { path: self.out_path.clone(), bytes: b })
            },
        }
    }

    /// The write ended, well (`true`) or not; the guest hears the same.
    pub fn written(&mut self, ok: bool) -> (r: Option<DownloadAction>)
        ensures
            final(self).out_path() == old(self).out_path(),
            old(self).stage() != DownloadStage::Writing ==> r is None && final(self).stage()
                == old(self).stage(),
            old(self).stage() == DownloadStage::Writing ==> final(self).stage()
                == DownloadStage::Answered && (r matches Some(DownloadAction::Answer(a)) && a == ok),
    {
        if self.stage != DownloadStage::Writing {
            return None;
        }
        self.stage = DownloadStage::Answered;
        Some(DownloadAction::Answer(ok))
    }
}

} // verus!
